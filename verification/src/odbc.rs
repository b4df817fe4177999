//! What a query over ODBC returns, and what is read out of it.

use crate::names::NameMap;
use vstd::prelude::*;

verus! {

/// The result of a statement run over ODBC.
#[derive(Clone, Debug)]
pub struct OdbcResult {
    /// The names of the columns, in order.
    pub columns: Vec<String>,
    /// The rows, each with its values as text by column name.
    pub rows: Vec<NameMap<String>>,
    /// How many rows a statement that returns none has changed.
    pub rows_affected: Option<usize>,
}

/// A foreign key: a column of one table that points to a column of
/// another.
#[derive(Clone, Debug, PartialEq, Eq)]
pub struct TableRelation {
    pub from_table: String,
    pub from_column: String,
    pub to_table: String,
    pub to_column: String,
}

impl OdbcResult {
    /// Every row holds each of its names once.
    pub open spec fn wf(&self) -> bool {
        forall|i: int| 0 <= i < self.rows@.len() ==> (#[trigger] self.rows@[i]).wf()
    }
}

/// The values that the first `upto` rows have in a column, in row order;
/// rows without the column are passed over.
pub open spec fn values_in(rows: Seq<NameMap<String>>, column: Seq<char>, upto: nat) -> Seq<Seq<char>>
    recommends
        upto <= rows.len(),
    decreases upto,
{
    if upto == 0 {
        Seq::empty()
    } else {
        let before = values_in(rows, column, (upto - 1) as nat);
        if rows[upto - 1]@.contains_key(column) {
            before.push(rows[upto - 1]@[column])
        } else {
            before
        }
    }
}

/// Reads the values of one column out of a result.
pub fn column_values(result: &OdbcResult, column: &str) -> (values: Vec<String>)
    requires
        result.wf(),
    ensures
        crate::names::texts(values@) == values_in(result.rows@, column@, result.rows@.len()),
{
    let mut values: Vec<String> = Vec::new();
    let mut i: usize = 0;
    while i < result.rows.len()
        invariant
            i <= result.rows@.len(),
            result.wf(),
            crate::names::texts(values@) == values_in(result.rows@, column@, i as nat),
        decreases result.rows@.len() - i,
    {
        if let Some(value) = result.rows[i].get(column) {
            let ghost before = values@;
            values.push(value.clone());
            assert(crate::names::texts(values@) =~= crate::names::texts(before).push(value@));
        }
        i += 1;
    }
    values
}

/// A relation as contracts speak of it.
pub struct RelationSpec {
    pub from_table: Seq<char>,
    pub from_column: Seq<char>,
    pub to_table: Seq<char>,
    pub to_column: Seq<char>,
}

impl View for TableRelation {
    type V = RelationSpec;

    open spec fn view(&self) -> RelationSpec {
        RelationSpec {
            from_table: self.from_table@,
            from_column: self.from_column@,
            to_table: self.to_table@,
            to_column: self.to_column@,
        }
    }
}

/// The relation that a row spells, if it has all four columns.
pub open spec fn relation_in(row: Map<Seq<char>, Seq<char>>) -> Option<RelationSpec> {
    if row.contains_key("from_table"@) && row.contains_key("from_column"@) && row.contains_key(
        "to_table"@,
    ) && row.contains_key("to_column"@) {
        Some(
            RelationSpec {
                from_table: row["from_table"@],
                from_column: row["from_column"@],
                to_table: row["to_table"@],
                to_column: row["to_column"@],
            },
        )
    } else {
        None
    }
}

/// The relations that the first `upto` rows spell, in row order; rows that
/// lack a column are passed over.
pub open spec fn relations_in(rows: Seq<NameMap<String>>, upto: nat) -> Seq<RelationSpec>
    recommends
        upto <= rows.len(),
    decreases upto,
{
    if upto == 0 {
        Seq::empty()
    } else {
        let before = relations_in(rows, (upto - 1) as nat);
        match relation_in(rows[upto - 1]@) {
            Some(relation) => before.push(relation),
            None => before,
        }
    }
}

fn relation_of(row: &NameMap<String>) -> (relation: Option<TableRelation>)
    requires
        row.wf(),
    ensures
        (match relation {
            Some(r) => Some(r@),
            None => None,
        }) == relation_in(row@),
{
    let from_table = match row.get("from_table") {
        Some(text) => text.clone(),
        None => {
            return None;
        },
    };
    let from_column = match row.get("from_column") {
        Some(text) => text.clone(),
        None => {
            return None;
        },
    };
    let to_table = match row.get("to_table") {
        Some(text) => text.clone(),
        None => {
            return None;
        },
    };
    let to_column = match row.get("to_column") {
        Some(text) => text.clone(),
        None => {
            return None;
        },
    };
    Some(TableRelation { from_table, from_column, to_table, to_column })
}

/// Reads the foreign keys out of the result of a query for them.
pub fn relations_from(result: &OdbcResult) -> (relations: Vec<TableRelation>)
    requires
        result.wf(),
    ensures
        relations@.map_values(|r: TableRelation| r@) == relations_in(
            result.rows@,
            result.rows@.len(),
        ),
{
    let mut relations: Vec<TableRelation> = Vec::new();
    let mut i: usize = 0;
    while i < result.rows.len()
        invariant
            i <= result.rows@.len(),
            result.wf(),
            relations@.map_values(|r: TableRelation| r@) == relations_in(result.rows@, i as nat),
        decreases result.rows@.len() - i,
    {
        if let Some(relation) = relation_of(&result.rows[i]) {
            let ghost before = relations@;
            relations.push(relation);
            assert(relations@.map_values(|r: TableRelation| r@) =~= before.map_values(
                |r: TableRelation| r@,
            ).push(relation@));
        }
        i += 1;
    }
    relations
}

} // verus!
