//! What was looked at lately: the data directories that were opened, and
//! what happened to data source names, both newest first and capped.

use crate::names::NameMap;
use crate::recency::newest_first;
use crate::recency::sort_newest_first;
use crate::recency::Stamped;
use vstd::prelude::*;

verus! {

/// The most data directories that are remembered.
pub const MAX_DATABASE_ENTRIES: usize = 50;

/// The most data source events that are remembered.
pub const MAX_DSN_ACTIVITIES: usize = 100;

/// What happened to a data source name.
#[derive(Clone, Copy, Debug, PartialEq, Eq, Structural)]
pub enum DsnActivityType {
    Created,
    Updated,
    Deleted,
    Used,
}

/// One event on a data source name.
#[derive(Clone, Debug)]
pub struct DsnActivity {
    /// The data source name.
    pub dsn_name: String,
    /// What happened to it.
    pub activity_type: DsnActivityType,
    /// When, in seconds since the epoch.
    pub timestamp: u64,
    /// What else is known of the event.
    pub details: NameMap<String>,
}

/// One data directory that was opened.
#[derive(Clone, Debug, PartialEq, Eq)]
pub struct DatabaseAccess {
    /// The path of the directory.
    pub path: String,
    /// The name of the directory.
    pub name: String,
    /// When it was last opened, in seconds since the epoch.
    pub last_accessed: u64,
    /// How many tables the last scan found in it.
    pub table_count: usize,
    /// How often it was opened.
    pub access_count: usize,
}

impl Stamped for DsnActivity {
    open spec fn spec_stamp(&self) -> u64 {
        self.timestamp
    }

    fn stamp(&self) -> (stamp: u64) {
        self.timestamp
    }
}

impl Stamped for DatabaseAccess {
    open spec fn spec_stamp(&self) -> u64 {
        self.last_accessed
    }

    fn stamp(&self) -> (stamp: u64) {
        self.last_accessed
    }
}

/// Everything that is remembered.
#[derive(Clone, Debug)]
pub struct ActivityData {
    /// The data directories that were opened, newest first.
    pub database_accesses: Vec<DatabaseAccess>,
    /// The events on data source names, newest first.
    pub dsn_activities: Vec<DsnActivity>,
}

impl Default for ActivityData {
    fn default() -> (data: ActivityData)
        ensures
            data.database_accesses@.len() == 0,
            data.dsn_activities@.len() == 0,
    {
        ActivityData { database_accesses: Vec::new(), dsn_activities: Vec::new() }
    }
}

/// The first place of a list at which `path` stands, or its length.
pub open spec fn first_with_path(list: Seq<DatabaseAccess>, path: Seq<char>) -> int
    decreases list.len(),
{
    if list.len() == 0 {
        0
    } else if list[0].path@ == path {
        0
    } else {
        1 + first_with_path(list.subrange(1, list.len() as int), path)
    }
}

/// An entry after one more opening of its directory.
pub open spec fn revisited(entry: DatabaseAccess, table_count: usize, timestamp: u64) -> DatabaseAccess {
    DatabaseAccess {
        path: entry.path,
        name: entry.name,
        last_accessed: timestamp,
        table_count,
        access_count: if entry.access_count < usize::MAX {
            (entry.access_count + 1) as usize
        } else {
            entry.access_count
        },
    }
}

/// The list with one more opening taken in, before it is sorted: the first
/// entry of that path revisited, or a new entry at the end.
pub open spec fn with_access(
    list: Seq<DatabaseAccess>,
    path: String,
    name: String,
    table_count: usize,
    timestamp: u64,
) -> Seq<DatabaseAccess> {
    let at = first_with_path(list, path@);
    if at < list.len() {
        list.update(at, revisited(list[at], table_count, timestamp))
    } else {
        list.push(
            DatabaseAccess { path, name, last_accessed: timestamp, table_count, access_count: 1 },
        )
    }
}

/// The first `max` items of a list, or all of it if it has no more.
pub open spec fn capped<T>(list: Seq<T>, max: nat) -> Seq<T> {
    if list.len() > max {
        list.take(max as int)
    } else {
        list
    }
}

/// The details that an event is kept with: those given, or none.
pub open spec fn kept_details(given: Option<NameMap<String>>, kept: NameMap<String>) -> bool {
    match given {
        Some(details) => kept == details,
        None => kept.wf() && kept.spec_entries().len() == 0 && kept@ == Map::<
            Seq<char>,
            Seq<char>,
        >::empty(),
    }
}

/// The list of events with one more taken in: sorted newest first and cut
/// to the 100 newest.
pub open spec fn with_activity(list: Seq<DsnActivity>, event: DsnActivity) -> Seq<DsnActivity> {
    capped(newest_first(list.push(event)), MAX_DSN_ACTIVITIES as nat)
}

/// The first place of a list at which `path` stands is the first.
pub proof fn lemma_first_with_path(list: Seq<DatabaseAccess>, path: Seq<char>, at: int)
    requires
        0 <= at <= list.len(),
        forall|j: int| 0 <= j < at ==> (#[trigger] list[j]).path@ != path,
        at == list.len() || list[at].path@ == path,
    ensures
        first_with_path(list, path) == at,
    decreases list.len(),
{
    if list.len() > 0 && at > 0 {
        let rest = list.subrange(1, list.len() as int);
        assert forall|j: int| 0 <= j < at - 1 implies (#[trigger] rest[j]).path@ != path by {
            assert(rest[j] == list[j + 1]);
        }
        lemma_first_with_path(rest, path, at - 1);
    }
}

/// The record of recent activity.
pub struct ActivityTracker {
    data: ActivityData,
    max_database_entries: usize,
    max_dsn_activities: usize,
}

impl ActivityTracker {
    /// The data directories that were opened.
    pub closed spec fn databases(&self) -> Seq<DatabaseAccess> {
        self.data.database_accesses@
    }

    /// The events on data source names.
    pub closed spec fn activities(&self) -> Seq<DsnActivity> {
        self.data.dsn_activities@
    }

    /// The caps are the usual ones.
    pub closed spec fn wf(&self) -> bool {
        self.max_database_entries == MAX_DATABASE_ENTRIES && self.max_dsn_activities
            == MAX_DSN_ACTIVITIES
    }

    /// A tracker that starts from what was remembered before.
    pub fn new(data: ActivityData) -> (tracker: ActivityTracker)
        ensures
            tracker.wf(),
            tracker.databases() == data.database_accesses@,
            tracker.activities() == data.dsn_activities@,
    {
        ActivityTracker {
            data,
            max_database_entries: MAX_DATABASE_ENTRIES,
            max_dsn_activities: MAX_DSN_ACTIVITIES,
        }
    }

    /// Takes in that the directory at `path`, called `name`, was opened at
    /// `timestamp` and had `table_count` tables. A directory known by its
    /// path is counted once more; the list is then sorted newest first and
    /// cut to the 50 newest.
    pub fn record_database_access(&mut self, path: String, name: String, table_count: usize, timestamp: u64)
        requires
            old(self).wf(),
        ensures
            final(self).wf(),
            final(self).activities() == old(self).activities(),
            final(self).databases() == capped(
                newest_first(with_access(old(self).databases(), path, name, table_count, timestamp)),
                MAX_DATABASE_ENTRIES as nat,
            ),
    {
        let mut list: Vec<DatabaseAccess> = Vec::new();
        std::mem::swap(&mut list, &mut self.data.database_accesses);
        let mut at: usize = 0;
        while at < list.len() && list[at].path != path
            invariant
                at <= list@.len(),
                forall|j: int| 0 <= j < at ==> (#[trigger] list@[j]).path@ != path@,
            decreases list@.len() - at,
        {
            at += 1;
        }
        proof {
            lemma_first_with_path(list@, path@, at as int);
        }
        if at < list.len() {
            let known = list.remove(at);
            let count: usize = if known.access_count < usize::MAX {
                known.access_count + 1
            } else {
                known.access_count
            };
            list.insert(
                at,
                DatabaseAccess {
                    path: known.path,
                    name: known.name,
                    last_accessed: timestamp,
                    table_count,
                    access_count: count,
                },
            );
            assert(list@ =~= with_access(
                old(self).databases(),
                path,
                name,
                table_count,
                timestamp,
            ));
        } else {
            list.push(
                DatabaseAccess { path, name, last_accessed: timestamp, table_count, access_count: 1 },
            );
        }
        let mut sorted = sort_newest_first(list);
        if sorted.len() > self.max_database_entries {
            sorted.truncate(self.max_database_entries);
        }
        self.data.database_accesses = sorted;
    }

    /// Takes in an event on a data source name. The list is then sorted
    /// newest first and cut to the 100 newest.
    pub fn record_dsn_activity(
        &mut self,
        dsn_name: String,
        activity_type: DsnActivityType,
        details: Option<NameMap<String>>,
        timestamp: u64,
    )
        requires
            old(self).wf(),
        ensures
            final(self).wf(),
            final(self).databases() == old(self).databases(),
            exists|kept: NameMap<String>|
                kept_details(details, kept) && #[trigger] with_activity(
                    old(self).activities(),
                    DsnActivity { dsn_name, activity_type, timestamp, details: kept },
                ) == final(self).activities(),
    {
        let kept = match details {
            Some(given) => given,
            None => NameMap::new(),
        };
        let mut list: Vec<DsnActivity> = Vec::new();
        std::mem::swap(&mut list, &mut self.data.dsn_activities);
        list.push(DsnActivity { dsn_name, activity_type, timestamp, details: kept });
        let mut sorted = sort_newest_first(list);
        if sorted.len() > self.max_dsn_activities {
            sorted.truncate(self.max_dsn_activities);
        }
        self.data.dsn_activities = sorted;
        assert(kept_details(details, kept) && with_activity(
            old(self).activities(),
            DsnActivity { dsn_name, activity_type, timestamp, details: kept },
        ) == self.activities());
    }

    /// The `limit` data directories that were opened last, newest first,
    /// or all that are remembered if they are fewer.
    pub fn get_recent_databases(&self, limit: usize) -> (recent: Vec<DatabaseAccess>)
        ensures
            recent@ == capped(self.databases(), limit as nat),
    {
        let list = &self.data.database_accesses;
        let mut recent: Vec<DatabaseAccess> = Vec::new();
        let mut i: usize = 0;
        while i < list.len() && i < limit
            invariant
                i <= list@.len(),
                i <= limit,
                recent@ == list@.take(i as int),
            decreases list@.len() - i,
        {
            let entry = &list[i];
            recent.push(
                DatabaseAccess {
                    path: entry.path.clone(),
                    name: entry.name.clone(),
                    last_accessed: entry.last_accessed,
                    table_count: entry.table_count,
                    access_count: entry.access_count,
                },
            );
            assert(recent@ =~= list@.take(i + 1));
            i += 1;
        }
        assert(list@.take(list@.len() as int) =~= list@);
        recent
    }

    /// The `limit` events on data source names that came last, newest
    /// first, or all that are remembered if they are fewer.
    pub fn get_dsn_activities(&self, limit: usize) -> (recent: Vec<DsnActivity>)
        ensures
            activity_specs(recent@) == capped(activity_specs(self.activities()), limit as nat),
            forall|i: int|
                0 <= i < recent@.len() ==> (self.activities()[i].details.wf() ==> (
                #[trigger] recent@[i]).details.wf()),
    {
        let list = &self.data.dsn_activities;
        let mut recent: Vec<DsnActivity> = Vec::new();
        let mut i: usize = 0;
        while i < list.len() && i < limit
            invariant
                i <= list@.len(),
                i <= limit,
                recent@.len() == i,
                forall|j: int|
                    0 <= j < i ==> same_activity((#[trigger] recent@[j]), list@[j]) && (
                    list@[j].details.wf() ==> recent@[j].details.wf()),
            decreases list@.len() - i,
        {
            let entry = &list[i];
            recent.push(
                DsnActivity {
                    dsn_name: entry.dsn_name.clone(),
                    activity_type: entry.activity_type,
                    timestamp: entry.timestamp,
                    details: entry.details.duplicate(),
                },
            );
            i += 1;
        }
        proof {
            let wanted = capped(activity_specs(list@), limit as nat);
            assert(activity_specs(recent@) =~= wanted) by {
                assert forall|j: int| 0 <= j < recent@.len() implies activity_specs(recent@)[j]
                    == wanted[j] by {
                    assert(same_activity(recent@[j], list@[j]));
                    lemma_same_activity(recent@[j], list@[j]);
                }
            }
        }
        recent
    }

    /// Everything that is remembered.
    pub fn get_all_activity(&self) -> (data: ActivityData)
        ensures
            data.database_accesses@ == self.databases(),
            activity_specs(data.dsn_activities@) == activity_specs(self.activities()),
    {
        let database_accesses = self.get_recent_databases(self.data.database_accesses.len());
        let dsn_activities = self.get_dsn_activities(self.data.dsn_activities.len());
        ActivityData { database_accesses, dsn_activities }
    }
}

/// An event as contracts speak of it.
pub struct ActivitySpec {
    pub dsn_name: Seq<char>,
    pub activity_type: DsnActivityType,
    pub timestamp: u64,
    pub details: Seq<(Seq<char>, Seq<char>)>,
}

impl View for DsnActivity {
    type V = ActivitySpec;

    open spec fn view(&self) -> ActivitySpec {
        ActivitySpec {
            dsn_name: self.dsn_name@,
            activity_type: self.activity_type,
            timestamp: self.timestamp,
            details: self.details.spec_entries().map_values(
                |e: crate::names::Named<String>| (e.name@, e.value@),
            ),
        }
    }
}

/// The events of a list, each as contracts speak of it.
pub open spec fn activity_specs(list: Seq<DsnActivity>) -> Seq<ActivitySpec> {
    list.map_values(|a: DsnActivity| a@)
}

/// Whether one event is a copy of another.
pub open spec fn same_activity(copy: DsnActivity, source: DsnActivity) -> bool {
    &&& copy.dsn_name == source.dsn_name
    &&& copy.activity_type == source.activity_type
    &&& copy.timestamp == source.timestamp
    &&& copy.details.spec_entries().len() == source.details.spec_entries().len()
    &&& forall|i: int|
        0 <= i < copy.details.spec_entries().len() ==> (#[trigger] copy.details.spec_entries()[i])
            == source.details.spec_entries()[i]
}

/// A copy of an event is the same event to a contract.
pub proof fn lemma_same_activity(copy: DsnActivity, source: DsnActivity)
    requires
        same_activity(copy, source),
    ensures
        copy@ == source@,
{
    assert(copy@.details =~= source@.details);
}

} // verus!
