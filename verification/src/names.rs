//! A small map from names to values that keeps the order in which the names
//! came.

use vstd::prelude::*;
use vstd::string::StringExecFns;

verus! {

/// The texts of a list, each as its characters.
pub open spec fn texts(list: Seq<String>) -> Seq<Seq<char>> {
    list.map_values(|s: String| s@)
}

/// A value with the name it goes by.
#[derive(Clone, Debug)]
pub struct Named<V> {
    /// The name.
    pub name: String,
    /// The value.
    pub value: V,
}

/// Whether some entry goes by `name`.
pub open spec fn has_name<V>(entries: Seq<Named<V>>, name: Seq<char>) -> bool {
    exists|i: int| 0 <= i < entries.len() && (#[trigger] entries[i]).name@ == name
}

/// The place of an entry that goes by `name`.
pub open spec fn place_of<V>(entries: Seq<Named<V>>, name: Seq<char>) -> int {
    choose|i: int| 0 <= i < entries.len() && (#[trigger] entries[i]).name@ == name
}

/// Whether no two entries go by the same name.
pub open spec fn names_distinct<V>(entries: Seq<Named<V>>) -> bool {
    forall|i: int, j: int|
        0 <= i < entries.len() && 0 <= j < entries.len() && i != j ==> (#[trigger] entries[i]).name@
            != (#[trigger] entries[j]).name@
}

/// The map that a list of entries with distinct names stands for.
pub open spec fn map_of<V: View>(entries: Seq<Named<V>>) -> Map<Seq<char>, V::V> {
    Map::new(
        |name: Seq<char>| has_name(entries, name),
        |name: Seq<char>| entries[place_of(entries, name)].value@,
    )
}

/// With distinct names, the entry at a place is the one its name leads to.
pub proof fn lemma_place_of<V>(entries: Seq<Named<V>>, i: int)
    requires
        names_distinct(entries),
        0 <= i < entries.len(),
    ensures
        has_name(entries, entries[i].name@),
        place_of(entries, entries[i].name@) == i,
{
}

/// Adding an entry under a new name adds it to the map.
pub proof fn lemma_map_of_push<V: View>(entries: Seq<Named<V>>, entry: Named<V>)
    requires
        names_distinct(entries),
        !has_name(entries, entry.name@),
    ensures
        names_distinct(entries.push(entry)),
        map_of(entries.push(entry)) == map_of(entries).insert(entry.name@, entry.value@),
{
    let after = entries.push(entry);
    assert forall|i: int, j: int|
        0 <= i < after.len() && 0 <= j < after.len() && i != j implies (#[trigger] after[i]).name@
        != (#[trigger] after[j]).name@ by {
        if i < entries.len() {
            assert(after[i] == entries[i]);
        }
        if j < entries.len() {
            assert(after[j] == entries[j]);
        }
    }
    assert forall|name: Seq<char>| has_name(after, name) <==> (has_name(entries, name) || name
        == entry.name@) by {
        if has_name(after, name) {
            let i = place_of(after, name);
            if i < entries.len() {
                assert(entries[i].name@ == name);
            }
        }
        if has_name(entries, name) {
            let i = place_of(entries, name);
            assert(after[i].name@ == name);
        }
        if name == entry.name@ {
            assert(after[entries.len() as int].name@ == name);
        }
    }
    assert forall|name: Seq<char>| has_name(after, name) implies #[trigger] map_of(after)[name]
        == map_of(entries).insert(entry.name@, entry.value@)[name] by {
        let i = place_of(after, name);
        lemma_place_of(after, i);
        if i < entries.len() {
            assert(after[i] == entries[i]);
            lemma_place_of(entries, i);
        }
    }
    assert(map_of(after) =~= map_of(entries).insert(entry.name@, entry.value@));
}

/// Putting an entry in the place of one with the same name changes that
/// name's value in the map.
pub proof fn lemma_map_of_update<V: View>(entries: Seq<Named<V>>, at: int, entry: Named<V>)
    requires
        names_distinct(entries),
        0 <= at < entries.len(),
        entries[at].name@ == entry.name@,
    ensures
        names_distinct(entries.update(at, entry)),
        map_of(entries.update(at, entry)) == map_of(entries).insert(entry.name@, entry.value@),
{
    let after = entries.update(at, entry);
    assert forall|i: int| 0 <= i < after.len() implies (#[trigger] after[i]).name@
        == entries[i].name@ by {}
    assert forall|i: int, j: int|
        0 <= i < after.len() && 0 <= j < after.len() && i != j implies (#[trigger] after[i]).name@
        != (#[trigger] after[j]).name@ by {
        assert(after[i].name@ == entries[i].name@);
        assert(after[j].name@ == entries[j].name@);
    }
    assert forall|name: Seq<char>| has_name(after, name) <==> has_name(entries, name) by {
        if has_name(after, name) {
            let i = place_of(after, name);
            assert(entries[i].name@ == name);
        }
        if has_name(entries, name) {
            let i = place_of(entries, name);
            assert(after[i].name@ == name);
        }
    }
    assert(has_name(entries, entry.name@));
    assert forall|name: Seq<char>| has_name(after, name) implies #[trigger] map_of(after)[name]
        == map_of(entries).insert(entry.name@, entry.value@)[name] by {
        let i = place_of(after, name);
        lemma_place_of(after, i);
        if i != at {
            assert(after[i] == entries[i]);
            lemma_place_of(entries, i);
        }
    }
    assert(map_of(after) =~= map_of(entries).insert(entry.name@, entry.value@));
}

/// A map from names to values. A name occurs once; the entries keep the
/// order in which their names were first inserted.
#[derive(Clone, Debug)]
pub struct NameMap<V> {
    entries: Vec<Named<V>>,
}

impl<V: View> View for NameMap<V> {
    type V = Map<Seq<char>, V::V>;

    closed spec fn view(&self) -> Map<Seq<char>, V::V> {
        map_of(self.entries@)
    }
}

impl<V: View> NameMap<V> {
    /// The entries, in order.
    pub closed spec fn spec_entries(&self) -> Seq<Named<V>> {
        self.entries@
    }

    /// No name occurs twice.
    pub closed spec fn wf(&self) -> bool {
        names_distinct(self.entries@)
    }

    /// What a well-formed map and its view are in terms of the entries.
    pub proof fn lemma_entries(&self)
        requires
            self.wf(),
        ensures
            names_distinct(self.spec_entries()),
            self@ == map_of(self.spec_entries()),
            self@.dom().finite(),
    {
        let entries = self.entries@;
        let places = Set::new(|i: int| 0 <= i < entries.len());
        vstd::set_lib::lemma_int_range(0, entries.len() as int);
        assert(places =~= vstd::set_lib::set_int_range(0, entries.len() as int));
        let names = places.map(|i: int| entries[i].name@);
        assert(self@.dom() =~= names) by {
            assert forall|name: Seq<char>| self@.dom().contains(name) <==> names.contains(
                name,
            ) by {
                if has_name(entries, name) {
                    let i = place_of(entries, name);
                    assert(places.contains(i));
                }
            }
        }
        places.lemma_map_finite(|i: int| entries[i].name@);
    }

    /// A map without entries.
    pub fn new() -> (map: NameMap<V>)
        ensures
            map.wf(),
            map@ == Map::<Seq<char>, V::V>::empty(),
            map.spec_entries().len() == 0,
    {
        let map = NameMap { entries: Vec::new() };
        assert(map@ =~= Map::<Seq<char>, V::V>::empty());
        map
    }

    /// How many names the map holds.
    pub fn len(&self) -> (len: usize)
        ensures
            len == self.spec_entries().len(),
    {
        self.entries.len()
    }

    /// The entry at place `i`, in the order of insertion.
    pub fn entry(&self, i: usize) -> (entry: &Named<V>)
        requires
            i < self.spec_entries().len(),
        ensures
            *entry == self.spec_entries()[i as int],
    {
        &self.entries[i]
    }

    fn find(&self, name: &String) -> (place: Option<usize>)
        ensures
            match place {
                Some(i) => i < self.entries@.len() && self.entries@[i as int].name@ == name@,
                None => !has_name(self.entries@, name@),
            },
    {
        let mut i: usize = 0;
        while i < self.entries.len()
            invariant
                i <= self.entries@.len(),
                forall|j: int| 0 <= j < i ==> (#[trigger] self.entries@[j]).name@ != name@,
            decreases self.entries@.len() - i,
        {
            if self.entries[i].name == *name {
                return Some(i);
            }
            i += 1;
        }
        None
    }

    /// The names that the map holds, in the order of insertion.
    pub fn names(&self) -> (names: Vec<String>)
        requires
            self.wf(),
        ensures
            texts(names@).no_duplicates(),
            forall|name: Seq<char>| texts(names@).contains(name) <==> self@.contains_key(name),
            names@.len() == self.spec_entries().len(),
            forall|i: int|
                0 <= i < names@.len() ==> (#[trigger] names@[i])@ == self.spec_entries()[i].name@,
    {
        let mut names: Vec<String> = Vec::new();
        let mut i: usize = 0;
        while i < self.entries.len()
            invariant
                i <= self.entries@.len(),
                names@.len() == i,
                forall|j: int| 0 <= j < i ==> (#[trigger] names@[j])@ == self.entries@[j].name@,
            decreases self.entries@.len() - i,
        {
            names.push(self.entries[i].name.clone());
            i += 1;
        }
        proof {
            let listed = texts(names@);
            assert forall|a: int, b: int| 0 <= a < listed.len() && 0 <= b < listed.len() && a
                != b implies listed[a] != listed[b] by {
                assert(listed[a] == self.entries@[a].name@);
                assert(listed[b] == self.entries@[b].name@);
            }
            assert forall|name: Seq<char>| listed.contains(name) <==> self@.contains_key(
                name,
            ) by {
                if listed.contains(name) {
                    let a = choose|a: int| 0 <= a < listed.len() && listed[a] == name;
                    assert(self.entries@[a].name@ == name);
                }
                if has_name(self.entries@, name) {
                    let a = place_of(self.entries@, name);
                    assert(listed[a] == name);
                }
            }
        }
        names
    }

    /// Whether the map holds `name`.
    pub fn contains_key(&self, name: &str) -> (found: bool)
        requires
            self.wf(),
        ensures
            found == self@.contains_key(name@),
    {
        let key = String::from_str(name);
        self.find(&key).is_some()
    }

    /// The value that goes by `name`, if the map holds one.
    pub fn get(&self, name: &str) -> (value: Option<&V>)
        requires
            self.wf(),
        ensures
            match value {
                Some(v) => self@.contains_key(name@) && self@[name@] == v@,
                None => !self@.contains_key(name@),
            },
    {
        let key = String::from_str(name);
        match self.find(&key) {
            Some(i) => {
                proof {
                    lemma_place_of(self.entries@, i as int);
                }
                Some(&self.entries[i].value)
            },
            None => None,
        }
    }

    /// Puts `value` under `name`, in the place of the value that went by
    /// that name if there was one.
    pub fn insert(&mut self, name: String, value: V)
        requires
            old(self).wf(),
        ensures
            final(self).wf(),
            final(self)@ == old(self)@.insert(name@, value@),
    {
        let place = self.find(&name);
        let entry = Named { name, value };
        match place {
            Some(i) => {
                proof {
                    lemma_map_of_update(self.entries@, i as int, entry);
                }
                self.entries.set(i, entry);
            },
            None => {
                proof {
                    lemma_map_of_push(self.entries@, entry);
                }
                self.entries.push(entry);
            },
        }
    }
}

/// Two lists of entries with the same names and values, place by place,
/// stand for the same map where the names are distinct.
pub proof fn lemma_map_of_same<V: View>(a: Seq<Named<V>>, b: Seq<Named<V>>)
    requires
        names_distinct(a),
        a.len() == b.len(),
        forall|i: int|
            0 <= i < a.len() ==> (#[trigger] a[i]).name@ == b[i].name@ && a[i].value@ == b[i].value@,
    ensures
        names_distinct(b),
        map_of(a) == map_of(b),
{
    assert forall|i: int, j: int| 0 <= i < b.len() && 0 <= j < b.len() && i != j implies (
    #[trigger] b[i]).name@ != (#[trigger] b[j]).name@ by {
        assert(a[i].name@ == b[i].name@);
        assert(a[j].name@ == b[j].name@);
    }
    assert forall|name: Seq<char>| has_name(a, name) <==> has_name(b, name) by {
        if has_name(a, name) {
            let i = place_of(a, name);
            assert(b[i].name@ == name);
        }
        if has_name(b, name) {
            let i = place_of(b, name);
            assert(a[i].name@ == b[i].name@);
        }
    }
    assert forall|name: Seq<char>| has_name(a, name) implies #[trigger] map_of(a)[name] == map_of(
        b,
    )[name] by {
        let i = place_of(a, name);
        lemma_place_of(a, i);
        assert(b[i].name@ == name);
        lemma_place_of(b, i);
    }
    assert(map_of(a) =~= map_of(b));
}

impl NameMap<String> {
    /// A copy of a map of texts, with the entries in the same order.
    pub fn duplicate(&self) -> (copy: NameMap<String>)
        ensures
            copy.spec_entries().len() == self.spec_entries().len(),
            forall|i: int|
                0 <= i < copy.spec_entries().len() ==> (#[trigger] copy.spec_entries()[i])
                    == self.spec_entries()[i],
            self.wf() ==> copy.wf() && copy@ == self@,
    {
        let mut entries: Vec<Named<String>> = Vec::new();
        let mut i: usize = 0;
        while i < self.entries.len()
            invariant
                i <= self.entries@.len(),
                entries@.len() == i,
                forall|j: int| 0 <= j < i ==> (#[trigger] entries@[j]) == self.entries@[j],
            decreases self.entries@.len() - i,
        {
            let entry = &self.entries[i];
            entries.push(Named { name: entry.name.clone(), value: entry.value.clone() });
            i += 1;
        }
        proof {
            if self.wf() {
                lemma_map_of_same(self.entries@, entries@);
            }
        }
        NameMap { entries }
    }
}

} // verus!
