//! A small string-to-string map, kept as a list of entries in which the last
//! entry of a key holds its value.

use vstd::prelude::*;
use vstd::string::*;

verus! {

/// One key with its value.
#[derive(Debug, Clone)]
pub struct Entry {
    pub key: String,
    pub value: String,
}

/// The map that a list of entries stands for: later entries win.
pub open spec fn map_of(entries: Seq<Entry>) -> Map<Seq<char>, Seq<char>>
    decreases entries.len(),
{
    if entries.len() == 0 {
        Map::empty()
    } else {
        map_of(entries.drop_last()).insert(entries.last().key@, entries.last().value@)
    }
}

/// No entry after `i` has the key of entry `i`.
pub open spec fn last_of_its_key(entries: Seq<Entry>, i: int) -> bool {
    forall|j: int| i < j < entries.len() ==> (#[trigger] entries[j]).key@ != entries[i].key@
}

pub proof fn lemma_map_of_absent(entries: Seq<Entry>, key: Seq<char>)
    requires
        forall|i: int| 0 <= i < entries.len() ==> (#[trigger] entries[i]).key@ != key,
    ensures
        !map_of(entries).contains_key(key),
    decreases entries.len(),
{
    if entries.len() > 0 {
        lemma_map_of_absent(entries.drop_last(), key);
    }
}

pub proof fn lemma_map_of_present(entries: Seq<Entry>, i: int)
    requires
        0 <= i < entries.len(),
        last_of_its_key(entries, i),
    ensures
        map_of(entries).contains_key(entries[i].key@),
        map_of(entries)[entries[i].key@] == entries[i].value@,
    decreases entries.len(),
{
    if i < entries.len() - 1 {
        assert(entries.last().key@ != entries[i].key@);
        lemma_map_of_present(entries.drop_last(), i);
    }
}

pub proof fn lemma_map_of_push(entries: Seq<Entry>, e: Entry)
    ensures
        map_of(entries.push(e)) == map_of(entries).insert(e.key@, e.value@),
{
    assert(entries.push(e).drop_last() =~= entries);
}

pub proof fn lemma_map_of_update(entries: Seq<Entry>, i: int, e: Entry)
    requires
        0 <= i < entries.len(),
        last_of_its_key(entries, i),
        e.key@ == entries[i].key@,
    ensures
        map_of(entries.update(i, e)) =~= map_of(entries).insert(e.key@, e.value@),
    decreases entries.len(),
{
    let updated = entries.update(i, e);
    if i == entries.len() - 1 {
        assert(updated.drop_last() =~= entries.drop_last());
    } else {
        assert(entries.last().key@ != entries[i].key@);
        lemma_map_of_update(entries.drop_last(), i, e);
        assert(updated.drop_last() =~= entries.drop_last().update(i, e));
        assert(updated.last() == entries.last());
    }
}

/// Whether two strings hold the same text.
pub fn same_text(a: &str, b: &str) -> (r: bool)
    ensures
        r == (a@ == b@),
{
    let x = String::from_str(a);
    let y = String::from_str(b);
    x == y
}

/// A map from strings to strings.
#[derive(Debug, Clone)]
pub struct StringMap {
    entries: Vec<Entry>,
}

impl View for StringMap {
    type V = Map<Seq<char>, Seq<char>>;

    open spec fn view(&self) -> Map<Seq<char>, Seq<char>> {
        map_of(self.entries())
    }
}

impl StringMap {
    /// The entries in the order in which their keys first came in.
    pub closed spec fn entries(self) -> Seq<Entry> {
        self.entries@
    }

    /// The map with nothing in it.
    pub fn new() -> (m: Self)
        ensures
            m@ == Map::<Seq<char>, Seq<char>>::empty(),
            m.entries().len() == 0,
    {
        StringMap { entries: Vec::new() }
    }

    /// The number of keys.
    pub fn len(&self) -> (n: usize)
        ensures
            n == self.entries().len(),
    {
        self.entries.len()
    }

    /// The position of the last entry that holds `key`.
    fn position(&self, key: &str) -> (found: Option<usize>)
        ensures
            match found {
                Some(i) => i < self.entries@.len() && self.entries@[i as int].key@ == key@
                    && last_of_its_key(self.entries@, i as int),
                None => forall|i: int|
                    0 <= i < self.entries@.len() ==> (#[trigger] self.entries@[i]).key@ != key@,
            },
    {
        let mut i: usize = self.entries.len();
        while i > 0
            invariant
                i <= self.entries@.len(),
                forall|j: int|
                    i <= j < self.entries@.len() ==> (#[trigger] self.entries@[j]).key@ != key@,
            decreases i,
        {
            i = i - 1;
            if same_text(self.entries[i].key.as_str(), key) {
                return Some(i);
            }
        }
        None
    }

    /// The value stored under `key`.
    pub fn get(&self, key: &str) -> (value: Option<&String>)
        ensures
            match value {
                Some(v) => self@.contains_key(key@) && v@ == self@[key@],
                None => !self@.contains_key(key@),
            },
    {
        match self.position(key) {
            Some(i) => {
                proof {
                    lemma_map_of_present(self.entries@, i as int);
                }
                Some(&self.entries[i].value)
            },
            None => {
                proof {
                    lemma_map_of_absent(self.entries@, key@);
                }
                None
            },
        }
    }

    /// Whether `key` has a value.
    pub fn contains_key(&self, key: &str) -> (b: bool)
        ensures
            b == self@.contains_key(key@),
    {
        self.get(key).is_some()
    }

    /// Stores `value` under `key`, replacing what was there.
    pub fn insert(&mut self, key: String, value: String)
        ensures
            final(self)@ == old(self)@.insert(key@, value@),
    {
        let found = self.position(key.as_str());
        let e = Entry { key, value };
        match found {
            Some(i) => {
                proof {
                    lemma_map_of_update(self.entries@, i as int, e);
                }
                self.entries.set(i, e);
            },
            None => {
                proof {
                    lemma_map_of_push(self.entries@, e);
                }
                self.entries.push(e);
            },
        }
    }

    /// The key and the value of the entry at `i`.
    pub fn entry(&self, i: usize) -> (e: (&String, &String))
        requires
            i < self.entries().len(),
        ensures
            e.0 == self.entries()[i as int].key,
            e.1 == self.entries()[i as int].value,
    {
        (&self.entries[i].key, &self.entries[i].value)
    }
}

impl Default for StringMap {
    fn default() -> (m: Self)
        ensures
            m@ == Map::<Seq<char>, Seq<char>>::empty(),
    {
        StringMap::new()
    }
}

} // verus!
