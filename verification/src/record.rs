use vstd::prelude::*;

verus! {

/// The mathematical value of a record: a finite map from key to value.
pub type RecordView = Map<Seq<char>, Seq<char>>;

/// The map held by a sequence of key/value pairs; a later pair with the same
/// key replaces an earlier one, as repeated insertion would.
pub open spec fn map_of(entries: Seq<(String, String)>) -> RecordView
    decreases entries.len(),
{
    if entries.len() == 0 {
        Map::empty()
    } else {
        map_of(entries.drop_last()).insert(entries.last().0@, entries.last().1@)
    }
}

/// An immutable key/value unit of pipeline output. Keys are unique and their
/// order carries no meaning; an update produces a new record and leaves the
/// original as it was.
#[derive(Debug, PartialEq, Eq)]
pub struct Record {
    entries: Vec<(String, String)>,
}

impl View for Record {
    type V = RecordView;

    closed spec fn view(&self) -> RecordView {
        map_of(self.entries@)
    }
}

impl Record {
    /// A record with no entries.
    pub fn new() -> (r: Record)
        ensures
            r@ == Map::<Seq<char>, Seq<char>>::empty(),
    {
        Record { entries: Vec::new() }
    }

    /// A new record equal to this one except that `key` maps to `value`.
    pub fn set(&self, key: String, value: String) -> (r: Record)
        ensures
            r@ == self@.insert(key@, value@),
    {
        let mut entries = clone_entries(&self.entries);
        entries.push((key, value));
        proof {
            assert(entries@.drop_last() =~= self.entries@);
        }
        Record { entries }
    }

    /// The value stored under `key`, if any.
    pub fn get(&self, key: &str) -> (r: Option<&String>)
        ensures
            match r {
                Some(v) => self@.contains_key(key@) && v@ == self@[key@],
                None => !self@.contains_key(key@),
            },
    {
        let owned: String = key.to_owned();
        let mut i: usize = self.entries.len();
        while i > 0
            invariant
                i <= self.entries@.len(),
                owned@ == key@,
                forall|j: int| i <= j < self.entries@.len() ==> (#[trigger] self.entries@[j]).0@ != key@,
            decreases i,
        {
            i = i - 1;
            if self.entries[i].0 == owned {
                proof {
                    lemma_map_of_found(self.entries@, i as int, key@);
                }
                return Some(&self.entries[i].1);
            }
        }
        proof {
            lemma_map_of_absent(self.entries@, key@);
        }
        None
    }

    /// A record equal in content to this one.
    pub fn duplicate(&self) -> (r: Record)
        ensures
            r@ == self@,
    {
        Record { entries: clone_entries(&self.entries) }
    }
}

/// A fresh vector holding the same pairs.
fn clone_entries(entries: &Vec<(String, String)>) -> (r: Vec<(String, String)>)
    ensures
        r@ == entries@,
{
    let mut out: Vec<(String, String)> = Vec::new();
    let mut i: usize = 0;
    while i < entries.len()
        invariant
            i <= entries@.len(),
            out@ =~= entries@.take(i as int),
        decreases entries@.len() - i,
    {
        let k = entries[i].0.clone();
        let v = entries[i].1.clone();
        out.push((k, v));
        i = i + 1;
        proof {
            assert(out@ =~= entries@.take(i as int));
        }
    }
    proof {
        assert(entries@.take(entries@.len() as int) =~= entries@);
    }
    out
}

/// The pair latest in the sequence whose key matches decides the map's value
/// for that key.
proof fn lemma_map_of_found(entries: Seq<(String, String)>, i: int, key: Seq<char>)
    requires
        0 <= i < entries.len(),
        entries[i].0@ == key,
        forall|j: int| i < j < entries.len() ==> (#[trigger] entries[j]).0@ != key,
    ensures
        map_of(entries).contains_key(key),
        map_of(entries)[key] == entries[i].1@,
    decreases entries.len(),
{
    if i == entries.len() - 1 {
    } else {
        assert(entries.drop_last()[i] == entries[i]);
        lemma_map_of_found(entries.drop_last(), i, key);
    }
}

/// A key matched by no pair is absent from the map.
proof fn lemma_map_of_absent(entries: Seq<(String, String)>, key: Seq<char>)
    requires
        forall|j: int| 0 <= j < entries.len() ==> (#[trigger] entries[j]).0@ != key,
    ensures
        !map_of(entries).contains_key(key),
    decreases entries.len(),
{
    if entries.len() > 0 {
        lemma_map_of_absent(entries.drop_last(), key);
    }
}

} // verus!
