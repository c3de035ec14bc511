use vstd::prelude::*;

verus! {

/// One appended unit of state: a key and its new value.
#[derive(Debug)]
pub struct KeyValue {
    pub key: String,
    pub value: u64,
}

/// The key-value mapping captured by a snapshot.
///
/// Pairs are kept in insertion order; a later pair for a key shadows the
/// earlier ones, so the mapping is what the pairs give when read in order.
#[derive(Debug)]
pub struct SnapshotMap {
    pub pairs: Vec<(String, u64)>,
}

/// The mapping that a sequence of pairs describes, later pairs winning.
pub open spec fn map_of(pairs: Seq<(String, u64)>) -> Map<Seq<char>, u64>
    decreases pairs.len(),
{
    if pairs.len() == 0 {
        Map::empty()
    } else {
        let last = pairs.last();
        map_of(pairs.drop_last()).insert(last.0@, last.1)
    }
}

/// The value of `key` in `m`, if it has one.
pub open spec fn lookup(m: Map<Seq<char>, u64>, key: Seq<char>) -> Option<u64> {
    if m.contains_key(key) {
        Some(m[key])
    } else {
        None
    }
}

impl View for SnapshotMap {
    type V = Map<Seq<char>, u64>;

    open spec fn view(&self) -> Map<Seq<char>, u64> {
        map_of(self.pairs@)
    }
}

impl SnapshotMap {
    /// An empty snapshot.
    pub fn new() -> (r: SnapshotMap)
        ensures
            r@ == Map::<Seq<char>, u64>::empty(),
    {
        SnapshotMap { pairs: Vec::new() }
    }

    /// Sets `key` to `value`.
    pub fn insert(&mut self, key: String, value: u64)
        ensures
            final(self)@ == old(self)@.insert(key@, value),
    {
        let ghost before = self.pairs@;
        self.pairs.push((key, value));
        assert(self.pairs@.drop_last() == before);
    }

    /// The value of `key` in this snapshot, if it has one.
    pub fn get(&self, key: &String) -> (r: Option<u64>)
        ensures
            r == lookup(self@, key@),
    {
        let mut i: usize = self.pairs.len();
        assert(self.pairs@.take(i as int) == self.pairs@);
        while i > 0
            invariant
                i <= self.pairs@.len(),
                lookup(map_of(self.pairs@.take(i as int)), key@) == lookup(self@, key@),
            decreases i,
        {
            assert(self.pairs@.take(i as int).drop_last() == self.pairs@.take(i - 1));
            if self.pairs[i - 1].0 == *key {
                return Some(self.pairs[i - 1].1);
            }
            i = i - 1;
        }
        None
    }
}

/// What the replicated log holds at one index, as read back from the engine.
#[derive(Debug)]
pub enum ReadEntry {
    Decided(KeyValue),
    Snapshotted(SnapshotMap),
    Undecided,
}

/// What one entry says of `key`: the value a decided entry for that key
/// sets, or the value a snapshot holding the key records.
pub open spec fn entry_value(e: ReadEntry, key: Seq<char>) -> Option<u64> {
    match e {
        ReadEntry::Decided(kv) => if kv.key@ == key {
            Some(kv.value)
        } else {
            None
        },
        ReadEntry::Snapshotted(s) => lookup(s@, key),
        ReadEntry::Undecided => None,
    }
}

/// The current value of `key` in a sequence of entries, newest last: what
/// the newest entry that speaks of the key says of it.
pub open spec fn latest_value(entries: Seq<ReadEntry>, key: Seq<char>) -> Option<u64>
    decreases entries.len(),
{
    if entries.len() == 0 {
        None
    } else {
        match entry_value(entries.last(), key) {
            Some(v) => Some(v),
            None => latest_value(entries.drop_last(), key),
        }
    }
}

/// Reconstruction depends on the entries and the key alone: the same
/// sequence read twice gives the same value.
pub proof fn lemma_reconstruction_deterministic(
    first: Seq<ReadEntry>,
    second: Seq<ReadEntry>,
    key: Seq<char>,
)
    requires
        first == second,
    ensures
        latest_value(first, key) == latest_value(second, key),
{
}

/// The value found is the one that the newest entry speaking of the key
/// gives: no later entry speaks of it, and where none does, there is none.
pub proof fn lemma_newest_entry_wins(entries: Seq<ReadEntry>, key: Seq<char>)
    ensures
        latest_value(entries, key) is None <==> (forall|i: int|
            0 <= i < entries.len() ==> #[trigger] entry_value(entries[i], key) is None),
        latest_value(entries, key) is Some ==> exists|i: int|
            0 <= i < entries.len() && #[trigger] entry_value(entries[i], key) == latest_value(
                entries,
                key,
            ) && forall|j: int| i < j < entries.len() ==> #[trigger] entry_value(
                entries[j],
                key,
            ) is None,
    decreases entries.len(),
{
    if entries.len() > 0 {
        let rest = entries.drop_last();
        lemma_newest_entry_wins(rest, key);
        let n = entries.len() - 1;
        assert forall|i: int| 0 <= i < rest.len() implies rest[i] == entries[i] by {}
        if entry_value(entries.last(), key) is Some {
            assert(entry_value(entries[n], key) == latest_value(entries, key));
        } else if latest_value(rest, key) is Some {
            let i = choose|i: int|
                0 <= i < rest.len() && #[trigger] entry_value(rest[i], key) == latest_value(
                    rest,
                    key,
                ) && forall|j: int| i < j < rest.len() ==> #[trigger] entry_value(
                    rest[j],
                    key,
                ) is None;
            assert(entry_value(entries[i], key) == latest_value(entries, key));
            assert forall|j: int| i < j < entries.len() implies #[trigger] entry_value(
                entries[j],
                key,
            ) is None by {
                if j < n {
                    assert(entry_value(rest[j], key) is None);
                }
            }
        } else {
            assert forall|i: int| 0 <= i < entries.len() implies #[trigger] entry_value(
                entries[i],
                key,
            ) is None by {
                if i < n {
                    assert(entry_value(rest[i], key) is None);
                }
            }
        }
    }
}

/// A value just appended is what a read of its key finds, whatever came
/// before it; and a key the new entry does not name keeps its value.
pub proof fn lemma_put_then_get(entries: Seq<ReadEntry>, kv: KeyValue, other: Seq<char>)
    ensures
        latest_value(entries.push(ReadEntry::Decided(kv)), kv.key@) == Some(kv.value),
        other != kv.key@ ==> latest_value(entries.push(ReadEntry::Decided(kv)), other)
            == latest_value(entries, other),
{
    assert(entries.push(ReadEntry::Decided(kv)).drop_last() == entries);
}

/// The current value of `key` in `entries`, newest last, found by scanning
/// backward from the newest entry.
pub fn fetch_value(key: &String, entries: &Vec<ReadEntry>) -> (r: Option<u64>)
    ensures
        r == latest_value(entries@, key@),
{
    let mut index: usize = entries.len();
    assert(entries@.take(index as int) == entries@);
    while index > 0
        invariant
            index <= entries@.len(),
            latest_value(entries@.take(index as int), key@) == latest_value(entries@, key@),
        decreases index,
    {
        assert(entries@.take(index as int).drop_last() == entries@.take(index - 1));
        let found: Option<u64> = match &entries[index - 1] {
            ReadEntry::Decided(kv) => if kv.key == *key {
                Some(kv.value)
            } else {
                None
            },
            ReadEntry::Snapshotted(snapshot) => snapshot.get(key),
            ReadEntry::Undecided => None,
        };
        if found.is_some() {
            return found;
        }
        index = index - 1;
    }
    None
}

} // verus!
