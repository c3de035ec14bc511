use kv_node::command::{reply_for, Outcome, Reply};
use kv_node::store::{fetch_value, KeyValue, ReadEntry, SnapshotMap};

fn decided(key: &str, value: u64) -> ReadEntry {
    ReadEntry::Decided(KeyValue { key: key.to_string(), value })
}

fn snapshot(pairs: &[(&str, u64)]) -> ReadEntry {
    let mut map = SnapshotMap::new();
    for (k, v) in pairs {
        map.insert(k.to_string(), *v);
    }
    ReadEntry::Snapshotted(map)
}

#[test]
fn newest_decided_entry_wins() {
    let entries = vec![decided("A", 1), decided("A", 2)];
    assert_eq!(fetch_value(&"A".to_string(), &entries), Some(2));
}

#[test]
fn snapshot_closer_to_tail_wins() {
    let entries = vec![decided("A", 1), snapshot(&[("A", 5)])];
    assert_eq!(fetch_value(&"A".to_string(), &entries), Some(5));
}

#[test]
fn absent_key_has_no_value() {
    let entries = vec![decided("B", 9)];
    assert_eq!(fetch_value(&"A".to_string(), &entries), None);
    let outcome = Outcome::Read(Some(entries));
    assert_eq!(reply_for(&"A".to_string(), &outcome), Reply::NoValue);
}

#[test]
fn empty_sequence_has_no_value() {
    assert_eq!(fetch_value(&"A".to_string(), &Vec::new()), None);
}

#[test]
fn decided_entry_newer_than_snapshot_wins() {
    let entries = vec![snapshot(&[("A", 5), ("B", 6)]), decided("A", 7)];
    assert_eq!(fetch_value(&"A".to_string(), &entries), Some(7));
    assert_eq!(fetch_value(&"B".to_string(), &entries), Some(6));
}

#[test]
fn undecided_and_unrelated_entries_are_skipped() {
    let entries = vec![
        decided("A", 3),
        ReadEntry::Undecided,
        snapshot(&[("C", 1)]),
        decided("B", 4),
        ReadEntry::Undecided,
    ];
    assert_eq!(fetch_value(&"A".to_string(), &entries), Some(3));
}

#[test]
fn snapshot_without_key_is_skipped() {
    let entries = vec![decided("A", 3), snapshot(&[("B", 8)])];
    assert_eq!(fetch_value(&"A".to_string(), &entries), Some(3));
}

#[test]
fn reconstruction_is_repeatable() {
    let entries = vec![decided("A", 1), snapshot(&[("A", 5)]), decided("B", 2)];
    let key = "A".to_string();
    let first = fetch_value(&key, &entries);
    let second = fetch_value(&key, &entries);
    assert_eq!(first, second);
    assert_eq!(first, Some(5));
}

#[test]
fn snapshot_insert_overrides_earlier_value() {
    let mut map = SnapshotMap::new();
    map.insert("A".to_string(), 1);
    map.insert("B".to_string(), 2);
    map.insert("A".to_string(), 3);
    assert_eq!(map.get(&"A".to_string()), Some(3));
    assert_eq!(map.get(&"B".to_string()), Some(2));
    assert_eq!(map.get(&"C".to_string()), None);
}
