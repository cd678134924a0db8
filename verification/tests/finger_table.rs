use chord_dht::chord::FINGERTABLE_SIZE;
use chord_dht::fingertable::{get_finger_id, FingerEntry, FingerTable};
use chord_dht::node::OtherNode;

fn peer(id: u64) -> OtherNode {
    OtherNode::new(id, format!("10.0.0.1:{}", id))
}

#[test]
fn finger_entry_keeps_its_fields() {
    let entry = FingerEntry::new(42, peer(50));
    assert_eq!(*entry.get_id(), 42);
    assert_eq!(*entry.get_node().get_id(), 50);
    assert_eq!(entry.get_node().get_ip_addr(), "10.0.0.1:50");
    let copy = entry.clone();
    assert_eq!(copy.id, 42);
    assert_eq!(copy.node.id, 50);
    assert_eq!(copy.node.ip_addr, "10.0.0.1:50");
}

#[test]
fn new_table_is_empty() {
    let table = FingerTable::new(7);
    assert_eq!(table.length(), 0);
}

#[test]
fn new_first_names_the_successor() {
    let table = FingerTable::new_first(7, peer(9));
    assert_eq!(table.length(), 1);
    assert_eq!(*table.get(0).get_id(), 8);
    assert_eq!(table.get(0).get_node().id, 9);
    assert_eq!(table.get_successor().id, 9);
    assert_eq!(table.get_successor().ip_addr, "10.0.0.1:9");
}

#[test]
fn put_overwrites_or_appends() {
    let mut table = FingerTable::new_first(7, peer(9));
    // past the end: appended at the end, whatever the index
    table.put(5, get_finger_id(7, 5), peer(40));
    assert_eq!(table.length(), 2);
    assert_eq!(*table.get(1).get_id(), 39);
    assert_eq!(table.get(1).get_node().id, 40);
    // an entry that exists is overwritten
    table.put(1, get_finger_id(7, 1), peer(11));
    assert_eq!(table.length(), 2);
    assert_eq!(*table.get(1).get_id(), 9);
    assert_eq!(table.get(1).get_node().id, 11);
    table.put(0, 8, peer(12));
    assert_eq!(table.get_successor().id, 12);
    assert_eq!(table.length(), 2);
}

#[test]
fn put_past_the_table_size_changes_nothing() {
    let mut table = FingerTable::new_first(7, peer(9));
    table.put(FINGERTABLE_SIZE, 1, peer(40));
    table.put(usize::MAX, 1, peer(40));
    assert_eq!(table.length(), 1);
    assert_eq!(table.get_successor().id, 9);
}

#[test]
fn table_never_grows_past_its_size() {
    let mut table = FingerTable::new(7);
    for round in 0..3 {
        for index in 0..FINGERTABLE_SIZE + 4 {
            table.put(index, get_finger_id(7, index), peer(100 * round + index as u64));
        }
    }
    assert_eq!(table.length(), FINGERTABLE_SIZE);
    for index in 0..FINGERTABLE_SIZE {
        assert_eq!(*table.get(index).get_id(), 7 + (1u64 << index));
        assert_eq!(table.get(index).get_node().id, 200 + index as u64);
    }
}

#[test]
fn set_successor_writes_the_first_entry() {
    let mut table = FingerTable::new(7);
    table.set_successor(peer(9));
    assert_eq!(table.length(), 1);
    assert_eq!(*table.get(0).get_id(), 8);
    assert_eq!(table.get_successor().id, 9);
    table.put(1, 9, peer(30));
    table.set_successor(peer(10));
    assert_eq!(table.length(), 2);
    assert_eq!(*table.get(0).get_id(), 8);
    assert_eq!(table.get_successor().id, 10);
    assert_eq!(table.get(1).get_node().id, 30);
}

#[test]
fn cloned_table_has_the_same_entries() {
    let mut table = FingerTable::new_first(7, peer(9));
    table.put(1, 9, peer(30));
    let copy = table.clone();
    assert_eq!(copy.length(), 2);
    assert_eq!(copy.get(0).get_node().id, 9);
    assert_eq!(copy.get(1).get_node().id, 30);
    assert_eq!(*copy.get(1).get_id(), 9);
}
