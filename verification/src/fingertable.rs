//! The finger table of a node: shortcuts across the ring, of which the
//! first is the node's successor.

use vstd::prelude::*;
use crate::chord::{chord_ring, finger_id, CHORD_RING_SIZE, FINGERTABLE_SIZE};
use crate::node::OtherNode;

verus! {

/// One entry of a finger table: the identifier it points at, and the node
/// believed to be responsible for that identifier.
#[derive(Debug, PartialEq, Eq)]
pub struct FingerEntry {
    pub id: u64,
    pub node: OtherNode,
}

impl Clone for FingerEntry {
    fn clone(&self) -> (copy: Self)
        ensures
            copy == *self,
    {
        FingerEntry { id: self.id, node: self.node.clone() }
    }
}

impl FingerEntry {
    pub fn new(id: u64, node: OtherNode) -> (entry: FingerEntry)
        ensures
            entry == (FingerEntry { id, node }),
    {
        FingerEntry { id, node }
    }

    pub fn get_id(&self) -> (id: &u64)
        ensures
            *id == self.id,
    {
        &self.id
    }

    pub fn get_node(&self) -> (node: &OtherNode)
        ensures
            *node == self.node,
    {
        &self.node
    }
}

/// The finger table of the node `parent()`. Its view is the sequence of its
/// entries.
#[derive(Debug)]
pub struct FingerTable {
    parent_node_id: u64,
    entries: Vec<FingerEntry>,
}

impl Clone for FingerTable {
    fn clone(&self) -> (copy: Self)
        ensures
            copy@ == self@,
            copy.parent() == self.parent(),
    {
        let copy = FingerTable {
            parent_node_id: self.parent_node_id,
            entries: self.entries.clone(),
        };
        copy
    }
}

impl View for FingerTable {
    type V = Seq<FingerEntry>;

    closed spec fn view(&self) -> Seq<FingerEntry> {
        self.entries@
    }
}

impl FingerTable {
    /// The identifier of the node that the table belongs to.
    pub closed spec fn parent(&self) -> u64 {
        self.parent_node_id
    }

    /// A table holds at most `FINGERTABLE_SIZE` entries.
    pub open spec fn wf(&self) -> bool {
        self@.len() <= FINGERTABLE_SIZE
    }

    /// The entry that `set_successor` writes into an empty table.
    pub open spec fn first_entry(parent: u64, successor: OtherNode) -> FingerEntry {
        FingerEntry { id: finger_id(parent, 0) as u64, node: successor }
    }

    /// An empty table, to be filled as answers arrive.
    pub fn new(parent_node_id: u64) -> (table: FingerTable)
        ensures
            table@ == Seq::<FingerEntry>::empty(),
            table.parent() == parent_node_id,
            table.wf(),
    {
        FingerTable { parent_node_id, entries: Vec::with_capacity(FINGERTABLE_SIZE) }
    }

    /// The table of a node that knows its successor.
    pub fn new_first(parent_node_id: u64, successor: OtherNode) -> (table: FingerTable)
        ensures
            table@ == seq![Self::first_entry(parent_node_id, successor)],
            table.parent() == parent_node_id,
            table.wf(),
    {
        let mut entries: Vec<FingerEntry> = Vec::with_capacity(FINGERTABLE_SIZE);
        entries.push(FingerEntry::new(get_finger_id(parent_node_id, 0), successor));
        FingerTable { parent_node_id, entries }
    }

    /// Writes entry `index`: an entry that exists is overwritten, one past
    /// the end is appended at the end, and an `index` of `FINGERTABLE_SIZE`
    /// or more changes nothing.
    pub fn put(&mut self, index: usize, finger_id: u64, node: OtherNode)
        requires
            old(self).wf(),
        ensures
            final(self).wf(),
            final(self).parent() == old(self).parent(),
            index >= FINGERTABLE_SIZE ==> final(self)@ == old(self)@,
            index < FINGERTABLE_SIZE && index < old(self)@.len() ==> final(self)@ == old(self)@.update(
                index as int,
                FingerEntry { id: finger_id, node },
            ),
            index < FINGERTABLE_SIZE && index >= old(self)@.len() ==> final(self)@ == old(self)@.push(
                FingerEntry { id: finger_id, node },
            ),
    {
        if index < FINGERTABLE_SIZE {
            let finger_entry = FingerEntry::new(finger_id, node);
            if self.entries.len() > index {
                self.entries.set(index, finger_entry);
            } else {
                self.entries.push(finger_entry);
            }
        }
    }

    /// The node that the first entry names.
    pub fn get_successor(&self) -> (successor: OtherNode)
        requires
            self@.len() > 0,
        ensures
            successor == self@[0].node,
    {
        self.entries[0].node.clone()
    }

    /// Makes `successor` the node of the first entry. The identifier of an
    /// entry that exists is kept.
    pub fn set_successor(&mut self, successor: OtherNode)
        ensures
            final(self).parent() == old(self).parent(),
            old(self).wf() ==> final(self).wf(),
            old(self)@.len() == 0 ==> final(self)@ == seq![
                Self::first_entry(old(self).parent(), successor),
            ],
            old(self)@.len() > 0 ==> final(self)@ == old(self)@.update(
                0,
                FingerEntry { id: old(self)@[0].id, node: successor },
            ),
    {
        if self.entries.len() == 0 {
            self.entries.push(
                FingerEntry::new(get_finger_id(self.parent_node_id, 0), successor),
            );
        } else {
            let id: u64 = self.entries[0].id;
            self.entries.set(0, FingerEntry::new(id, successor));
        }
    }

    pub fn get(&self, index: usize) -> (entry: &FingerEntry)
        requires
            index < self@.len(),
        ensures
            *entry == self@[index as int],
    {
        &self.entries[index]
    }

    pub fn length(&self) -> (length: usize)
        ensures
            length == self@.len(),
    {
        self.entries.len()
    }
}

/// The identifier that finger `exponent` of node `n` points at:
/// `n + 2^exponent`, taken on the ring.
pub fn get_finger_id(n: u64, exponent: usize) -> (id: u64)
    ensures
        id == finger_id(n, exponent),
        id < CHORD_RING_SIZE,
{
    let id = chord_ring().finger_start(n, exponent);
    proof {
        vstd::arithmetic::power2::lemma2_to64();
    }
    id
}

} // verus!
