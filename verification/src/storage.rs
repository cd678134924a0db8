//! The key-value store of a node, keyed by the identifiers of the keys, and
//! the short log in which the node notes how its own operations ended.

use std::collections::hash_map::Iter;
use std::collections::HashMap;
use vstd::prelude::*;
use vstd::string::*;
use vstd::std_specs::hash::*;
use vstd::std_specs::iter::IteratorSpec;
use chrono::Local;
use colored::Colorize;
use crate::chord::{create_id, hashable, id_of_text};

verus! {

broadcast use group_hash_axioms;

/// A key and the value stored under it.
#[derive(Debug, PartialEq, Eq)]
pub struct DHTEntry {
    pub key: String,
    pub value: String,
}

impl Clone for DHTEntry {
    fn clone(&self) -> (copy: Self)
        ensures
            copy == *self,
    {
        DHTEntry { key: self.key.clone(), value: self.value.clone() }
    }
}

impl DHTEntry {
    pub fn new(key: String, value: String) -> (entry: DHTEntry)
        ensures
            entry == (DHTEntry { key, value }),
    {
        DHTEntry { key, value }
    }

    pub fn get_key(&self) -> (key: &String)
        ensures
            *key == self.key,
    {
        &self.key
    }

    pub fn get_value(&self) -> (value: &String)
        ensures
            *value == self.value,
    {
        &self.value
    }
}

/// Whether `listing` names every entry of `store` once, in some order.
pub open spec fn lists(listing: Seq<(u64, DHTEntry)>, store: Map<u64, DHTEntry>) -> bool {
    &&& forall|i: int|
        0 <= i < listing.len() ==> store.contains_key(#[trigger] listing[i].0) && store[listing[i].0]
            == listing[i].1
    &&& forall|i: int, j: int|
        0 <= i < j < listing.len() ==> #[trigger] listing[i].0 != #[trigger] listing[j].0
    &&& forall|k: u64| #[trigger]
        store.contains_key(k) ==> exists|i: int| 0 <= i < listing.len() && #[trigger] listing[i].0 == k
}

/// The lines of a log, as texts.
pub open spec fn lines(log: Seq<String>) -> Seq<Seq<char>> {
    log.map_values(|line: String| line@)
}

/// A log line: a label, a blank, and the message.
pub open spec fn log_line(label: Seq<char>, message: Seq<char>) -> Seq<char> {
    label + seq![' '] + message
}

/// What a node stores. Its view is the map from key identifiers to entries.
pub struct Storage {
    data: HashMap<u64, DHTEntry>,
    logs: Vec<String>,
}

impl Clone for Storage {
    fn clone(&self) -> (copy: Self)
        ensures
            copy@ == self@,
            copy.log() == self.log(),
    {
        let copy = Storage { data: self.data.clone(), logs: self.logs.clone() };
        copy
    }
}

impl View for Storage {
    type V = Map<u64, DHTEntry>;

    closed spec fn view(&self) -> Map<u64, DHTEntry> {
        self.data@
    }
}

/// Calls `Local::now` and `DateTime::format` of chrono. Trusted to return,
/// which it does unless the system clock stands before 1970; the text is the
/// local time of day and differs from call to call.
#[verifier::external_body]
fn clock_text() -> (text: String) {
    Local::now().format("%H:%M:%S").to_string()
}

/// Calls `Colorize::yellow` of colored. Trusted to return; whether the text
/// comes back wrapped in colour codes depends on the environment.
#[verifier::external_body]
fn yellow(text: &str) -> (painted: String) {
    text.yellow().to_string()
}

/// Calls `Colorize::italic` and `Colorize::yellow` of colored. Trusted to
/// return; whether the text comes back wrapped in style codes depends on the
/// environment.
#[verifier::external_body]
fn italic_yellow(text: &str) -> (painted: String) {
    text.italic().yellow().to_string()
}

impl Storage {
    /// The log, oldest line first.
    pub closed spec fn log(&self) -> Seq<Seq<char>> {
        lines(self.logs@)
    }

    pub fn new() -> (storage: Storage)
        ensures
            storage@ == Map::<u64, DHTEntry>::empty(),
            storage.log() == Seq::<Seq<char>>::empty(),
    {
        let storage = Storage { data: HashMap::new(), logs: Vec::new() };
        storage
    }

    /// Every stored entry with its key identifier, once, in no particular
    /// order.
    pub fn get_data_as_vec(&self) -> (listing: Vec<(u64, DHTEntry)>)
        ensures
            lists(listing@, self@),
            listing@.len() == self@.len(),
    {
        let mut listing: Vec<(u64, DHTEntry)> = Vec::new();
        for pair in it: self.data.iter()
            invariant
                it.seq() == self.data.iter().remaining(),
                it.seq().no_duplicates(),
                listing@.len() == it.index(),
                forall|j: int|
                    0 <= j < it.index() ==> listing@[j].0 == *it.seq()[j].0 && listing@[j].1
                        == *it.seq()[j].1,
        {
            let (key_id, entry) = pair;
            listing.push((*key_id, entry.clone()));
        }
        proof {
            let walked = self.data.iter().remaining();
            assert forall|i: int, j: int| 0 <= i < j < listing@.len() implies #[trigger] listing@[i].0
                != #[trigger] listing@[j].0 by {
                // equal keys would make two equal pairs of the walk
                assert(self.data@.contains_key(*walked[i].0));
                assert(self.data@.contains_key(*walked[j].0));
                if listing@[i].0 == listing@[j].0 {
                    assert(walked[i] == walked[j]);
                }
            }
            assert forall|k: u64| #[trigger] self@.contains_key(k) implies exists|i: int|
                0 <= i < listing@.len() && #[trigger] listing@[i].0 == k by {
                assert(walked.contains((&k, &self.data@[k])));
                let i = choose|i: int| 0 <= i < walked.len() && walked[i] == (&k, &self.data@[k]);
                assert(listing@[i].0 == k);
            }
        }
        listing
    }

    /// An iterator over the stored entries with their key identifiers: it
    /// yields every entry once, in no particular order.
    pub fn get_data_as_iter(&self) -> (entries: Iter<'_, u64, DHTEntry>)
        ensures
            entries.remaining().len() == self@.len(),
            entries.remaining().no_duplicates(),
            forall|i: int|
                0 <= i < entries.remaining().len() ==> self@.contains_key(
                    *(#[trigger] entries.remaining()[i]).0,
                ) && self@[*entries.remaining()[i].0] == *entries.remaining()[i].1,
            forall|k: u64| #[trigger]
                self@.contains_key(k) ==> entries.remaining().contains((&k, &self@[k])),
    {
        self.data.iter()
    }

    pub fn is_data_empty(&self) -> (empty: bool)
        ensures
            empty == (self@.len() == 0),
    {
        self.data.len() == 0
    }

    /// Stores an entry under its key identifier, in place of an earlier one
    /// if there was one.
    pub fn store_key(&mut self, data: (u64, DHTEntry))
        ensures
            final(self)@ == old(self)@.insert(data.0, data.1),
            final(self).log() == old(self).log(),
    {
        self.data.insert(data.0, data.1);
    }

    pub fn get_key(&self, key_id: &u64) -> (found: Option<&DHTEntry>)
        ensures
            self@.contains_key(*key_id) ==> found == Some(&self@[*key_id]),
            !self@.contains_key(*key_id) ==> found is None,
    {
        self.data.get(key_id)
    }

    /// Removes the entry stored under `key_id` and returns it.
    pub fn delete_key(&mut self, key_id: &u64) -> (removed: Option<DHTEntry>)
        ensures
            final(self)@ == old(self)@.remove(*key_id),
            final(self).log() == old(self).log(),
            old(self)@.contains_key(*key_id) ==> removed == Some(old(self)@[*key_id]),
            !old(self)@.contains_key(*key_id) ==> removed is None,
    {
        self.data.remove(key_id)
    }

    /// Appends the line made of `label`, a blank and `str` to the log.
    pub fn push_log_line(&mut self, label: String, str: String)
        ensures
            final(self)@ == old(self)@,
            final(self).log() == old(self).log().push(log_line(label@, str@)),
    {
        let line = label.concat(" ").concat(str.as_str());
        proof {
            reveal_strlit(" ");
            assert(line@ =~= log_line(label@, str@));
        }
        self.logs.push(line);
    }

    /// Appends `str` to the log, behind the time of day.
    pub fn write_log_entry(&mut self, str: String)
        ensures
            final(self)@ == old(self)@,
            exists|label: Seq<char>|
                final(self).log() == old(self).log().push(#[trigger] log_line(label, str@)),
    {
        let stamp = clock_text();
        let label = yellow(stamp.as_str());
        self.push_log_line(label, str);
    }

    /// The last three lines of the log, oldest first; fewer where the log
    /// holds fewer, and a single line that says so where it holds none.
    pub fn get_last_three_log_entries(&self) -> (last: Vec<String>)
        ensures
            self.log().len() == 0 ==> last@.len() == 1,
            self.log().len() > 0 ==> lines(last@) == self.log().subrange(
                if self.log().len() >= 3 {
                    self.log().len() - 3
                } else {
                    0
                },
                self.log().len() as int,
            ),
    {
        let mut last: Vec<String> = Vec::new();
        let total: usize = self.logs.len();
        if total == 0 {
            last.push(italic_yellow("No log entry found"));
        } else {
            let start: usize = if total >= 3 {
                total - 3
            } else {
                0
            };
            let mut i: usize = start;
            while i < total
                invariant
                    start <= i <= total,
                    total == self.logs@.len(),
                    last@.len() == i - start,
                    forall|j: int| 0 <= j < last@.len() ==> last@[j] == self.logs@[start + j],
                decreases total - i,
            {
                last.push(self.logs[i].clone());
                i = i + 1;
            }
        }
        last
    }
}

/// A key and its value, as an entry under the key's identifier.
pub fn make_hashed_key_value_pair(key: String, value: String) -> (pair: (u64, DHTEntry))
    requires
        hashable(key@),
    ensures
        pair.0 == id_of_text(key@),
        pair.1 == (DHTEntry { key, value }),
{
    let id = create_id(key.as_str());
    (id, DHTEntry::new(key, value))
}

} // verus!
