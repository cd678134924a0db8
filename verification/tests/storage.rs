use chord_dht::chord::create_id;
use chord_dht::storage::{make_hashed_key_value_pair, DHTEntry, Storage};
use chord_dht::text::{decimal_text, digit_text};

fn entry(key: &str, value: &str) -> DHTEntry {
    DHTEntry::new(key.to_string(), value.to_string())
}

#[test]
fn entry_keeps_key_and_value() {
    let e = entry("alice", "555-1234");
    assert_eq!(e.get_key(), "alice");
    assert_eq!(e.get_value(), "555-1234");
    let copy = e.clone();
    assert_eq!(copy.key, "alice");
    assert_eq!(copy.value, "555-1234");
}

#[test]
fn new_storage_is_empty() {
    let storage = Storage::new();
    assert!(storage.is_data_empty());
    assert!(storage.get_data_as_vec().is_empty());
    assert!(storage.get_key(&1).is_none());
}

#[test]
fn store_then_get_then_delete() {
    let mut storage = Storage::new();
    storage.store_key((5, entry("a", "1")));
    storage.store_key((9, entry("b", "2")));
    assert!(!storage.is_data_empty());
    assert_eq!(storage.get_key(&5).unwrap().get_value(), "1");
    assert_eq!(storage.get_key(&9).unwrap().get_key(), "b");
    assert!(storage.get_key(&6).is_none());
    let removed = storage.delete_key(&5).unwrap();
    assert_eq!(removed.key, "a");
    assert_eq!(removed.value, "1");
    assert!(storage.get_key(&5).is_none());
    assert!(storage.delete_key(&5).is_none());
    assert_eq!(storage.get_key(&9).unwrap().get_value(), "2");
}

#[test]
fn store_replaces_the_entry_under_the_same_key() {
    let mut storage = Storage::new();
    storage.store_key((5, entry("a", "1")));
    storage.store_key((5, entry("a", "2")));
    assert_eq!(storage.get_data_as_vec().len(), 1);
    assert_eq!(storage.get_key(&5).unwrap().get_value(), "2");
}

#[test]
fn listing_names_every_entry_once() {
    let mut storage = Storage::new();
    for k in 0..50u64 {
        storage.store_key((k * 7, entry(&format!("k{}", k), &format!("v{}", k))));
    }
    let mut listing = storage.get_data_as_vec();
    assert_eq!(listing.len(), 50);
    listing.sort_by_key(|pair| pair.0);
    for k in 0..50u64 {
        assert_eq!(listing[k as usize].0, k * 7);
        assert_eq!(listing[k as usize].1.key, format!("k{}", k));
        assert_eq!(listing[k as usize].1.value, format!("v{}", k));
    }
}

#[test]
fn iterator_yields_every_entry_once() {
    let mut storage = Storage::new();
    for k in 0..20u64 {
        storage.store_key((k, entry(&format!("k{}", k), "v")));
    }
    let mut seen: Vec<u64> = storage.get_data_as_iter().map(|(id, _)| *id).collect();
    seen.sort();
    assert_eq!(seen, (0..20).collect::<Vec<u64>>());
    for (id, e) in storage.get_data_as_iter() {
        assert_eq!(e.key, format!("k{}", id));
    }
    assert_eq!(Storage::new().get_data_as_iter().count(), 0);
}

#[test]
fn cloned_storage_has_the_same_entries_and_log() {
    let mut storage = Storage::new();
    storage.store_key((5, entry("a", "1")));
    storage.push_log_line("12:00:00".to_string(), "Key stored".to_string());
    let copy = storage.clone();
    assert_eq!(copy.get_key(&5).unwrap().get_value(), "1");
    assert_eq!(copy.get_last_three_log_entries(), vec!["12:00:00 Key stored".to_string()]);
}

#[test]
fn make_hashed_key_value_pair_hashes_the_key() {
    let (id, e) = make_hashed_key_value_pair("abc".to_string(), "value".to_string());
    assert_eq!(id, 0x6438_3964);
    assert_eq!(id, create_id("abc"));
    assert_eq!(e.key, "abc");
    assert_eq!(e.value, "value");
}

#[test]
fn log_lines_are_label_blank_message() {
    let mut storage = Storage::new();
    storage.push_log_line("08:15:00".to_string(), "Key stored".to_string());
    storage.push_log_line("".to_string(), "".to_string());
    assert_eq!(
        storage.get_last_three_log_entries(),
        vec!["08:15:00 Key stored".to_string(), " ".to_string()]
    );
}

#[test]
fn last_three_log_entries_come_oldest_first() {
    let mut storage = Storage::new();
    for n in 1..=5 {
        storage.push_log_line("t".to_string(), format!("line {}", n));
        let last = storage.get_last_three_log_entries();
        let first = if n >= 3 { n - 2 } else { 1 };
        let expect: Vec<String> = (first..=n).map(|k| format!("t line {}", k)).collect();
        assert_eq!(last, expect);
    }
}

#[test]
fn empty_log_says_so() {
    let storage = Storage::new();
    let last = storage.get_last_three_log_entries();
    assert_eq!(last.len(), 1);
    assert!(last[0].contains("No log entry found"));
}

#[test]
fn write_log_entry_puts_the_time_in_front() {
    let mut storage = Storage::new();
    storage.write_log_entry("Key stored".to_string());
    storage.write_log_entry("Key deleted".to_string());
    let last = storage.get_last_three_log_entries();
    assert_eq!(last.len(), 2);
    assert!(last[0].ends_with(" Key stored"));
    assert!(last[1].ends_with(" Key deleted"));
    // the label holds a time of day, hours, minutes and seconds
    let label = &last[0][..last[0].len() - " Key stored".len()];
    let digits: Vec<char> = label.chars().filter(|c| c.is_ascii_digit() || *c == ':').collect();
    assert!(digits.iter().filter(|c| **c == ':').count() >= 2);
    assert!(storage.is_data_empty());
}

#[test]
fn decimal_text_of_numbers() {
    assert_eq!(decimal_text(0), "0");
    assert_eq!(decimal_text(7), "7");
    assert_eq!(decimal_text(10), "10");
    assert_eq!(decimal_text(1_681_406_308), "1681406308");
    assert_eq!(decimal_text(u64::MAX), "18446744073709551615");
    for d in 0..10u64 {
        assert_eq!(digit_text(d), d.to_string());
    }
    for n in [9u64, 99, 100, 101, 4_294_967_295, 4_294_967_296] {
        assert_eq!(decimal_text(n), n.to_string());
    }
}
