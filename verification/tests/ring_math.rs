use chord_dht::chord::{
    chord_abs, chord_ring, create_id, create_id_checked, create_node_id, id_from_digest,
    is_in_interval, is_in_interval_to, is_my_key, CHORD_CIRCLE_BITS, CHORD_RING_SIZE,
};
use chord_dht::fingertable::get_finger_id;
use chord_dht::ring::Ring;

#[test]
fn four_bit_ring_interval_wraps_around() {
    let ring = Ring::new(4).unwrap();
    assert!(ring.in_open_interval(14, 2, 15));
    assert!(ring.in_open_interval(14, 2, 0));
    assert!(ring.in_open_interval(14, 2, 1));
    assert!(!ring.in_open_interval(14, 2, 3));
    assert!(!ring.in_open_interval(14, 2, 2));
}

#[test]
fn interval_with_equal_ends_is_whole_ring() {
    let ring = Ring::new(4).unwrap();
    for x in 0..16u64 {
        assert!(ring.in_open_interval(5, 5, x));
    }
    assert!(is_in_interval(5, 5, 0));
    assert!(is_in_interval(5, 5, 4_000_000_000));
}

#[test]
fn interval_agrees_with_walking_clockwise() {
    // On every ring of up to five bits, compare with a walk from a that
    // stops at b.
    for bits in 0..=5u32 {
        let ring = Ring::new(bits).unwrap();
        let size = ring.size();
        assert_eq!(size, 1u64 << bits);
        for a in 0..size {
            for b in 0..size {
                let mut visited = vec![false; size as usize];
                let mut at = a;
                loop {
                    visited[at as usize] = true;
                    at = (at + 1) % size;
                    if at == b {
                        break;
                    }
                }
                for x in 0..size {
                    assert_eq!(ring.in_open_interval(a, b, x), visited[x as usize]);
                }
            }
        }
    }
}

#[test]
fn interval_from_sixteen_to_two_holds_one() {
    assert!(is_in_interval(16, 2, 1));
    assert!(is_in_interval(16, 2, 0));
    assert!(is_in_interval(16, 2, 17));
    assert!(!is_in_interval(16, 2, 2));
    assert!(!is_in_interval(16, 2, 3));
    assert!(!is_in_interval(16, 2, 15));
    let ring = Ring::new(5).unwrap();
    assert!(ring.in_open_interval(16, 2, 1));
    assert!(!ring.in_open_interval(16, 2, 9));
}

#[test]
fn interval_start_is_inside_and_end_is_not() {
    assert!(is_in_interval(10, 20, 10));
    assert!(is_in_interval(10, 20, 19));
    assert!(!is_in_interval(10, 20, 20));
    assert!(!is_in_interval(10, 20, 21));
    assert!(is_in_interval_to(10, 20, 20));
    assert!(!is_in_interval_to(10, 20, 21));
    assert!(is_in_interval_to(7, 7, 3));
}

#[test]
fn interval_on_the_wide_ring_wraps_around() {
    let top = CHORD_RING_SIZE - 1;
    assert!(is_in_interval(top - 1, 2, top));
    assert!(is_in_interval(top - 1, 2, 0));
    assert!(is_in_interval(top - 1, 2, 1));
    assert!(!is_in_interval(top - 1, 2, 2));
    assert!(!is_in_interval(top - 1, 2, 3));
}

#[test]
fn ring_width_is_limited_to_what_fits() {
    assert!(Ring::new(63).is_some());
    assert!(Ring::new(64).is_none());
    assert_eq!(Ring::new(63).unwrap().size(), 1u64 << 63);
    assert_eq!(Ring::new(0).unwrap().size(), 1);
    assert_eq!(chord_ring().bits(), CHORD_CIRCLE_BITS);
    assert_eq!(chord_ring().size(), CHORD_RING_SIZE);
}

#[test]
fn reduce_takes_numbers_onto_the_ring() {
    let ring = Ring::new(4).unwrap();
    assert_eq!(ring.reduce(0), 0);
    assert_eq!(ring.reduce(15), 15);
    assert_eq!(ring.reduce(16), 0);
    assert_eq!(ring.reduce(35), 3);
    assert_eq!(ring.reduce(u64::MAX), 15);
}

#[test]
fn distance_is_clockwise() {
    assert_eq!(chord_abs(3, 10), 7);
    assert_eq!(chord_abs(10, 3), CHORD_RING_SIZE - 7);
    assert_eq!(chord_abs(8, 8), 0);
    let ring = Ring::new(4).unwrap();
    assert_eq!(ring.distance(14, 2), 4);
    assert_eq!(ring.distance(2, 14), 12);
    assert_eq!(ring.distance(30, 17), 3);
    let wide = Ring::new(63).unwrap();
    assert_eq!(wide.distance(u64::MAX, 0), 1);
}

#[test]
fn ownership_reaches_from_behind_the_predecessor_to_the_node() {
    // node 20, predecessor 10
    assert!(is_my_key(20, 10, 20));
    assert!(is_my_key(20, 10, 11));
    assert!(is_my_key(20, 10, 19));
    assert!(!is_my_key(20, 10, 10));
    assert!(!is_my_key(20, 10, 21));
    assert!(!is_my_key(20, 10, 9));
    // node 2, predecessor 14 on a four bit ring
    let ring = Ring::new(4).unwrap();
    assert!(ring.is_owner(2, 14, 15));
    assert!(ring.is_owner(2, 14, 0));
    assert!(ring.is_owner(2, 14, 2));
    assert!(!ring.is_owner(2, 14, 14));
    assert!(!ring.is_owner(2, 14, 3));
}

#[test]
fn each_key_is_owned_or_not_owned() {
    let ring = Ring::new(5).unwrap();
    for node in 0..32u64 {
        for pred in 0..32u64 {
            let owned: Vec<u64> = (0..32).filter(|k| ring.is_owner(node, pred, *k)).collect();
            let foreign: Vec<u64> = (0..32).filter(|k| !ring.is_owner(node, pred, *k)).collect();
            assert_eq!(owned.len() + foreign.len(), 32);
            assert!(owned.iter().all(|k| !foreign.contains(k)));
            // a second look at the same snapshot gives the same answer
            assert!(owned.iter().all(|k| ring.is_owner(node, pred, *k)));
            // the range reaches from behind the predecessor to the node
            let expect = if node == pred { 32 } else { ring.distance(pred, node) };
            assert_eq!(owned.len() as u64, expect);
        }
    }
}

#[test]
fn sole_node_owns_every_key() {
    assert!(is_my_key(77, 77, 0));
    assert!(is_my_key(77, 77, 77));
    assert!(is_my_key(77, 77, 0xffff_ffff));
    let ring = Ring::new(4).unwrap();
    for id in 0..16u64 {
        for key in 0..16u64 {
            assert!(ring.is_owner(id, id, key));
        }
    }
}

#[test]
fn a_join_splits_the_range_between_two_owners() {
    let ring = Ring::new(5).unwrap();
    for pred in 0..32u64 {
        for node in 0..32u64 {
            for joiner in 0..32u64 {
                if joiner == pred || joiner == node || !ring.in_open_interval(pred, node, joiner) {
                    continue;
                }
                for key in 0..32u64 {
                    let before = ring.is_owner(node, pred, key);
                    let by_joiner = ring.is_owner(joiner, pred, key);
                    let by_node = ring.is_owner(node, joiner, key);
                    if before {
                        assert!(by_joiner != by_node);
                    } else {
                        assert!(!by_joiner && !by_node);
                    }
                }
            }
        }
    }
}

#[test]
fn create_id_of_abc() {
    // SHA-1 of "abc" is a9993e364706816aba3e25717850c26c9cd0d89d; the last
    // four characters of it, as bytes, are the identifier.
    assert_eq!(create_id("abc"), 0x6438_3964);
    assert_eq!(id_from_digest("a9993e364706816aba3e25717850c26c9cd0d89d"), 0x6438_3964);
    assert_eq!(create_id_checked("abc"), Some(0x6438_3964));
    assert_eq!(create_node_id("abc"), 0x6438_3964);
}

#[test]
fn create_id_of_the_empty_text() {
    // SHA-1 of "" is da39a3ee5e6b4b0d3255bfef95601890afd80709.
    assert_eq!(create_id(""), 0x3037_3039);
}

#[test]
fn id_from_digest_reads_big_endian() {
    assert_eq!(id_from_digest(""), 0);
    assert_eq!(id_from_digest("a"), 0x61);
    assert_eq!(id_from_digest("ab"), 0x6162);
    assert_eq!(id_from_digest("abcd"), 0x6162_6364);
    assert_eq!(id_from_digest("abcde"), 0x6263_6465);
    let ring = Ring::new(4).unwrap();
    assert_eq!(ring.id_of_bytes(&[0x12, 0x34]), 4);
    assert_eq!(ring.id_of_bytes(&[]), 0);
    let wide = Ring::new(63).unwrap();
    assert_eq!(
        wide.id_of_bytes(&[0xff, 0xff, 0xff, 0xff, 0xff, 0xff, 0xff, 0xff, 0x01]),
        0x7fff_ffff_ffff_ff01
    );
}

#[test]
fn finger_ids_double_their_step() {
    assert_eq!(get_finger_id(100, 0), 101);
    assert_eq!(get_finger_id(100, 1), 102);
    assert_eq!(get_finger_id(100, 15), 100 + 32768);
    assert_eq!(get_finger_id(100, 31), 100 + (1u64 << 31));
    // a step of the ring's size or more is a whole number of turns
    assert_eq!(get_finger_id(100, 32), 100);
    assert_eq!(get_finger_id(100, 64), 100);
    assert_eq!(get_finger_id(100, usize::MAX), 100);
    // the sum is taken on the ring
    assert_eq!(get_finger_id(CHORD_RING_SIZE - 1, 0), 0);
    assert_eq!(get_finger_id(CHORD_RING_SIZE - 1, 4), 15);
    assert_eq!(get_finger_id(CHORD_RING_SIZE + 5, 1), 7);
    let ring = Ring::new(4).unwrap();
    assert_eq!(ring.finger_start(14, 0), 15);
    assert_eq!(ring.finger_start(14, 1), 0);
    assert_eq!(ring.finger_start(14, 3), 6);
    assert_eq!(ring.finger_start(14, 4), 14);
}
