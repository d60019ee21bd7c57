use crust_std::hashmap::bucket_of;
use crust_std::hashmap::crust_hash_owned_str;
use crust_std::hashmap::HashMap;
use crust_std::owned_str::OwnedStr;
use std::collections::hash_map::DefaultHasher;
use std::hash::Hash;
use std::hash::Hasher;

fn text(s: &str) -> OwnedStr {
    s.to_string().into()
}

#[test]
fn hashmap_insert_get() {
    let mut map = HashMap::new();
    let key1: OwnedStr = "test1".to_string().into();
    map.insert(key1.clone(), 8);
    let val1 = map.get(&key1).expect("Failed to get value.");
    assert_eq!(*val1, 8);
    let key2: OwnedStr = "test2".to_string().into();
    map.insert(key2.clone(), 16);
    let val2 = map.get(&key2).expect("Failed to get value.");
    assert_eq!(*val2, 16);
}

#[test]
fn new_map_has_64_empty_slots() {
    let map: HashMap<u64, u64> = HashMap::new();
    assert_eq!(map.capacity(), 64);
    assert_eq!(map.len(), 0);
    assert_eq!(map.iter().count(), 64);
    assert!(map.iter().all(|slot| slot.is_none()));
    assert_eq!(map.get(&1), None);
}

#[test]
fn keys_up_to_the_threshold_are_found_without_growth() {
    let mut map: HashMap<u64, u64> = HashMap::with_capacity(16);
    for k in 0..12u64 {
        assert!(map.has_room());
        assert_eq!(map.insert(k * 1000 + 1, k * k), None);
    }
    assert_eq!(map.capacity(), 16);
    assert_eq!(map.len(), 12);
    for k in 0..12u64 {
        assert_eq!(map.get(&(k * 1000 + 1)), Some(&(k * k)));
    }
}

#[test]
fn growth_happens_when_more_than_three_quarters_are_in_use() {
    let mut map: HashMap<u32, u32> = HashMap::with_capacity(4);
    for k in 0..4u32 {
        map.insert(k, k);
        assert_eq!(map.capacity(), 4);
    }
    // Four of four slots are in use, more than three: the next insertion doubles first.
    assert_eq!(map.len(), 4);
    map.insert(4, 4);
    assert_eq!(map.capacity(), 8);
    assert_eq!(map.len(), 5);
    map.insert(5, 5);
    map.insert(6, 6);
    assert_eq!(map.capacity(), 8);
    // Seven of eight are in use, more than six.
    map.insert(7, 7);
    assert_eq!(map.capacity(), 16);
    for k in 0..8u32 {
        assert_eq!(map.get(&k), Some(&k));
    }
}

#[test]
fn resizes_keep_every_key_with_its_value() {
    let mut map: HashMap<OwnedStr, usize> = HashMap::with_capacity(1);
    for i in 0..300usize {
        assert!(map.has_room());
        assert_eq!(map.insert(text(&format!("key-{i}")), i * 2), None);
        for j in (0..=i).step_by(37) {
            assert_eq!(map.get(&text(&format!("key-{j}"))), Some(&(j * 2)));
        }
    }
    assert_eq!(map.len(), 300);
    assert!(map.capacity() >= 300);
    assert!(map.capacity().is_power_of_two());
    for i in 0..300usize {
        assert_eq!(map.get(&text(&format!("key-{i}"))), Some(&(i * 2)));
    }
    assert_eq!(map.iter().filter(|slot| slot.is_some()).count(), 300);
}

#[test]
fn lookup_of_a_missing_key_ends() {
    let mut map: HashMap<u8, u8> = HashMap::with_capacity(4);
    map.insert(1, 1);
    map.insert(2, 2);
    map.insert(3, 3);
    map.insert(4, 4);
    assert_eq!(map.len(), 4);
    assert_eq!(map.capacity(), 4);
    assert_eq!(map.get(&9), None);
    let empty: HashMap<u8, u8> = HashMap::with_capacity(0);
    assert_eq!(empty.get(&9), None);
    assert!(!empty.has_room());
}

#[test]
fn inserting_a_key_again_overwrites_its_value() {
    let mut map: HashMap<OwnedStr, i32> = HashMap::with_capacity(8);
    assert_eq!(map.insert(text("a"), 1), None);
    assert_eq!(map.insert(text("b"), 2), None);
    assert_eq!(map.insert(text("a"), 3), Some(1));
    assert_eq!(map.len(), 2);
    assert_eq!(map.get(&text("a")), Some(&3));
    assert_eq!(map.get(&text("b")), Some(&2));
    assert_eq!(map.iter().filter(|slot| slot.is_some()).count(), 2);
}

#[test]
fn entry_goes_into_the_first_empty_slot_from_its_bucket() {
    let mut map: HashMap<u8, u8> = HashMap::with_capacity(4);
    assert_eq!(map.insert_at(2, 10, 0), None);
    assert_eq!(map.insert_at(2, 11, 1), None);
    assert_eq!(map.insert_at(2, 12, 2), None);
    let used: Vec<bool> = map.iter().map(|slot| slot.is_some()).collect();
    assert_eq!(used, vec![true, false, true, true]);
    assert_eq!(map.insert_at(0, 11, 7), Some(1));
    let used: Vec<bool> = map.iter().map(|slot| slot.is_some()).collect();
    assert_eq!(used, vec![true, false, true, true]);
    assert_eq!(map.insert_at(3, 13, 3), None);
    assert_eq!(map.len(), 4);
    assert_eq!(map.get(&10), Some(&0));
    assert_eq!(map.get(&11), Some(&7));
    assert_eq!(map.get(&12), Some(&2));
    assert_eq!(map.get(&13), Some(&3));
}

#[test]
fn digest_of_a_text_is_that_of_its_bytes() {
    let mut hasher = DefaultHasher::new();
    "hello world".as_bytes().hash(&mut hasher);
    assert_eq!(crust_hash_owned_str(&text("hello world")), hasher.finish());
    let mut by_key = DefaultHasher::new();
    text("hello world").hash(&mut by_key);
    assert_eq!(crust_hash_owned_str(&text("hello world")), by_key.finish());
}

#[test]
fn digest_is_the_same_for_the_same_text_and_tells_texts_apart() {
    assert_eq!(crust_hash_owned_str(&text("abc")), crust_hash_owned_str(&text("abc")));
    assert_ne!(crust_hash_owned_str(&text("abc")), crust_hash_owned_str(&text("abd")));
    assert_ne!(crust_hash_owned_str(&text("")), crust_hash_owned_str(&text("a")));
}

#[test]
fn threshold_is_three_quarters_rounded_down() {
    // Five slots: the map doubles once more than three are in use.
    let mut map: HashMap<u16, u16> = HashMap::with_capacity(5);
    for k in 0..4u16 {
        map.insert(k, k);
    }
    assert_eq!(map.capacity(), 5);
    map.insert(4, 4);
    assert_eq!(map.capacity(), 10);
    // One slot: the map doubles once any is in use.
    let mut map: HashMap<u16, u16> = HashMap::with_capacity(1);
    map.insert(0, 0);
    assert_eq!(map.capacity(), 1);
    map.insert(1, 1);
    assert_eq!(map.capacity(), 2);
    map.insert(2, 2);
    assert_eq!(map.capacity(), 4);
    assert_eq!(map.len(), 3);
    for k in 0..3u16 {
        assert_eq!(map.get(&k), Some(&k));
    }
}

#[test]
fn entries_can_be_read_through_the_slots() {
    let mut map: HashMap<u16, &str> = HashMap::with_capacity(8);
    map.insert(7, "seven");
    let mut found = Vec::new();
    for slot in map.iter() {
        if let Some(entry) = slot.as_ref() {
            found.push((*entry.key(), *entry.value()));
        }
    }
    assert_eq!(found, vec![(7, "seven")]);
}

#[test]
fn bucket_is_the_digest_modulo_the_capacity() {
    assert_eq!(bucket_of(10, 4), 2);
    assert_eq!(bucket_of(0, 64), 0);
    assert_eq!(bucket_of(63, 64), 63);
    assert_eq!(bucket_of(64, 64), 0);
    assert_eq!(bucket_of(u64::MAX, 7), 1);
    assert_eq!(bucket_of(12345, 1), 0);
}

#[test]
fn text_key_goes_into_the_bucket_of_its_digest() {
    for word in ["", "a", "test1", "test2", "hello world", "\u{65e5}\u{672c}"] {
        let mut map: HashMap<OwnedStr, u8> = HashMap::with_capacity(64);
        map.insert(text(word), 1);
        let at = map.iter().position(|slot| slot.is_some());
        assert_eq!(at, Some(bucket_of(crust_hash_owned_str(&text(word)), 64)));
    }
}
