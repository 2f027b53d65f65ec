use blew::util::key_map::KeyMap;
use blew::util::request_map::{KeyedRequestMap, RequestMap};

#[test]
fn insert_and_take() {
    let mut map = RequestMap::<String>::new();
    let id = map.insert("hello".to_string());
    assert_eq!(map.take(id), Some("hello".to_string()));
    assert_eq!(map.take(id), None);
}

#[test]
fn keyed_insert_and_take() {
    let mut map = KeyedRequestMap::<String, u32>::new();
    assert_eq!(map.insert("a".into(), 1), None);
    assert_eq!(map.take("a"), Some(1));
    assert_eq!(map.take("a"), None);
}

#[test]
fn keyed_try_insert_respects_existing() {
    let mut map = KeyedRequestMap::<String, u32>::new();
    assert_eq!(map.try_insert("a".into(), 1), Ok(()));
    assert_eq!(map.try_insert("a".into(), 2), Err(2));
    assert_eq!(map.take("a"), Some(1));
    assert_eq!(map.try_insert("a".into(), 3), Ok(()));
    assert_eq!(map.take("a"), Some(3));
}

#[test]
fn keyed_insert_returns_what_it_displaces() {
    let mut map = KeyedRequestMap::<String, u32>::default();
    assert_eq!(map.insert("a".into(), 1), None);
    assert_eq!(map.insert("a".into(), 2), Some(1));
    assert_eq!(map.take("a"), Some(2));
}

/// A long mixed run against a plain list of what is outstanding.
#[test]
fn request_ids_are_never_given_out_twice() {
    let mut map = RequestMap::<u32>::default();
    let mut outstanding: Vec<(u64, u32)> = Vec::new();
    let mut issued: Vec<u64> = Vec::new();
    for step in 0..200u32 {
        if step % 3 == 2 {
            let id = issued[(step as usize * 7) % issued.len()];
            let expected = outstanding
                .iter()
                .position(|(i, _)| *i == id)
                .map(|at| outstanding.remove(at).1);
            assert_eq!(map.take(id), expected);
        } else {
            let id = map.insert(step);
            assert!(!issued.contains(&id));
            issued.push(id);
            outstanding.push((id, step));
        }
    }
    assert_eq!(map.take(u64::MAX), None);
}

#[test]
fn keyed_drain_empties_the_map() {
    let mut map = KeyedRequestMap::<u8, u32>::new();
    map.insert(1, 10);
    map.insert(2, 20);
    map.insert(1, 11);
    let mut drained = map.drain();
    drained.sort();
    assert_eq!(drained, [(1, 11), (2, 20)]);
    assert!(map.drain().is_empty());
}

#[test]
fn take_matching_takes_the_matching_entries_only() {
    let mut map = KeyedRequestMap::<u8, u32>::new();
    for key in 0..6u8 {
        map.insert(key, u32::from(key) * 10);
    }
    let mut taken = map.take_matching(|key| key % 2 == 0);
    taken.sort();
    assert_eq!(taken, [(0, 0), (2, 20), (4, 40)]);
    assert_eq!(map.take(&2), None);
    assert_eq!(map.take(&3), Some(30));
}

#[test]
fn key_map_finds_what_was_put_there() {
    let mut map = KeyMap::<String, u8>::new();
    assert!(!map.contains_key("a"));
    assert_eq!(map.insert("a".to_string(), 1), None);
    assert_eq!(map.insert("b".to_string(), 2), None);
    assert_eq!(map.insert("a".to_string(), 3), Some(1));
    assert_eq!(map.get("a"), Some(&3));
    let copy = map.clone();
    assert_eq!(map.remove("a"), Some(3));
    assert_eq!(map.remove("a"), None);
    assert_eq!(map.get("b"), Some(&2));
    assert_eq!(copy.get("a"), Some(&3));
}
