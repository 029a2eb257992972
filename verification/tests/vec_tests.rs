use reusing_vec::ReusableElement;
use reusing_vec::ReusingVec;
use smallvec::SmallVec;
use std::collections::BTreeMap;
use std::collections::BTreeSet;
use std::collections::HashMap;
use std::collections::HashSet;
use std::collections::VecDeque;

/// A mock element that records how it was produced: `new` starts with zero
/// resets, and every `reset` is counted, so a test can tell the reuse path
/// from the fresh-construction path.
#[derive(Clone, Debug, PartialEq, Eq)]
struct Probe {
    id: u32,
    resets: u32,
}

impl ReusableElement for Probe {
    fn reset(&mut self) {
        self.resets += 1;
    }

    fn new() -> Self {
        Probe { id: 0, resets: 0 }
    }
}

#[test]
fn new_and_with_capacity_are_empty() {
    let a: ReusingVec<u8> = ReusingVec::new();
    assert_eq!(a.len(), 0);
    assert!(a.is_empty());
    let b: ReusingVec<u8> = ReusingVec::with_capacity(32);
    assert_eq!(b.len(), 0);
    assert!(b.is_empty());
    let c: ReusingVec<u8> = ReusingVec::default();
    assert!(a == c);
}

#[test]
fn len_tracks_pushes_and_successful_pops() {
    let mut v: ReusingVec<i32> = ReusingVec::new();
    // Pops of an empty vector do not count: the length stays clamped at 0.
    assert!(v.pop().is_none());
    assert_eq!(v.len(), 0);
    v.push_val(1);
    v.push_val(2);
    v.push_val(3);
    assert_eq!(v.len(), 3);
    v.pop();
    v.pop();
    assert_eq!(v.len(), 1);
    v.pop();
    assert!(v.pop().is_none());
    assert_eq!(v.len(), 0);
    v.push_val(4);
    // 4 pushes, 3 successful pops.
    assert_eq!(v.len(), 1);
}

#[test]
fn content_is_pushed_values_in_order() {
    let mut v: ReusingVec<i32> = ReusingVec::new();
    for i in 0..5 {
        v.push_val(i * 10);
    }
    v.pop();
    v.pop();
    v.push_val(77);
    // Two retired slots (30 and 40's old slots) sit underneath; the live
    // window shows only what was pushed and not popped, in push order.
    assert!(v == vec![0, 10, 20, 77]);
    assert_eq!(*v.get(3), 77);
    assert_eq!(v.pop(), Some(&mut 77));
}

#[test]
fn truncate_keeps_prefix() {
    let mut v: ReusingVec<i32> = ReusingVec::from_vec(vec![1, 2, 3, 4]);
    v.truncate(10);
    assert!(v == vec![1, 2, 3, 4]);
    v.truncate(4);
    assert!(v == vec![1, 2, 3, 4]);
    v.truncate(2);
    assert!(v == vec![1, 2]);
    v.truncate(0);
    assert_eq!(v.len(), 0);
}

#[test]
fn clear_then_push_reuses_retired_slot() {
    let mut v: ReusingVec<Probe> = ReusingVec::from_vec(vec![
        Probe { id: 7, resets: 0 },
        Probe { id: 8, resets: 0 },
    ]);
    v.clear();
    assert_eq!(v.len(), 0);

    // Physical capacity still holds both elements, so the next pushes must
    // reset in place: no fresh construction, and the identities survive.
    let first = v.push_mut();
    assert_eq!(first.id, 7);
    assert_eq!(first.resets, 1);
    let second = v.push_mut();
    assert_eq!(second.id, 8);
    assert_eq!(second.resets, 1);
}

#[test]
fn capability_constructs_once_then_always_resets() {
    let mut v: ReusingVec<Probe> = ReusingVec::new();
    let first = v.push_mut();
    // The very first push is the only fresh construction.
    assert_eq!(first.resets, 0);
    v.pop();
    let again = v.push_mut();
    assert_eq!(again.resets, 1);
    v.pop();
    v.pop();
    let again = v.push_mut();
    assert_eq!(again.resets, 2);
}

#[test]
fn round_trip_preserves_live_window() {
    let mut v: ReusingVec<i32> = ReusingVec::from_vec(vec![3, 1, 4, 1, 5]);
    v.pop();
    v.pop();
    let carrier: Vec<i32> = v.clone().into_vec();
    assert_eq!(carrier, vec![3, 1, 4]);
    let rebuilt: ReusingVec<i32> = ReusingVec::from_vec(carrier);
    assert!(rebuilt == v);
}

#[test]
fn equality_ignores_retired_content() {
    let mut a: ReusingVec<i32> = ReusingVec::from_vec(vec![1, 2, 3, 100, 200]);
    a.truncate(3);
    let mut b: ReusingVec<i32> = ReusingVec::from_vec(vec![1, 2, 3, 999]);
    b.pop();
    assert!(a == b);
    assert!(b == a);
    assert!(a == a);
    assert!(a == vec![1, 2, 3]);
}

#[test]
fn push_with_reuses_or_constructs() {
    let mut v: ReusingVec<String> = ReusingVec::new();
    v.push_with(|| String::from("fresh"), |slot: &mut String| slot.clear());
    assert_eq!(v.get(0), "fresh");
    v.pop();
    v.push_with(|| String::from("fresh"), |slot: &mut String| slot.push('!'));
    // The retired "fresh" was reset in place by the closure, not rebuilt.
    assert_eq!(v.get(0), "fresh!");
}

#[test]
fn string_elements_come_back_empty() {
    let mut v: ReusingVec<String> = ReusingVec::new();
    v.push_val(String::from("hello"));
    v.pop();
    // The retired slot still holds "hello"; the capability push must hand
    // out a string reset to the freshly-constructed state.
    let s = v.push_mut();
    assert_eq!(*s, String::new());
    s.push_str("world");
    assert_eq!(v.get(0), "world");
}

#[test]
fn option_elements_come_back_none() {
    let mut v: ReusingVec<Option<u32>> = ReusingVec::new();
    v.push_val(Some(5));
    v.pop();
    let slot = v.push_mut();
    assert_eq!(*slot, None);
}

#[test]
fn vec_elements_come_back_empty() {
    let mut v: ReusingVec<Vec<u8>> = ReusingVec::new();
    v.push_val(vec![1, 2, 3]);
    v.pop();
    let buffer = v.push_mut();
    assert!(buffer.is_empty());
    buffer.push(9);
    assert_eq!(v.get(0), &vec![9]);
}

#[test]
fn collection_elements_come_back_empty() {
    let mut deques: ReusingVec<VecDeque<u8>> = ReusingVec::new();
    deques.push_mut().push_back(1);
    deques.pop();
    assert!(deques.push_mut().is_empty());

    let mut maps: ReusingVec<BTreeMap<u8, u8>> = ReusingVec::new();
    maps.push_mut().insert(1, 2);
    maps.pop();
    assert!(maps.push_mut().is_empty());

    let mut sets: ReusingVec<BTreeSet<u8>> = ReusingVec::new();
    sets.push_mut().insert(3);
    sets.pop();
    assert!(sets.push_mut().is_empty());

    let mut hash_maps: ReusingVec<HashMap<u8, u8>> = ReusingVec::new();
    hash_maps.push_mut().insert(1, 2);
    hash_maps.pop();
    assert!(hash_maps.push_mut().is_empty());

    let mut hash_sets: ReusingVec<HashSet<u8>> = ReusingVec::new();
    hash_sets.push_mut().insert(4);
    hash_sets.pop();
    assert!(hash_sets.push_mut().is_empty());
}

#[test]
fn small_vec_elements_through_closures() {
    let mut v: ReusingVec<SmallVec<[u8; 4]>> = ReusingVec::new();
    v.push_with(SmallVec::new, |slot: &mut SmallVec<[u8; 4]>| slot.clear());
    v.get_mut(0).push(42);
    v.pop();
    v.push_with(SmallVec::new, |slot: &mut SmallVec<[u8; 4]>| slot.clear());
    // The retired inline buffer was cleared in place.
    assert!(v.get(0).is_empty());
}

#[test]
fn from_values_converts_each_element() {
    let v: ReusingVec<i64> = ReusingVec::from_values(vec![1u8, 2u8, 3u8]);
    assert!(v == vec![1i64, 2i64, 3i64]);
    assert_eq!(v.len(), 3);
}

#[test]
fn get_mut_writes_live_window() {
    let mut v: ReusingVec<i32> = ReusingVec::from_vec(vec![1, 2, 3]);
    *v.get_mut(1) = 20;
    assert!(v == vec![1, 20, 3]);
}

#[test]
fn pop_returns_view_of_removed_element() {
    let mut v: ReusingVec<String> = ReusingVec::from_vec(vec![
        String::from("a"),
        String::from("b"),
    ]);
    {
        let removed = v.pop().unwrap();
        assert_eq!(*removed, String::from("b"));
        removed.push('!');
    }
    // The mutation went into the retired slot, invisible to the window...
    assert_eq!(v.len(), 1);
    // ...until the slot is resurrected by a value push.
    v.push_val(String::from("c"));
    assert_eq!(v.get(1), "c");
}
