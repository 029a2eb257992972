use reusing_vec::ReusableElement;
use reusing_vec::ReusingQueue;
use reusing_vec::ReusingVec;

/// A mock element that records how it was produced: `new` starts with zero
/// resets, and every `reset` is counted, so a test can tell the reuse path
/// from the fresh-construction path.
#[derive(Clone, Debug, PartialEq, Eq)]
struct Probe {
    id: u32,
    resets: u32,
}

impl ReusableElement for Probe {
    fn reset(&mut self) {
        self.resets += 1;
    }

    fn new() -> Self {
        Probe { id: 0, resets: 0 }
    }
}

#[test]
fn queue_test() {
    let mut source: Vec<i32> = Vec::new();
    for i in 0..10 {
        source.push(i);
    }
    let mut queue: ReusingQueue<i32> = ReusingQueue::from_values(source);

    assert_eq!(queue.len(), 10);
    assert!(queue == vec![0, 1, 2, 3, 4, 5, 6, 7, 8, 9]);
    queue.truncate(9);
    assert_eq!(queue.len(), 9);
    assert!(queue == vec![0, 1, 2, 3, 4, 5, 6, 7, 8]);
    assert_eq!(queue.pop(), Some(&mut 8));

    queue.pop();
    assert_eq!(queue.pop_front(), Some(&mut 0));
    assert_eq!(queue.len(), 6);
    assert!(queue == vec![1, 2, 3, 4, 5, 6]);

    queue.truncate(5);
    assert_eq!(queue.len(), 5);
    assert!(queue == vec![1, 2, 3, 4, 5]);

    let vec_1: Vec<i32> = queue.clone().into_vec();
    assert!(queue == vec_1);

    let vec_2: Vec<i32> = queue.clone().into_vec();
    assert_eq!(vec_1, vec_2);

    while queue.pop().is_some() {
        queue.pop_front();
    }
    assert_eq!(queue.len(), 0);
    assert_eq!(queue.pop_front(), None);
}

#[test]
fn queue_pop_front_and_back_content() {
    let mut queue: ReusingQueue<u64> = ReusingQueue::new();
    for i in 0..6 {
        queue.push_with(move || i, move |slot: &mut u64| *slot = i);
    }
    assert_eq!(queue.pop_front(), Some(&mut 0));
    assert_eq!(queue.pop(), Some(&mut 5));
    assert_eq!(queue.pop_front(), Some(&mut 1));
    assert!(queue == vec![2, 3, 4]);
    assert_eq!(queue.len(), 3);
    assert_eq!(*queue.get(0), 2);
    assert_eq!(*queue.get(2), 4);
}

#[test]
fn queue_collapse_refills_from_physical_start() {
    let mut queue: ReusingQueue<Probe> = ReusingQueue::from_vec(vec![
        Probe { id: 10, resets: 0 },
        Probe { id: 20, resets: 0 },
        Probe { id: 30, resets: 0 },
    ]);
    queue.pop_front();
    queue.pop_front();
    queue.pop_front();
    assert!(queue.is_empty());

    // The window collapsed, so the next push reuses physical slot 0: the
    // element keeps its identity and has been reset exactly once.
    let element = queue.push_mut();
    assert_eq!(element.id, 10);
    assert_eq!(element.resets, 1);
}

#[test]
fn queue_truncate_zero_is_clear() {
    let mut queue: ReusingQueue<Probe> = ReusingQueue::from_vec(vec![
        Probe { id: 1, resets: 0 },
        Probe { id: 2, resets: 0 },
        Probe { id: 3, resets: 0 },
    ]);
    queue.pop_front();
    queue.truncate(0);
    assert_eq!(queue.len(), 0);

    // Both markers collapsed: the next push starts at physical index 0.
    let element = queue.push_mut();
    assert_eq!(element.id, 1);
    assert_eq!(element.resets, 1);
}

#[test]
fn queue_truncate_longer_is_noop() {
    let mut queue: ReusingQueue<i32> = ReusingQueue::from_vec(vec![7, 8]);
    queue.truncate(2);
    assert!(queue == vec![7, 8]);
    queue.truncate(100);
    assert!(queue == vec![7, 8]);
    queue.truncate(1);
    assert!(queue == vec![7]);
}

#[test]
fn queue_round_trip() {
    let mut queue: ReusingQueue<i32> = ReusingQueue::from_vec(vec![4, 5, 6, 7, 8]);
    queue.pop_front();
    queue.pop();
    let carrier: Vec<i32> = queue.clone().into_vec();
    assert_eq!(carrier, vec![5, 6, 7]);
    let rebuilt: ReusingQueue<i32> = ReusingQueue::from_vec(carrier);
    assert!(rebuilt == queue);
    assert_eq!(rebuilt.len(), 3);
}

#[test]
fn queue_equality_ignores_history() {
    // Same live window, very different histories and retired regions.
    let mut a: ReusingQueue<i32> = ReusingQueue::from_vec(vec![9, 1, 2, 3, 4, 4, 4]);
    a.pop_front();
    a.truncate(3);

    let mut b: ReusingQueue<i32> = ReusingQueue::new();
    for i in 1..4 {
        b.push_with(move || i, move |slot: &mut i32| *slot = i);
    }

    assert!(a == b);
    assert!(b == a);
    assert!(a == a);
    assert!(a == vec![1, 2, 3]);
}

#[test]
fn queue_equals_reusing_vec() {
    let mut queue: ReusingQueue<i32> = ReusingQueue::from_vec(vec![0, 1, 2, 3]);
    queue.pop_front();

    let mut vec: ReusingVec<i32> = ReusingVec::from_vec(vec![1, 2, 3, 99]);
    vec.truncate(3);

    assert!(queue == vec);
}

#[test]
fn queue_pop_empty_is_none() {
    let mut queue: ReusingQueue<String> = ReusingQueue::new();
    assert_eq!(queue.pop(), None);
    assert_eq!(queue.pop_front(), None);
    queue.push_with(|| String::from("x"), |slot: &mut String| slot.clear());
    queue.pop();
    assert_eq!(queue.pop(), None);
    assert_eq!(queue.pop_front(), None);
}

#[test]
fn queue_push_with_closures() {
    let mut queue: ReusingQueue<Vec<u8>> = ReusingQueue::new();
    queue.push_with(Vec::new, |slot: &mut Vec<u8>| slot.clear());
    queue.push_with(|| vec![1, 2, 3], |slot: &mut Vec<u8>| slot.clear());
    queue.pop();
    queue.push_with(Vec::new, |slot: &mut Vec<u8>| slot.clear());
    // The retired [1, 2, 3] buffer was reset in place, not replaced.
    assert_eq!(queue.len(), 2);
    assert!(queue.get(1).is_empty());
}

#[test]
fn queue_get_mut_writes_live_window() {
    let mut queue: ReusingQueue<i32> = ReusingQueue::from_vec(vec![5, 6, 7]);
    queue.pop_front();
    *queue.get_mut(0) = 60;
    assert!(queue == vec![60, 7]);
}
