use blockdedup::channel::BoundedQueue;
use blockdedup::scan::scan_bytes;

fn result_named(path: &str) -> blockdedup::scan::ScanResult {
    scan_bytes(String::from(path), &[1u8, 2, 3], 16, 0, 1)
}

#[test]
fn queue_hands_results_back_in_order() {
    let mut queue = BoundedQueue::new(4);
    assert!(queue.try_recv().is_none());
    assert!(queue.try_send(result_named("/a")).is_none());
    assert!(queue.try_send(result_named("/b")).is_none());
    assert_eq!(queue.try_recv().unwrap().path, String::from("/a"));
    assert_eq!(queue.try_recv().unwrap().path, String::from("/b"));
    assert!(queue.try_recv().is_none());
}

#[test]
fn full_queue_refuses_until_one_is_drained() {
    // Capacity 2: the third send comes straight back, and enters only
    // after the consumer has drained one result.
    let mut queue = BoundedQueue::new(2);
    assert!(queue.try_send(result_named("/a")).is_none());
    assert!(queue.try_send(result_named("/b")).is_none());
    assert_eq!(queue.len(), 2);
    let refused = queue.try_send(result_named("/c"));
    let held_back = refused.expect("a full queue must refuse the next result");
    assert_eq!(held_back.path, String::from("/c"));
    assert_eq!(queue.len(), 2);
    assert_eq!(queue.try_recv().unwrap().path, String::from("/a"));
    assert!(queue.try_send(held_back).is_none());
    assert_eq!(queue.len(), 2);
    assert_eq!(queue.try_recv().unwrap().path, String::from("/b"));
    assert_eq!(queue.try_recv().unwrap().path, String::from("/c"));
}

#[test]
fn drained_queue_is_the_consumers_exit_condition() {
    let mut queue = BoundedQueue::new(1);
    assert!(queue.try_send(result_named("/only")).is_none());
    assert!(queue.try_recv().is_some());
    assert_eq!(queue.len(), 0);
    assert!(queue.try_recv().is_none());
}
