use ascii_video_visualizer::queues::{FrameType, GenericSharedQueue};

#[test]
fn a_new_queue_is_empty() {
    let mut queue: GenericSharedQueue<u32> = GenericSharedQueue::new();
    assert!(queue.is_empty());
    assert_eq!(queue.len(), 0);
    assert_eq!(queue.try_pop(), None);
    assert!(queue.is_empty());
}

#[test]
fn items_leave_in_the_order_in_which_they_came() {
    let mut queue = GenericSharedQueue::new();
    for item in 0..100u32 {
        queue.push(item);
    }
    assert_eq!(queue.len(), 100);
    for item in 0..100u32 {
        assert_eq!(queue.try_pop(), Some(item));
    }
    assert_eq!(queue.try_pop(), None);
}

#[test]
fn pushes_between_pops_keep_their_order() {
    let mut queue = GenericSharedQueue::new();
    queue.push('a');
    queue.push('b');
    assert_eq!(queue.try_pop(), Some('a'));
    queue.push('c');
    assert_eq!(queue.len(), 2);
    assert!(!queue.is_empty());
    assert_eq!(queue.try_pop(), Some('b'));
    assert_eq!(queue.try_pop(), Some('c'));
    assert_eq!(queue.try_pop(), None);
    assert_eq!(queue.len(), 0);
}

#[test]
fn equal_items_are_each_kept() {
    let mut queue = GenericSharedQueue::new();
    queue.push(7u8);
    queue.push(7u8);
    assert_eq!(queue.len(), 2);
    assert_eq!(queue.try_pop(), Some(7));
    assert_eq!(queue.try_pop(), Some(7));
    assert_eq!(queue.try_pop(), None);
}

#[test]
fn the_two_sides_of_the_conversion_differ() {
    assert_ne!(FrameType::Input, FrameType::Output);
}
