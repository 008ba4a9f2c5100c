use std::sync::atomic::AtomicBool;

use ascii_video_visualizer::queues::GenericSharedQueue;
use ascii_video_visualizer::shutdown::{
    advance, poll, request_stop, stop_requested, StageAction, StageState,
};

fn queue_of(items: &[u32]) -> GenericSharedQueue<u32> {
    let mut queue = GenericSharedQueue::new();
    for item in items {
        queue.push(*item);
    }
    queue
}

#[test]
fn a_running_stage_processes_the_head_of_its_queue() {
    for stop in [false, true] {
        let mut queue = queue_of(&[4, 5]);
        let (state, action) = advance(StageState::Running, &mut queue, stop);
        assert_eq!(state, StageState::Running);
        assert!(matches!(action, StageAction::Process(4)));
        assert_eq!(queue.len(), 1);
    }
}

#[test]
fn a_running_stage_waits_over_an_empty_queue() {
    let mut queue = queue_of(&[]);
    let (state, action) = advance(StageState::Running, &mut queue, false);
    assert_eq!(state, StageState::Running);
    assert!(matches!(action, StageAction::Wait));
}

#[test]
fn a_running_stage_starts_to_drain_when_stop_is_requested() {
    let mut queue = queue_of(&[]);
    let (state, action) = advance(StageState::Running, &mut queue, true);
    assert_eq!(state, StageState::Draining);
    assert!(matches!(action, StageAction::Poll));
}

#[test]
fn a_draining_stage_takes_what_came_in_the_meantime() {
    let mut queue = queue_of(&[9]);
    let (state, action) = advance(StageState::Draining, &mut queue, true);
    assert_eq!(state, StageState::Draining);
    assert!(matches!(action, StageAction::Process(9)));
    let (state, action) = advance(state, &mut queue, true);
    assert_eq!(state, StageState::Stopped);
    assert!(matches!(action, StageAction::Terminate));
}

#[test]
fn a_stopped_stage_leaves_its_queue_alone() {
    for stop in [false, true] {
        let mut queue = queue_of(&[1, 2, 3]);
        let (state, action) = advance(StageState::Stopped, &mut queue, stop);
        assert_eq!(state, StageState::Stopped);
        assert!(matches!(action, StageAction::Terminate));
        assert_eq!(queue.len(), 3);
    }
}

#[test]
fn every_queued_item_is_processed_before_the_stage_stops() {
    let mut queue = queue_of(&[1, 2, 3]);
    let mut state = StageState::Running;
    let mut seen = Vec::new();
    while state != StageState::Stopped {
        let (next, action) = advance(state, &mut queue, true);
        state = next;
        match action {
            StageAction::Process(item) => seen.push(item),
            StageAction::Wait => panic!("a stage that was told to stop must not wait"),
            StageAction::Poll | StageAction::Terminate => {}
        }
    }
    assert_eq!(seen, vec![1, 2, 3]);
    assert!(queue.is_empty());
}

#[test]
fn the_flag_is_lowered_until_it_is_raised() {
    let flag = AtomicBool::new(false);
    assert!(!stop_requested(&flag));
    request_stop(&flag);
    assert!(stop_requested(&flag));
    request_stop(&flag);
    assert!(stop_requested(&flag));
}

#[test]
fn a_stage_that_reads_the_flag_follows_it() {
    let flag = AtomicBool::new(false);
    let mut queue = queue_of(&[]);
    let (state, action) = poll(StageState::Running, &mut queue, &flag);
    assert_eq!(state, StageState::Running);
    assert!(matches!(action, StageAction::Wait));
    queue.push(8);
    request_stop(&flag);
    let (state, action) = poll(state, &mut queue, &flag);
    assert_eq!(state, StageState::Running);
    assert!(matches!(action, StageAction::Process(8)));
    let (state, action) = poll(state, &mut queue, &flag);
    assert_eq!(state, StageState::Draining);
    assert!(matches!(action, StageAction::Poll));
    let (state, action) = poll(state, &mut queue, &flag);
    assert_eq!(state, StageState::Stopped);
    assert!(matches!(action, StageAction::Terminate));
}
