use std::sync::atomic::{AtomicBool, Ordering};
use vstd::prelude::*;

use crate::queues::GenericSharedQueue;

verus! {

/// Where a stage stands in its life.
#[derive(Clone, Copy, Debug, PartialEq, Eq, Structural)]
pub enum StageState {
    /// The stage takes items as they come and waits when there are none.
    Running,
    /// The stage has seen the stop flag and takes what is still queued, without waiting.
    Draining,
    /// The stage has ended and touches its queue no more.
    Stopped,
}

/// What a stage is to do next.
pub enum StageAction<T> {
    /// Process this item, which has left the queue.
    Process(T),
    /// Wait until the queue may hold an item again, then ask again.
    Wait,
    /// Ask again at once.
    Poll,
    /// End the stage.
    Terminate,
}

/// The state that follows `state` when the stage finds `queued` in its queue and reads
/// the stop flag as `stop_requested`.
///
/// A stage that finds an item stays as it is. A running stage that finds none keeps
/// running if no stop was requested and starts to drain if one was. A draining stage
/// that finds none stops.
pub open spec fn next_state<T>(state: StageState, queued: Seq<T>, stop_requested: bool)
    -> StageState {
    match state {
        StageState::Running => if queued.len() == 0 && stop_requested {
            StageState::Draining
        } else {
            StageState::Running
        },
        StageState::Draining => if queued.len() == 0 {
            StageState::Stopped
        } else {
            StageState::Draining
        },
        StageState::Stopped => StageState::Stopped,
    }
}

/// What the stage does on that step: it processes the head of the queue where there is
/// one, and never after it has stopped; else it waits, asks again or terminates.
pub open spec fn next_action<T>(state: StageState, queued: Seq<T>, stop_requested: bool)
    -> StageAction<T> {
    match state {
        StageState::Stopped => StageAction::Terminate,
        StageState::Running => if queued.len() > 0 {
            StageAction::Process(queued[0])
        } else if stop_requested {
            StageAction::Poll
        } else {
            StageAction::Wait
        },
        StageState::Draining => if queued.len() > 0 {
            StageAction::Process(queued[0])
        } else {
            StageAction::Terminate
        },
    }
}

/// What the step leaves in the queue: all but the head where the head is processed.
pub open spec fn next_queue<T>(state: StageState, queued: Seq<T>) -> Seq<T> {
    if state != StageState::Stopped && queued.len() > 0 {
        queued.drop_first()
    } else {
        queued
    }
}

/// One step of a stage that holds its input queue.
pub fn advance<T>(state: StageState, queue: &mut GenericSharedQueue<T>, stop_requested: bool) -> (step:
    (StageState, StageAction<T>))
    ensures
        step.0 == next_state(state, old(queue)@, stop_requested),
        step.1 == next_action(state, old(queue)@, stop_requested),
        final(queue)@ == next_queue(state, old(queue)@),
{
    match state {
        StageState::Stopped => (StageState::Stopped, StageAction::Terminate),
        StageState::Running => match queue.try_pop() {
            Some(item) => (StageState::Running, StageAction::Process(item)),
            None => if stop_requested {
                (StageState::Draining, StageAction::Poll)
            } else {
                (StageState::Running, StageAction::Wait)
            },
        },
        StageState::Draining => match queue.try_pop() {
            Some(item) => (StageState::Draining, StageAction::Process(item)),
            None => (StageState::Stopped, StageAction::Terminate),
        },
    }
}

/// Raises the stop flag. The source does so once, when it has pushed its last frame.
pub fn request_stop(flag: &AtomicBool) {
    flag.store(true, Ordering::Relaxed);
}

/// Reads the stop flag.
pub fn stop_requested(flag: &AtomicBool) -> bool {
    flag.load(Ordering::Relaxed)
}

/// One step of a stage that reads the stop flag itself: whatever the flag held, the step
/// is the one that `advance` takes for that reading.
pub fn poll<T>(state: StageState, queue: &mut GenericSharedQueue<T>, flag: &AtomicBool) -> (step: (
    StageState,
    StageAction<T>,
))
    ensures
        exists|stop: bool|
            {
                &&& step.0 == #[trigger] next_state(state, old(queue)@, stop)
                &&& step.1 == next_action(state, old(queue)@, stop)
            },
        final(queue)@ == next_queue(state, old(queue)@),
{
    let stop = stop_requested(flag);
    advance(state, queue, stop)
}

/// A stage that has stopped stays stopped and takes nothing from its queue.
pub proof fn lemma_stopped_is_final<T>(queued: Seq<T>, stop_requested: bool)
    ensures
        next_state(StageState::Stopped, queued, stop_requested) == StageState::Stopped,
        next_action(StageState::Stopped, queued, stop_requested) == StageAction::<T>::Terminate,
        next_queue(StageState::Stopped, queued) == queued,
{
}

/// No item is lost: a step shortens the queue only by handing its head out to be
/// processed, and a stage never stops or starts to wait over a queue that holds an item.
pub proof fn lemma_no_item_lost<T>(state: StageState, queued: Seq<T>, stop_requested: bool)
    requires
        state != StageState::Stopped,
        queued.len() > 0,
    ensures
        next_action(state, queued, stop_requested) == StageAction::Process(queued[0]),
        next_queue(state, queued) == queued.drop_first(),
        next_state(state, queued, stop_requested) == state,
{
}

/// A running stage stops only by way of draining: it leaves the running state only when
/// it finds its queue empty with the stop flag raised, and the draining stage looks at
/// the queue once more before it stops.
pub proof fn lemma_stop_needs_flag_and_empty_queue<T>(queued: Seq<T>, stop_requested: bool)
    ensures
        next_state(StageState::Running, queued, stop_requested) != StageState::Stopped,
        next_state(StageState::Running, queued, stop_requested) == StageState::Draining <==> (
        queued.len() == 0 && stop_requested),
        next_state(StageState::Draining, queued, stop_requested) == StageState::Stopped <==> queued.len()
            == 0,
{
}

/// How far a stage is from its end: a stage moves through its states in one direction.
pub open spec fn steps_left(state: StageState) -> nat {
    match state {
        StageState::Running => 2,
        StageState::Draining => 1,
        StageState::Stopped => 0,
    }
}

/// The items that a stage processes, step after step, from `state` over a queue that
/// holds `queued` and gets nothing more, until it waits or terminates. The stop flag
/// reads as `stop_requested` at every step.
pub open spec fn processed<T>(state: StageState, queued: Seq<T>, stop_requested: bool) -> Seq<T>
    decreases queued.len(), steps_left(state),
{
    match next_action(state, queued, stop_requested) {
        StageAction::Process(item) => seq![item] + processed(
            next_state(state, queued, stop_requested),
            next_queue(state, queued),
            stop_requested,
        ),
        StageAction::Poll => processed(
            next_state(state, queued, stop_requested),
            next_queue(state, queued),
            stop_requested,
        ),
        StageAction::Wait => Seq::empty(),
        StageAction::Terminate => Seq::empty(),
    }
}

/// The state in which those steps leave the stage.
pub open spec fn settled<T>(state: StageState, queued: Seq<T>, stop_requested: bool) -> StageState
    decreases queued.len(), steps_left(state),
{
    match next_action(state, queued, stop_requested) {
        StageAction::Process(item) => settled(
            next_state(state, queued, stop_requested),
            next_queue(state, queued),
            stop_requested,
        ),
        StageAction::Poll => settled(
            next_state(state, queued, stop_requested),
            next_queue(state, queued),
            stop_requested,
        ),
        StageAction::Wait => next_state(state, queued, stop_requested),
        StageAction::Terminate => next_state(state, queued, stop_requested),
    }
}

/// A stage that has not stopped processes every queued item, each once and in the order
/// of the queue, before it waits or stops; and it stops only if a stop was requested or
/// it was draining already.
pub proof fn lemma_queue_is_drained<T>(state: StageState, queued: Seq<T>, stop_requested: bool)
    requires
        state != StageState::Stopped,
    ensures
        processed(state, queued, stop_requested) == queued,
        settled(state, queued, stop_requested) == if stop_requested || state
            == StageState::Draining {
            StageState::Stopped
        } else {
            StageState::Running
        },
    decreases queued.len(), steps_left(state),
{
    if queued.len() > 0 {
        lemma_queue_is_drained(state, queued.drop_first(), stop_requested);
        assert(seq![queued[0]] + queued.drop_first() == queued);
    } else if state == StageState::Running && stop_requested {
        lemma_queue_is_drained(StageState::Draining, queued, stop_requested);
    } else {
        assert(processed(state, queued, stop_requested) == Seq::<T>::empty());
    }
}

} // verus!
