//! What holds of a tick of the schedule, for all schedules.
use crate::game::events::{QueuedEvent, ScheduledEvent};
use crate::game::{after_tick, due_positions, marked, ticked, vacated};
use vstd::prelude::*;
use vstd::seq_lib::{to_multiset_build, to_multiset_remove, to_multiset_update};

verus! {

/// The events that stay scheduled over a tick, each one tick nearer, in
/// schedule order.
pub open spec fn waiting(schedule: Seq<ScheduledEvent>) -> Seq<ScheduledEvent>
    decreases schedule.len(),
{
    if schedule.len() == 0 {
        Seq::empty()
    } else if schedule.last().ticks_left == 0 {
        waiting(schedule.drop_last())
    } else {
        waiting(schedule.drop_last()).push(ticked(schedule.last()))
    }
}

/// A slot whose event was handed out.
pub open spec fn spent() -> ScheduledEvent {
    ScheduledEvent { ticks_left: 0, event: QueuedEvent::Empty }
}

/// `positions` ascend strictly and leave room below the end of `len` slots.
pub open spec fn ascending_within(positions: Seq<usize>, len: int) -> bool {
    &&& forall|j: int, k: int| 0 <= j < k < positions.len() ==> positions[j] < positions[k]
    &&& forall|j: int| 0 <= j < positions.len() ==> (#[trigger] positions[j]) < len
}

proof fn lemma_due_positions(schedule: Seq<ScheduledEvent>)
    requires
        schedule.len() <= usize::MAX,
    ensures
        ascending_within(due_positions(schedule), schedule.len() as int),
        due_positions(schedule).len() + waiting(schedule).len() == schedule.len(),
        forall|j: int|
            0 <= j < due_positions(schedule).len() ==> schedule[(#[trigger] due_positions(schedule)[j]) as int].ticks_left
                == 0,
    decreases schedule.len(),
{
    if schedule.len() > 0 {
        lemma_due_positions(schedule.drop_last());
        let shorter = due_positions(schedule.drop_last());
        assert forall|j: int| 0 <= j < due_positions(schedule).len() implies schedule[(
        #[trigger] due_positions(schedule)[j]) as int].ticks_left == 0 by {
            if j < shorter.len() {
                assert(due_positions(schedule)[j] == shorter[j]);
            }
        }
    }
}

proof fn lemma_swap_remove_multiset(slots: Seq<ScheduledEvent>, p: int)
    requires
        0 <= p < slots.len(),
    ensures
        slots.update(p, slots.last()).drop_last().to_multiset() =~= slots.to_multiset().remove(slots[p]),
{
    let moved = slots.update(p, slots.last());
    to_multiset_update(slots, p, slots.last());
    to_multiset_remove(moved, moved.len() - 1);
    assert(moved.remove(moved.len() - 1) =~= moved.drop_last());
    slots.to_multiset_ensures();
    assert(slots.to_multiset().count(slots[p]) > 0);
}

proof fn lemma_vacated_multiset(slots: Seq<ScheduledEvent>, positions: Seq<usize>)
    requires
        ascending_within(positions, slots.len() as int),
        forall|j: int| 0 <= j < positions.len() ==> slots[(#[trigger] positions[j]) as int] == spent(),
    ensures
        vacated(slots, positions).len() + positions.len() == slots.len(),
        forall|x: ScheduledEvent|
            x != spent() ==> #[trigger] vacated(slots, positions).to_multiset().count(x)
                == slots.to_multiset().count(x),
        vacated(slots, positions).to_multiset().count(spent()) + positions.len()
            == slots.to_multiset().count(spent()),
    decreases positions.len(),
{
    if positions.len() > 0 {
        let p = positions.last() as int;
        let rest = slots.update(p, slots.last()).drop_last();
        lemma_swap_remove_multiset(slots, p);
        assert(slots[p] == spent());
        slots.to_multiset_ensures();
        assert(slots.to_multiset().count(spent()) > 0);
        let fewer = positions.drop_last();
        assert forall|j: int| 0 <= j < fewer.len() implies (#[trigger] fewer[j]) < rest.len()
            && rest[fewer[j] as int] == spent() by {
            assert(fewer[j] == positions[j]);
            assert(positions[j] < positions[positions.len() - 1]);
        }
        lemma_vacated_multiset(rest, fewer);
    }
}

proof fn lemma_marked_multiset(schedule: Seq<ScheduledEvent>)
    ensures
        forall|x: ScheduledEvent|
            x != spent() ==> #[trigger] marked(schedule).to_multiset().count(x)
                == waiting(schedule).to_multiset().count(x),
        marked(schedule).to_multiset().count(spent()) == waiting(
            schedule,
        ).to_multiset().count(spent()) + due_positions(schedule).len(),
    decreases schedule.len(),
{
    let all = marked(schedule);
    if schedule.len() == 0 {
        assert(all =~= waiting(schedule));
    } else {
        let shorter = schedule.drop_last();
        lemma_marked_multiset(shorter);
        let marked_shorter = marked(shorter);
        assert(all =~= marked_shorter.push(ticked(schedule.last())));
        to_multiset_build(marked_shorter, ticked(schedule.last()));
        to_multiset_build(waiting(shorter), ticked(schedule.last()));
    }
}

/// A tick keeps exactly the events that were not due, each one tick nearer:
/// none is lost, none is doubled, and no spent slot stays behind. Only their
/// order may change.
pub proof fn lemma_tick_keeps_waiting_events(schedule: Seq<ScheduledEvent>)
    requires
        schedule.len() <= usize::MAX,
    ensures
        after_tick(schedule).to_multiset() =~= waiting(schedule).to_multiset(),
        after_tick(schedule).len() + due_positions(schedule).len() == schedule.len(),
{
    lemma_due_positions(schedule);
    lemma_marked_multiset(schedule);
    lemma_vacated_multiset(marked(schedule), due_positions(schedule));
    assert forall|x: ScheduledEvent| after_tick(schedule).to_multiset().count(x) == waiting(
        schedule,
    ).to_multiset().count(x) by {
        if x != spent() {
        }
    }
}

} // verus!
