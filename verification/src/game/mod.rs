//! The running game: its interpreter and the events scheduled for later ticks.
pub mod events;
pub mod laws;

use crate::assets::AssetManager;
use crate::game::events::{QueuedEvent, ScheduledEvent};
use crate::registries::GameRegistries;
use mlua::Lua;
use std::collections::VecDeque;
use vstd::prelude::*;

verus! {

/// One scheduled event after a tick: an event that was due has been handed
/// out and leaves an empty slot; any other is one tick nearer.
pub open spec fn ticked(entry: ScheduledEvent) -> ScheduledEvent {
    if entry.ticks_left == 0 {
        ScheduledEvent { ticks_left: 0, event: QueuedEvent::Empty }
    } else {
        ScheduledEvent { ticks_left: (entry.ticks_left - 1) as usize, event: entry.event }
    }
}

/// The positions of the events that are due, ascending.
pub open spec fn due_positions(schedule: Seq<ScheduledEvent>) -> Seq<usize>
    decreases schedule.len(),
{
    if schedule.len() == 0 {
        Seq::empty()
    } else if schedule.last().ticks_left == 0 {
        due_positions(schedule.drop_last()).push((schedule.len() - 1) as usize)
    } else {
        due_positions(schedule.drop_last())
    }
}

/// The events that are due, in schedule order.
pub open spec fn due_events(schedule: Seq<ScheduledEvent>) -> Seq<QueuedEvent>
    decreases schedule.len(),
{
    if schedule.len() == 0 {
        Seq::empty()
    } else if schedule.last().ticks_left == 0 {
        due_events(schedule.drop_last()).push(schedule.last().event)
    } else {
        due_events(schedule.drop_last())
    }
}

/// `slots` after the slots at `positions` were given up, last position
/// first, each filled by the slot that was last at that moment.
pub open spec fn vacated(slots: Seq<ScheduledEvent>, positions: Seq<usize>) -> Seq<ScheduledEvent>
    decreases positions.len(),
{
    if positions.len() == 0 {
        slots
    } else {
        vacated(slots.update(positions.last() as int, slots.last()).drop_last(), positions.drop_last())
    }
}

/// Every slot of the schedule after a tick, before the spent ones are given up.
pub open spec fn marked(schedule: Seq<ScheduledEvent>) -> Seq<ScheduledEvent> {
    schedule.map_values(|entry: ScheduledEvent| ticked(entry))
}

/// The schedule that a tick leaves.
pub open spec fn after_tick(schedule: Seq<ScheduledEvent>) -> Seq<ScheduledEvent> {
    vacated(marked(schedule), due_positions(schedule))
}

/// Moves the schedule one tick on: hands out the events that are due, in
/// schedule order, brings every other event one tick nearer, and gives up the
/// slots of those handed out.
pub fn advance_schedule(schedule: &mut Vec<ScheduledEvent>) -> (due: VecDeque<QueuedEvent>)
    ensures
        due@ == due_events(old(schedule)@),
        final(schedule)@ == after_tick(old(schedule)@),
{
    let ghost start = schedule@;
    let mut event_queue: VecDeque<QueuedEvent> = VecDeque::new();
    let mut completed: Vec<usize> = Vec::new();
    let schedule_size: usize = schedule.len();
    let mut i: usize = 0;
    while i < schedule_size
        invariant
            i <= schedule_size,
            schedule_size == start.len(),
            schedule.len() == schedule_size,
            completed@ == due_positions(start.take(i as int)),
            event_queue@ == due_events(start.take(i as int)),
            forall|j: int| 0 <= j < i ==> #[trigger] schedule@[j] == ticked(start[j]),
            forall|j: int| i <= j < schedule_size ==> #[trigger] schedule@[j] == start[j],
            forall|j: int| 0 <= j < completed.len() ==> (#[trigger] completed@[j]) + (completed.len() - 1 - j) < i,
        decreases schedule_size - i,
    {
        assert(start.take(i as int + 1).drop_last() =~= start.take(i as int));
        if schedule[i].ticks_left == 0 {
            let mut new_event = QueuedEvent::Empty;
            std::mem::swap(&mut new_event, &mut schedule[i].event);
            event_queue.push_back(new_event);
            completed.push(i);
        } else {
            schedule[i].ticks_left -= 1;
        }
        i += 1;
    }
    assert(start.take(schedule_size as int) =~= start);
    assert(schedule@ =~= marked(start));
    let mut left: usize = completed.len();
    assert(completed@.take(left as int) =~= completed@);
    while left > 0
        invariant
            left <= completed.len(),
            forall|j: int| 0 <= j < left ==> (#[trigger] completed@[j]) + (left - 1 - j) < schedule.len(),
            vacated(schedule@, completed@.take(left as int)) == after_tick(start),
        decreases left,
    {
        left -= 1;
        let remove_id: usize = completed[left];
        assert(completed@.take(left as int + 1).drop_last() =~= completed@.take(left as int));
        schedule.swap_remove(remove_id);
    }
    event_queue
}

/// Everything about the game in progress.
pub struct GameState {
    lua_state: Lua,
    event_schedule: Vec<ScheduledEvent>,
}

impl GameState {
    /// The events waiting for a later tick.
    pub closed spec fn schedule(&self) -> Seq<ScheduledEvent> {
        self.event_schedule@
    }

    /// The interpreter in which the game's scripts run.
    pub closed spec fn interpreter(&self) -> Lua {
        self.lua_state
    }

    /// A game that runs its scripts in `lua_state` and has nothing scheduled yet.
    pub fn new(lua_state: Lua) -> (r: Self)
        ensures
            r.interpreter() == lua_state,
            r.schedule() == Seq::<ScheduledEvent>::empty(),
    {
        GameState { lua_state, event_schedule: Vec::new() }
    }
}

/// One tick of the game: the schedule moves on, and the events that came
/// due are taken off it.
pub fn game_state_update_tick(
    game_state: &mut GameState,
    asset_manager: &mut AssetManager,
    registries: &GameRegistries,
)
    ensures
        final(game_state).schedule() == after_tick(old(game_state).schedule()),
        final(game_state).interpreter() == old(game_state).interpreter(),
        *final(asset_manager) == *old(asset_manager),
{
    let _due = advance_schedule(&mut game_state.event_schedule);
}

} // verus!
