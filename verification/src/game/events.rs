//! Events that the game raises for itself, now or some ticks from now.
use mlua::Table;
use vstd::prelude::*;

verus! {

#[derive(Debug)]
pub enum QueuedEvent {
    /// No event: what a slot holds once its event was handed out.
    Empty,
    /// Run start.lua script
    RunStartScript,
    /// Push menu
    PushMenu(Box<str>, Table),
    /// Pop top menu from stack
    PopMenu,
    /// Run script scripts/script_id.lua
    RunScript(Box<str>),
}

impl Default for QueuedEvent {
    fn default() -> (r: Self)
        ensures
            r == QueuedEvent::Empty,
    {
        QueuedEvent::Empty
    }
}

#[derive(Debug)]
pub struct ScheduledEvent {
    pub ticks_left: usize,
    pub event: QueuedEvent,
}

} // verus!
