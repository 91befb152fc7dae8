//! What the kernel does with the events of its main loop.

use vstd::prelude::*;
use crate::event::{ErrorEvent, EventErrorLevel};

verus! {

/// The tick at which the kernel stops running.
pub const LAST_TICK: u64 = 10000;

/// The number of ticks between two changes of the cursor.
pub const BLINK_TICKS: u64 = 500;

/// What a kernel does over its life.
pub trait KernelRuntime {
    /// Sets the kernel up.
    fn init(&mut self);

    /// Takes a tick of the timer.
    fn tick(&mut self);

    /// Takes an error.
    fn on_error(&mut self, event: ErrorEvent);

    /// Brings the kernel to a halt.
    fn halt(&mut self);
}

/// What is to be done at a tick.
#[derive(Debug, Clone, Copy, PartialEq, Eq, Structural)]
pub struct TickPlan {
    /// Whether the cursor changes between shown and hidden.
    pub blink: bool,
    /// Whether the kernel goes on running.
    pub keep_running: bool,
}

/// What is to be done at tick `current_tick`: the cursor changes every
/// 500 ticks, and the kernel stops at tick 10000.
pub fn tick_plan(current_tick: u64) -> (plan: TickPlan)
    ensures
        plan.blink == (current_tick % 500 == 0),
        plan.keep_running == (current_tick < 10000),
{
    TickPlan { blink: current_tick % BLINK_TICKS == 0, keep_running: current_tick < LAST_TICK }
}

/// What is to be done about an error.
#[derive(Debug, Clone, Copy, PartialEq, Eq, Structural)]
pub enum ErrorResponse {
    /// Nothing.
    Ignore,
    /// The error is written to the log.
    Log,
    /// The kernel gives up.
    Abort,
}

/// What is to be done about `event`: a fault is logged, an abort ends the
/// kernel, anything less is passed over.
pub fn error_response(event: &ErrorEvent) -> (response: ErrorResponse)
    ensures
        response == match event.spec_level() {
            EventErrorLevel::Fault => ErrorResponse::Log,
            EventErrorLevel::Abort => ErrorResponse::Abort,
            _ => ErrorResponse::Ignore,
        },
{
    match event.level() {
        EventErrorLevel::Fault => ErrorResponse::Log,
        EventErrorLevel::Abort => ErrorResponse::Abort,
        _ => ErrorResponse::Ignore,
    }
}

} // verus!
