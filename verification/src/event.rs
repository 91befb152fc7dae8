//! The events that the kernel reacts to, and the queue that holds them
//! between the interrupt that raises them and the loop that handles them.

use std::collections::VecDeque;
use vstd::prelude::*;
use crate::cmos::DateTime as Rtc;

verus! {

/// Something that happened and that the kernel is told of.
#[derive(Debug, Clone)]
pub enum Event {
    /// A timer event is triggered when the system timer ticks.
    Timer,
    /// A real-time clock event is triggered when the real-time clock ticks.
    Rtc(Rtc),
    /// An error event is triggered when the kernel encounters an error.
    Error(ErrorEvent),
}

impl Event {
    /// The event that reports `event`.
    pub fn error(event: ErrorEvent) -> (reported: Self)
        ensures
            reported == Event::Error(event),
    {
        Event::Error(event)
    }
}

/// How grave an error is.
#[derive(Debug, Clone, Copy, PartialEq, Eq, Structural)]
pub enum EventErrorLevel {
    /// A (non-maskable) interrupt is an exception that cannot be ignored or masked and
    /// is a result of a serious hardware error.
    Interrupt,
    /// A trap is an exception that just gets reported and then the program continues.
    Trap,
    /// A fault is an exception that must be handled and can be recovered from.
    Fault,
    /// An abort is an exception that cannot be recovered from and the program must be terminated.
    Abort,
}

/// An exception of the processor, with a description of the state it was
/// raised in and, for some, the error code that came with it.
#[derive(Debug, Clone)]
pub enum ErrorEvent {
    /// A breakpoint was encountered.
    Breakpoint(String),
    /// An invalid opcode was encountered.
    InvalidOpcode(String),
    /// An invalid Task State Segment was encountered.
    InvalidTss(String, u64),
    /// A page fault was encountered.
    PageFault(String, u64),
    /// A general protection fault was encountered.
    GeneralProtectionFault(String, u64),
    /// A double fault was encountered.
    DoubleFault(String, u64),
}

impl ErrorEvent {
    /// The message of the error event.
    pub open spec fn spec_message(&self) -> String {
        match self {
            ErrorEvent::Breakpoint(message) => *message,
            ErrorEvent::InvalidOpcode(message) => *message,
            ErrorEvent::InvalidTss(message, _) => *message,
            ErrorEvent::PageFault(message, _) => *message,
            ErrorEvent::GeneralProtectionFault(message, _) => *message,
            ErrorEvent::DoubleFault(message, _) => *message,
        }
    }

    /// The level of the error event: a breakpoint is a trap, a double
    /// fault an abort, and every other a fault.
    pub open spec fn spec_level(&self) -> EventErrorLevel {
        match self {
            ErrorEvent::Breakpoint(_) => EventErrorLevel::Trap,
            ErrorEvent::DoubleFault(_, _) => EventErrorLevel::Abort,
            _ => EventErrorLevel::Fault,
        }
    }

    /// Returns the message associated with the error event.
    pub fn message(&self) -> (message: &String)
        ensures
            *message == self.spec_message(),
    {
        match self {
            ErrorEvent::Breakpoint(message) => message,
            ErrorEvent::InvalidOpcode(message) => message,
            ErrorEvent::InvalidTss(message, ..) => message,
            ErrorEvent::PageFault(message, ..) => message,
            ErrorEvent::GeneralProtectionFault(message, ..) => message,
            ErrorEvent::DoubleFault(message, ..) => message,
        }
    }

    /// Returns the level of the error event.
    pub fn level(&self) -> (level: EventErrorLevel)
        ensures
            level == self.spec_level(),
    {
        match self {
            ErrorEvent::Breakpoint(..) => EventErrorLevel::Trap,
            ErrorEvent::InvalidOpcode(..) => EventErrorLevel::Fault,
            ErrorEvent::InvalidTss(..) => EventErrorLevel::Fault,
            ErrorEvent::PageFault(..) => EventErrorLevel::Fault,
            ErrorEvent::GeneralProtectionFault(..) => EventErrorLevel::Fault,
            ErrorEvent::DoubleFault(..) => EventErrorLevel::Abort,
        }
    }
}

/// Something that takes events.
pub trait EventHandler {
    /// The events that the handler can take in its present state.
    spec fn accepts(&self, event: Event) -> bool;

    /// Takes `event`.
    fn handle(&mut self, event: Event)
        requires
            old(self).accepts(event),
    ;
}

/// The events that were raised and not yet handled, oldest first, and a
/// mark that says whether any was raised since the last round of handling
/// came to its end.
pub struct EventQueue {
    queue: VecDeque<Event>,
    new_event: bool,
}

impl EventQueue {
    /// The events that wait, oldest first.
    pub closed spec fn waiting(&self) -> Seq<Event> {
        self.queue@
    }

    /// Whether an event was raised since the last round came to its end.
    pub closed spec fn marked(&self) -> bool {
        self.new_event
    }

    /// A queue with no event and no mark.
    pub fn new() -> (queue: Self)
        ensures
            queue.waiting() == Seq::<Event>::empty(),
            !queue.marked(),
    {
        Self { queue: VecDeque::new(), new_event: false }
    }

    /// Puts `event` behind the events that wait, and sets the mark.
    pub fn push(&mut self, event: Event)
        ensures
            final(self).waiting() == old(self).waiting().push(event),
            final(self).marked(),
    {
        self.queue.push_back(event);
        self.new_event = true;
    }

    /// Whether an event was raised since the last round came to its end.
    pub fn has_new_event(&self) -> (marked: bool)
        ensures
            marked == self.marked(),
    {
        self.new_event
    }

    /// How many events wait.
    pub fn len(&self) -> (count: usize)
        ensures
            count == self.waiting().len(),
    {
        self.queue.len()
    }

    /// Starts a round of handling: hands out the events that wait, oldest
    /// first, and leaves the queue empty. The mark stays until the round
    /// has come to its end.
    pub fn begin_dispatch(&mut self) -> (events: VecDeque<Event>)
        ensures
            events@ == old(self).waiting(),
            final(self).waiting() == Seq::<Event>::empty(),
            final(self).marked() == old(self).marked(),
    {
        let mut local_queue: VecDeque<Event> = VecDeque::new();
        std::mem::swap(&mut self.queue, &mut local_queue);
        local_queue
    }

    /// Ends a round of handling in which every event was offered to the
    /// handlers: clears the mark. Events that were raised meanwhile stay.
    pub fn finish_dispatch(&mut self)
        ensures
            final(self).waiting() == old(self).waiting(),
            !final(self).marked(),
    {
        self.new_event = false;
    }
}

} // verus!
