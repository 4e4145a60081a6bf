use vstd::prelude::*;

verus! {

/// The kind of phase a match can be in; every phase change is logged as one
/// of these.
#[derive(Clone, Copy, Debug, PartialEq, Eq, Structural)]
pub enum EventType {
    Intermission,
    NewCall,
    RoundWin,
    NewRound,
    EndOfGame,
}

/// One phase-change record: the kind of phase entered, its planned duration
/// in seconds, and the wall-clock moment (epoch milliseconds) it began.
/// Records are immutable once created and the timeline only ever grows.
#[derive(Clone, Debug)]
pub struct Event {
    event_type: EventType,
    duration: u8,
    start_time: i64,
}

impl Event {
    pub closed spec fn spec_event_type(self) -> EventType {
        self.event_type
    }

    pub closed spec fn spec_duration(self) -> u8 {
        self.duration
    }

    pub closed spec fn spec_start_time(self) -> i64 {
        self.start_time
    }

    pub fn event_type(&self) -> (t: EventType)
        ensures
            t == self.spec_event_type(),
    {
        self.event_type
    }

    pub fn duration(&self) -> (d: u8)
        ensures
            d == self.spec_duration(),
    {
        self.duration
    }

    pub fn start_time(&self) -> (t: i64)
        ensures
            t == self.spec_start_time(),
    {
        self.start_time
    }
}

/// Build an event stamped with the given wall-clock moment.
pub fn new_at(event_type: EventType, event_duration: u64, now: i64) -> (e: Event)
    requires
        event_duration <= u8::MAX,
    ensures
        e.spec_event_type() == event_type,
        e.spec_duration() == event_duration,
        e.spec_start_time() == now,
{
    Event { event_type, duration: event_duration as u8, start_time: now }
}

/// Build an event stamped with the current wall-clock time.
pub fn new(event_type: EventType, event_duration: u64) -> (e: Event)
    requires
        event_duration <= u8::MAX,
    ensures
        e.spec_event_type() == event_type,
        e.spec_duration() == event_duration,
{
    let now: i64 = crate::clock::now_millis();
    new_at(event_type, event_duration, now)
}

} // verus!
