//! The numbers by which the event tap of the window server names its events.
use vstd::prelude::*;

verus! {

pub const K_CG_EVENT_KEY_DOWN: u32 = 10;

pub const K_CG_EVENT_KEY_UP: u32 = 11;

pub const K_CG_EVENT_FLAGS_CHANGED: u32 = 12;

/// The kinds of keyboard event that a tap can ask for.
#[derive(Debug, Clone, Copy, PartialEq, Eq, Structural)]
pub enum EventType {
    KeyDown,
    KeyUp,
    FlagsChanged,
}

/// A keyboard event as the tap hands it on: its kind and the code of its key.
#[derive(Debug, Clone, Copy, PartialEq, Eq, Structural)]
pub struct KeyEvent {
    pub etype: EventType,
    pub code: u16,
}

/// The states of the keyboard that a made-up event can start from.
#[derive(Debug, Clone, Copy, PartialEq, Eq, Structural)]
pub enum CGEventSourceStateID {
    Private,
    CombinedSessionState,
    HIDSystemState,
}

/// The number of a state of the event source.
pub open spec fn source_state_number(state: CGEventSourceStateID) -> int {
    match state {
        CGEventSourceStateID::Private => -1,
        CGEventSourceStateID::CombinedSessionState => 0,
        CGEventSourceStateID::HIDSystemState => 1,
    }
}

impl CGEventSourceStateID {
    /// The number of the state.
    pub fn number(&self) -> (r: i32)
        ensures
            r == source_state_number(*self),
    {
        match self {
            CGEventSourceStateID::Private => -1,
            CGEventSourceStateID::CombinedSessionState => 0,
            CGEventSourceStateID::HIDSystemState => 1,
        }
    }
}

/// The kind of event that a number of the tap stands for.
pub open spec fn event_type_of(number: u32) -> Option<EventType> {
    if number == K_CG_EVENT_KEY_DOWN {
        Some(EventType::KeyDown)
    } else if number == K_CG_EVENT_KEY_UP {
        Some(EventType::KeyUp)
    } else if number == K_CG_EVENT_FLAGS_CHANGED {
        Some(EventType::FlagsChanged)
    } else {
        None
    }
}

/// The kind of event that a number of the tap stands for, if it is one of
/// the three keyboard events.
pub fn event_type_from_number(number: u32) -> (r: Option<EventType>)
    ensures
        r == event_type_of(number),
{
    if number == K_CG_EVENT_KEY_DOWN {
        Some(EventType::KeyDown)
    } else if number == K_CG_EVENT_KEY_UP {
        Some(EventType::KeyUp)
    } else if number == K_CG_EVENT_FLAGS_CHANGED {
        Some(EventType::FlagsChanged)
    } else {
        None
    }
}

/// The mask with the one bit of the event kind `event_type` set.
#[allow(non_snake_case)]
pub fn CGEventMaskBit(event_type: u32) -> (r: u64)
    requires
        event_type < 64,
    ensures
        r == 1u64 << event_type,
{
    1u64 << event_type
}

} // verus!
