//! Timestamped input events as the store takes them.

use vstd::prelude::*;
use crate::key::Key;

verus! {

/// Nanoseconds in a second.
pub const NANOS_PER_SEC: u64 = 1_000_000_000;

/// A point in time: seconds and nanoseconds since the Unix epoch.
#[derive(Clone, Copy, Debug, PartialEq, Eq, Structural)]
pub struct Timestamp {
    pub secs: u64,
    pub nanos: u32,
}

impl Timestamp {
    /// The point in time as nanoseconds since the epoch.
    pub open spec fn as_nanos(self) -> int {
        self.secs * NANOS_PER_SEC + self.nanos
    }

    /// Whole seconds from `earlier` to `self`; `None` where `earlier` is the
    /// later of the two.
    pub open spec fn secs_since(self, earlier: Timestamp) -> Option<int> {
        if self.as_nanos() >= earlier.as_nanos() {
            Some((self.as_nanos() - earlier.as_nanos()) / (NANOS_PER_SEC as int))
        } else {
            None
        }
    }

    fn nanos_since_epoch(self) -> (n: u128)
        ensures
            n == self.as_nanos(),
    {
        let scale: u128 = 1_000_000_000;
        self.secs as u128 * scale + self.nanos as u128
    }

    /// Whole seconds that passed from `earlier` to `self`, `None` where
    /// `earlier` is the later of the two.
    pub fn seconds_since(self, earlier: Timestamp) -> (elapsed: Option<u128>)
        ensures
            match elapsed {
                Some(s) => self.secs_since(earlier) == Some(s as int),
                None => self.secs_since(earlier) is None,
            },
    {
        let later = self.nanos_since_epoch();
        let sooner = earlier.nanos_since_epoch();
        if later >= sooner {
            let scale: u128 = 1_000_000_000;
            Some((later - sooner) / scale)
        } else {
            None
        }
    }
}

/// What happened: only key presses and releases are told apart.
#[derive(Clone, Copy, Debug, PartialEq, Eq, Structural)]
pub enum EventType {
    KeyPress(Key),
    KeyRelease(Key),
    /// Anything else: a mouse button, a move, the wheel.
    Other,
}

/// An input event: when it came, what the system made of it as text, and
/// what it was.
#[derive(Debug, PartialEq)]
pub struct Event {
    pub time: Timestamp,
    pub name: Option<String>,
    pub event_type: EventType,
}

impl Clone for Event {
    fn clone(&self) -> (res: Self)
        ensures
            res == *self,
    {
        let name = match &self.name {
            Some(text) => Some(text.clone()),
            None => None,
        };
        Event { time: self.time, name, event_type: self.event_type }
    }
}

impl Event {
    /// Whether the event is a key press.
    pub open spec fn is_press(&self) -> bool {
        self.event_type is KeyPress
    }
}

/// Whether `later` came less than `max_secs` seconds after `earlier`. An
/// `earlier` that is in fact the later of the two is never within the delay.
pub open spec fn within_delay(later: Timestamp, earlier: Timestamp, max_secs: u64) -> bool {
    match later.secs_since(earlier) {
        Some(s) => s < max_secs,
        None => false,
    }
}

/// Check if 2 events are occuring within the maximum key delay: whether
/// `e1` came less than `max_secs` seconds after `e2`.
pub fn is_within_delay(e1: &Event, e2: &Event, max_secs: u64) -> (within: bool)
    ensures
        within == within_delay(e1.time, e2.time, max_secs),
{
    match e1.time.seconds_since(e2.time) {
        Some(s) => s < max_secs as u128,
        None => false,
    }
}

} // verus!
