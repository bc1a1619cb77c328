//! Lifecycle events published on a room's event channel.

use vstd::prelude::*;

verus! {

/// A lifecycle notification delivered to subscribers of a room.
///
/// `UserJoined` and `UserLeft` are emitted by external callers that hold
/// the room's publisher surface; `RoomDelete` is emitted exactly once, by
/// the room itself, as its terminal event.
#[derive(Clone, Debug, PartialEq)]
pub enum RoomEvent {
    UserJoined(String),
    UserLeft(String),
    RoomDelete,
}

/// Whether an event is the terminal `RoomDelete` notification.
pub open spec fn is_room_delete(e: RoomEvent) -> bool {
    e is RoomDelete
}

impl RoomEvent {
    /// An owned copy of the event, equal to this one.
    ///
    /// Written by hand so that verified code knows the copy equals the
    /// source; nothing is known about the derived `Clone`.
    pub fn duplicate(&self) -> (r: RoomEvent)
        ensures
            r == *self,
    {
        match self {
            RoomEvent::UserJoined(u) => RoomEvent::UserJoined(u.clone()),
            RoomEvent::UserLeft(u) => RoomEvent::UserLeft(u.clone()),
            RoomEvent::RoomDelete => RoomEvent::RoomDelete,
        }
    }

    /// Executable test for the terminal event, usable where the spec-level
    /// `is_room_delete` is meant.
    pub fn is_delete(&self) -> (r: bool)
        ensures
            r == is_room_delete(*self),
    {
        match self {
            RoomEvent::RoomDelete => true,
            _ => false,
        }
    }
}

} // verus!
