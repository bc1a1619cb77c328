//! The per-room event channel: a lossy broadcast log with a bounded
//! read window.
//!
//! The publisher appends events to a log and never blocks. A subscriber
//! is a cursor into that log; it owns its own reading position, so a
//! slow reader cannot slow the publisher down. A reader that has fallen
//! more than [`CHANNEL_CAPACITY`] events behind is a lagging consumer:
//! its oldest unread events are dropped, the cursor jumps forward to the
//! newest [`CHANNEL_CAPACITY`] events, and the reader is told how many
//! events it missed.

use vstd::prelude::*;

use crate::events::RoomEvent;

verus! {

/// How many unread events a subscriber can hold before its oldest
/// unread events are dropped.
pub const CHANNEL_CAPACITY: usize = 32;

/// The outcome of one non-blocking read from a room's event channel.
#[derive(Debug, PartialEq)]
pub enum Recv {
    /// The next unread event.
    Event(RoomEvent),
    /// The reader lagged: this many of its oldest unread events were
    /// dropped, and its cursor now rests on the oldest retained event.
    Lagged(usize),
    /// No unread events, and the room is still active.
    Empty,
    /// No unread events, and the room is closed: no further event will
    /// ever arrive.
    Closed,
}

/// Where a reader at cursor `c` actually resumes: if it has fallen more
/// than `CHANNEL_CAPACITY` events behind the head of `log`, it is
/// bumped forward to the newest `CHANNEL_CAPACITY` events.
pub open spec fn lag_start(log: Seq<RoomEvent>, c: int) -> int {
    if log.len() - c > CHANNEL_CAPACITY as int {
        log.len() - CHANNEL_CAPACITY as int
    } else {
        c
    }
}

/// Every event a reader at cursor `c` will still observe from `log`:
/// the unread suffix, clipped to the newest `CHANNEL_CAPACITY` events.
pub open spec fn drain(log: Seq<RoomEvent>, c: int) -> Seq<RoomEvent> {
    log.subrange(lag_start(log, c), log.len() as int)
}

/// The publisher side of one room's event channel: an append-only log
/// of every event published so far.
pub struct Channel {
    events: Vec<RoomEvent>,
}

impl View for Channel {
    type V = Seq<RoomEvent>;

    closed spec fn view(&self) -> Seq<RoomEvent> {
        self.events@
    }
}

impl Channel {
    /// A fresh channel with no events published yet.
    pub fn new() -> (c: Channel)
        ensures
            c@ == Seq::<RoomEvent>::empty(),
    {
        Channel { events: Vec::new() }
    }

    /// How many events have been published so far.
    pub fn len(&self) -> (n: usize)
        ensures
            n == self@.len(),
    {
        self.events.len()
    }

    /// Append one event to the log. Publishing never blocks and never
    /// fails, whether or not any subscriber exists.
    pub fn publish(&mut self, e: RoomEvent)
        ensures
            final(self)@ == old(self)@.push(e),
    {
        self.events.push(e);
    }

    /// One non-blocking read by a subscriber whose cursor is `cursor`,
    /// in a room whose closed flag is `closed`. Returns the outcome and
    /// the subscriber's new cursor.
    pub fn read_at(&self, cursor: usize, closed: bool) -> (r: (Recv, usize))
        requires
            cursor <= self@.len(),
        ensures
            cursor as int <= r.1 as int <= self@.len(),
            (if self@.len() - cursor as int > CHANNEL_CAPACITY as int {
                &&& r.0 == Recv::Lagged((self@.len() - CHANNEL_CAPACITY as int
                    - cursor as int) as usize)
                &&& r.1 as int == lag_start(self@, cursor as int)
            } else if (cursor as int) < self@.len() {
                &&& r.0 == Recv::Event(self@[cursor as int])
                &&& r.1 == cursor + 1
            } else {
                &&& r.0 == (if closed { Recv::Closed } else { Recv::Empty })
                &&& r.1 == cursor
            }),
    {
        let len = self.events.len();
        if len - cursor > CHANNEL_CAPACITY {
            let start = len - CHANNEL_CAPACITY;
            (Recv::Lagged(start - cursor), start)
        } else if cursor < len {
            let e = self.events[cursor].duplicate();
            (Recv::Event(e), cursor + 1)
        } else if closed {
            (Recv::Closed, cursor)
        } else {
            (Recv::Empty, cursor)
        }
    }
}

} // verus!
