//! The laws of the registry and the event channel, each proved once
//! over the mathematical model and usable by every caller.

use vstd::prelude::*;

use crate::channel::{drain, lag_start, CHANNEL_CAPACITY};
use crate::events::is_room_delete;
use crate::registry::{
    close_room, fresh_room, reg_inv, registered_at, room_inv, spec_create, spec_delete,
    spec_publish, RoomModel, RouterHandle,
};

verus! {

/// Creation preserves the registry invariant, registers the new room
/// as the one binding of its id, and the new room starts active: a
/// lookup of `id` right after a successful creation yields exactly the
/// new handle, and its room is not closed.
pub proof fn lemma_create_preserves_inv(rs: Seq<RoomModel>, id: Seq<char>, rh: RouterHandle)
    requires
        reg_inv(rs),
    ensures
        reg_inv(spec_create(rs, id, rh)),
        registered_at(spec_create(rs, id, rh), id, rs.len() as int),
        !spec_create(rs, id, rh)[rs.len() as int].closed,
        forall|j: int| j != rs.len() as int ==> !registered_at(spec_create(rs, id, rh), id, j),
{
    let rs2 = spec_create(rs, id, rh);
    assert(rs2[rs.len() as int] == fresh_room(id, rh));
    assert forall|i: int| 0 <= i < rs2.len() implies room_inv(#[trigger] rs2[i]) by {
        if i < rs.len() {
            assert(room_inv(rs[i]));
        }
    }
    assert forall|i: int, j: int|
        0 <= i < rs2.len() && 0 <= j < rs2.len() && (#[trigger] rs2[i]).registered && (
        #[trigger] rs2[j]).registered && rs2[i].id == rs2[j].id implies i == j by {
        if i < rs.len() && j < rs.len() {
            assert(rs2[i] == rs[i] && rs2[j] == rs[j]);
            assert(rs[i].registered && rs[j].registered && rs[i].id == rs[j].id);
        } else if i < rs.len() {
            assert(rs2[i].id == id && rs2[i].registered);
            assert(false);
        } else if j < rs.len() {
            assert(rs2[j].id == id && rs2[j].registered);
            assert(false);
        }
    }
}

/// Deletion preserves the registry invariant.
pub proof fn lemma_delete_preserves_inv(rs: Seq<RoomModel>, i: int)
    requires
        reg_inv(rs),
        0 <= i < rs.len(),
    ensures
        reg_inv(spec_delete(rs, i)),
{
    if !rs[i].closed {
        let rs2 = spec_delete(rs, i);
        lemma_close_room_inv(rs[i]);
        assert forall|k: int| 0 <= k < rs2.len() implies room_inv(#[trigger] rs2[k]) by {
            assert(room_inv(rs[k]));
        }
        assert forall|k: int, j: int|
            0 <= k < rs2.len() && 0 <= j < rs2.len() && (#[trigger] rs2[k]).registered && (
            #[trigger] rs2[j]).registered && rs2[k].id == rs2[j].id implies k == j by {
            assert(rs2[k].registered ==> rs2[k] == rs[k] && rs[k].registered);
            assert(rs2[j].registered ==> rs2[j] == rs[j] && rs[j].registered);
        }
    }
}

/// A well-formed active room stays well-formed when it is closed: its
/// log held no `RoomDelete` yet, and gains exactly one, at the end.
pub proof fn lemma_close_room_inv(r: RoomModel)
    requires
        room_inv(r),
        !r.closed,
    ensures
        room_inv(close_room(r)),
        close_room(r).closed,
        !close_room(r).registered,
{
    let r2 = close_room(r);
    assert forall|k: int|
        0 <= k < r2.log.len() && is_room_delete(#[trigger] r2.log[k]) implies r2.closed && k
        == r2.log.len() - 1 by {
        if k < r.log.len() {
            assert(is_room_delete(r.log[k]));
        }
    }
}

/// Publishing a user event preserves the registry invariant.
pub proof fn lemma_publish_preserves_inv(rs: Seq<RoomModel>, i: int, e: crate::events::RoomEvent)
    requires
        reg_inv(rs),
        0 <= i < rs.len(),
        !is_room_delete(e),
    ensures
        reg_inv(spec_publish(rs, i, e)),
{
    if !rs[i].closed {
        let rs2 = spec_publish(rs, i, e);
        assert forall|k: int| 0 <= k < rs2.len() implies room_inv(#[trigger] rs2[k]) by {
            assert(room_inv(rs[k]));
            if k == i {
                assert forall|m: int|
                    0 <= m < rs2[k].log.len() && is_room_delete(
                        #[trigger] rs2[k].log[m],
                    ) implies rs2[k].closed && m == rs2[k].log.len() - 1 by {
                    if m < rs[i].log.len() {
                        assert(is_room_delete(rs[i].log[m]));
                    }
                }
            }
        }
        assert forall|k: int, j: int|
            0 <= k < rs2.len() && 0 <= j < rs2.len() && (#[trigger] rs2[k]).registered && (
            #[trigger] rs2[j]).registered && rs2[k].id == rs2[j].id implies k == j by {
            assert(rs2[k].registered == rs[k].registered && rs2[k].id == rs[k].id);
            assert(rs2[j].registered == rs[j].registered && rs2[j].id == rs[j].id);
        }
    }
}

/// Whatever room a lookup finds in a well-formed registry is active:
/// a room reachable through the id map is never closed, so a
/// successful `get` always yields a room whose `closed` flag is down.
pub proof fn lemma_registered_room_is_active(rs: Seq<RoomModel>, id: Seq<char>, j: int)
    requires
        reg_inv(rs),
        registered_at(rs, id, j),
    ensures
        !rs[j].closed,
{
    assert(room_inv(rs[j]));
}

/// Deletion is idempotent: among any number of repeated `delete`
/// calls, exactly the first one changes the registry; every later one
/// finds the room closed and is a no-op. In particular the terminal
/// `RoomDelete` is broadcast exactly once and the id is removed from
/// the map exactly once.
pub proof fn lemma_delete_idempotent(rs: Seq<RoomModel>, i: int)
    requires
        0 <= i < rs.len(),
    ensures
        spec_delete(spec_delete(rs, i), i) == spec_delete(rs, i),
{
    let rs2 = spec_delete(rs, i);
    if !rs[i].closed {
        assert(rs2[i] == close_room(rs[i]));
    }
    assert(rs2[i].closed);
}

/// After a completed deletion the deleted room is closed and no slot
/// is registered under its id any more: `subscribe` and `router`
/// return nothing for the room, and `get` returns nothing for the id
/// until a new room is created under it.
pub proof fn lemma_delete_unregisters_id(rs: Seq<RoomModel>, i: int)
    requires
        0 <= i < rs.len(),
        !rs[i].closed,
    ensures
        spec_delete(rs, i)[i].closed,
        !spec_delete(rs, i)[i].registered,
        forall|j: int| !registered_at(spec_delete(rs, i), rs[i].id, j),
{
    let rs2 = spec_delete(rs, i);
    assert forall|j: int| !registered_at(rs2, rs[i].id, j) by {
        if 0 <= j < rs2.len() {
            if j == i {
                assert(rs2[j] == close_room(rs[i]));
            } else if rs[j].id == rs[i].id {
                assert(!rs2[j].registered);
            } else {
                assert(rs2[j] == rs[j] && rs2[j].id != rs[i].id);
            }
        }
    }
}

/// Everything a subscriber still has to read from a closed room's log
/// contains the terminal `RoomDelete` exactly once, as the last event:
/// lag may drop a slow reader's oldest events, never the terminal one.
pub proof fn lemma_drain_single_delete(r: RoomModel, c: int)
    requires
        room_inv(r),
        r.closed,
        0 <= c < r.log.len(),
    ensures
        drain(r.log, c).len() > 0,
        is_room_delete(drain(r.log, c).last()),
        forall|k: int| 0 <= k < drain(r.log, c).len() - 1 ==> !is_room_delete(
            #[trigger] drain(r.log, c)[k],
        ),
{
    let s = lag_start(r.log, c);
    let d = drain(r.log, c);
    assert(0 <= s < r.log.len());
    assert(d.last() == r.log[r.log.len() - 1]);
    assert forall|k: int| 0 <= k < d.len() - 1 implies !is_room_delete(#[trigger] d[k]) by {
        assert(d[k] == r.log[s + k]);
        if is_room_delete(r.log[s + k]) {
            assert(s + k == r.log.len() - 1);
        }
    }
}

/// What a lagging reader is left with: at any cursor, what remains to
/// be read is exactly the newest events of the log — all of the unread
/// suffix while it fits the channel capacity, and only the most recent
/// `CHANNEL_CAPACITY` events once the reader has fallen further
/// behind, the oldest unread ones being dropped.
pub proof fn lemma_lag_keeps_newest(log: Seq<crate::events::RoomEvent>, c: int)
    requires
        0 <= c <= log.len(),
    ensures
        drain(log, c).len() == (if log.len() - c > CHANNEL_CAPACITY as int {
            CHANNEL_CAPACITY as int
        } else {
            log.len() - c
        }),
        forall|k: int|
            0 <= k < drain(log, c).len() ==> drain(log, c)[k] == log[log.len() - drain(
                log,
                c,
            ).len() + k],
{
}

/// A subscriber that subscribed before a deletion — whatever it has or
/// has not read, however far it lags — will observe the terminal
/// `RoomDelete`, exactly once, as the last event it ever receives from
/// the room.
pub proof fn lemma_subscriber_receives_delete(r: RoomModel, c: int)
    requires
        room_inv(r),
        !r.closed,
        0 <= c <= r.log.len(),
    ensures
        drain(close_room(r).log, c).len() > 0,
        is_room_delete(drain(close_room(r).log, c).last()),
        forall|k: int| 0 <= k < drain(close_room(r).log, c).len() - 1 ==> !is_room_delete(
            #[trigger] drain(close_room(r).log, c)[k],
        ),
{
    lemma_close_room_inv(r);
    lemma_drain_single_delete(close_room(r), c);
}

} // verus!
