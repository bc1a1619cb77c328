//! The room registry: the single authority for creating, looking up and
//! removing rooms, together with the room entity and its lifecycle
//! state machine.
//!
//! A room's lifecycle is `Active` (initial) to `Closed` (terminal), one
//! irreversible transition taken by `delete`. Deletion unregisters the
//! room's id from the registry and then broadcasts the terminal
//! `RoomDelete` event; a repeated delete is a no-op. The registry keeps
//! the storage of closed rooms so that subscribers who still hold a
//! receiver can drain their remaining events, which models the shared
//! reference-counted handles of a concurrent deployment.

use vstd::prelude::*;

use crate::channel::{lag_start, Channel, Recv, CHANNEL_CAPACITY};
use crate::events::{is_room_delete, RoomEvent};
use crate::laws;

verus! {

/// Failure reported by the external routing resource factory when it
/// cannot produce a routing handle.
#[derive(Clone, Copy, Debug, PartialEq, Eq)]
pub struct RoutingError;

/// Failure of `Room::new`: a collaborator (worker provider or routing
/// resource factory) could not supply the room's routing resource. The
/// registry is left unchanged.
#[derive(Clone, Copy, Debug, PartialEq, Eq)]
pub struct AllocationError;

/// The room's routing resource, reduced to the value the registry's
/// logic carries: an opaque identifier chosen by the media-routing
/// engine. The engine itself holds the live resource; this handle is
/// what callers pass to the data plane.
#[derive(Clone, Copy, Debug, PartialEq, Eq)]
pub struct RouterHandle {
    pub id: u64,
}

/// The mathematical model of one room slot.
#[verifier::ext_equal]
pub ghost struct RoomModel {
    /// The caller-supplied room id.
    pub id: Seq<char>,
    /// Whether the registry's id map currently points at this slot.
    pub registered: bool,
    /// Whether the room has taken its one `Active -> Closed` transition.
    pub closed: bool,
    /// The routing handle owned by the room.
    pub router: RouterHandle,
    /// Every event published on the room's channel, oldest first.
    pub log: Seq<RoomEvent>,
}

/// Well-formedness of one room: a closed room is never registered, and
/// the terminal `RoomDelete` event appears in the log exactly when the
/// room is closed, exactly once, as the last event.
pub open spec fn room_inv(r: RoomModel) -> bool {
    &&& (r.closed ==> !r.registered)
    &&& (r.closed ==> r.log.len() > 0 && is_room_delete(r.log.last()))
    &&& (forall|i: int|
        0 <= i < r.log.len() && is_room_delete(#[trigger] r.log[i]) ==> r.closed && i
            == r.log.len() - 1)
}

/// Slot `j` is the one the registry's id map binds to `id`.
pub open spec fn registered_at(rs: Seq<RoomModel>, id: Seq<char>, j: int) -> bool {
    &&& 0 <= j < rs.len()
    &&& rs[j].registered
    &&& rs[j].id == id
}

/// Well-formedness of the whole registry: every room is well-formed and
/// at most one registered room exists per id.
pub open spec fn reg_inv(rs: Seq<RoomModel>) -> bool {
    &&& (forall|i: int| 0 <= i < rs.len() ==> room_inv(#[trigger] rs[i]))
    &&& (forall|i: int, j: int|
        0 <= i < rs.len() && 0 <= j < rs.len() && (#[trigger] rs[i]).registered
            && (#[trigger] rs[j]).registered && rs[i].id == rs[j].id ==> i == j)
}

/// Remove `id` from the registry's id map: every slot carrying `id`
/// loses its registration; nothing else changes.
pub open spec fn unregister_id(rs: Seq<RoomModel>, id: Seq<char>) -> Seq<RoomModel> {
    Seq::new(
        rs.len(),
        |j: int|
            if rs[j].id == id {
                RoomModel { registered: false, ..rs[j] }
            } else {
                rs[j]
            },
    )
}

/// A newly created room: active, registered, empty log.
pub open spec fn fresh_room(id: Seq<char>, rh: RouterHandle) -> RoomModel {
    RoomModel { id: id, registered: true, closed: false, router: rh, log: Seq::empty() }
}

/// The registry after a successful creation under `id`: any previous
/// binding of `id` is silently replaced, and the new room is appended.
pub open spec fn spec_create(rs: Seq<RoomModel>, id: Seq<char>, rh: RouterHandle) -> Seq<
    RoomModel,
> {
    unregister_id(rs, id).push(fresh_room(id, rh))
}

/// One room after its `Active -> Closed` transition: unregistered,
/// closed, with the terminal event appended to its log.
pub open spec fn close_room(r: RoomModel) -> RoomModel {
    RoomModel { registered: false, closed: true, log: r.log.push(RoomEvent::RoomDelete), ..r }
}

/// The registry after `delete` on slot `i`: a no-op if the room is
/// already closed; otherwise slot `i` is closed and the room's id is
/// removed from the id map — removal goes by id, so it also evicts a
/// binding that a later creation put on the same id.
pub open spec fn spec_delete(rs: Seq<RoomModel>, i: int) -> Seq<RoomModel> {
    if rs[i].closed {
        rs
    } else {
        Seq::new(
            rs.len(),
            |j: int|
                if j == i {
                    close_room(rs[i])
                } else if rs[j].id == rs[i].id {
                    RoomModel { registered: false, ..rs[j] }
                } else {
                    rs[j]
                },
        )
    }
}

/// The registry after an external caller publishes `e` on slot `i`'s
/// channel: appended to the log while the room is active, dropped once
/// it is closed.
pub open spec fn spec_publish(rs: Seq<RoomModel>, i: int, e: RoomEvent) -> Seq<RoomModel> {
    if rs[i].closed {
        rs
    } else {
        rs.update(i, RoomModel { log: rs[i].log.push(e), ..rs[i] })
    }
}

/// A room entity: id, lifecycle flag, registration flag, owned routing
/// handle, and the owned publisher side of its event channel.
pub struct Room {
    id: String,
    registered: bool,
    closed: bool,
    router: RouterHandle,
    chan: Channel,
}

impl View for Room {
    type V = RoomModel;

    closed spec fn view(&self) -> RoomModel {
        RoomModel {
            id: self.id@,
            registered: self.registered,
            closed: self.closed,
            router: self.router,
            log: self.chan@,
        }
    }
}

/// A shared handle to a room: the slot index the registry assigned at
/// creation. Handles stay valid after deletion; every operation through
/// one reports the closed state rather than failing.
#[derive(Clone, Copy, Debug, PartialEq, Eq)]
pub struct RoomRef {
    pub idx: usize,
}

/// The registry. `slots` holds every room ever created; the id map is
/// the set of slots whose `registered` flag is up.
pub struct Registry {
    slots: Vec<Room>,
}

impl View for Registry {
    type V = Seq<RoomModel>;

    closed spec fn view(&self) -> Seq<RoomModel> {
        self.slots@.map_values(|r: Room| r@)
    }
}

impl Registry {
    /// The registry's invariant, established by `new` and preserved by
    /// every operation.
    pub open spec fn inv(&self) -> bool {
        reg_inv(self@)
    }

    /// An empty registry.
    pub fn new() -> (reg: Registry)
        ensures
            reg.inv(),
            reg@ == Seq::<RoomModel>::empty(),
    {
        let reg = Registry { slots: Vec::new() };
        proof {
            assert(reg@ =~= Seq::<RoomModel>::empty());
        }
        reg
    }

    /// How many room slots the registry has ever allocated. Handles
    /// with an index below this are valid; deletion never shrinks it.
    pub fn len(&self) -> (n: usize)
        ensures
            n == self@.len(),
    {
        self.slots.len()
    }

    /// Drop `id` from the id map.
    #[verifier::loop_isolation(false)]
    fn unregister(&mut self, id: &String)
        ensures
            final(self)@ == unregister_id(old(self)@, id@),
    {
        let ghost orig = self@;
        let n = self.slots.len();
        let mut j: usize = 0;
        while j < n
            invariant
                j <= n,
                n == self.slots@.len(),
                self@.len() == orig.len(),
                n == orig.len(),
                forall|k: int|
                    0 <= k < n ==> self@[k] == (if k < j {
                        unregister_id(orig, id@)[k]
                    } else {
                        orig[k]
                    }),
            decreases n - j,
        {
            let ghost prev = self@;
            let ghost prev_slots = self.slots@;
            proof {
                assert(self@[j as int] == self.slots@[j as int]@);
            }
            if self.slots[j].id == *id {
                self.slots[j].registered = false;
            }
            proof {
                assert(self@[j as int] == self.slots@[j as int]@);
                assert(self@[j as int] == unregister_id(orig, id@)[j as int]);
                assert forall|k: int|
                    0 <= k < n implies self@[k] == (if k < j + 1 {
                        unregister_id(orig, id@)[k]
                    } else {
                        orig[k]
                    }) by {
                    if k != j as int {
                        assert(self.slots@[k] == prev_slots[k]);
                        assert(self@[k] == self.slots@[k]@);
                        assert(prev[k] == prev_slots[k]@);
                        assert(prev[k] == (if k < j {
                            unregister_id(orig, id@)[k]
                        } else {
                            orig[k]
                        }));
                    }
                }
            }
            j += 1;
        }
        proof {
            assert(self@ =~= unregister_id(orig, id@));
        }
    }
}

impl Room {
    /// Create a room under `id` from the outcome the collaborators
    /// handed back: `routing` is what the routing resource factory
    /// produced for the worker that the worker provider supplied.
    ///
    /// On success the fully initialized, active room is registered
    /// under `id` (silently replacing any previous binding of the same
    /// id) and its handle is returned. On collaborator failure nothing
    /// is inserted and the registry is unchanged: creation is atomic
    /// from every caller's point of view.
    pub fn new(
        reg: &mut Registry,
        id: String,
        routing: Result<RouterHandle, RoutingError>,
    ) -> (r: Result<RoomRef, AllocationError>)
        requires
            old(reg).inv(),
        ensures
            final(reg).inv(),
            (match r {
                Ok(h) => {
                    &&& routing is Ok
                    &&& h.idx as int == old(reg)@.len()
                    &&& final(reg)@ == spec_create(old(reg)@, id@, routing->Ok_0)
                },
                Err(_) => {
                    &&& routing is Err
                    &&& final(reg)@ == old(reg)@
                },
            }),
    {
        match routing {
            Err(_) => Err(AllocationError),
            Ok(rh) => {
                let idx = reg.slots.len();
                reg.unregister(&id);
                let room = Room {
                    id,
                    registered: true,
                    closed: false,
                    router: rh,
                    chan: Channel::new(),
                };
                proof {
                    assert(room@ == fresh_room(room.id@, rh));
                }
                reg.slots.push(room);
                proof {
                    assert(reg@ =~= spec_create(old(reg)@, room.id@, rh));
                    laws::lemma_create_preserves_inv(old(reg)@, room.id@, rh);
                }
                Ok(RoomRef { idx })
            },
        }
    }

    /// Look `id` up in the registry's id map: a clone of the shared
    /// handle bound to `id`, or nothing. Presence does not guarantee
    /// the room is still active; callers must check `closed`.
    pub fn get(reg: &Registry, id: &String) -> (r: Option<RoomRef>)
        ensures
            (match r {
                Some(h) => registered_at(reg@, id@, h.idx as int),
                None => forall|j: int| !registered_at(reg@, id@, j),
            }),
    {
        let n = reg.slots.len();
        let mut j: usize = 0;
        while j < n
            invariant
                j <= n,
                n == reg.slots@.len(),
                forall|k: int| 0 <= k < j ==> !registered_at(reg@, id@, k),
            decreases n - j,
        {
            proof {
                assert(reg@[j as int] == reg.slots@[j as int]@);
            }
            if reg.slots[j].registered && reg.slots[j].id == *id {
                return Some(RoomRef { idx: j });
            }
            j += 1;
        }
        None
    }

    /// Take the room's one `Active -> Closed` transition. The winner
    /// closes the room, removes its id from the registry's map, and
    /// broadcasts the terminal `RoomDelete` event, in that order; a
    /// call on an already closed room is a silent no-op.
    pub fn delete(reg: &mut Registry, h: &RoomRef)
        requires
            old(reg).inv(),
            h.idx < old(reg)@.len(),
        ensures
            final(reg).inv(),
            final(reg)@ == spec_delete(old(reg)@, h.idx as int),
    {
        let ghost i = h.idx as int;
        proof {
            assert(reg@[i] == reg.slots@[i]@);
        }
        if reg.slots[h.idx].closed {
            return ;
        }
        let id = reg.slots[h.idx].id.clone();
        proof {
            assert(id@ == old(reg)@[i].id);
        }
        reg.unregister(&id);
        let ghost mid = reg@;
        let ghost mid_slots = reg.slots@;
        proof {
            assert(reg@.len() == reg.slots@.len());
            assert(reg@[i] == reg.slots@[i]@);
        }
        reg.slots[h.idx].closed = true;
        proof {
            assert(reg@[i] == reg.slots@[i]@);
        }
        reg.slots[h.idx].chan.publish(RoomEvent::RoomDelete);
        proof {
            assert(reg@[i] == reg.slots@[i]@);
            assert(reg@[i] == (RoomModel {
                closed: true,
                log: mid[i].log.push(RoomEvent::RoomDelete),
                ..mid[i]
            }));
            assert forall|k: int| 0 <= k < reg@.len() && k != i implies reg@[k] == mid[k] by {
                assert(reg.slots@[k] == mid_slots[k]);
                assert(reg@[k] == reg.slots@[k]@);
                assert(mid[k] == mid_slots[k]@);
            }
            assert forall|k: int| 0 <= k < reg@.len() implies reg@[k] == spec_delete(
                old(reg)@,
                i,
            )[k] by {
                if k != i {
                    assert(mid[k] == unregister_id(old(reg)@, id@)[k]);
                }
            }
            assert(reg@ =~= spec_delete(old(reg)@, i));
            laws::lemma_delete_preserves_inv(old(reg)@, i);
        }
    }

    /// Non-blocking snapshot of the room's lifecycle flag.
    pub fn closed(reg: &Registry, h: &RoomRef) -> (b: bool)
        requires
            h.idx < reg@.len(),
        ensures
            b == reg@[h.idx as int].closed,
    {
        proof {
            assert(reg@[h.idx as int] == reg.slots@[h.idx as int]@);
        }
        reg.slots[h.idx].closed
    }

    /// A new receiver bound to the room's event channel, positioned at
    /// the head of the log so that it observes exactly the events
    /// published from now on. Nothing once the room is closed: the
    /// stream would never deliver another event.
    pub fn subscribe(reg: &Registry, h: &RoomRef) -> (r: Option<Receiver>)
        requires
            h.idx < reg@.len(),
        ensures
            (match r {
                Some(rx) => {
                    &&& !reg@[h.idx as int].closed
                    &&& rx.slot == h.idx
                    &&& rx.cursor as int == reg@[h.idx as int].log.len()
                    &&& rx.wf(reg)
                },
                None => reg@[h.idx as int].closed,
            }),
    {
        proof {
            assert(reg@[h.idx as int] == reg.slots@[h.idx as int]@);
        }
        if reg.slots[h.idx].closed {
            None
        } else {
            Some(Receiver { slot: h.idx, cursor: reg.slots[h.idx].chan.len() })
        }
    }

    /// The room's routing handle while it is active; nothing once it is
    /// closed, when the resource's teardown may already be underway.
    pub fn router(reg: &Registry, h: &RoomRef) -> (r: Option<RouterHandle>)
        requires
            h.idx < reg@.len(),
        ensures
            (match r {
                Some(rh) => !reg@[h.idx as int].closed && rh == reg@[h.idx as int].router,
                None => reg@[h.idx as int].closed,
            }),
    {
        proof {
            assert(reg@[h.idx as int] == reg.slots@[h.idx as int]@);
        }
        if reg.slots[h.idx].closed {
            None
        } else {
            Some(reg.slots[h.idx].router)
        }
    }

    /// Publish a user notification on the room's channel, on behalf of
    /// an external caller holding the room's publisher surface. The
    /// terminal `RoomDelete` is not for callers: only `delete` emits
    /// it. Publishing on a closed room is a silent no-op, as is
    /// publishing while no subscriber exists.
    pub fn publish(reg: &mut Registry, h: &RoomRef, e: RoomEvent)
        requires
            old(reg).inv(),
            h.idx < old(reg)@.len(),
            !is_room_delete(e),
        ensures
            final(reg).inv(),
            final(reg)@ == spec_publish(old(reg)@, h.idx as int, e),
    {
        proof {
            assert(reg@[h.idx as int] == reg.slots@[h.idx as int]@);
        }
        if !reg.slots[h.idx].closed {
            reg.slots[h.idx].chan.publish(e);
            proof {
                assert(reg@ =~= spec_publish(old(reg)@, h.idx as int, e));
                laws::lemma_publish_preserves_inv(old(reg)@, h.idx as int, e);
            }
        }
    }
}

/// A subscription to one room's event channel: the room's slot and the
/// reader's own cursor into the room's event log.
pub struct Receiver {
    pub slot: usize,
    pub cursor: usize,
}

impl Receiver {
    /// The receiver points into `reg` and has not read past the head
    /// of its room's log.
    pub open spec fn wf(&self, reg: &Registry) -> bool {
        &&& (self.slot as int) < reg@.len()
        &&& self.cursor as int <= reg@[self.slot as int].log.len()
    }

    /// One non-blocking read. A reader more than `CHANNEL_CAPACITY`
    /// events behind is told how many of its oldest unread events were
    /// dropped and resumes at the oldest retained one; otherwise it
    /// takes the next unread event, or learns that none is pending.
    pub fn recv(&mut self, reg: &Registry) -> (r: Recv)
        requires
            old(self).wf(reg),
        ensures
            final(self).wf(reg),
            final(self).slot == old(self).slot,
            ({
                let log = reg@[old(self).slot as int].log;
                let c = old(self).cursor as int;
                if log.len() - c > CHANNEL_CAPACITY as int {
                    &&& r == Recv::Lagged((log.len() - CHANNEL_CAPACITY as int - c) as usize)
                    &&& final(self).cursor as int == lag_start(log, c)
                } else if c < log.len() {
                    &&& r == Recv::Event(log[c])
                    &&& final(self).cursor == old(self).cursor + 1
                } else {
                    &&& r == (if reg@[old(self).slot as int].closed {
                        Recv::Closed
                    } else {
                        Recv::Empty
                    })
                    &&& final(self).cursor == old(self).cursor
                }
            }),
    {
        proof {
            assert(reg@[self.slot as int] == reg.slots@[self.slot as int]@);
        }
        let room = &reg.slots[self.slot];
        let step = room.chan.read_at(self.cursor, room.closed);
        self.cursor = step.1;
        step.0
    }
}

} // verus!
