//! Lifecycle tests for the room registry: creation, lookup, deletion,
//! and the guarantees around the one `Active -> Closed` transition.

use room_registry::channel::Recv;
use room_registry::events::RoomEvent;
use room_registry::registry::{Registry, Room, RouterHandle, RoutingError};

fn ok_router(id: u64) -> Result<RouterHandle, RoutingError> {
    Ok(RouterHandle { id })
}

#[test]
fn create_then_get_active() {
    let mut reg = Registry::new();
    let h = Room::new(&mut reg, "room-1".to_string(), ok_router(1)).unwrap();
    let g = Room::get(&reg, &"room-1".to_string()).unwrap();
    assert_eq!(g, h);
    assert!(!Room::closed(&reg, &g));
}

#[test]
fn empty_registry_get_none() {
    let reg = Registry::new();
    assert!(Room::get(&reg, &"anything".to_string()).is_none());
}

#[test]
fn create_failure_no_partial_registration() {
    let mut reg = Registry::new();
    let r = Room::new(&mut reg, "room-1".to_string(), Err(RoutingError));
    assert!(r.is_err());
    assert!(Room::get(&reg, &"room-1".to_string()).is_none());
}

#[test]
fn delete_twice_single_room_delete() {
    let mut reg = Registry::new();
    let h = Room::new(&mut reg, "room-1".to_string(), ok_router(1)).unwrap();
    let mut rx = Room::subscribe(&reg, &h).unwrap();
    // two callers race to delete; both return without error
    Room::delete(&mut reg, &h);
    Room::delete(&mut reg, &h);
    // exactly one RoomDelete is observed
    assert_eq!(rx.recv(&reg), Recv::Event(RoomEvent::RoomDelete));
    assert_eq!(rx.recv(&reg), Recv::Closed);
    // exactly one removal from the registry
    assert!(Room::get(&reg, &"room-1".to_string()).is_none());
}

#[test]
fn closed_room_refuses_subscribe_and_router() {
    let mut reg = Registry::new();
    let h = Room::new(&mut reg, "room-1".to_string(), ok_router(1)).unwrap();
    Room::delete(&mut reg, &h);
    assert!(Room::closed(&reg, &h));
    assert!(Room::subscribe(&reg, &h).is_none());
    assert!(Room::router(&reg, &h).is_none());
}

#[test]
fn subscriber_before_delete_sees_room_delete() {
    let mut reg = Registry::new();
    let h = Room::new(&mut reg, "room-1".to_string(), ok_router(1)).unwrap();
    let mut rx = Room::subscribe(&reg, &h).unwrap();
    Room::publish(&mut reg, &h, RoomEvent::UserJoined("ada".to_string()));
    Room::delete(&mut reg, &h);
    assert_eq!(
        rx.recv(&reg),
        Recv::Event(RoomEvent::UserJoined("ada".to_string()))
    );
    assert_eq!(rx.recv(&reg), Recv::Event(RoomEvent::RoomDelete));
    assert_eq!(rx.recv(&reg), Recv::Closed);
}

#[test]
fn get_after_delete_none() {
    let mut reg = Registry::new();
    let h = Room::new(&mut reg, "room-1".to_string(), ok_router(1)).unwrap();
    assert!(Room::get(&reg, &"room-1".to_string()).is_some());
    Room::delete(&mut reg, &h);
    assert!(Room::get(&reg, &"room-1".to_string()).is_none());
}

#[test]
fn router_available_only_while_active() {
    let mut reg = Registry::new();
    let h = Room::new(&mut reg, "room-1".to_string(), ok_router(42)).unwrap();
    assert_eq!(Room::router(&reg, &h), Some(RouterHandle { id: 42 }));
    Room::delete(&mut reg, &h);
    assert_eq!(Room::router(&reg, &h), None);
}

#[test]
fn create_same_id_replaces_entry() {
    let mut reg = Registry::new();
    let h1 = Room::new(&mut reg, "room-1".to_string(), ok_router(1)).unwrap();
    let h2 = Room::new(&mut reg, "room-1".to_string(), ok_router(2)).unwrap();
    let g = Room::get(&reg, &"room-1".to_string()).unwrap();
    assert_eq!(g, h2);
    assert_ne!(h1, h2);
    // the replaced room was never closed, only unregistered
    assert!(!Room::closed(&reg, &h1));
}

#[test]
fn delete_old_handle_evicts_current_id() {
    // deletion removes the room's own id from the map, even when a later
    // creation has re-bound that id to another room
    let mut reg = Registry::new();
    let h1 = Room::new(&mut reg, "room-1".to_string(), ok_router(1)).unwrap();
    let h2 = Room::new(&mut reg, "room-1".to_string(), ok_router(2)).unwrap();
    Room::delete(&mut reg, &h1);
    assert!(Room::get(&reg, &"room-1".to_string()).is_none());
    // the newer room itself is still active, merely unregistered
    assert!(!Room::closed(&reg, &h2));
}

#[test]
fn publish_on_closed_room_is_noop() {
    let mut reg = Registry::new();
    let h = Room::new(&mut reg, "room-1".to_string(), ok_router(1)).unwrap();
    let mut rx = Room::subscribe(&reg, &h).unwrap();
    Room::delete(&mut reg, &h);
    Room::publish(&mut reg, &h, RoomEvent::UserJoined("late".to_string()));
    // the subscriber sees the terminal event and nothing after it
    assert_eq!(rx.recv(&reg), Recv::Event(RoomEvent::RoomDelete));
    assert_eq!(rx.recv(&reg), Recv::Closed);
}

#[test]
fn delete_is_idempotent_for_every_later_call() {
    let mut reg = Registry::new();
    let h = Room::new(&mut reg, "room-1".to_string(), ok_router(1)).unwrap();
    for _ in 0..5 {
        Room::delete(&mut reg, &h);
        assert!(Room::closed(&reg, &h));
        assert!(Room::get(&reg, &"room-1".to_string()).is_none());
    }
    assert!(Room::subscribe(&reg, &h).is_none());
}
