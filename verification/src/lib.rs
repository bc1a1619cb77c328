//! A session registry and lifecycle controller for ephemeral "room"
//! entities in a real-time communication server.
//!
//! Each room bundles an id, a two-state lifecycle flag (active or closed),
//! an opaque routing handle obtained from an external media-routing engine,
//! and a bounded, lossy broadcast channel for lifecycle events. The
//! registry is the single authority that creates rooms, looks them up by
//! id, and removes them when a room is deleted.
//!
//! The registry is a sequential model of a concurrent deployment: the
//! caller that owns the `Registry` value plays the role of the
//! process-wide lock, and the shared room handles become indices into the
//! registry's slot table. Slots are retained after deletion, standing for
//! the reference-counted handles that other callers may still hold; a
//! deleted room is merely unregistered from the id map and marked closed.

pub mod events;
pub mod channel;
pub mod registry;
pub mod laws;
