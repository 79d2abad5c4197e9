//! The room runtime of a real-time collaboration server: rooms that hold a shared document,
//! per-client presence and a roster; the transition from a client command to the events that
//! must be fanned out; a bounded undo log; and the registry that owns the rooms and reaps the
//! empty ones. Locks, transports and the broker itself live with the caller.

pub mod clock;
pub mod crdt;
pub mod events;
pub mod ids;
pub mod keyed;
pub mod message;
pub mod outcome;
pub mod presence;
pub mod room;
pub mod room_manager;
pub mod search;
pub mod storage;
pub mod transaction;
