//! A deterministic, frame-stepping simulation engine for ensembles of
//! user-defined entities that evolve in lockstep.
//!
//! On every tick, every entity observes an immutable snapshot of the previous
//! frame together with the messages addressed to it, and independently
//! produces its next value and zero or more messages to be delivered on the
//! following tick. The engine assembles the next frame and the next message
//! table from those results; its contracts pin both down exactly.

pub mod engine;
pub mod laws;
pub mod model;
pub mod objects;

pub use engine::Fungine;
pub use engine::MessageTable;
pub use engine::worker_count;
pub use engine::worker_index;

pub use objects::GameObject;
pub use objects::GameObjectWithID;
pub use objects::GameObjectWithState;
pub use objects::Message;
pub use objects::MessageWithID;
pub use objects::UpdateResult;
pub use objects::UpdateResultWithID;
