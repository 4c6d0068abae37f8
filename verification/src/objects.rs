//! The entity and message contracts, and the records that the engine moves
//! between a frame snapshot, an update call and the next frame.

use vstd::prelude::*;

verus! {

/// A message between game objects. Messages are opaque to the engine; all it
/// asks of them is a clone-for-sharing operation, so that one produced message
/// can be handed to its recipient while the producer keeps its own copy.
pub trait Message: Sized {
    /// Produce an independent copy equal to this message.
    fn box_clone(&self) -> (r: Self)
        ensures
            r == *self,
    ;
}

/// An identified entity: one slot of a frame snapshot. Identity is carried by
/// the identifier, which is stable across ticks, not by object address.
#[derive(Clone)]
#[verifier::ext_equal]
pub struct GameObjectWithID<G> {
    pub id: u64,
    pub game_object: G,
}

/// An addressed message: `message` is to be delivered to the object whose
/// identifier is `id` on the tick after it was produced.
#[derive(Clone)]
#[verifier::ext_equal]
pub struct MessageWithID<M> {
    pub id: u64,
    pub message: M,
}

/// What one update call returns: the object's next state and the outbox of
/// addressed messages it produced during this tick.
#[derive(Clone)]
#[verifier::ext_equal]
pub struct UpdateResult<G, M> {
    pub state: G,
    pub messages: Vec<MessageWithID<M>>,
}

/// An update result tagged with the identifier of the object that produced
/// it, as a worker reports it back to the dispatcher.
#[derive(Clone)]
#[verifier::ext_equal]
pub struct UpdateResultWithID<G, M> {
    pub id: u64,
    pub result: UpdateResult<G, M>,
}

/// One update job: the entity to step, the frame snapshot it observes, the
/// tick delta, and the inbox of messages addressed to it for this tick.
#[derive(Clone)]
pub struct GameObjectWithState<G, M>(
    pub GameObjectWithID<G>,
    pub Vec<GameObjectWithID<G>>,
    pub u64,
    pub Vec<M>,
);

/// The contract an entity type must satisfy to be stepped by the engine.
///
/// The engine is generic over the entity type and treats its payload
/// opaquely; a caller with several kinds of entity models the variety with an
/// enum. `M` is the message payload type the entities exchange.
pub trait GameObject<M>: Sized {
    /// The mathematical model of `update`: from the object, its identifier,
    /// the previous frame, its inbox and the tick delta to the pair of next
    /// state and outbox. An implementation defines it, and the engine's
    /// contracts are stated over it; the default leaves the pair
    /// unconstrained, so a verified implementation of `update` must replace
    /// it with the model its `ensures` is to be read against.
    open spec fn update_spec(
        &self,
        id: u64,
        current_state: Seq<GameObjectWithID<Self>>,
        messages: Seq<M>,
        time: u64,
    ) -> (Self, Seq<MessageWithID<M>>) {
        vstd::pervasive::arbitrary()
    }

    /// Compute the object's next state and outbox for one tick. The call is
    /// total: an object that cannot make progress returns itself unchanged.
    /// It observes the previous frame and its inbox only through shared
    /// references and must be pure with respect to them.
    fn update(
        &self,
        id: u64,
        current_state: &Vec<GameObjectWithID<Self>>,
        messages: &Vec<M>,
        time: u64,
    ) -> (r: UpdateResult<Self, M>)
        ensures
            r.state == self.update_spec(id, current_state@, messages@, time).0,
            r.messages@ == self.update_spec(id, current_state@, messages@, time).1,
    ;

    /// Produce an independent copy equal to this object, deep enough that the
    /// original and the copy can be observed independently.
    fn box_clone(&self) -> (r: Self)
        ensures
            r == *self,
    ;
}

} // verus!
