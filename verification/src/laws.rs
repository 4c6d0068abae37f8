//! Laws that every tick of the engine obeys, stated over the model of
//! `crate::model` and proved once, for every entity type and every input.

use vstd::prelude::*;

use crate::model::inbox_of;
use crate::model::lemma_run_spec_step;
use crate::model::messages_for;
use crate::model::next_entity;
use crate::model::next_frame;
use crate::model::next_table;
use crate::model::outboxes;
use crate::model::run_spec;
use crate::objects::GameObject;
use crate::objects::GameObjectWithID;

verus! {

/// The identifiers of a frame, in frame order.
pub open spec fn frame_ids<G>(frame: Seq<GameObjectWithID<G>>) -> Seq<u64> {
    frame.map_values(|e: GameObjectWithID<G>| e.id)
}

/// Whether no identifier occurs twice in a frame.
pub open spec fn unique_ids<G>(frame: Seq<GameObjectWithID<G>>) -> bool {
    forall|x: int, y: int| 0 <= x < y < frame.len() ==> frame[x].id != frame[y].id
}

/// A tick changes no identifier: the identifiers of the next frame are the
/// identifiers of the current frame, in the same order.
pub proof fn lemma_ids_preserved<G: GameObject<M>, M>(
    frame: Seq<GameObjectWithID<G>>,
    table: Map<u64, Seq<M>>,
    time: u64,
)
    ensures
        frame_ids(next_frame(frame, table, time)) == frame_ids(frame),
{
    assert(frame_ids(next_frame(frame, table, time)) =~= frame_ids(frame));
}

/// Identity preservation: if the identifier `i` is present in a frame whose
/// identifiers are unique, then the next frame contains exactly one
/// identified entity with identifier `i` — the one at the same index.
pub proof fn lemma_identity_preservation<G: GameObject<M>, M>(
    frame: Seq<GameObjectWithID<G>>,
    table: Map<u64, Seq<M>>,
    time: u64,
    i: u64,
    x: int,
)
    requires
        unique_ids(frame),
        0 <= x < frame.len(),
        frame[x].id == i,
    ensures
        next_frame(frame, table, time).len() == frame.len(),
        next_frame(frame, table, time)[x].id == i,
        forall|y: int|
            0 <= y < frame.len() && next_frame(frame, table, time)[y].id == i ==> y == x,
{
    assert forall|y: int|
        0 <= y < frame.len() && next_frame(frame, table, time)[y].id == i implies y == x by {
        assert(next_frame(frame, table, time)[y].id == frame[y].id);
    }
}

/// Frame size stability: the engine never adds or removes an entity, so the
/// frame after any number of ticks has the size of the starting frame.
pub proof fn lemma_frame_size_stability<G: GameObject<M>, M>(
    frame: Seq<GameObjectWithID<G>>,
    table: Map<u64, Seq<M>>,
    time: u64,
    steps: nat,
)
    ensures
        run_spec(frame, table, time, steps).0.len() == frame.len(),
    decreases steps,
{
    if steps == 0 {
    } else {
        lemma_frame_size_stability(
            next_frame(frame, table, time),
            next_table(frame, table, time),
            time,
            (steps - 1) as nat,
        );
    }
}

/// Message delivery: the inbox the next table holds for a recipient is
/// exactly this tick's production addressed to it — no other messages, no
/// duplicates, whether or not the recipient has an entry.
pub proof fn lemma_message_delivery<G: GameObject<M>, M>(
    frame: Seq<GameObjectWithID<G>>,
    table: Map<u64, Seq<M>>,
    time: u64,
    i: u64,
)
    ensures
        inbox_of(next_table(frame, table, time), i) == messages_for(
            outboxes(frame, table, time),
            i,
        ),
{
    if messages_for(outboxes(frame, table, time), i).len() == 0 {
        assert(messages_for(outboxes(frame, table, time), i) =~= Seq::<M>::empty());
    }
}

/// Message purity: after `k + 1` ticks the table holds exactly the
/// production of tick `k + 1`'s predecessor, so a message is delivered on
/// the tick immediately following its production and on no other.
pub proof fn lemma_message_purity<G: GameObject<M>, M>(
    frame: Seq<GameObjectWithID<G>>,
    table: Map<u64, Seq<M>>,
    time: u64,
    k: nat,
    i: u64,
)
    ensures
        run_spec(frame, table, time, k + 1).1 == next_table(
            run_spec(frame, table, time, k).0,
            run_spec(frame, table, time, k).1,
            time,
        ),
        inbox_of(run_spec(frame, table, time, k + 1).1, i) == messages_for(
            outboxes(run_spec(frame, table, time, k).0, run_spec(frame, table, time, k).1, time),
            i,
        ),
{
    lemma_run_spec_step(frame, table, time, k);
    lemma_message_delivery(
        run_spec(frame, table, time, k).0,
        run_spec(frame, table, time, k).1,
        time,
        i,
    );
}

/// Snapshot isolation: every entity of the frame after `k + 1` ticks is the
/// update of the corresponding entity of the frame after `k` ticks, computed
/// from that published frame-and-table pair alone.
pub proof fn lemma_snapshot_isolation<G: GameObject<M>, M>(
    frame: Seq<GameObjectWithID<G>>,
    table: Map<u64, Seq<M>>,
    time: u64,
    k: nat,
    x: int,
)
    requires
        0 <= x < frame.len(),
    ensures
        run_spec(frame, table, time, k + 1).0[x] == next_entity(
            run_spec(frame, table, time, k).0,
            run_spec(frame, table, time, k).1,
            time,
            x,
        ),
{
    lemma_run_spec_step(frame, table, time, k);
    lemma_frame_size_stability(frame, table, time, k);
}

} // verus!
