//! The mathematical model of one tick and of a run of ticks.
//!
//! A frame is a `Seq` of identified entities; a message table is a `Map` from
//! recipient identifier to the ordered sequence of message payloads delivered
//! to it. `step_spec` says what the dispatcher produces from one frame and
//! table; `run_spec` iterates it. The executable engine is specified against
//! these functions.

use vstd::prelude::*;

use crate::objects::GameObject;
use crate::objects::GameObjectWithID;
use crate::objects::MessageWithID;

verus! {

/// The inbox a recipient draws from a message table: its entry if the table
/// has one, the empty sequence otherwise.
pub open spec fn inbox_of<M>(table: Map<u64, Seq<M>>, id: u64) -> Seq<M> {
    if table.contains_key(id) {
        table[id]
    } else {
        Seq::empty()
    }
}

/// The payloads of the messages in one outbox that are addressed to `id`, in
/// outbox order.
pub open spec fn sent_to<M>(outbox: Seq<MessageWithID<M>>, id: u64) -> Seq<M>
    decreases outbox.len(),
{
    if outbox.len() == 0 {
        Seq::empty()
    } else {
        sent_to(outbox.drop_last(), id) + (if outbox.last().id == id {
            seq![outbox.last().message]
        } else {
            Seq::empty()
        })
    }
}

/// The payloads addressed to `id` across a sequence of outboxes: one tick's
/// production for that recipient, outboxes in dispatch order.
pub open spec fn messages_for<M>(outboxes: Seq<Seq<MessageWithID<M>>>, id: u64) -> Seq<M>
    decreases outboxes.len(),
{
    if outboxes.len() == 0 {
        Seq::empty()
    } else {
        messages_for(outboxes.drop_last(), id) + sent_to(outboxes.last(), id)
    }
}

/// The message table built from one tick's outboxes: a recipient has an entry
/// exactly when at least one message was addressed to it, and the entry holds
/// exactly that tick's production for it.
pub open spec fn table_of<M>(outboxes: Seq<Seq<MessageWithID<M>>>) -> Map<u64, Seq<M>> {
    Map::new(
        |id: u64| messages_for(outboxes, id).len() > 0,
        |id: u64| messages_for(outboxes, id),
    )
}

/// What the update of the entity at index `x` of `frame` returns on this
/// tick: its next state paired with its outbox.
pub open spec fn update_of<G: GameObject<M>, M>(
    frame: Seq<GameObjectWithID<G>>,
    table: Map<u64, Seq<M>>,
    time: u64,
    x: int,
) -> (G, Seq<MessageWithID<M>>) {
    frame[x].game_object.update_spec(frame[x].id, frame, inbox_of(table, frame[x].id), time)
}

/// The entity at index `x` of the next frame: the same identifier as in the
/// current frame, carrying the state its update returned.
pub open spec fn next_entity<G: GameObject<M>, M>(
    frame: Seq<GameObjectWithID<G>>,
    table: Map<u64, Seq<M>>,
    time: u64,
    x: int,
) -> GameObjectWithID<G> {
    GameObjectWithID { id: frame[x].id, game_object: update_of(frame, table, time, x).0 }
}

/// The outbox the entity at index `x` produces on this tick.
pub open spec fn outbox_at<G: GameObject<M>, M>(
    frame: Seq<GameObjectWithID<G>>,
    table: Map<u64, Seq<M>>,
    time: u64,
    x: int,
) -> Seq<MessageWithID<M>> {
    update_of(frame, table, time, x).1
}

/// All outboxes of one tick, in dispatch order.
pub open spec fn outboxes<G: GameObject<M>, M>(
    frame: Seq<GameObjectWithID<G>>,
    table: Map<u64, Seq<M>>,
    time: u64,
) -> Seq<Seq<MessageWithID<M>>> {
    Seq::new(frame.len(), |x: int| outbox_at(frame, table, time, x))
}

/// The next frame: one entity per current entity, each under its own
/// identifier, each carrying the state its update returned.
pub open spec fn next_frame<G: GameObject<M>, M>(
    frame: Seq<GameObjectWithID<G>>,
    table: Map<u64, Seq<M>>,
    time: u64,
) -> Seq<GameObjectWithID<G>> {
    Seq::new(frame.len(), |x: int| next_entity(frame, table, time, x))
}

/// The next message table: exactly this tick's production, keyed by
/// recipient. Nothing of the incoming table survives into it.
pub open spec fn next_table<G: GameObject<M>, M>(
    frame: Seq<GameObjectWithID<G>>,
    table: Map<u64, Seq<M>>,
    time: u64,
) -> Map<u64, Seq<M>> {
    table_of(outboxes(frame, table, time))
}

/// One full tick: the next frame and the next message table, published as a
/// pair.
pub open spec fn step_spec<G: GameObject<M>, M>(
    frame: Seq<GameObjectWithID<G>>,
    table: Map<u64, Seq<M>>,
    time: u64,
) -> (Seq<GameObjectWithID<G>>, Map<u64, Seq<M>>) {
    (next_frame(frame, table, time), next_table(frame, table, time))
}

/// `steps` ticks from a starting pair, each tick observing exactly the pair
/// the previous tick published.
pub open spec fn run_spec<G: GameObject<M>, M>(
    frame: Seq<GameObjectWithID<G>>,
    table: Map<u64, Seq<M>>,
    time: u64,
    steps: nat,
) -> (Seq<GameObjectWithID<G>>, Map<u64, Seq<M>>)
    decreases steps,
{
    if steps == 0 {
        (frame, table)
    } else {
        run_spec(
            next_frame(frame, table, time),
            next_table(frame, table, time),
            time,
            (steps - 1) as nat,
        )
    }
}

/// Appending one message to an outbox extends what that outbox sends to the
/// message's recipient by its payload, and sends to nobody else.
pub proof fn lemma_sent_to_push<M>(ob: Seq<MessageWithID<M>>, m: MessageWithID<M>, id: u64)
    ensures
        sent_to(ob.push(m), id) == sent_to(ob, id) + (if m.id == id {
            seq![m.message]
        } else {
            Seq::<M>::empty()
        }),
{
    assert(ob.push(m).drop_last() =~= ob);
    assert(ob.push(m).last() == m);
}

/// Appending one outbox to a tick's outboxes extends each recipient's
/// production by what that outbox sends to it.
pub proof fn lemma_messages_for_push<M>(
    obs: Seq<Seq<MessageWithID<M>>>,
    ob: Seq<MessageWithID<M>>,
    id: u64,
)
    ensures
        messages_for(obs.push(ob), id) == messages_for(obs, id) + sent_to(ob, id),
{
    assert(obs.push(ob).drop_last() =~= obs);
    assert(obs.push(ob).last() == ob);
}

/// Appending an empty outbox leaves every recipient's production, and so the
/// table built from the outboxes, unchanged.
pub proof fn lemma_table_of_push_empty<M>(obs: Seq<Seq<MessageWithID<M>>>, ob: Seq<MessageWithID<M>>)
    requires
        ob.len() == 0,
    ensures
        table_of(obs.push(ob)) == table_of(obs),
{
    assert forall|id: u64| #![auto] messages_for(obs.push(ob), id) == messages_for(obs, id) by {
        lemma_messages_for_push(obs, ob, id);
        assert(sent_to(ob, id) =~= Seq::<M>::empty());
        assert(messages_for(obs, id) + Seq::<M>::empty() =~= messages_for(obs, id));
    }
    assert(table_of(obs.push(ob)) =~= table_of(obs));
}

/// Moving one more message of the outbox under work: the recipient's
/// production grows by its payload, every other recipient's is unchanged.
pub proof fn lemma_table_of_snoc_message<M>(
    obs: Seq<Seq<MessageWithID<M>>>,
    part: Seq<MessageWithID<M>>,
    m: MessageWithID<M>,
)
    ensures
        messages_for(obs.push(part.push(m)), m.id) == messages_for(obs.push(part), m.id).push(
            m.message,
        ),
        forall|id: u64|
            id != m.id ==> messages_for(obs.push(part.push(m)), id) == messages_for(
                obs.push(part),
                id,
            ),
{
    assert forall|id: u64|
        messages_for(obs.push(part.push(m)), id) == (if id == m.id {
            messages_for(obs.push(part), id).push(m.message)
        } else {
            messages_for(obs.push(part), id)
        }) by {
        lemma_messages_for_push(obs, part.push(m), id);
        lemma_messages_for_push(obs, part, id);
        lemma_sent_to_push(part, m, id);
        if id == m.id {
            assert(messages_for(obs, id) + (sent_to(part, id) + seq![m.message]) =~= (
            messages_for(obs, id) + sent_to(part, id)).push(m.message));
        } else {
            assert(messages_for(obs, id) + (sent_to(part, id) + Seq::<M>::empty()) =~= messages_for(
                obs,
                id,
            ) + sent_to(part, id));
        }
    }
}

/// A run of `k + 1` ticks is a run of `k` ticks followed by one tick: the
/// recursion of `run_spec` peels ticks from the front, this lemma peels the
/// last one.
pub proof fn lemma_run_spec_step<G: GameObject<M>, M>(
    frame: Seq<GameObjectWithID<G>>,
    table: Map<u64, Seq<M>>,
    time: u64,
    k: nat,
)
    ensures
        run_spec(frame, table, time, k + 1) == step_spec(
            run_spec(frame, table, time, k).0,
            run_spec(frame, table, time, k).1,
            time,
        ),
    decreases k,
{
    let nf = next_frame(frame, table, time);
    let nt = next_table(frame, table, time);
    if k == 0 {
        assert(run_spec(frame, table, time, 1) == run_spec(nf, nt, time, 0));
        assert(run_spec(nf, nt, time, 0) == (nf, nt));
    } else {
        lemma_run_spec_step(nf, nt, time, (k - 1) as nat);
        assert(run_spec(frame, table, time, k + 1) == run_spec(nf, nt, time, k));
        assert(run_spec(frame, table, time, k) == run_spec(nf, nt, time, (k - 1) as nat));
    }
}

/// Ticks compose: a run of `a + b` ticks reaches the pair that a run of `b`
/// ticks reaches from where a run of `a` ticks ends, so a simulation
/// continued in segments ends where one uninterrupted run ends.
pub proof fn lemma_run_spec_concat<G: GameObject<M>, M>(
    frame: Seq<GameObjectWithID<G>>,
    table: Map<u64, Seq<M>>,
    time: u64,
    a: nat,
    b: nat,
)
    ensures
        run_spec(frame, table, time, a + b) == run_spec(
            run_spec(frame, table, time, a).0,
            run_spec(frame, table, time, a).1,
            time,
            b,
        ),
    decreases a,
{
    let nf = next_frame(frame, table, time);
    let nt = next_table(frame, table, time);
    if a == 0 {
        assert(run_spec(frame, table, time, 0) == (frame, table));
    } else {
        lemma_run_spec_concat(nf, nt, time, (a - 1) as nat, b);
        assert(run_spec(frame, table, time, a + b) == run_spec(nf, nt, time, (a + b - 1) as nat));
        assert(run_spec(frame, table, time, a) == run_spec(nf, nt, time, (a - 1) as nat));
    }
}

} // verus!
