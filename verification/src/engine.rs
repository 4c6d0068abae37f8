//! The engine façade and the dispatcher of one tick.

use vstd::hash_map::HashMapWithView;
use vstd::prelude::*;

use crate::model::inbox_of;
use crate::model::lemma_run_spec_step;
use crate::model::lemma_table_of_push_empty;
use crate::model::lemma_table_of_snoc_message;
use crate::model::messages_for;
use crate::model::next_frame;
use crate::model::next_table;
use crate::model::outbox_at;
use crate::model::outboxes;
use crate::model::run_spec;
use crate::model::table_of;
use crate::model::update_of;
use crate::objects::GameObject;
use crate::objects::GameObjectWithID;
use crate::objects::Message;
use crate::objects::MessageWithID;
use crate::objects::UpdateResultWithID;

verus! {

broadcast use vstd::std_specs::hash::group_hash_axioms;

/// The executable message table: recipient identifier to the bucket of
/// message payloads delivered to it on the current tick.
pub type MessageTable<M> = HashMapWithView<u64, Vec<M>>;

/// The message table as the model sees it: the same recipients, each entry
/// taken to its payload sequence.
pub open spec fn table_model<M>(t: Map<u64, Vec<M>>) -> Map<u64, Seq<M>> {
    Map::new(|id: u64| t.contains_key(id), |id: u64| t[id]@)
}

/// The frame that a sequence of update results assembles to: each result's
/// next state under the identifier it was produced for, in result order.
pub open spec fn frame_of_results<G, M>(results: Seq<UpdateResultWithID<G, M>>) -> Seq<
    GameObjectWithID<G>,
> {
    results.map_values(
        |r: UpdateResultWithID<G, M>|
            GameObjectWithID { id: r.id, game_object: r.result.state },
    )
}

/// The outboxes that a sequence of update results carries, in result order.
pub open spec fn outboxes_of_results<G, M>(results: Seq<UpdateResultWithID<G, M>>) -> Seq<
    Seq<MessageWithID<M>>,
> {
    results.map_values(|r: UpdateResultWithID<G, M>| r.result.messages@)
}

/// How many compute workers the engine keeps for a host with `cpus`
/// hardware threads: all of them but two, which are left for the dispatcher
/// and the serialization lane, and never fewer than one.
pub fn worker_count(cpus: usize) -> (w: usize)
    ensures
        w == (if cpus <= 2 {
            1usize
        } else {
            (cpus - 2) as usize
        }),
        w >= 1,
{
    if cpus <= 2 {
        1
    } else {
        cpus - 2
    }
}

/// The worker that the entity at index `x` of the frame is assigned to:
/// round-robin over `workers` inbound queues.
pub fn worker_index(x: usize, workers: usize) -> (w: usize)
    requires
        workers >= 1,
    ensures
        w == x % workers,
        w < workers,
{
    x % workers
}

/// Relies on num_cpus::get: the number of logical CPUs available to this
/// process, which its documentation promises to be at least 1.
#[verifier::external_body]
fn available_cpus() -> (n: usize)
    ensures
        n >= 1,
{
    num_cpus::get()
}

/// Moving one message into the table under its recipient, its bucket grown
/// by the payload, keeps the table equal to the one the model builds from
/// the outboxes processed so far.
proof fn lemma_table_insert<M>(
    m0: Map<u64, Vec<M>>,
    m1: Map<u64, Vec<M>>,
    obs_done: Seq<Seq<MessageWithID<M>>>,
    part: Seq<MessageWithID<M>>,
    msg: MessageWithID<M>,
    bucket: Vec<M>,
)
    requires
        table_model(m0) == table_of(obs_done.push(part)),
        bucket@ == (if m0.contains_key(msg.id) {
            m0[msg.id]@
        } else {
            Seq::<M>::empty()
        }).push(msg.message),
        m1 == m0.insert(msg.id, bucket),
    ensures
        table_model(m1) == table_of(obs_done.push(part.push(msg))),
{
    lemma_table_of_snoc_message(obs_done, part, msg);
    let p = obs_done.push(part);
    let pp = obs_done.push(part.push(msg));
    let t1 = table_of(pp);
    assert forall|id: u64| #![auto]
        m0.contains_key(id) == (messages_for(p, id).len() > 0) && (m0.contains_key(id)
            ==> m0[id]@ == messages_for(p, id)) by {
        assert(table_model(m0).contains_key(id) == m0.contains_key(id));
        assert(table_of(p).contains_key(id) == (messages_for(p, id).len() > 0));
        if m0.contains_key(id) {
            assert(table_model(m0)[id] == m0[id]@);
            assert(table_of(p)[id] == messages_for(p, id));
        }
    }
    if messages_for(p, msg.id).len() == 0 {
        assert(messages_for(p, msg.id) =~= Seq::<M>::empty());
    }
    assert forall|id: u64| #![auto] table_model(m1).contains_key(id) == t1.contains_key(id) by {
        if id != msg.id {
            assert(messages_for(pp, id) == messages_for(p, id));
        }
    }
    assert forall|id: u64| #![auto]
        table_model(m1).contains_key(id) ==> table_model(m1)[id] == t1[id] by {
        if table_model(m1).contains_key(id) {
            if id == msg.id {
                assert(table_model(m1)[id] == bucket@);
                assert(messages_for(pp, msg.id) == messages_for(p, msg.id).push(msg.message));
            } else {
                assert(m1[id] == m0[id]);
                assert(messages_for(pp, id) == messages_for(p, id));
            }
        }
    }
    assert(table_model(m1) =~= t1);
}

/// The engine: the initial frame it was constructed with, the current frame
/// and message table, and the size of the worker pool a parallel dispatcher
/// is expected to keep.
#[verifier::reject_recursive_types(M)]
pub struct Fungine<G, M> {
    /// The frame the engine was constructed with, retained so that a run can
    /// start over from it.
    pub initial_state: Vec<GameObjectWithID<G>>,
    /// The frame the next continued tick observes.
    pub current_state: Vec<GameObjectWithID<G>>,
    /// The message table the next continued tick draws inboxes from.
    pub messages: MessageTable<M>,
    /// The number of compute workers for this host.
    pub workers: usize,
}

impl<G: GameObject<M>, M: Message> Fungine<G, M> {
    /// An independent copy of a frame, equal to it element by element.
    fn clone_frame(frame: &Vec<GameObjectWithID<G>>) -> (r: Vec<GameObjectWithID<G>>)
        ensures
            r@ == frame@,
    {
        let mut out: Vec<GameObjectWithID<G>> = Vec::new();
        let n = frame.len();
        let mut i: usize = 0;
        while i < n
            invariant
                n == frame@.len(),
                i <= n,
                out@.len() == i as int,
                forall|j: int| 0 <= j < i as int ==> out@[j] == frame@[j],
            decreases n - i,
        {
            let e = &frame[i];
            out.push(GameObjectWithID { id: e.id, game_object: e.game_object.box_clone() });
            i += 1;
        }
        proof {
            assert(out@ =~= frame@);
        }
        out
    }

    /// Assemble the next frame and the next message table from one update
    /// result per entity, in the order the results arrived at the
    /// dispatcher: the frame lists each result's next state under its
    /// identifier, and the table holds exactly the production the results'
    /// outboxes carry, keyed by recipient.
    pub fn assemble(results: &Vec<UpdateResultWithID<G, M>>) -> (r: (
        Vec<GameObjectWithID<G>>,
        MessageTable<M>,
    ))
        ensures
            r.0@ == frame_of_results(results@),
            table_model(r.1@) == table_of(outboxes_of_results(results@)),
    {
        let ghost obs = outboxes_of_results(results@);
        let mut next_states: Vec<GameObjectWithID<G>> = Vec::new();
        let mut next_messages: MessageTable<M> = HashMapWithView::new();
        proof {
            assert(table_model(next_messages@) =~= table_of(obs.take(0)));
        }
        let n = results.len();
        let mut x: usize = 0;
        while x < n
            invariant
                n == results@.len(),
                x <= n,
                obs == outboxes_of_results(results@),
                next_states@.len() == x as int,
                forall|j: int| 0 <= j < x as int ==> next_states@[j] == frame_of_results(results@)[j],
                table_model(next_messages@) == table_of(obs.take(x as int)),
            decreases n - x,
        {
            let ghost xi = x as int;
            let rr = &results[x];
            next_states.push(
                GameObjectWithID { id: rr.id, game_object: rr.result.state.box_clone() },
            );
            let msgs = &rr.result.messages;
            let ghost ob = obs[xi];
            proof {
                assert(ob.take(0) =~= Seq::<MessageWithID<M>>::empty());
                lemma_table_of_push_empty(obs.take(xi), ob.take(0));
            }
            let m_count = msgs.len();
            let mut m_i: usize = 0;
            while m_i < m_count
                invariant
                    m_count == msgs@.len(),
                    m_i <= m_count,
                    msgs@ == ob,
                    table_model(next_messages@) == table_of(
                        obs.take(xi).push(ob.take(m_i as int)),
                    ),
                decreases m_count - m_i,
            {
                let ghost mi = m_i as int;
                let ghost m0 = next_messages@;
                let mm = &msgs[m_i];
                let rid = mm.id;
                let payload = mm.message.box_clone();
                let mut bucket: Vec<M> = match next_messages.remove(&rid) {
                    Some(v) => v,
                    None => Vec::new(),
                };
                proof {
                    assert(bucket@ =~= (if m0.contains_key(rid) {
                        m0[rid]@
                    } else {
                        Seq::<M>::empty()
                    }));
                }
                bucket.push(payload);
                let ghost bucket_snapshot = bucket;
                next_messages.insert(rid, bucket);
                proof {
                    assert(next_messages@ =~= m0.insert(rid, bucket_snapshot));
                    assert(ob.take(mi + 1) =~= ob.take(mi).push(ob[mi]));
                    lemma_table_insert(
                        m0,
                        next_messages@,
                        obs.take(xi),
                        ob.take(mi),
                        ob[mi],
                        bucket_snapshot,
                    );
                }
                m_i += 1;
            }
            proof {
                assert(ob.take(m_count as int) =~= ob);
                assert(obs.take(xi + 1) =~= obs.take(xi).push(ob));
            }
            x += 1;
        }
        proof {
            assert(next_states@ =~= frame_of_results(results@));
            assert(obs.take(n as int) =~= obs);
        }
        (next_states, next_messages)
    }

    /// Perform one tick. Every entity of `states` is updated once against
    /// the snapshot `states` and the inbox that `messages` holds for its
    /// identifier; the next frame holds each entity's next state under its
    /// identifier, in dispatch order, and the next message table holds
    /// exactly this tick's production, keyed by recipient.
    pub fn step_engine(
        states: &Vec<GameObjectWithID<G>>,
        time: u64,
        messages: &MessageTable<M>,
    ) -> (r: (Vec<GameObjectWithID<G>>, MessageTable<M>))
        ensures
            r.0@ == next_frame(states@, table_model(messages@), time),
            table_model(r.1@) == next_table(states@, table_model(messages@), time),
    {
        let ghost tm = table_model(messages@);
        let mut results: Vec<UpdateResultWithID<G, M>> = Vec::new();
        let empty_inbox: Vec<M> = Vec::new();
        let n = states.len();
        let mut x: usize = 0;
        while x < n
            invariant
                n == states@.len(),
                x <= n,
                tm == table_model(messages@),
                empty_inbox@.len() == 0,
                results@.len() == x as int,
                forall|j: int|
                    0 <= j < x as int ==> (#[trigger] results@[j]).id == states@[j].id
                        && results@[j].result.state == update_of(states@, tm, time, j).0
                        && results@[j].result.messages@ == outbox_at(states@, tm, time, j),
            decreases n - x,
        {
            let ghost xi = x as int;
            let e = &states[x];
            let inbox: &Vec<M> = match messages.get(&e.id) {
                Some(v) => v,
                None => &empty_inbox,
            };
            proof {
                assert(inbox@ =~= inbox_of(tm, e.id));
            }
            let res = e.game_object.update(e.id, states, inbox, time);
            proof {
                assert(res.state == update_of(states@, tm, time, xi).0);
                assert(res.messages@ == outbox_at(states@, tm, time, xi));
            }
            results.push(UpdateResultWithID { id: e.id, result: res });
            proof {
                assert(results@[xi].result.state == update_of(states@, tm, time, xi).0);
            }
            x += 1;
        }
        let r = Self::assemble(&results);
        proof {
            assert(frame_of_results(results@) =~= next_frame(states@, tm, time));
            assert(outboxes_of_results(results@) =~= outboxes(states@, tm, time));
        }
        r
    }

    /// Construct an engine over an initial frame. The current frame starts
    /// equal to the initial one, the message table starts empty, and the
    /// worker count is drawn from the host's CPU count.
    pub fn new(initial_state: Vec<GameObjectWithID<G>>) -> (engine: Fungine<G, M>)
        ensures
            engine.initial_state@ == initial_state@,
            engine.current_state@ == initial_state@,
            table_model(engine.messages@) == Map::<u64, Seq<M>>::empty(),
            engine.workers >= 1,
    {
        let current_state = Self::clone_frame(&initial_state);
        let workers = worker_count(available_cpus());
        let messages: MessageTable<M> = HashMapWithView::new();
        proof {
            assert(table_model(messages@) =~= Map::<u64, Seq<M>>::empty());
        }
        Fungine { initial_state, current_state, messages, workers }
    }

    /// Step the engine forward `steps` ticks, starting from the initial
    /// frame and the message table the engine currently holds, and return
    /// the resulting frame. The engine itself is left unchanged.
    pub fn run_steps(&self, steps: u32, time: u64) -> (r: Vec<GameObjectWithID<G>>)
        ensures
            r@ == run_spec(self.initial_state@, table_model(self.messages@), time, steps as nat).0,
    {
        let ghost f0 = self.initial_state@;
        let ghost t0 = table_model(self.messages@);
        if steps == 0 {
            return Self::clone_frame(&self.initial_state);
        }
        let (mut states, mut msgs) = Self::step_engine(&self.initial_state, time, &self.messages);
        proof {
            let nf = next_frame(f0, t0, time);
            let nt = next_table(f0, t0, time);
            assert(run_spec(f0, t0, time, 1) == run_spec(nf, nt, time, 0));
            assert(run_spec(nf, nt, time, 0) == (nf, nt));
        }
        let mut k: u32 = 1;
        while k < steps
            invariant
                1 <= k <= steps,
                states@ == run_spec(f0, t0, time, k as nat).0,
                table_model(msgs@) == run_spec(f0, t0, time, k as nat).1,
            decreases steps - k,
        {
            let (s2, m2) = Self::step_engine(&states, time, &msgs);
            proof {
                lemma_run_spec_step(f0, t0, time, k as nat);
            }
            states = s2;
            msgs = m2;
            k += 1;
        }
        states
    }

    /// Step the engine forward `steps` ticks from the current frame and
    /// message table, publish the resulting pair as the new current one, and
    /// return the resulting frame.
    pub fn run_steps_cont(&mut self, steps: u32, time: u64) -> (r: Vec<GameObjectWithID<G>>)
        ensures
            final(self).initial_state@ == old(self).initial_state@,
            final(self).workers == old(self).workers,
            final(self).current_state@ == run_spec(
                old(self).current_state@,
                table_model(old(self).messages@),
                time,
                steps as nat,
            ).0,
            table_model(final(self).messages@) == run_spec(
                old(self).current_state@,
                table_model(old(self).messages@),
                time,
                steps as nat,
            ).1,
            r@ == final(self).current_state@,
    {
        let ghost f0 = self.current_state@;
        let ghost t0 = table_model(self.messages@);
        if steps == 0 {
            return Self::clone_frame(&self.current_state);
        }
        let (mut states, mut msgs) = Self::step_engine(&self.current_state, time, &self.messages);
        proof {
            let nf = next_frame(f0, t0, time);
            let nt = next_table(f0, t0, time);
            assert(run_spec(f0, t0, time, 1) == run_spec(nf, nt, time, 0));
            assert(run_spec(nf, nt, time, 0) == (nf, nt));
        }
        let mut k: u32 = 1;
        while k < steps
            invariant
                1 <= k <= steps,
                states@ == run_spec(f0, t0, time, k as nat).0,
                table_model(msgs@) == run_spec(f0, t0, time, k as nat).1,
            decreases steps - k,
        {
            let (s2, m2) = Self::step_engine(&states, time, &msgs);
            proof {
                lemma_run_spec_step(f0, t0, time, k as nat);
            }
            states = s2;
            msgs = m2;
            k += 1;
        }
        let r = Self::clone_frame(&states);
        self.current_state = states;
        self.messages = msgs;
        r
    }
}

} // verus!
