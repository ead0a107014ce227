//! The kernel event bus: events are queued in publication order, and
//! subscriptions are kept under increasing identifiers.

use vstd::prelude::*;
use std::collections::BTreeMap;

verus! {

broadcast use vstd::std_specs::btree::group_btree_axioms;

/// Kind of a kernel event.
#[derive(Clone, Copy, PartialEq, Eq, Structural, Debug)]
pub enum EventType {
    Interrupt,
    Device,
    AgentLifecycle,
    FileSystem,
    Network,
    VirtualMemory,
    Security,
    Performance,
    /// Memory handed to an agent.
    Memory,
    /// An action of the kernel on itself, such as a recovery step.
    System,
}

/// A kernel event.
pub struct KernelEvent {
    pub event_type: EventType,
    pub timestamp: u64,
    pub agent_id: Option<u64>,
    pub data: Vec<u8>,
}

/// Events of an agent's life.
#[derive(Clone, Copy, PartialEq, Eq, Structural, Debug)]
pub enum AgentLifecycleEvent {
    Spawned,
    Killed,
    Cloned,
    Merged,
    Split,
    Upgraded,
    Specialized,
}

/// Security violations.
#[derive(Clone, Copy, PartialEq, Eq, Structural, Debug)]
pub enum SecurityEvent {
    CapabilityViolation,
    QuotaExceeded,
    UnauthorizedAccess,
    BehavioralAnomaly,
}

/// What a subscriber wants to receive; the callback is a handle that the
/// embedding code maps to the function it stands for.
pub struct EventSubscription {
    pub event_types: Vec<EventType>,
    pub agent_id_filter: Option<u64>,
    pub callback: u64,
}

impl EventSubscription {
    pub fn new(event_types: Vec<EventType>, agent_id_filter: Option<u64>, callback: u64) -> (s: Self)
        ensures
            s.event_types@ == event_types@,
            s.agent_id_filter == agent_id_filter,
            s.callback == callback,
    {
        EventSubscription { event_types, agent_id_filter, callback }
    }
}

/// An event as plain values: type, time, agent and data.
pub open spec fn event_view(e: KernelEvent) -> (EventType, u64, Option<u64>, Seq<u8>) {
    (e.event_type, e.timestamp, e.agent_id, e.data@)
}

/// A subscription as plain values: event types, agent filter, callback.
pub open spec fn subscription_view(s: EventSubscription) -> (Seq<EventType>, Option<u64>, u64) {
    (s.event_types@, s.agent_id_filter, s.callback)
}

/// Whether a subscription, as plain values, wants an event of type `t`
/// about `agent`: its types include `t`, and it has no agent filter or the
/// filter is `agent`.
pub open spec fn wants(sub: (Seq<EventType>, Option<u64>, u64), t: EventType, agent: Option<u64>) -> bool {
    sub.0.contains(t) && (sub.1 is None || sub.1 == agent)
}

/// The callbacks, in the order of `ids`, of the subscriptions of `subs`
/// under `ids` that want an event of type `t` about `agent`.
pub open spec fn callbacks_for(
    ids: Seq<u64>,
    subs: Map<u64, (Seq<EventType>, Option<u64>, u64)>,
    t: EventType,
    agent: Option<u64>,
) -> Seq<u64>
    decreases ids.len(),
{
    if ids.len() == 0 {
        Seq::empty()
    } else {
        let rest = callbacks_for(ids.drop_last(), subs, t, agent);
        if wants(subs[ids.last()], t, agent) {
            rest.push(subs[ids.last()].2)
        } else {
            rest
        }
    }
}

/// Whether `ids` lists the identifiers of `subs`, each once, in increasing
/// order.
pub open spec fn in_id_order(ids: Seq<u64>, subs: Map<u64, (Seq<EventType>, Option<u64>, u64)>) -> bool {
    &&& forall|i: int, j: int| 0 <= i < j < ids.len() ==> ids[i] < ids[j]
    &&& forall|k: u64| #[trigger] subs.contains_key(k) <==> ids.contains(k)
}

/// `u64` keys are ordered as the ordered maps and sets of them need.
pub(crate) proof fn lemma_u64_keys_ordered()
    ensures
        vstd::std_specs::btree::key_obeys_cmp_spec::<u64>(),
        vstd::laws_cmp::obeys_cmp::<u64>(),
{
}

/// Keys listed in increasing order are listed by increasing value.
proof fn lemma_increasing_keys(keys: Seq<u64>)
    requires
        vstd::std_specs::btree::increasing_seq(keys),
    ensures
        forall|i: int, j: int| 0 <= i < j < keys.len() ==> keys[i] < keys[j],
{
    assert forall|i: int, j: int| 0 <= i < j < keys.len() implies keys[i] < keys[j] by {
        assert(vstd::std_specs::cmp::OrdSpec::cmp_spec(&keys[i], &keys[j]) is Less);
    }
}

fn subscription_wants(sub: &EventSubscription, event: &KernelEvent) -> (r: bool)
    ensures
        r == wants(subscription_view(*sub), event.event_type, event.agent_id),
{
    let mut found = false;
    let mut i: usize = 0;
    while i < sub.event_types.len()
        invariant
            i <= sub.event_types@.len(),
            found == sub.event_types@.subrange(0, i as int).contains(event.event_type),
        decreases sub.event_types.len() - i,
    {
        proof {
            let q = sub.event_types@;
            assert(q.subrange(0, i as int + 1) =~= q.subrange(0, i as int).push(q[i as int]));
        }
        if sub.event_types[i] == event.event_type {
            found = true;
        }
        proof {
            let q = sub.event_types@;
            let pre = q.subrange(0, i as int);
            let t = event.event_type;
            if pre.contains(t) {
                let w = choose|w: int| 0 <= w < pre.len() && pre[w] == t;
                assert(q.subrange(0, i as int + 1)[w] == t);
            }
            if q[i as int] == t {
                assert(q.subrange(0, i as int + 1)[i as int] == t);
            }
            if q.subrange(0, i as int + 1).contains(t) {
                let post = q.subrange(0, i as int + 1);
                let w = choose|w: int| 0 <= w < post.len() && post[w] == t;
                if w < i {
                    assert(pre[w] == t);
                }
            }
        }
        i = i + 1;
    }
    proof {
        assert(sub.event_types@.subrange(0, sub.event_types@.len() as int) =~= sub.event_types@);
    }
    found && match sub.agent_id_filter {
        None => true,
        Some(a) => event.agent_id == Some(a),
    }
}

/// The event bus.
pub struct EventBus {
    subscriptions: BTreeMap<u64, EventSubscription>,
    next_id: u64,
    event_queue: Vec<KernelEvent>,
}

impl EventBus {
    /// The identifiers of the subscriptions.
    pub closed spec fn subscription_ids(&self) -> Set<u64> {
        self.subscriptions@.dom()
    }

    /// The subscriptions by identifier.
    pub closed spec fn subscriptions(&self) -> Map<u64, (Seq<EventType>, Option<u64>, u64)> {
        self.subscriptions@.map_values(|s: EventSubscription| subscription_view(s))
    }

    /// The queued events, oldest first.
    pub closed spec fn queue(&self) -> Seq<(EventType, u64, Option<u64>, Seq<u8>)> {
        self.event_queue@.map_values(|e: KernelEvent| event_view(e))
    }

    /// The identifier of the next subscription.
    pub closed spec fn next(&self) -> u64 {
        self.next_id
    }

    pub fn new() -> (b: Self)
        ensures
            b.subscription_ids() == Set::<u64>::empty(),
            b.subscriptions() == Map::<u64, (Seq<EventType>, Option<u64>, u64)>::empty(),
            b.queue() == Seq::<(EventType, u64, Option<u64>, Seq<u8>)>::empty(),
            b.next() == 1,
    {
        let b = EventBus { subscriptions: BTreeMap::new(), next_id: 1, event_queue: Vec::new() };
        proof {
            assert(b.subscriptions() =~= Map::<u64, (Seq<EventType>, Option<u64>, u64)>::empty());
            assert(b.queue() =~= Seq::<(EventType, u64, Option<u64>, Seq<u8>)>::empty());
        }
        b
    }

    /// Queues `event`.
    pub fn publish(&mut self, event: KernelEvent)
        ensures
            final(self).queue() == old(self).queue().push(event_view(event)),
            final(self).subscription_ids() == old(self).subscription_ids(),
            final(self).subscriptions() == old(self).subscriptions(),
            final(self).next() == old(self).next(),
    {
        let ghost v = event_view(event);
        self.event_queue.push(event);
        proof {
            assert(self.queue() =~= old(self).queue().push(v));
        }
    }

    /// Adds a subscription under the next identifier, which wraps around.
    pub fn subscribe(&mut self, subscription: EventSubscription) -> (id: u64)
        ensures
            id == old(self).next(),
            final(self).next() == old(self).next().wrapping_add(1),
            final(self).subscription_ids() == old(self).subscription_ids().insert(id),
            final(self).subscriptions() == old(self).subscriptions().insert(id, subscription_view(subscription)),
            final(self).queue() == old(self).queue(),
    {
        let id = self.next_id;
        self.next_id = id.wrapping_add(1);
        let ghost v = subscription_view(subscription);
        self.subscriptions.insert(id, subscription);
        proof {
            assert(self.subscriptions() =~= old(self).subscriptions().insert(id, v));
        }
        id
    }

    /// The callbacks an event reaches: those of the subscriptions that
    /// want its type and its agent, each once, in the order of their
    /// identifiers.
    pub fn recipients(&self, event: &KernelEvent) -> (cbs: Vec<u64>)
        ensures
            exists|ids: Seq<u64>|
                #![trigger callbacks_for(ids, self.subscriptions(), event.event_type, event.agent_id)]
                in_id_order(ids, self.subscriptions()) && cbs@ == callbacks_for(
                    ids,
                    self.subscriptions(),
                    event.event_type,
                    event.agent_id,
                ),
    {
        let mut cbs: Vec<u64> = Vec::new();
        let ghost subs = self.subscriptions();
        proof {
            lemma_u64_keys_ordered();
        }
        let entries = self.subscriptions.iter();
        let ghost all = vstd::std_specs::iter::IteratorSpec::remaining(&entries);
        proof {
            let v = vstd::std_specs::iter::IteratorSpec::remaining(
                &vstd::std_specs::btree::spec_btree_map_iter(&self.subscriptions),
            );
            assert(all == v);
            lemma_increasing_keys(all.map_values(|p: (&u64, &EventSubscription)| *p.0));
            assert forall|key: u64| #[trigger] self.subscriptions@.contains_key(key) implies all.map_values(
                |p: (&u64, &EventSubscription)| *p.0,
            ).contains(key) by {
                assert(v.contains((&key, &self.subscriptions@[key])));
                let w = choose|w: int| 0 <= w < v.len() && v[w] == (&key, &self.subscriptions@[key]);
                assert(all.map_values(|p: (&u64, &EventSubscription)| *p.0)[w] == key);
            }
            assert forall|i: int| 0 <= i < all.len() implies self.subscriptions@.contains_key(*all[i].0)
                && self.subscriptions@[*all[i].0] == *all[i].1 by {
                assert(self.subscriptions@.contains_key(*v[i].0));
            }
        }
        for kv in it: entries
            invariant
                subs == self.subscriptions(),
                it.seq() == all,
                in_id_order(all.map_values(|p: (&u64, &EventSubscription)| *p.0), subs),
                forall|i: int|
                    0 <= i < all.len() ==> self.subscriptions@.contains_key(*all[i].0)
                        && self.subscriptions@[*all[i].0] == *all[i].1,
                cbs@ == callbacks_for(
                    it.seq().take(it.index()).map_values(|p: (&u64, &EventSubscription)| *p.0),
                    subs,
                    event.event_type,
                    event.agent_id,
                ),
        {
            let (k, sub) = kv;
            proof {
                assert(kv == it.seq()[it.index()]);
                assert(self.subscriptions@.contains_key(*k));
                assert(self.subscriptions@[*k] == *sub);
                assert(subs[*k] == subscription_view(*sub));
            }
            let ghost before = it.seq().take(it.index()).map_values(|p: (&u64, &EventSubscription)| *p.0);
            if subscription_wants(sub, event) {
                cbs.push(sub.callback);
            }
            proof {
                let after = it.seq().take(it.index() + 1).map_values(|p: (&u64, &EventSubscription)| *p.0);
                assert(after.drop_last() =~= before);
                assert(after.last() == *k);
            }
        }
        proof {
            assert(all.take(all.len() as int) =~= all);
        }
        cbs
    }

    /// How many events are queued.
    pub fn queue_len(&self) -> (n: usize)
        ensures
            n == self.queue().len(),
    {
        self.event_queue.len()
    }

    /// The `i`-th queued event, oldest first, if there is one.
    pub fn queued_event(&self, i: usize) -> (r: Option<&KernelEvent>)
        ensures
            r is Some <==> i < self.queue().len(),
            r matches Some(e) ==> event_view(*e) == self.queue()[i as int],
    {
        if i < self.event_queue.len() {
            Some(&self.event_queue[i])
        } else {
            None
        }
    }

    /// Removes a subscription.
    pub fn unsubscribe(&mut self, subscription_id: u64)
        ensures
            final(self).subscription_ids() == old(self).subscription_ids().remove(subscription_id),
            final(self).subscriptions() == old(self).subscriptions().remove(subscription_id),
            final(self).queue() == old(self).queue(),
            final(self).next() == old(self).next(),
    {
        self.subscriptions.remove(&subscription_id);
        proof {
            assert(self.subscriptions() =~= old(self).subscriptions().remove(subscription_id));
        }
    }
}

/// The kernel's event system.
pub struct KernelEventSystem {
    pub bus: EventBus,
}

impl KernelEventSystem {
    pub fn new() -> (s: Self)
        ensures
            s.bus.subscription_ids() == Set::<u64>::empty(),
            s.bus.subscriptions() == Map::<u64, (Seq<EventType>, Option<u64>, u64)>::empty(),
            s.bus.queue() == Seq::<(EventType, u64, Option<u64>, Seq<u8>)>::empty(),
            s.bus.next() == 1,
    {
        KernelEventSystem { bus: EventBus::new() }
    }
}

/// Whether the event system `s1` is `s0` with `events` queued, in order,
/// when it is up, and is down when `s0` is.
pub open spec fn published(
    s0: Option<KernelEventSystem>,
    s1: Option<KernelEventSystem>,
    events: Seq<(EventType, u64, Option<u64>, Seq<u8>)>,
) -> bool {
    &&& s1 is Some == s0 is Some
    &&& s0 matches Some(a) ==> {
        let b = s1->0;
        &&& b.bus.queue() == a.bus.queue() + events
        &&& b.bus.subscription_ids() == a.bus.subscription_ids()
        &&& b.bus.subscriptions() == a.bus.subscriptions()
        &&& b.bus.next() == a.bus.next()
    }
}

/// Leaving the event system alone publishes nothing.
pub proof fn lemma_published_nothing(s: Option<KernelEventSystem>)
    ensures
        published(s, s, Seq::empty()),
{
    if s is Some {
        assert(s->0.bus.queue() + Seq::<(EventType, u64, Option<u64>, Seq<u8>)>::empty() =~= s->0.bus.queue());
    }
}

/// Publishing one list of events and then another publishes both, in
/// order.
pub proof fn lemma_published_chain(
    s0: Option<KernelEventSystem>,
    s1: Option<KernelEventSystem>,
    s2: Option<KernelEventSystem>,
    first: Seq<(EventType, u64, Option<u64>, Seq<u8>)>,
    second: Seq<(EventType, u64, Option<u64>, Seq<u8>)>,
)
    requires
        published(s0, s1, first),
        published(s1, s2, second),
    ensures
        published(s0, s2, first + second),
{
    if s0 is Some {
        assert(s2->0.bus.queue() =~= s0->0.bus.queue() + (first + second));
    }
}

/// Publishes `event` on the event system, if it is up, and returns the
/// callbacks it reaches; see [`EventBus::recipients`].
pub fn publish_event(system: &mut Option<KernelEventSystem>, event: KernelEvent) -> (cbs: Vec<u64>)
    ensures
        published(*old(system), *final(system), seq![event_view(event)]),
        (*old(system)) is None ==> cbs@.len() == 0,
        (*old(system)) matches Some(s0) ==> exists|ids: Seq<u64>|
            #![trigger callbacks_for(ids, s0.bus.subscriptions(), event.event_type, event.agent_id)]
            in_id_order(ids, s0.bus.subscriptions()) && cbs@ == callbacks_for(
                ids,
                s0.bus.subscriptions(),
                event.event_type,
                event.agent_id,
            ),
{
    match system {
        Some(s) => {
            let ghost v = event_view(event);
            let cbs = s.bus.recipients(&event);
            s.bus.publish(event);
            proof {
                assert(old(system)->0.bus.queue().push(v) =~= old(system)->0.bus.queue() + seq![v]);
            }
            cbs
        },
        None => Vec::new(),
    }
}

/// Subscribes on the event system; 0 when it is not up.
pub fn subscribe(
    system: &mut Option<KernelEventSystem>,
    event_types: Vec<EventType>,
    agent_id_filter: Option<u64>,
    callback: u64,
) -> (id: u64)
    ensures
        (*final(system)) is Some == (*old(system)) is Some,
        (*old(system)) is None ==> id == 0,
        (*old(system)) is Some ==> id == (*old(system))->0.bus.next(),
        (*old(system)) is Some ==> (*final(system))->0.bus.subscription_ids() == (*old(
            system
        ))->0.bus.subscription_ids().insert(id),
        (*old(system)) is Some ==> (*final(system))->0.bus.subscriptions() == (*old(
            system
        ))->0.bus.subscriptions().insert(id, (event_types@, agent_id_filter, callback)),
        (*old(system)) is Some ==> (*final(system))->0.bus.next() == (*old(
            system
        ))->0.bus.next().wrapping_add(1),
        (*old(system)) is Some ==> (*final(system))->0.bus.queue() == (*old(system))->0.bus.queue(),
{
    match system {
        Some(s) => s.bus.subscribe(EventSubscription::new(event_types, agent_id_filter, callback)),
        None => 0,
    }
}

} // verus!
