use vstd::prelude::*;

use crate::types::{Event, MessageQueue};

verus! {

/// One handing of an event to a subscriber: `subscriber` is its position in
/// subscription order.
#[derive(Debug, Clone, PartialEq)]
pub struct Delivery {
    pub subscriber: usize,
    pub event: Event,
}

/// The deliveries of one event to the first `n` subscribers, in subscription order.
pub open spec fn round(e: Event, n: nat) -> Seq<Delivery> {
    Seq::new(n, |j: int| Delivery { subscriber: j as usize, event: e })
}

/// The deliveries that a dispatch of `events` to `n` subscribers makes: every
/// event in queue order, each to every subscriber in subscription order.
pub open spec fn deliveries(events: Seq<Event>, n: nat) -> Seq<Delivery>
    decreases events.len(),
{
    if events.len() == 0 {
        Seq::empty()
    } else {
        deliveries(events.drop_last(), n) + round(events.last(), n)
    }
}

/// Whether a delivery goes to subscriber `j`.
pub open spec fn addressed_to(j: nat) -> spec_fn(Delivery) -> bool {
    |d: Delivery| d.subscriber == j
}

/// The events, in order, that subscriber `j` is handed by `plan`.
pub open spec fn received_by(plan: Seq<Delivery>, j: nat) -> Seq<Event> {
    plan.filter(addressed_to(j)).map_values(|d: Delivery| d.event)
}

proof fn lemma_round_filter(e: Event, n: nat, j: nat)
    requires
        n <= usize::MAX,
    ensures
        round(e, n).filter(addressed_to(j)) == if j < n {
            seq![Delivery { subscriber: j as usize, event: e }]
        } else {
            Seq::<Delivery>::empty()
        },
    decreases n,
{
    if n > 0 {
        let m = (n - 1) as nat;
        lemma_round_filter(e, m, j);
        assert(round(e, n) =~= round(e, m).push(Delivery { subscriber: m as usize, event: e }));
        round(e, m).lemma_filter_push(Delivery { subscriber: m as usize, event: e }, addressed_to(j));
        if j < m {
        } else if j == m {
            assert(Seq::<Delivery>::empty().push(Delivery { subscriber: j as usize, event: e })
                =~= seq![Delivery { subscriber: j as usize, event: e }]);
        }
    } else {
        assert(round(e, n) =~= Seq::<Delivery>::empty());
    }
}

proof fn lemma_deliveries_len(events: Seq<Event>, n: nat)
    ensures
        deliveries(events, n).len() == events.len() * n,
    decreases events.len(),
{
    if events.len() > 0 {
        let t = events.drop_last();
        lemma_deliveries_len(t, n);
        let x = events.len() as int;
        assert((x - 1) * n + n == x * n) by (nonlinear_arith);
    }
}

/// Dispatching delivers every pending event exactly once to every
/// subscriber, and each subscriber receives them in the order they were
/// posted.
pub proof fn lemma_every_subscriber_receives_every_event(events: Seq<Event>, n: nat, j: nat)
    requires
        n <= usize::MAX,
        j < n,
    ensures
        received_by(deliveries(events, n), j) == events,
    decreases events.len(),
{
    if events.len() == 0 {
        assert(received_by(deliveries(events, n), j) =~= events);
    } else {
        let t = events.drop_last();
        lemma_every_subscriber_receives_every_event(t, n, j);
        let d = deliveries(t, n);
        let r = round(events.last(), n);
        Seq::filter_distributes_over_add(d, r, addressed_to(j));
        lemma_round_filter(events.last(), n, j);
        let x = Delivery { subscriber: j as usize, event: events.last() };
        let fd = d.filter(addressed_to(j));
        assert(deliveries(events, n).filter(addressed_to(j)) == fd + seq![x]);
        assert((fd + seq![x]).map_values(|d: Delivery| d.event) =~= fd.map_values(
            |d: Delivery| d.event,
        ).push(x.event));
        assert(events =~= t.push(events.last()));
    }
}

/// The delivery at position `i * n + j` of a dispatch to `n` subscribers
/// hands the `i`-th pending event to the `j`-th subscriber.
pub proof fn lemma_delivery_position(events: Seq<Event>, n: nat, i: int, j: int)
    requires
        n <= usize::MAX,
        0 <= i < events.len(),
        0 <= j < n,
    ensures
        deliveries(events, n).len() == events.len() * n,
        i * n + j < deliveries(events, n).len(),
        deliveries(events, n)[i * n + j] == (Delivery { subscriber: j as usize, event: events[i] }),
    decreases events.len(),
{
    lemma_deliveries_len(events, n);
    let t = events.drop_last();
    lemma_deliveries_len(t, n);
    let x = events.len() as int;
    assert(i * n + j < x * n) by (nonlinear_arith)
        requires
            0 <= i < x,
            0 <= j < n,
    ;
    if i < x - 1 {
        lemma_delivery_position(t, n, i, j);
        assert(i * n + j < (x - 1) * n) by (nonlinear_arith)
            requires
                0 <= i < x - 1,
                0 <= j < n,
        ;
    } else {
        assert(i * n == (x - 1) * n);
    }
}

/// Within the deliveries of one event, a subscriber that subscribed earlier
/// is served before one that subscribed later.
pub proof fn lemma_subscription_order(events: Seq<Event>, n: nat, i: int, a: int, b: int)
    requires
        n <= usize::MAX,
        0 <= i < events.len(),
        0 <= a < b < n,
    ensures
        ({
            let plan = deliveries(events, n);
            &&& i * n + a < i * n + b < plan.len()
            &&& plan[i * n + a] == (Delivery { subscriber: a as usize, event: events[i] })
            &&& plan[i * n + b] == (Delivery { subscriber: b as usize, event: events[i] })
        }),
{
    lemma_delivery_position(events, n, i, a);
    lemma_delivery_position(events, n, i, b);
}

/// Dispatching an empty queue delivers nothing.
pub proof fn lemma_dispatch_of_empty_queue(n: nat)
    ensures
        deliveries(Seq::<Event>::empty(), n) == Seq::<Delivery>::empty(),
{
}

/// The in-process event bus: a FIFO queue of pending events and the
/// subscribers, in the order they subscribed.
pub struct Bus<S> {
    queue: MessageQueue,
    subscribers: Vec<S>,
}

impl<S> Bus<S> {
    /// The pending events, oldest first.
    pub closed spec fn pending(&self) -> Seq<Event> {
        self.queue@
    }

    /// The subscribers, in subscription order.
    pub closed spec fn subscribers(&self) -> Seq<S> {
        self.subscribers@
    }

    /// An empty bus: no pending event, no subscriber.
    pub fn new() -> (r: Bus<S>)
        ensures
            r.pending() == Seq::<Event>::empty(),
            r.subscribers() == Seq::<S>::empty(),
    {
        Bus { queue: MessageQueue::new(), subscribers: Vec::new() }
    }

    /// Appends `event` to the tail of the queue.
    pub fn post(&mut self, event: Event)
        ensures
            final(self).pending() == old(self).pending().push(event),
            final(self).subscribers() == old(self).subscribers(),
    {
        self.queue.push_back(event);
    }

    /// Appends `subscriber` to the subscribers; it is handed every event of
    /// every later dispatch, after those that subscribed before it.
    pub fn subscribe(&mut self, subscriber: S)
        ensures
            final(self).pending() == old(self).pending(),
            final(self).subscribers() == old(self).subscribers().push(subscriber),
    {
        self.subscribers.push(subscriber);
    }

    /// The pending events, oldest first.
    pub fn queue(&self) -> (r: &MessageQueue)
        ensures
            r@ == self.pending(),
    {
        &self.queue
    }

    /// The number of subscribers.
    pub fn subscriber_count(&self) -> (r: usize)
        ensures
            r == self.subscribers().len(),
    {
        self.subscribers.len()
    }

    /// The subscriber at position `index` in subscription order.
    pub fn subscriber(&self, index: usize) -> (r: &S)
        requires
            index < self.subscribers().len(),
        ensures
            *r == self.subscribers()[index as int],
    {
        &self.subscribers[index]
    }

    /// Drains the queue and returns the deliveries to make, in order: every
    /// event that was pending, oldest first, each to every subscriber in
    /// subscription order. Events posted while the caller makes these
    /// deliveries stay queued for the next dispatch.
    pub fn dispatch(&mut self) -> (plan: Vec<Delivery>)
        ensures
            plan@ == deliveries(old(self).pending(), old(self).subscribers().len()),
            final(self).pending() == Seq::<Event>::empty(),
            final(self).subscribers() == old(self).subscribers(),
    {
        let ghost events = self.queue@;
        let n = self.subscribers.len();
        let mut plan: Vec<Delivery> = Vec::new();
        let ghost mut k: int = 0;
        while self.queue.len() > 0
            invariant
                n == self.subscribers@.len(),
                self.subscribers@ == old(self).subscribers@,
                events == old(self).pending(),
                0 <= k <= events.len(),
                self.queue@ == events.subrange(k, events.len() as int),
                plan@ == deliveries(events.subrange(0, k), n as nat),
            decreases self.queue@.len(),
        {
            let e = match self.queue.pop_front() {
                Some(e) => e,
                None => vstd::pervasive::unreached(),
            };
            let ghost before = plan@;
            let mut j: usize = 0;
            while j < n
                invariant
                    j <= n,
                    plan@ == before + round(e, n as nat).take(j as int),
                decreases n - j,
            {
                plan.push(Delivery { subscriber: j, event: e.duplicate() });
                proof {
                    assert(round(e, n as nat).take(j + 1) =~= round(e, n as nat).take(j as int).push(
                        Delivery { subscriber: j, event: e },
                    ));
                }
                j += 1;
            }
            proof {
                let done = events.subrange(0, k + 1);
                assert(done.drop_last() =~= events.subrange(0, k));
                assert(round(e, n as nat).take(n as int) =~= round(e, n as nat));
                k = k + 1;
            }
        }
        proof {
            assert(events.subrange(0, k) =~= events);
        }
        plan
    }
}

} // verus!
