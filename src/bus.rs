//! The fan-out telemetry bus: every live subscription has its own cursor into a
//! bounded history of the most recent packets.
use crate::packet::{Packet, PacketView};
use vstd::prelude::*;

verus! {

/// Handle of one subscription to a `TelemetryBus`.
#[derive(Clone, Copy, Debug, PartialEq, Eq, Structural)]
pub struct SubscriptionId {
    index: usize,
}

impl SubscriptionId {
    pub closed spec fn index(self) -> nat {
        self.index as nat
    }
}

/// What one read of a subscription yields.
#[derive(Debug)]
pub enum RecvOutcome {
    /// The next packet for this subscription.
    Packet(Packet),
    /// This many packets were lost to this subscription; its cursor now
    /// stands at the oldest retained packet.
    Lagged(u64),
    /// Nothing new yet; publishers remain.
    Empty,
    /// Nothing new, and no publisher remains.
    Closed,
}

/// What one read yields, in the model.
pub enum RecvView {
    Packet(PacketView),
    Lagged(nat),
    Empty,
    Closed,
}

impl View for RecvOutcome {
    type V = RecvView;

    open spec fn view(&self) -> RecvView {
        match self {
            RecvOutcome::Packet(p) => RecvView::Packet(p@),
            RecvOutcome::Lagged(n) => RecvView::Lagged(*n as nat),
            RecvOutcome::Empty => RecvView::Empty,
            RecvOutcome::Closed => RecvView::Closed,
        }
    }
}

/// Everything a subscription could read at one time.
pub struct Drained {
    pub packets: Vec<Packet>,
    pub skipped: u64,
    pub closed: bool,
}

/// The bus as a mathematical value. `log` holds every packet the bus has
/// retained, in publish order; a packet's position in it is its sequence
/// number. Only the last `capacity` of them are still held.
pub struct BusView {
    pub capacity: nat,
    pub log: Seq<PacketView>,
    pub cursors: Seq<Option<nat>>,
    pub publishers: nat,
}

pub open spec fn as_packets(s: Seq<PacketView>) -> Seq<RecvView> {
    s.map_values(|p: PacketView| RecvView::Packet(p))
}

impl BusView {
    /// Sequence number of the oldest packet still held.
    pub open spec fn oldest(self) -> nat {
        if self.log.len() > self.capacity {
            (self.log.len() - self.capacity) as nat
        } else {
            0
        }
    }

    pub open spec fn is_subscribed(self, id: nat) -> bool {
        id < self.cursors.len() && self.cursors[id as int] is Some
    }

    pub open spec fn cursor(self, id: nat) -> nat {
        self.cursors[id as int]->Some_0
    }

    pub open spec fn has_subscribers(self) -> bool {
        exists|i: int| 0 <= i < self.cursors.len() && #[trigger] self.cursors[i] is Some
    }

    /// A publish keeps the packet only where some subscription can see it.
    pub open spec fn publish(self, p: PacketView) -> BusView {
        if self.has_subscribers() {
            BusView { log: self.log.push(p), ..self }
        } else {
            self
        }
    }

    pub open spec fn publish_all(self, ps: Seq<PacketView>) -> BusView
        decreases ps.len(),
    {
        if ps.len() == 0 {
            self
        } else {
            self.publish_all(ps.drop_last()).publish(ps.last())
        }
    }

    pub open spec fn subscribe(self) -> BusView {
        BusView { cursors: self.cursors.push(Some(self.log.len())), ..self }
    }

    pub open spec fn with_cursor(self, id: nat, c: nat) -> BusView {
        BusView { cursors: self.cursors.update(id as int, Some(c)), ..self }
    }

    /// What a read of subscription `id` yields.
    pub open spec fn recv_outcome(self, id: nat) -> RecvView {
        let c = self.cursor(id);
        if c < self.oldest() {
            RecvView::Lagged((self.oldest() - c) as nat)
        } else if c < self.log.len() {
            RecvView::Packet(self.log[c as int])
        } else if self.publishers == 0 {
            RecvView::Closed
        } else {
            RecvView::Empty
        }
    }

    /// The bus after a read of subscription `id`.
    pub open spec fn recv_next(self, id: nat) -> BusView {
        let c = self.cursor(id);
        if c < self.oldest() {
            self.with_cursor(id, self.oldest())
        } else if c < self.log.len() {
            self.with_cursor(id, c + 1)
        } else {
            self
        }
    }

    /// What `n` reads in a row of subscription `id` yield.
    pub open spec fn reads(self, id: nat, n: nat) -> Seq<RecvView>
        decreases n,
    {
        if n == 0 {
            Seq::empty()
        } else {
            seq![self.recv_outcome(id)] + self.recv_next(id).reads(id, (n - 1) as nat)
        }
    }
}

/// A multi-producer, multi-consumer fan-out channel of packets.
pub struct TelemetryBus {
    ring: Vec<Packet>,
    capacity: usize,
    next_seq: u64,
    cursors: Vec<Option<u64>>,
    publishers: usize,
    log: Ghost<Seq<PacketView>>,
}

pub open spec fn packet_views(s: Seq<Packet>) -> Seq<PacketView> {
    s.map_values(|p: Packet| p@)
}

pub open spec fn cursor_views(s: Seq<Option<u64>>) -> Seq<Option<nat>> {
    s.map_values(|o: Option<u64>| match o {
        Some(c) => Some(c as nat),
        None => None,
    })
}

impl View for TelemetryBus {
    type V = BusView;

    closed spec fn view(&self) -> BusView {
        BusView {
            capacity: self.capacity as nat,
            log: self.log@,
            cursors: cursor_views(self.cursors@),
            publishers: self.publishers as nat,
        }
    }
}

impl TelemetryBus {
    pub closed spec fn wf(&self) -> bool {
        &&& self.capacity > 0
        &&& self.next_seq == self.log@.len()
        &&& self.ring@.len() == self.log@.len() - self@.oldest()
        &&& packet_views(self.ring@) == self.log@.subrange(self@.oldest() as int, self.log@.len() as int)
        &&& forall|i: int|
            0 <= i < self.cursors@.len() && #[trigger] self.cursors@[i] is Some
                ==> self.cursors@[i]->Some_0 <= self.next_seq
    }

    /// An empty bus that holds at most `capacity` packets, with no
    /// subscription and no publisher.
    pub fn new(capacity: usize) -> (r: TelemetryBus)
        requires
            capacity > 0,
        ensures
            r.wf(),
            r@ == (BusView { capacity: capacity as nat, log: Seq::empty(), cursors: Seq::empty(), publishers: 0 }),
    {
        let r = TelemetryBus {
            ring: Vec::new(),
            capacity,
            next_seq: 0,
            cursors: Vec::new(),
            publishers: 0,
            log: Ghost(Seq::empty()),
        };
        assert(cursor_views(r.cursors@) =~= Seq::empty());
        assert(packet_views(r.ring@) =~= Seq::<PacketView>::empty().subrange(0, 0));
        r
    }

    /// Number of packets retained so far: the sequence number of the next one.
    /// Registers one more publisher.
    pub fn add_publisher(&mut self)
        requires
            old(self).wf(),
            old(self)@.publishers < usize::MAX,
        ensures
            final(self).wf(),
            final(self)@ == (BusView { publishers: old(self)@.publishers + 1, ..old(self)@ }),
    {
        self.publishers = self.publishers + 1;
    }

    /// A publisher has gone away; once none remain, a caught-up subscription
    /// reads `Closed`.
    pub fn remove_publisher(&mut self)
        requires
            old(self).wf(),
        ensures
            final(self).wf(),
            final(self)@ == (BusView {
                publishers: if old(self)@.publishers > 0 { (old(self)@.publishers - 1) as nat } else { 0 },
                ..old(self)@
            }),
    {
        if self.publishers > 0 {
            self.publishers = self.publishers - 1;
        }
    }

    /// A new subscription, whose cursor starts after every packet published so far.
    pub fn subscribe(&mut self) -> (r: SubscriptionId)
        requires
            old(self).wf(),
        ensures
            final(self).wf(),
            final(self)@ == old(self)@.subscribe(),
            r.index() == old(self)@.cursors.len(),
            final(self)@.is_subscribed(r.index()),
    {
        let index = self.cursors.len();
        self.cursors.push(Some(self.next_seq));
        assert(cursor_views(self.cursors@) =~= cursor_views(old(self).cursors@).push(Some(self.next_seq as nat)));
        SubscriptionId { index }
    }

    /// Ends a subscription.
    pub fn unsubscribe(&mut self, id: SubscriptionId)
        requires
            old(self).wf(),
            id.index() < old(self)@.cursors.len(),
        ensures
            final(self).wf(),
            final(self)@ == (BusView { cursors: old(self)@.cursors.update(id.index() as int, None), ..old(self)@ }),
    {
        self.cursors.set(id.index, None);
        assert(cursor_views(self.cursors@) =~= cursor_views(old(self).cursors@).update(id.index() as int, None));
    }

    fn any_subscriber(&self) -> (r: bool)
        ensures
            r == self@.has_subscribers(),
    {
        let mut i: usize = 0;
        while i < self.cursors.len()
            invariant
                i <= self.cursors@.len(),
                forall|j: int| 0 <= j < i ==> self.cursors@[j] is None,
            decreases self.cursors@.len() - i,
        {
            if self.cursors[i].is_some() {
                assert(self@.cursors[i as int] is Some);
                return true;
            }
            i = i + 1;
        }
        assert forall|j: int| 0 <= j < self@.cursors.len() implies !(#[trigger] self@.cursors[j] is Some) by {
            assert(self.cursors@[j] is None);
        }
        false
    }

    /// Publishes `p` to every live subscription and returns how many there
    /// are. With none, the packet is dropped and the bus is unchanged.
    pub fn publish(&mut self, p: Packet) -> (r: usize)
        requires
            old(self).wf(),
            old(self)@.log.len() < u64::MAX,
        ensures
            final(self).wf(),
            final(self)@ == old(self)@.publish(p@),
            (r == 0) == !old(self)@.has_subscribers(),
    {
        let mut count: usize = 0;
        let mut i: usize = 0;
        while i < self.cursors.len()
            invariant
                self == old(self),
                i <= self.cursors@.len(),
                count <= i,
                (count == 0) == (forall|j: int| 0 <= j < i ==> self.cursors@[j] is None),
            decreases self.cursors@.len() - i,
        {
            if self.cursors[i].is_some() {
                count = count + 1;
            }
            i = i + 1;
        }
        if count == 0 {
            assert forall|j: int| 0 <= j < self@.cursors.len() implies !(#[trigger] self@.cursors[j] is Some) by {
                assert(self.cursors@[j] is None);
            }
            return 0;
        }
        assert(self@.has_subscribers()) by {
            let j = choose|j: int| 0 <= j < i && !(self.cursors@[j] is None);
            assert(self@.cursors[j] is Some);
        }
        let ghost pv = p@;
        let ghost o = self@.oldest();
        let ghost r0 = self.ring@;
        let ghost l0 = self.log@;
        let ghost shift: int = if self.ring@.len() == self.capacity { 1 } else { 0 };
        if self.ring.len() == self.capacity {
            self.ring.remove(0);
        }
        self.ring.push(p);
        self.next_seq = self.next_seq + 1;
        self.log = Ghost(self.log@.push(pv));
        assert(self@.oldest() == o + shift);
        assert forall|k: int| 0 <= k < self.ring@.len() implies #[trigger] packet_views(self.ring@)[k]
            == self.log@[self@.oldest() + k] by {
            if k < self.ring@.len() - 1 {
                assert(self.ring@[k] == r0[k + shift]);
                assert(packet_views(r0)[k + shift] == l0.subrange(o as int, l0.len() as int)[k + shift]);
            }
        }
        assert(packet_views(self.ring@) =~= self.log@.subrange(self@.oldest() as int, self.log@.len() as int));
        count
    }

    /// Reads the next outcome for subscription `id` and moves its cursor.
    pub fn try_recv(&mut self, id: SubscriptionId) -> (r: RecvOutcome)
        requires
            old(self).wf(),
            old(self)@.is_subscribed(id.index()),
        ensures
            final(self).wf(),
            r@ == old(self)@.recv_outcome(id.index()),
            final(self)@ == old(self)@.recv_next(id.index()),
    {
        let ghost m = self@;
        let c = match self.cursors[id.index] {
            Some(c) => c,
            None => { return RecvOutcome::Closed; },
        };
        assert(c == m.cursor(id.index()));
        let oldest = self.next_seq - self.ring.len() as u64;
        assert(oldest == m.oldest());
        if c < oldest {
            self.cursors.set(id.index, Some(oldest));
            assert(cursor_views(self.cursors@) =~= m.cursors.update(id.index() as int, Some(oldest as nat)));
            RecvOutcome::Lagged(oldest - c)
        } else if c < self.next_seq {
            let k = (c - oldest) as usize;
            let p = self.ring[k].duplicate();
            assert(packet_views(self.ring@)[k as int] == self.log@.subrange(oldest as int, self.log@.len() as int)[k as int]);
            self.cursors.set(id.index, Some(c + 1));
            assert(cursor_views(self.cursors@) =~= m.cursors.update(id.index() as int, Some((c + 1) as nat)));
            RecvOutcome::Packet(p)
        } else if self.publishers == 0 {
            RecvOutcome::Closed
        } else {
            RecvOutcome::Empty
        }
    }

    /// Reads everything that subscription `id` can read now: the number of
    /// packets it lost, if it lagged, and then every retained packet it has
    /// not read, in publish order. `closed` tells that no publisher remains.
    pub fn drain(&mut self, id: SubscriptionId) -> (r: Drained)
        requires
            old(self).wf(),
            old(self)@.is_subscribed(id.index()),
        ensures
            final(self).wf(),
            ({
                let m = old(self)@;
                let c = m.cursor(id.index());
                let start = if c < m.oldest() { m.oldest() } else { c };
                &&& r.skipped == start - c
                &&& packet_views(r.packets@) == m.log.subrange(start as int, m.log.len() as int)
                &&& r.closed == (m.publishers == 0)
                &&& final(self)@ == m.with_cursor(id.index(), m.log.len())
            }),
    {
        let ghost m = self@;
        let ghost c0 = m.cursor(id.index());
        let ghost start = if c0 < m.oldest() { m.oldest() } else { c0 };
        assert(cursor_views(self.cursors@)[id.index() as int] == m.cursors[id.index() as int]);
        let mut packets: Vec<Packet> = Vec::new();
        let mut skipped: u64 = 0;
        assert(m.cursors.update(id.index() as int, Some(c0)) =~= m.cursors);
        loop
            invariant
                self.wf(),
                m.is_subscribed(id.index()),
                c0 == m.cursor(id.index()),
                c0 <= m.log.len(),
                start == (if c0 < m.oldest() { m.oldest() } else { c0 }),
                start <= m.log.len(),
                self@.is_subscribed(id.index()),
                self@.log == m.log,
                self@.capacity == m.capacity,
                self@.publishers == m.publishers,
                self@.cursor(id.index()) <= m.log.len(),
                self@ == m.with_cursor(id.index(), self@.cursor(id.index())),
                (self@.cursor(id.index()) == c0 && skipped == 0 && packets@.len() == 0) || (
                start <= self@.cursor(id.index()) && skipped == start - c0
                    && packet_views(packets@) == m.log.subrange(start as int, self@.cursor(id.index()) as int)),
            ensures
                self.wf(),
                self@ == m.with_cursor(id.index(), m.log.len()),
                skipped == start - c0,
                packet_views(packets@) == m.log.subrange(start as int, m.log.len() as int),
            decreases m.log.len() - self@.cursor(id.index()) + (if self@.cursor(id.index()) < m.oldest() { 1int } else { 0 }),
        {
            let ghost before = self@;
            let ghost cb = self@.cursor(id.index());
            assert(cursor_views(self.cursors@)[id.index() as int] == self@.cursors[id.index() as int]);
            let out = self.try_recv(id);
            let ghost nc = self@.cursor(id.index());
            assert(before.cursors.update(id.index() as int, Some(nc)) =~= m.cursors.update(id.index() as int, Some(nc)));
            match out {
                RecvOutcome::Packet(p) => {
                    assert(cb >= m.oldest() && cb < m.log.len());
                    assert(p@ == m.log[cb as int]);
                    packets.push(p);
                    assert(packet_views(packets@) =~= m.log.subrange(start as int, cb + 1int));
                },
                RecvOutcome::Lagged(n) => {
                    skipped = n;
                    assert(packet_views(packets@) =~= m.log.subrange(start as int, start as int));
                },
                RecvOutcome::Empty => {
                    assert(cb == m.log.len());
                    break;
                },
                RecvOutcome::Closed => {
                    assert(cb == m.log.len());
                    break;
                },
            }
        }
        Drained { packets, skipped, closed: self.publishers == 0 }
    }

    pub fn published(&self) -> (r: u64)
        requires
            self.wf(),
        ensures
            r == self@.log.len(),
    {
        self.next_seq
    }

    pub fn capacity(&self) -> (r: usize)
        ensures
            r == self@.capacity,
    {
        self.capacity
    }

    pub fn publisher_count(&self) -> (r: usize)
        ensures
            r == self@.publishers,
    {
        self.publishers
    }
}

/// Publishing a sequence onto a bus with a live subscription appends the
/// whole sequence to its log and changes nothing else.
pub proof fn lemma_publish_all_appends(m: BusView, ps: Seq<PacketView>)
    requires
        m.has_subscribers(),
    ensures
        m.publish_all(ps) == (BusView { log: m.log + ps, ..m }),
    decreases ps.len(),
{
    if ps.len() == 0 {
        assert(m.log + ps =~= m.log);
    } else {
        lemma_publish_all_appends(m, ps.drop_last());
        assert((m.log + ps.drop_last()).push(ps.last()) =~= m.log + ps);
    }
}

/// A subscription that is not behind the retained history reads the logged
/// packets from its cursor on, one by one, in publish order.
pub proof fn lemma_reads_in_order(m: BusView, id: nat, n: nat)
    requires
        m.is_subscribed(id),
        m.oldest() <= m.cursor(id),
        m.cursor(id) + n <= m.log.len(),
    ensures
        m.reads(id, n) == as_packets(m.log.subrange(m.cursor(id) as int, (m.cursor(id) + n) as int)),
    decreases n,
{
    let c = m.cursor(id);
    if n == 0 {
        assert(as_packets(m.log.subrange(c as int, c as int)) =~= Seq::<RecvView>::empty());
    } else {
        let next = m.recv_next(id);
        assert(next.cursor(id) == c + 1);
        lemma_reads_in_order(next, id, (n - 1) as nat);
        assert(seq![RecvView::Packet(m.log[c as int])] + as_packets(m.log.subrange(c + 1int, c + n as int))
            =~= as_packets(m.log.subrange(c as int, c + n as int)));
    }
}

/// Ordering: a caught-up subscription that reads after up to `capacity`
/// publishes reads exactly those packets, in the order they were published.
pub proof fn law_in_order_delivery(m: BusView, id: nat, ps: Seq<PacketView>)
    requires
        m.is_subscribed(id),
        m.cursor(id) == m.log.len(),
        ps.len() <= m.capacity,
    ensures
        m.publish_all(ps).reads(id, ps.len()) == as_packets(ps),
{
    assert(m.has_subscribers()) by {
        assert(m.cursors[id as int] is Some);
    }
    lemma_publish_all_appends(m, ps);
    let m2 = m.publish_all(ps);
    lemma_reads_in_order(m2, id, ps.len());
    assert(m2.log.subrange(m.log.len() as int, (m.log.len() + ps.len()) as int) =~= ps);
}

/// Lag: a caught-up subscription that pauses while more than `capacity`
/// packets are published first reads `Lagged` with the exact number lost,
/// then the retained packets, oldest first, each once.
pub proof fn law_lag_reported(m: BusView, id: nat, ps: Seq<PacketView>)
    requires
        m.is_subscribed(id),
        m.cursor(id) == m.log.len(),
        ps.len() > m.capacity,
    ensures
        m.publish_all(ps).reads(id, m.capacity + 1) == seq![RecvView::Lagged((ps.len() - m.capacity) as nat)]
            + as_packets(ps.subrange(ps.len() - m.capacity, ps.len() as int)),
{
    assert(m.has_subscribers()) by {
        assert(m.cursors[id as int] is Some);
    }
    lemma_publish_all_appends(m, ps);
    let m2 = m.publish_all(ps);
    let n = m.log.len();
    let k = ps.len();
    assert(m2.oldest() == n + k - m.capacity);
    assert(m2.recv_outcome(id) == RecvView::Lagged((k - m.capacity) as nat));
    let m3 = m2.recv_next(id);
    assert(m3.cursor(id) == m2.oldest());
    lemma_reads_in_order(m3, id, m.capacity);
    assert(m2.reads(id, m.capacity + 1) == seq![m2.recv_outcome(id)] + m3.reads(id, m.capacity));
    assert(m3.log.subrange(m3.cursor(id) as int, (m3.cursor(id) + m.capacity) as int) =~= ps.subrange(k - m.capacity, k as int));
}

/// A publish with no live subscription leaves the bus as it was, so no later
/// subscription ever reads the packet.
pub proof fn law_publish_without_subscribers(m: BusView, p: PacketView)
    requires
        !m.has_subscribers(),
    ensures
        m.publish(p) == m,
        ({
            let s = m.publish(p).subscribe();
            s.recv_outcome(m.cursors.len()) is Empty || s.recv_outcome(m.cursors.len()) is Closed
        }),
{
    let s = m.subscribe();
    assert(s.cursor(m.cursors.len()) == m.log.len());
}

/// One event seen from a single subscription: a publish by anyone, or a
/// read by that subscription.
pub enum BusStep {
    Publish(PacketView),
    Read,
}

impl BusView {
    /// The bus after one step of subscription `id`.
    pub open spec fn after(self, id: nat, step: BusStep) -> BusView {
        match step {
            BusStep::Publish(p) => self.publish(p),
            BusStep::Read => self.recv_next(id),
        }
    }

    /// The bus after `steps`, and what the reads among them yielded.
    pub open spec fn run(self, id: nat, steps: Seq<BusStep>) -> (BusView, Seq<RecvView>)
        decreases steps.len(),
    {
        if steps.len() == 0 {
            (self, Seq::empty())
        } else {
            let rest = self.after(id, steps[0]).run(id, steps.drop_first());
            match steps[0] {
                BusStep::Publish(_) => rest,
                BusStep::Read => (rest.0, seq![self.recv_outcome(id)] + rest.1),
            }
        }
    }

    /// Subscription `id` never has more unread packets than the bus holds,
    /// before, during or after `steps`.
    pub open spec fn keeps_up(self, id: nat, steps: Seq<BusStep>) -> bool
        decreases steps.len(),
    {
        &&& self.log.len() <= self.cursor(id) + self.capacity
        &&& steps.len() > 0 ==> self.after(id, steps[0]).keeps_up(id, steps.drop_first())
    }
}

/// The packets published in `steps`, in order.
pub open spec fn published(steps: Seq<BusStep>) -> Seq<PacketView>
    decreases steps.len(),
{
    if steps.len() == 0 {
        Seq::empty()
    } else {
        match steps[0] {
            BusStep::Publish(p) => seq![p] + published(steps.drop_first()),
            BusStep::Read => published(steps.drop_first()),
        }
    }
}

/// The packets among `outs`, in order.
pub open spec fn delivered(outs: Seq<RecvView>) -> Seq<PacketView>
    decreases outs.len(),
{
    if outs.len() == 0 {
        Seq::empty()
    } else {
        match outs[0] {
            RecvView::Packet(p) => seq![p] + delivered(outs.drop_first()),
            _ => delivered(outs.drop_first()),
        }
    }
}

pub open spec fn no_lag(outs: Seq<RecvView>) -> bool {
    forall|i: int| 0 <= i < outs.len() ==> !(#[trigger] outs[i] is Lagged)
}

proof fn lemma_run_keeping_up(m: BusView, id: nat, steps: Seq<BusStep>)
    requires
        m.is_subscribed(id),
        m.cursor(id) <= m.log.len(),
        m.keeps_up(id, steps),
    ensures
        ({
            let (m2, outs) = m.run(id, steps);
            let ahead = m.log.subrange(m.cursor(id) as int, m.log.len() as int) + published(steps);
            &&& no_lag(outs)
            &&& delivered(outs).len() <= ahead.len()
            &&& delivered(outs) == ahead.subrange(0, delivered(outs).len() as int)
            &&& m2.is_subscribed(id)
            &&& m2.log == m.log + published(steps)
            &&& m2.cursor(id) == m.cursor(id) + delivered(outs).len()
        }),
    decreases steps.len(),
{
    let c = m.cursor(id);
    let pending = m.log.subrange(c as int, m.log.len() as int);
    if steps.len() == 0 {
        assert(m.log + published(steps) =~= m.log);
        assert(pending + published(steps) =~= pending);
        assert(pending.subrange(0, 0) =~= Seq::<PacketView>::empty());
    } else {
        let m1 = m.after(id, steps[0]);
        let rest = steps.drop_first();
        assert(m1.is_subscribed(id));
        lemma_run_keeping_up(m1, id, rest);
        let (m2, outs1) = m1.run(id, rest);
        let c1 = m1.cursor(id);
        let ahead1 = m1.log.subrange(c1 as int, m1.log.len() as int) + published(rest);
        match steps[0] {
            BusStep::Publish(p) => {
                assert(m.has_subscribers()) by {
                    assert(m.cursors[id as int] is Some);
                }
                assert(m1.log == m.log.push(p));
                assert(c1 == c);
                assert(m.log + published(steps) =~= m1.log + published(rest));
                assert(ahead1 =~= pending + published(steps));
            },
            BusStep::Read => {
                let outs = seq![m.recv_outcome(id)] + outs1;
                assert(outs.drop_first() =~= outs1);
                assert(m.oldest() <= c);
                if c < m.log.len() {
                    assert(m.recv_outcome(id) == RecvView::Packet(m.log[c as int]));
                    assert(c1 == c + 1);
                    assert(delivered(outs) == seq![m.log[c as int]] + delivered(outs1));
                    assert(pending + published(steps) =~= seq![m.log[c as int]] + ahead1);
                    let k = delivered(outs1).len();
                    assert(delivered(outs1) == ahead1.subrange(0, k as int));
                    assert forall|i: int| 0 <= i < k + 1 implies #[trigger] delivered(outs)[i]
                        == (pending + published(steps))[i] by {
                        if i > 0 {
                            assert(delivered(outs)[i] == delivered(outs1)[i - 1]);
                            assert(ahead1.subrange(0, k as int)[i - 1] == ahead1[i - 1]);
                        }
                    }
                    assert(delivered(outs) =~= (pending + published(steps)).subrange(0, delivered(outs).len() as int));
                } else {
                    assert(!(m.recv_outcome(id) is Packet));
                    assert(m1 == m);
                    assert(delivered(outs) == delivered(outs1));
                    assert(ahead1 =~= pending + published(steps));
                }
                assert(no_lag(outs)) by {
                    assert forall|i: int| 0 <= i < outs.len() implies !(#[trigger] outs[i] is Lagged) by {
                        if i > 0 {
                            assert(outs[i] == outs1[i - 1]);
                        }
                    }
                }
            },
        }
    }
}

/// Ordering: a subscription that starts caught up and never falls more than
/// `capacity` packets behind reads no lag and reads the published packets in
/// order, each once; once it has caught up again it has read all of them.
pub proof fn law_in_order_while_keeping_up(m: BusView, id: nat, steps: Seq<BusStep>)
    requires
        m.is_subscribed(id),
        m.cursor(id) == m.log.len(),
        m.keeps_up(id, steps),
    ensures
        ({
            let (m2, outs) = m.run(id, steps);
            &&& no_lag(outs)
            &&& delivered(outs) == published(steps).subrange(0, delivered(outs).len() as int)
            &&& m2.cursor(id) == m2.log.len() ==> delivered(outs) == published(steps)
        }),
{
    lemma_run_keeping_up(m, id, steps);
    let (m2, outs) = m.run(id, steps);
    assert(m.log.subrange(m.log.len() as int, m.log.len() as int) + published(steps) =~= published(steps));
    if m2.cursor(id) == m2.log.len() {
        assert(published(steps).subrange(0, published(steps).len() as int) =~= published(steps));
    }
}

} // verus!
