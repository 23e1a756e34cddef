//! The point-to-point uplink queue: bounded, first in first out, one sender
//! and one receiver. It never drops a packet: a full queue hands the packet
//! back so that the sender waits and tries again.
use crate::packet::{Packet, PacketView};
use vstd::prelude::*;

verus! {

/// Why a packet was not queued; the packet comes back with it.
#[derive(Debug)]
pub enum TrySendError {
    /// The queue holds `bound` packets: wait for the receiver to make room.
    Full(Packet),
    /// The receiver has gone away: nothing sent now can reach it.
    Closed(Packet),
}

/// What one read of the queue yields.
#[derive(Debug)]
pub enum QueueRecv {
    Packet(Packet),
    /// Nothing queued; the sender remains.
    Empty,
    /// Nothing queued, and the sender has gone away.
    Closed,
}

/// The queue as a mathematical value: besides what it holds, every packet it
/// ever accepted and every packet it ever handed to the receiver.
pub struct UplinkView {
    pub bound: nat,
    pub queued: Seq<PacketView>,
    pub accepted: Seq<PacketView>,
    pub delivered: Seq<PacketView>,
    pub sender_open: bool,
    pub receiver_open: bool,
}

impl UplinkView {
    /// What was accepted is what was delivered followed by what is queued.
    pub open spec fn conserves(self) -> bool {
        self.accepted == self.delivered + self.queued
    }
}

pub struct UplinkQueue {
    items: Vec<Packet>,
    bound: usize,
    sender_open: bool,
    receiver_open: bool,
    accepted: Ghost<Seq<PacketView>>,
    delivered: Ghost<Seq<PacketView>>,
}

pub open spec fn views_of(s: Seq<Packet>) -> Seq<PacketView> {
    s.map_values(|p: Packet| p@)
}

impl View for UplinkQueue {
    type V = UplinkView;

    closed spec fn view(&self) -> UplinkView {
        UplinkView {
            bound: self.bound as nat,
            queued: views_of(self.items@),
            accepted: self.accepted@,
            delivered: self.delivered@,
            sender_open: self.sender_open,
            receiver_open: self.receiver_open,
        }
    }
}

impl UplinkQueue {
    pub open spec fn wf(&self) -> bool {
        &&& self@.bound > 0
        &&& self@.queued.len() <= self@.bound
        &&& self@.conserves()
    }

    /// An empty queue that holds at most `bound` packets, both ends open.
    pub fn new(bound: usize) -> (r: UplinkQueue)
        requires
            bound > 0,
        ensures
            r.wf(),
            r@ == (UplinkView {
                bound: bound as nat,
                queued: Seq::empty(),
                accepted: Seq::empty(),
                delivered: Seq::empty(),
                sender_open: true,
                receiver_open: true,
            }),
    {
        let r = UplinkQueue {
            items: Vec::new(),
            bound,
            sender_open: true,
            receiver_open: true,
            accepted: Ghost(Seq::empty()),
            delivered: Ghost(Seq::empty()),
        };
        assert(views_of(r.items@) =~= Seq::empty());
        assert(Seq::<PacketView>::empty() + Seq::<PacketView>::empty() =~= Seq::<PacketView>::empty());
        r
    }

    /// Queues `p` at the back, unless the receiver is gone or the queue is full.
    pub fn try_send(&mut self, p: Packet) -> (r: Result<(), TrySendError>)
        requires
            old(self).wf(),
        ensures
            final(self).wf(),
            !old(self)@.receiver_open ==> final(self)@ == old(self)@ && (r matches Err(TrySendError::Closed(q)) && q@ == p@),
            old(self)@.receiver_open && old(self)@.queued.len() == old(self)@.bound ==> final(self)@ == old(self)@
                && (r matches Err(TrySendError::Full(q)) && q@ == p@),
            old(self)@.receiver_open && old(self)@.queued.len() < old(self)@.bound ==> r is Ok && final(self)@ == (UplinkView {
                queued: old(self)@.queued.push(p@),
                accepted: old(self)@.accepted.push(p@),
                ..old(self)@
            }),
    {
        if !self.receiver_open {
            return Err(TrySendError::Closed(p));
        }
        if self.items.len() == self.bound {
            return Err(TrySendError::Full(p));
        }
        let ghost pv = p@;
        self.items.push(p);
        self.accepted = Ghost(self.accepted@.push(pv));
        assert(views_of(self.items@) =~= views_of(old(self).items@).push(pv));
        assert(self.delivered@ + views_of(self.items@) =~= (old(self).delivered@ + views_of(old(self).items@)).push(pv));
        Ok(())
    }

    /// Takes the packet at the front, if any.
    pub fn try_recv(&mut self) -> (r: QueueRecv)
        requires
            old(self).wf(),
        ensures
            final(self).wf(),
            old(self)@.queued.len() > 0 ==> (r matches QueueRecv::Packet(p) && p@ == old(self)@.queued[0])
                && final(self)@ == (UplinkView {
                queued: old(self)@.queued.drop_first(),
                delivered: old(self)@.delivered.push(old(self)@.queued[0]),
                ..old(self)@
            }),
            old(self)@.queued.len() == 0 ==> final(self)@ == old(self)@
                && (if old(self)@.sender_open { r is Empty } else { r is Closed }),
    {
        if self.items.len() == 0 {
            if self.sender_open {
                return QueueRecv::Empty;
            } else {
                return QueueRecv::Closed;
            }
        }
        let p = self.items.remove(0);
        let ghost pv = p@;
        self.delivered = Ghost(self.delivered@.push(pv));
        assert(views_of(self.items@) =~= views_of(old(self).items@).drop_first());
        assert(self.delivered@ + views_of(self.items@) =~= old(self).delivered@ + views_of(old(self).items@));
        QueueRecv::Packet(p)
    }

    /// The sender has gone away.
    pub fn close_sender(&mut self)
        requires
            old(self).wf(),
        ensures
            final(self).wf(),
            final(self)@ == (UplinkView { sender_open: false, ..old(self)@ }),
    {
        self.sender_open = false;
    }

    /// The receiver has gone away.
    pub fn close_receiver(&mut self)
        requires
            old(self).wf(),
        ensures
            final(self).wf(),
            final(self)@ == (UplinkView { receiver_open: false, ..old(self)@ }),
    {
        self.receiver_open = false;
    }

    pub fn len(&self) -> (r: usize)
        ensures
            r == self@.queued.len(),
    {
        self.items.len()
    }
}

/// No loss, in order: what the receiver has taken is always a prefix of what
/// the sender had accepted, and once the queue is empty it is all of it.
pub proof fn law_no_loss(q: UplinkView)
    requires
        q.conserves(),
    ensures
        q.delivered.is_prefix_of(q.accepted),
        q.queued.len() == 0 ==> q.delivered == q.accepted,
{
    assert(q.accepted.subrange(0, q.delivered.len() as int) =~= q.delivered);
    if q.queued.len() == 0 {
        assert(q.delivered + q.queued =~= q.delivered);
    }
}

} // verus!
