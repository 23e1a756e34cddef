//! Splits the positioning receiver's byte stream into sentences: a sentence
//! ends at a carriage return followed by a line feed.
use vstd::prelude::*;

verus! {

pub const CARRIAGE_RETURN: u8 = 13;

pub const LINE_FEED: u8 = 10;

/// Collects the bytes of the sentence being received.
#[derive(Debug)]
pub struct SentenceFramer {
    buffer: Vec<u8>,
    carriage_return: bool,
}

/// The framer as a mathematical value.
pub struct FramerView {
    pub pending: Seq<u8>,
    pub carriage_return: bool,
}

/// The framer after byte `b`, and the sentence that `b` completes, if any.
/// A carriage return is remembered, not kept; a line feed after one ends the
/// sentence; a zero byte is skipped; any other byte is kept.
pub open spec fn step(v: FramerView, b: u8) -> (FramerView, Option<Seq<u8>>) {
    if b == CARRIAGE_RETURN {
        (FramerView { carriage_return: true, ..v }, None)
    } else if b == LINE_FEED && v.carriage_return {
        (FramerView { pending: Seq::empty(), carriage_return: false }, Some(v.pending))
    } else if b != 0 {
        (FramerView { pending: v.pending.push(b), ..v }, None)
    } else {
        (v, None)
    }
}

impl View for SentenceFramer {
    type V = FramerView;

    closed spec fn view(&self) -> FramerView {
        FramerView { pending: self.buffer@, carriage_return: self.carriage_return }
    }
}

impl SentenceFramer {
    pub fn new() -> (r: SentenceFramer)
        ensures
            r@ == (FramerView { pending: Seq::empty(), carriage_return: false }),
    {
        SentenceFramer { buffer: Vec::new(), carriage_return: false }
    }

    /// Takes one byte; returns the sentence it completes, if any.
    pub fn push(&mut self, b: u8) -> (r: Option<Vec<u8>>)
        ensures
            final(self)@ == step(old(self)@, b).0,
            match r {
                Some(s) => step(old(self)@, b).1 == Some(s@),
                None => step(old(self)@, b).1 is None,
            },
    {
        if b == CARRIAGE_RETURN {
            self.carriage_return = true;
            None
        } else if b == LINE_FEED && self.carriage_return {
            let sentence = self.buffer.split_off(0);
            self.carriage_return = false;
            assert(self.buffer@ =~= Seq::<u8>::empty());
            assert(sentence@ =~= old(self).buffer@);
            Some(sentence)
        } else if b != 0 {
            self.buffer.push(b);
            None
        } else {
            None
        }
    }
}

} // verus!
