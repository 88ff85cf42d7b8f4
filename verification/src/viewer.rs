//! The live viewer's consumer state: batching of incoming pixel events
//! and the completion handshake.
//!
//! The event loop around the display surface polls the stream and asks
//! this state which step to take; the decisions (keep polling, stop at a
//! full batch, drain everything once the producer has signalled
//! completion) live here, where they are verified. The polling and the
//! presentation stay outside.

use vstd::prelude::*;
use crate::raytracer::ColourPosition;

verus! {

/// The consumer's state between redraws: whether the producer side is
/// still active, the pixels collected for the next redraw, and the batch
/// bound.
pub struct ViewerState {
    pub channel_active: bool,
    pub pending: Vec<ColourPosition>,
    pub batch_size: usize,
}

impl ViewerState {
    /// A fresh consumer: active, with nothing pending.
    pub fn new(batch_size: usize) -> (s: ViewerState)
        ensures
            s.channel_active,
            s.pending@.len() == 0,
            s.batch_size == batch_size,
    {
        ViewerState { channel_active: true, pending: Vec::new(), batch_size }
    }

    /// Whether the loop should poll the stream again before redrawing:
    /// only while the producer is active and the batch is not full.
    pub fn wants_more(&self) -> (r: bool)
        ensures
            r == (self.channel_active && self.pending@.len() < self.batch_size),
    {
        self.channel_active && self.pending.len() < self.batch_size
    }

    /// A pixel event arrived: append it to the batch, in arrival order.
    pub fn accept_pixel(&mut self, cp: ColourPosition)
        ensures
            final(self).pending@ == old(self).pending@.push(cp),
            final(self).channel_active == old(self).channel_active,
            final(self).batch_size == old(self).batch_size,
    {
        self.pending.push(cp);
    }

    /// The completion signal arrived: the producer is done, and whatever
    /// it had still buffered is appended after the pixels already
    /// collected. The loop stops polling from here on.
    pub fn complete(&mut self, remaining: Vec<ColourPosition>)
        ensures
            !final(self).channel_active,
            final(self).pending@ == old(self).pending@ + remaining@,
            final(self).batch_size == old(self).batch_size,
    {
        self.channel_active = false;
        let mut rest: Vec<ColourPosition> = remaining;
        self.pending.append(&mut rest);
    }

    /// Hand the collected batch to the redraw and start the next one
    /// empty.
    pub fn take_batch(&mut self) -> (batch: Vec<ColourPosition>)
        ensures
            batch@ == old(self).pending@,
            final(self).pending@.len() == 0,
            final(self).channel_active == old(self).channel_active,
            final(self).batch_size == old(self).batch_size,
    {
        let mut batch: Vec<ColourPosition> = Vec::new();
        std::mem::swap(&mut batch, &mut self.pending);
        batch
    }
}

} // verus!
