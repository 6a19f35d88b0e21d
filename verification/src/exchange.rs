//! Last-value-wins mailboxes and the frame buffers they carry.
//!
//! A mailbox holds at most one value.  Writing overwrites whatever was
//! there and never blocks the writer; taking consumes the value.  The
//! frame-buffer exchange is a pair of such mailboxes moving exclusive
//! ownership of two pixel buffers between the compositor and the panel
//! driver — the buffer taken out is the very buffer that was put in.

use vstd::prelude::*;
use crate::color::Rgb;

verus! {

/// A single-slot, last-value-wins mailbox.
#[derive(Debug)]
pub struct Mailbox<T> {
    pub slot: Option<T>,
}

/// A mailbox after a value was placed into it.
pub open spec fn spec_signal<T>(m: Mailbox<T>, v: T) -> Mailbox<T> {
    Mailbox { slot: Some(v) }
}

/// What taking from a mailbox yields, and the mailbox it leaves behind.
pub open spec fn spec_take<T>(m: Mailbox<T>) -> (Option<T>, Mailbox<T>) {
    (m.slot, Mailbox { slot: None })
}

impl<T> Mailbox<T> {
    pub fn new() -> (m: Self)
        ensures
            m.slot is None,
    {
        Mailbox { slot: None }
    }

    /// Places a value, overwriting any unconsumed one.  Never blocks.
    pub fn signal(&mut self, v: T)
        ensures
            *final(self) == spec_signal(*old(self), v),
    {
        self.slot = Some(v);
    }

    /// Whether a value is waiting.
    pub fn signaled(&self) -> (r: bool)
        ensures
            r == self.slot is Some,
    {
        self.slot.is_some()
    }

    /// Takes the waiting value, leaving the mailbox empty.
    pub fn take(&mut self) -> (r: Option<T>)
        ensures
            r == old(self).slot,
            final(self).slot is None,
            (r, *final(self)) == spec_take(*old(self)),
    {
        self.slot.take()
    }
}

/// Exchange identity: the value taken from a mailbox is exactly the value
/// last placed into it — no copy, no substitution — and taking empties
/// the slot.
pub proof fn lemma_exchange_identity<T>(m: Mailbox<T>, v: T)
    ensures
        spec_take(spec_signal(m, v)).0 == Some(v),
        spec_take(spec_signal(m, v)).1.slot is None,
{
}

/// A later write overwrites an unconsumed earlier one: the reader only
/// ever observes the most recent value.
pub proof fn lemma_last_value_wins<T>(m: Mailbox<T>, v1: T, v2: T)
    ensures
        spec_take(spec_signal(spec_signal(m, v1), v2)).0 == Some(v2),
{
}

/// One pixel buffer, owned by exactly one side at a time and moved whole
/// through the exchange.
#[derive(Debug)]
pub struct FrameBuffer {
    pub width: usize,
    pub height: usize,
    pub pixels: Vec<Rgb>,
}

impl FrameBuffer {
    /// Every pixel exists: row-major, one entry per coordinate.
    pub open spec fn wf(&self) -> bool {
        self.pixels@.len() == self.width * self.height
    }

    /// A buffer cleared to one color.
    pub fn new(width: usize, height: usize, color: Rgb) -> (b: Self)
        requires
            width * height <= usize::MAX,
        ensures
            b.wf(),
            b.width == width,
            b.height == height,
            forall|i: int| 0 <= i < b.pixels@.len() ==> b.pixels@[i] == color,
    {
        let n = width * height;
        let pixels: Vec<Rgb> = vec![color; n];
        FrameBuffer { width, height, pixels }
    }

    /// Repaints every pixel with one color.
    pub fn clear(&mut self, color: Rgb)
        requires
            old(self).wf(),
        ensures
            final(self).wf(),
            final(self).width == old(self).width,
            final(self).height == old(self).height,
            forall|i: int| 0 <= i < final(self).pixels@.len() ==> final(self).pixels@[i] == color,
    {
        let n = self.pixels.len();
        let mut i: usize = 0;
        while i < n
            invariant
                n == self.pixels@.len(),
                i <= n,
                self.width == old(self).width,
                self.height == old(self).height,
                self.pixels@.len() == old(self).pixels@.len(),
                forall|j: int| 0 <= j < i ==> self.pixels@[j] == color,
            decreases n - i,
        {
            let slot = &mut self.pixels[i];
            *slot = color;
            i = i + 1;
        }
    }

    /// Writes one pixel.
    pub fn set_pixel(&mut self, x: usize, y: usize, color: Rgb)
        requires
            old(self).wf(),
            x < old(self).width,
            y < old(self).height,
        ensures
            final(self).wf(),
            final(self).width == old(self).width,
            final(self).height == old(self).height,
            final(self).pixels@ == old(self).pixels@.update(
                y * old(self).width + x,
                color,
            ),
    {
        proof {
            assert(y * self.width + x < self.width * self.height) by (nonlinear_arith)
                requires
                    x < self.width,
                    y < self.height,
            ;
            assert(self.pixels@.len() <= usize::MAX) by {
                assert(vstd::std_specs::vec::spec_vec_len(&self.pixels) == self.pixels@.len());
            }
        }
        let idx = y * self.width + x;
        let slot = &mut self.pixels[idx];
        *slot = color;
    }
}

} // verus!
