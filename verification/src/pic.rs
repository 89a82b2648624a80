//! Model of the pair of chained legacy interrupt controllers.
//!
//! The two 8-bit chips multiplex sixteen hardware interrupt lines onto CPU
//! vectors. Their power-on offsets collide with the CPU's exception
//! vectors, so bring-up remaps them once, before interrupts are enabled;
//! afterwards every handler must acknowledge its interrupt exactly once,
//! at the chip (or chips: the second is chained through line 2 of the
//! first) whose vector range covers it. This module carries the state the
//! protocol decides on — offsets and masks — and the decisions themselves;
//! the binary mirrors every change to the chips' ports.

use vstd::prelude::*;

verus! {

/// One of the two controller chips: its vector offset and its interrupt
/// mask (a set bit masks the line).
#[derive(Debug, Copy, Clone, Eq, PartialEq, Structural)]
pub struct Pic {
    pub offset: u8,
    pub mask: u8,
}

/// Whether the chip with the given offset serves the vector: each chip
/// serves the eight vectors starting at its offset.
pub open spec fn spec_handles_interrupt(offset: u8, interrupt_id: u8) -> bool {
    offset <= interrupt_id < offset + 8
}

/// Whether the chip's mask lets the line of the given vector through.
pub open spec fn spec_line_unmasked(pic: Pic, interrupt_id: u8) -> bool {
    pic.mask & (1u8 << ((interrupt_id - pic.offset) as u8)) == 0
}

impl Pic {
    /// Is this chip in charge of the given vector?
    pub fn handles_interrupt(&self, interrupt_id: u8) -> (r: bool)
        ensures
            r == spec_handles_interrupt(self.offset, interrupt_id),
    {
        self.offset <= interrupt_id && (interrupt_id as u16) < self.offset as u16 + 8
    }
}

/// Which chips an acknowledgement must be sent to: a vector served by the
/// second chip is acknowledged at both (its interrupts are chained through
/// the first), one served by the first chip alone is acknowledged there,
/// and a vector neither serves is acknowledged nowhere.
#[derive(Debug, Copy, Clone, Eq, PartialEq, Structural)]
pub enum EndOfInterrupt {
    Neither,
    PrimaryOnly,
    Both,
}

/// The chained pair. The line-2 bit of the primary mask gates everything
/// the secondary chip raises.
#[derive(Debug, Copy, Clone, Eq, PartialEq, Structural)]
pub struct ChainedPics {
    pub primary: Pic,
    pub secondary: Pic,
}

/// A vector is deliverable when the chip serving it has its line unmasked
/// — and, for the secondary chip, only when the primary's cascade line
/// (line 2) is unmasked as well.
pub open spec fn spec_vector_reachable(pics: ChainedPics, vector: u8) -> bool {
    ||| (spec_handles_interrupt(pics.primary.offset, vector) && spec_line_unmasked(
        pics.primary,
        vector,
    ))
    ||| (spec_handles_interrupt(pics.secondary.offset, vector) && spec_line_unmasked(
        pics.secondary,
        vector,
    ) && pics.primary.mask & 0x04 == 0)
}

impl ChainedPics {
    /// A pair that will be remapped to the given offsets. Every line
    /// starts masked; bring-up unmasks what it wants delivered.
    pub fn new(offset1: u8, offset2: u8) -> (r: ChainedPics)
        ensures
            r.primary.offset == offset1,
            r.secondary.offset == offset2,
            r.primary.mask == 0xFF,
            r.secondary.mask == 0xFF,
    {
        ChainedPics {
            primary: Pic { offset: offset1, mask: 0xFF },
            secondary: Pic { offset: offset2, mask: 0xFF },
        }
    }

    /// The one-time remap, run before interrupts are enabled: both chips
    /// take their new vector offsets; the masks are saved across the
    /// initialization sequence and restored, so they do not change.
    pub fn remap(&mut self, offset1: u8, offset2: u8)
        ensures
            final(self).primary.offset == offset1,
            final(self).secondary.offset == offset2,
            final(self).primary.mask == old(self).primary.mask,
            final(self).secondary.mask == old(self).secondary.mask,
    {
        self.primary.offset = offset1;
        self.secondary.offset = offset2;
    }

    /// Set both interrupt masks.
    pub fn write_masks(&mut self, mask1: u8, mask2: u8)
        ensures
            final(self).primary == (Pic { offset: old(self).primary.offset, mask: mask1 }),
            final(self).secondary == (Pic { offset: old(self).secondary.offset, mask: mask2 }),
    {
        self.primary.mask = mask1;
        self.secondary.mask = mask2;
    }

    /// Mask every line on both chips.
    pub fn disable(&mut self)
        ensures
            final(self).primary == (Pic { offset: old(self).primary.offset, mask: 0xFF }),
            final(self).secondary == (Pic { offset: old(self).secondary.offset, mask: 0xFF }),
    {
        self.write_masks(0xFF, 0xFF);
    }

    /// Does either chip serve the vector?
    pub fn handles_interrupt(&self, interrupt_id: u8) -> (r: bool)
        ensures
            r == (spec_handles_interrupt(self.primary.offset, interrupt_id)
                || spec_handles_interrupt(self.secondary.offset, interrupt_id)),
    {
        self.primary.handles_interrupt(interrupt_id) || self.secondary.handles_interrupt(
            interrupt_id,
        )
    }

    /// Can the vector be delivered under the current offsets and masks?
    pub fn vector_reachable(&self, vector: u8) -> (r: bool)
        ensures
            r == spec_vector_reachable(*self, vector),
    {
        if self.primary.handles_interrupt(vector) && (self.primary.mask & (1u8 << (vector
            - self.primary.offset))) == 0 {
            true
        } else if self.secondary.handles_interrupt(vector) && (self.secondary.mask & (1u8
            << (vector - self.secondary.offset))) == 0 && (self.primary.mask & 0x04) == 0 {
            true
        } else {
            false
        }
    }

    /// Which chips the handler for `interrupt_id` must acknowledge,
    /// exactly once each: omission leaves equal and lower-priority lines
    /// masked, duplication corrupts delivery.
    pub fn notify_end_of_interrupt(&self, interrupt_id: u8) -> (r: EndOfInterrupt)
        ensures
            spec_handles_interrupt(self.secondary.offset, interrupt_id) ==> r
                == EndOfInterrupt::Both,
            !spec_handles_interrupt(self.secondary.offset, interrupt_id)
                && spec_handles_interrupt(self.primary.offset, interrupt_id) ==> r
                == EndOfInterrupt::PrimaryOnly,
            !spec_handles_interrupt(self.secondary.offset, interrupt_id)
                && !spec_handles_interrupt(self.primary.offset, interrupt_id) ==> r
                == EndOfInterrupt::Neither,
    {
        if self.secondary.handles_interrupt(interrupt_id) {
            EndOfInterrupt::Both
        } else if self.primary.handles_interrupt(interrupt_id) {
            EndOfInterrupt::PrimaryOnly
        } else {
            EndOfInterrupt::Neither
        }
    }
}

/// After a remap to offsets 32 and 40 with only the timer and keyboard
/// lines unmasked on the primary chip and the secondary chip fully
/// masked, exactly vectors 32 and 33 are deliverable; every other vector
/// stays masked.
pub proof fn lemma_remap_reachable_vectors(pics: ChainedPics)
    requires
        pics.primary.offset == 32,
        pics.secondary.offset == 40,
        pics.primary.mask == 0xFC,
        pics.secondary.mask == 0xFF,
    ensures
        forall|v: u8| spec_vector_reachable(pics, v) <==> (v == 32 || v == 33),
{
    assert forall|v: u8| spec_vector_reachable(pics, v) <==> (v == 32 || v == 33) by {
        assert(0xFCu8 & 0x04 != 0 && (32 <= v && v < 40 ==> (0xFCu8 & (1u8 << ((v - 32) as u8))
            == 0 <==> (v == 32 || v == 33)))) by (bit_vector);
    }
}

} // verus!
