//! The canvas: a bounded, exclusive view over the session's pixel and overlay
//! buffers, handed to a plugin for the duration of one call.

use vstd::prelude::*;

verus! {

/// Index of cell (`x`, `y`) in a row-major buffer whose rows are `w` cells wide.
pub open spec fn cell_index(w: nat, x: nat, y: nat) -> nat {
    y * w + x
}

/// Here plugins do their changes.
pub struct VirtualCanvas<'a> {
    pub width: u64,
    pub height: u64,
    /// ARGB data; the pixel (`x`, `y`) is at `y * width + x`.
    pub data: &'a mut [u32],
    pub o_width: u64,
    pub o_height: u64,
    /// Overlay as visible on the screen; the cell (`x`, `y`) is at `y * o_width + x`.
    pub overlay: &'a mut [char],
}

impl<'a> VirtualCanvas<'a> {
    /// The pixel buffer's contents.
    pub open spec fn pixels(&self) -> Seq<u32> {
        self.data@
    }

    /// The overlay buffer's contents.
    pub open spec fn cells(&self) -> Seq<char> {
        self.overlay@
    }

    /// Each buffer holds exactly as many cells as its dimensions say.
    pub open spec fn wf(&self) -> bool {
        &&& self.pixels().len() == self.width * self.height
        &&& self.cells().len() == self.o_width * self.o_height
    }

    /// `self` and `other` have equal dimensions.
    pub open spec fn same_shape(&self, other: &Self) -> bool {
        &&& self.width == other.width
        &&& self.height == other.height
        &&& self.o_width == other.o_width
        &&& self.o_height == other.o_height
    }

    /// The pixel at (`x`, `y`).
    pub fn pixel(&self, x: u64, y: u64) -> (r: u32)
        requires
            self.wf(),
            x < self.width,
            y < self.height,
        ensures
            r == self.pixels()[cell_index(self.width as nat, x as nat, y as nat) as int],
    {
        let i = offset(self.width, self.height, x, y, self.data.len());
        self.data[i]
    }

    /// Writes the pixel at (`x`, `y`); nothing else changes.
    pub fn set_pixel(&mut self, x: u64, y: u64, v: u32)
        requires
            old(self).wf(),
            x < old(self).width,
            y < old(self).height,
        ensures
            final(self).wf(),
            final(self).same_shape(old(self)),
            final(final(self).data)@ == final(old(self).data)@,
            final(final(self).overlay)@ == final(old(self).overlay)@,
            final(self).pixels() == old(self).pixels().update(
                cell_index(old(self).width as nat, x as nat, y as nat) as int,
                v,
            ),
            final(self).cells() == old(self).cells(),
    {
        let i = offset(self.width, self.height, x, y, self.data.len());
        self.data[i] = v;
    }

    /// The overlay cell at (`x`, `y`).
    pub fn overlay_cell(&self, x: u64, y: u64) -> (r: char)
        requires
            self.wf(),
            x < self.o_width,
            y < self.o_height,
        ensures
            r == self.cells()[cell_index(self.o_width as nat, x as nat, y as nat) as int],
    {
        let i = offset(self.o_width, self.o_height, x, y, self.overlay.len());
        self.overlay[i]
    }

    /// Writes the overlay cell at (`x`, `y`); nothing else changes.
    pub fn set_overlay_cell(&mut self, x: u64, y: u64, c: char)
        requires
            old(self).wf(),
            x < old(self).o_width,
            y < old(self).o_height,
        ensures
            final(self).wf(),
            final(self).same_shape(old(self)),
            final(final(self).data)@ == final(old(self).data)@,
            final(final(self).overlay)@ == final(old(self).overlay)@,
            final(self).pixels() == old(self).pixels(),
            final(self).cells() == old(self).cells().update(
                cell_index(old(self).o_width as nat, x as nat, y as nat) as int,
                c,
            ),
    {
        let i = offset(self.o_width, self.o_height, x, y, self.overlay.len());
        self.overlay[i] = c;
    }
}

/// The storage behind every canvas of an editing session: the host owns it for
/// the whole session and lends it out one call at a time.
pub struct CanvasStore {
    pub width: u64,
    pub height: u64,
    pub data: Vec<u32>,
    pub o_width: u64,
    pub o_height: u64,
    pub overlay: Vec<char>,
}

impl CanvasStore {
    /// Each buffer holds exactly as many cells as its dimensions say.
    pub open spec fn wf(&self) -> bool {
        &&& self.data@.len() == self.width * self.height
        &&& self.overlay@.len() == self.o_width * self.o_height
    }

    /// The view lent to one call: the same dimensions and the same buffers;
    /// what the call writes through it stays in the store.
    pub fn canvas(&mut self) -> (c: VirtualCanvas<'_>)
        requires
            old(self).wf(),
        ensures
            c.wf(),
            c.width == old(self).width,
            c.height == old(self).height,
            c.o_width == old(self).o_width,
            c.o_height == old(self).o_height,
            c.pixels() == old(self).data@,
            c.cells() == old(self).overlay@,
            final(self).width == old(self).width,
            final(self).height == old(self).height,
            final(self).o_width == old(self).o_width,
            final(self).o_height == old(self).o_height,
            final(self).data@ == final(c.data)@,
            final(self).overlay@ == final(c.overlay)@,
    {
        VirtualCanvas {
            width: self.width,
            height: self.height,
            data: self.data.as_mut_slice(),
            o_width: self.o_width,
            o_height: self.o_height,
            overlay: self.overlay.as_mut_slice(),
        }
    }
}

/// Position of cell (`x`, `y`) in a buffer of `len == w * h` cells.
fn offset(w: u64, h: u64, x: u64, y: u64, len: usize) -> (i: usize)
    requires
        x < w,
        y < h,
        len == w * h,
    ensures
        i == cell_index(w as nat, x as nat, y as nat),
        i < len,
{
    proof {
        lemma_cell_in_bounds(w as nat, h as nat, x as nat, y as nat);
        assert(y * w <= y * w + x);
    }
    (y * w + x) as usize
}

/// A cell inside a `w` by `h` grid lies inside a buffer of `w * h` cells.
pub proof fn lemma_cell_in_bounds(w: nat, h: nat, x: nat, y: nat)
    requires
        x < w,
        y < h,
    ensures
        cell_index(w, x, y) < w * h,
{
    assert(y * w + x < w * h) by (nonlinear_arith)
        requires
            x < w,
            y < h,
    ;
}

} // verus!
