//! A text buffer held in memory: the cells a display would show, the writes
//! made to it in the order they were made, and how many times it was read.

use vstd::prelude::*;

verus! {

/// What a text buffer holds and what was done to it.
pub ghost struct ScreenView {
    pub cells: Seq<u16>,
    pub writes: Seq<(usize, u16)>,
    pub reads: nat,
}

/// A text buffer of a fixed number of cells.
pub struct TextBuffer {
    cells: Vec<u16>,
    writes: Vec<(usize, u16)>,
    reads: usize,
}

impl View for TextBuffer {
    type V = ScreenView;

    closed spec fn view(&self) -> ScreenView {
        ScreenView { cells: self.cells@, writes: self.writes@, reads: self.reads as nat }
    }
}

impl TextBuffer {
    /// A buffer of `len` blank (zero) cells that nothing has written or read.
    pub fn new(len: usize) -> (r: TextBuffer)
        ensures
            r@.cells == Seq::new(len as nat, |i: int| 0u16),
            r@.writes == Seq::<(usize, u16)>::empty(),
            r@.reads == 0,
    {
        let mut cells: Vec<u16> = Vec::new();
        let mut i: usize = 0;
        while i < len
            invariant
                i <= len,
                cells@ == Seq::new(i as nat, |j: int| 0u16),
            decreases len - i,
        {
            cells.push(0);
            i = i + 1;
            assert(cells@ =~= Seq::new(i as nat, |j: int| 0u16));
        }
        TextBuffer { cells, writes: Vec::new(), reads: 0 }
    }

    /// The number of cells.
    pub fn len(&self) -> (r: usize)
        ensures
            r == self@.cells.len(),
    {
        self.cells.len()
    }

    /// Stores `value` in the cell at `offset` and records the write. Nothing is read.
    pub fn write_cell(&mut self, offset: usize, value: u16)
        requires
            offset < old(self)@.cells.len(),
        ensures
            final(self)@.cells == old(self)@.cells.update(offset as int, value),
            final(self)@.writes == old(self)@.writes.push((offset, value)),
            final(self)@.reads == old(self)@.reads,
    {
        self.cells.set(offset, value);
        self.writes.push((offset, value));
    }

    /// Reads the cell at `offset`, which counts as one read.
    pub fn read_cell(&mut self, offset: usize) -> (r: u16)
        requires
            offset < old(self)@.cells.len(),
            old(self)@.reads < usize::MAX,
        ensures
            r == old(self)@.cells[offset as int],
            final(self)@.cells == old(self)@.cells,
            final(self)@.writes == old(self)@.writes,
            final(self)@.reads == old(self)@.reads + 1,
    {
        self.reads = self.reads + 1;
        self.cells[offset]
    }

    /// The cells as they stand, seen from outside the program: not a read.
    pub fn cells(&self) -> (r: &Vec<u16>)
        ensures
            r@ == self@.cells,
    {
        &self.cells
    }

    /// The writes made so far, oldest first.
    pub fn writes(&self) -> (r: &Vec<(usize, u16)>)
        ensures
            r@ == self@.writes,
    {
        &self.writes
    }

    /// How many times the buffer was read.
    pub fn reads(&self) -> (r: usize)
        ensures
            r == self@.reads,
    {
        self.reads
    }
}

} // verus!
