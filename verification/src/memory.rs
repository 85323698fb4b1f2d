//! The tape: a fixed row of 16-bit cells and the cursor that selects one.

use vstd::prelude::*;

verus! {

/// Why a run was abandoned.
#[derive(Clone, Copy, Debug, PartialEq, Eq, Structural)]
pub enum EvalError {
    /// The cursor was asked to leave the tape at either end.
    OutOfBounds,
    /// A `[` has no closing `]` in the rest of its program.
    UnmatchedBracket,
    /// A `,` found no input left to read.
    InputExhausted,
    /// One entry into a loop used up its allowance of passes.
    PassLimit,
}

/// The mathematical tape: what a `Memory` stands for in contracts.
pub struct Tape {
    pub pointer: int,
    pub cells: Seq<u16>,
}

impl Tape {
    /// The cursor selects a cell.
    pub open spec fn wf(self) -> bool {
        0 <= self.pointer < self.cells.len()
    }

    /// The value under the cursor.
    pub open spec fn current(self) -> u16
        recommends
            self.wf(),
    {
        self.cells[self.pointer]
    }

    /// The tape with `v` stored under the cursor.
    pub open spec fn store(self, v: u16) -> Tape
        recommends
            self.wf(),
    {
        Tape { pointer: self.pointer, cells: self.cells.update(self.pointer, v) }
    }

    /// The tape with the cursor at `p`.
    pub open spec fn seek(self, p: int) -> Tape {
        Tape { pointer: p, cells: self.cells }
    }
}

/// A cell's successor: one more, and 0 after the largest value.
pub open spec fn succ(v: u16) -> u16 {
    if v == u16::MAX {
        0u16
    } else {
        (v + 1) as u16
    }
}

/// A cell's predecessor: one less, and the largest value before 0.
pub open spec fn pred(v: u16) -> u16 {
    if v == 0 {
        u16::MAX
    } else {
        (v - 1) as u16
    }
}

/// The interpreter's memory.
pub struct Memory {
    pub pointer: usize,
    pub data: Vec<u16>,
}

impl View for Memory {
    type V = Tape;

    open spec fn view(&self) -> Tape {
        Tape { pointer: self.pointer as int, cells: self.data@ }
    }
}

impl Memory {
    /// The cursor selects a cell. Every operation keeps this once it holds.
    pub open spec fn wf(&self) -> bool {
        self@.wf()
    }

    /// A tape of `capacity` cells, all 0, with the cursor on the first.
    pub fn new(capacity: usize) -> (memory: Memory)
        ensures
            memory@.pointer == 0,
            memory@.cells == Seq::new(capacity as nat, |i: int| 0u16),
            memory.wf() <==> capacity > 0,
    {
        let data: Vec<u16> = vec![0u16; capacity];
        assert(data@ =~= Seq::new(capacity as nat, |i: int| 0u16));
        Memory { pointer: 0, data }
    }

    /// The value under the cursor.
    pub fn read(&self) -> (v: u16)
        requires
            self.wf(),
        ensures
            v == self@.current(),
    {
        self.data[self.pointer]
    }

    /// Stores `v` under the cursor and touches nothing else.
    pub fn write(&mut self, v: u16)
        requires
            old(self).wf(),
        ensures
            final(self)@ == old(self)@.store(v),
            final(self).wf(),
    {
        let p: usize = self.pointer;
        self.data.set(p, v);
    }
}

} // verus!
