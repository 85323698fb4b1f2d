//! The console: the input a program may read, line by line, and the bytes
//! it has written.

use vstd::prelude::*;

verus! {

/// The byte that ends a line of input.
pub const NEWLINE: u8 = 10;

/// The mathematical console: what a `Console` stands for in contracts.
pub struct Channel {
    pub input: Seq<u8>,
    pub position: int,
    pub output: Seq<u8>,
}

/// Where the line that starts at `from` ends: just past its first newline,
/// or at the end of the input when no newline follows.
pub open spec fn line_end(input: Seq<u8>, from: int) -> int
    decreases input.len() - from,
{
    if from < 0 || from >= input.len() {
        input.len() as int
    } else if input[from] == NEWLINE {
        from + 1
    } else {
        line_end(input, from + 1)
    }
}

impl Channel {
    /// The read position lies within the input or at its end.
    pub open spec fn wf(self) -> bool {
        0 <= self.position <= self.input.len()
    }

    /// No input is left.
    pub open spec fn exhausted(self) -> bool {
        self.position >= self.input.len()
    }

    /// The first byte of the line at the read position.
    pub open spec fn head(self) -> u8
        recommends
            self.wf(),
            !self.exhausted(),
    {
        self.input[self.position]
    }

    /// The channel once the line at the read position has been consumed.
    pub open spec fn after_line(self) -> Channel {
        Channel {
            input: self.input,
            position: line_end(self.input, self.position),
            output: self.output,
        }
    }

    /// The channel once `byte` has been written.
    pub open spec fn after_emit(self, byte: u8) -> Channel {
        Channel { input: self.input, position: self.position, output: self.output.push(byte) }
    }
}

/// A line never ends before it starts, nor past the end of the input, and a
/// line that starts inside the input is not empty.
pub proof fn lemma_line_end_bounds(input: Seq<u8>, from: int)
    requires
        0 <= from <= input.len(),
    ensures
        from <= line_end(input, from) <= input.len(),
        from < input.len() ==> from < line_end(input, from),
    decreases input.len() - from,
{
    if from < input.len() && input[from] != NEWLINE {
        lemma_line_end_bounds(input, from + 1);
    }
}

/// A program's input and output.
pub struct Console {
    /// Everything the program may read.
    pub input: Vec<u8>,
    /// How much of `input` has been consumed.
    pub position: usize,
    /// Everything the program has written, oldest byte first.
    pub output: Vec<u8>,
}

impl View for Console {
    type V = Channel;

    open spec fn view(&self) -> Channel {
        Channel { input: self.input@, position: self.position as int, output: self.output@ }
    }
}

impl Console {
    /// The read position lies within the input or at its end.
    pub open spec fn wf(&self) -> bool {
        self@.wf()
    }

    /// A console that holds `input`, none of it consumed, and no output.
    pub fn new(input: Vec<u8>) -> (console: Console)
        ensures
            console@.input == input@,
            console@.position == 0,
            console@.output == Seq::<u8>::empty(),
            console.wf(),
    {
        Console { input, position: 0, output: Vec::new() }
    }

    /// Consumes one line of input and returns its first byte; `None`, with
    /// nothing consumed, when no input is left.
    pub fn read_line(&mut self) -> (first: Option<u8>)
        requires
            old(self).wf(),
        ensures
            final(self).wf(),
            old(self)@.exhausted() ==> {
                &&& first.is_none()
                &&& final(self)@ == old(self)@
            },
            !old(self)@.exhausted() ==> {
                &&& first == Some(old(self)@.head())
                &&& final(self)@ == old(self)@.after_line()
            },
    {
        let n: usize = self.input.len();
        let start: usize = self.position;
        if start >= n {
            return None;
        }
        let byte: u8 = self.input[start];
        let mut i: usize = start;
        while i < n && self.input[i] != NEWLINE
            invariant
                start <= i <= n,
                n == self.input@.len(),
                self.input@ == old(self).input@,
                self.output@ == old(self).output@,
                line_end(self.input@, i as int) == line_end(self.input@, start as int),
            decreases n - i,
        {
            i += 1;
        }
        if i < n {
            i += 1;
        }
        self.position = i;
        Some(byte)
    }

    /// Appends `byte` to the output.
    pub fn emit(&mut self, byte: u8)
        ensures
            final(self)@ == old(self)@.after_emit(byte),
    {
        self.output.push(byte);
    }
}

} // verus!
