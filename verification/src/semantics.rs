//! What a program means: a function from the machine before a run to the
//! machine after it.

use vstd::prelude::*;
use crate::brackets::{has_match, match_of, OPEN};
use crate::console::Channel;
use crate::memory::{pred, succ, EvalError, Tape};

verus! {

/// `>`: move the cursor one cell to the right.
pub const RIGHT: u8 = 62;

/// `<`: move the cursor one cell to the left.
pub const LEFT: u8 = 60;

/// `+`: add one to the current cell.
pub const PLUS: u8 = 43;

/// `-`: take one from the current cell.
pub const MINUS: u8 = 45;

/// `.`: write the current cell.
pub const DOT: u8 = 46;

/// `,`: read into the current cell.
pub const COMMA: u8 = 44;

/// The byte written for a cell: its low eight bits.
pub open spec fn low_byte(v: u16) -> u8 {
    (v % 256) as u8
}

/// A run at one moment: the tape, the console, and the error that stopped
/// the run, if one did.
pub struct Machine {
    pub tape: Tape,
    pub channel: Channel,
    pub fault: Option<EvalError>,
}

impl Machine {
    /// The machine that holds `tape` and `channel` after a run, or a part of
    /// one, that ended as `result` says.
    pub open spec fn of(tape: Tape, channel: Channel, result: Result<(), EvalError>) -> Machine {
        Machine {
            tape,
            channel,
            fault: match result {
                Ok(_) => None,
                Err(e) => Some(e),
            },
        }
    }

    /// Tape and console are both well formed.
    pub open spec fn wf(self) -> bool {
        self.tape.wf() && self.channel.wf()
    }

    /// The machine stopped by `e`, tape and console as they were.
    pub open spec fn fail(self, e: EvalError) -> Machine {
        Machine { tape: self.tape, channel: self.channel, fault: Some(e) }
    }

    /// The machine with another tape.
    pub open spec fn with_tape(self, tape: Tape) -> Machine {
        Machine { tape, channel: self.channel, fault: self.fault }
    }

    /// `>` on a running machine.
    pub open spec fn move_right(self) -> Machine {
        if self.tape.pointer + 1 < self.tape.cells.len() {
            self.with_tape(self.tape.seek(self.tape.pointer + 1))
        } else {
            self.fail(EvalError::OutOfBounds)
        }
    }

    /// `<` on a running machine.
    pub open spec fn move_left(self) -> Machine {
        if self.tape.pointer > 0 {
            self.with_tape(self.tape.seek(self.tape.pointer - 1))
        } else {
            self.fail(EvalError::OutOfBounds)
        }
    }

    /// `+` on a running machine.
    pub open spec fn increment(self) -> Machine {
        self.with_tape(self.tape.store(succ(self.tape.current())))
    }

    /// `-` on a running machine.
    pub open spec fn decrement(self) -> Machine {
        self.with_tape(self.tape.store(pred(self.tape.current())))
    }

    /// `.` on a running machine.
    pub open spec fn print(self) -> Machine {
        Machine {
            tape: self.tape,
            channel: self.channel.after_emit(low_byte(self.tape.current())),
            fault: self.fault,
        }
    }

    /// `,` on a running machine. A read that finds no input left stops the
    /// run and stores nothing.
    pub open spec fn scan(self) -> Machine {
        if self.channel.exhausted() {
            self.fail(EvalError::InputExhausted)
        } else {
            Machine {
                tape: self.tape.store(self.channel.head() as u16),
                channel: self.channel.after_line(),
                fault: self.fault,
            }
        }
    }
}

/// What one byte other than `[` does to the machine. A stopped machine
/// stays as it is, and so does any machine at a byte that is no command.
pub open spec fn step(c: u8, m: Machine) -> Machine {
    if m.fault is Some {
        m
    } else if c == RIGHT {
        m.move_right()
    } else if c == LEFT {
        m.move_left()
    } else if c == PLUS {
        m.increment()
    } else if c == MINUS {
        m.decrement()
    } else if c == DOT {
        m.print()
    } else if c == COMMA {
        m.scan()
    } else {
        m
    }
}

/// The machine after `code` has been read from position `i` to its end.
///
/// A byte other than `[` acts as `step` says and the scan moves on by one.
/// At a `[` the loop's end is looked for first: without one the run stops as
/// `UnmatchedBracket`; with one the loop is run on what lies between the two
/// brackets and the scan goes on behind the closing one.
pub open spec fn run_from(code: Seq<u8>, i: int, m: Machine, limit: nat) -> Machine
    decreases code.len(), 0int, code.len() - i,
{
    if m.fault is Some || i < 0 || i >= code.len() {
        m
    } else if code[i] == OPEN {
        if has_match(code, i) {
            let end = match_of(code, i);
            run_from(code, end + 1, run_loop(code.subrange(i + 1, end), m, limit, limit), limit)
        } else {
            m.fail(EvalError::UnmatchedBracket)
        }
    } else {
        run_from(code, i + 1, step(code[i], m), limit)
    }
}

/// The machine after the loop with the given `body` has run, with `passes`
/// passes left of the `limit` that each entry into a loop is allowed.
///
/// The current cell is tested before every pass. On 0 the loop is over. On
/// another value the body is run whole and the test is made again, unless
/// no pass is left: then the run stops as `PassLimit`.
pub open spec fn run_loop(body: Seq<u8>, m: Machine, passes: nat, limit: nat) -> Machine
    decreases body.len(), 1int, passes,
{
    if m.fault is Some || m.tape.current() == 0 {
        m
    } else if passes == 0 {
        m.fail(EvalError::PassLimit)
    } else {
        run_loop(body, run_from(body, 0, m, limit), (passes - 1) as nat, limit)
    }
}

/// The machine after the whole of `code` has run on `m`, where no entry
/// into a loop may make more than `limit` passes.
pub open spec fn run(code: Seq<u8>, m: Machine, limit: nat) -> Machine {
    run_from(code, 0, m, limit)
}

} // verus!
