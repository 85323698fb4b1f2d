//! The evaluator: it reads a program byte by byte, turns each command into
//! an `Operation` and applies it to the memory and the console.

use vstd::prelude::*;
use vstd::slice::slice_subrange;
use crate::brackets::{find_next, OPEN};
use crate::console::Console;
use crate::memory::{pred, succ, EvalError, Memory};
use crate::semantics::{
    low_byte, run, run_from, run_loop, step, Machine, COMMA, DOT, LEFT, MINUS, PLUS, RIGHT,
};

verus! {

/// One thing a program can ask for.
#[derive(Clone, Copy, Debug)]
pub enum Operation {
    IncPointer,
    DecPointer,
    IncValue,
    DecValue,
    /// One pass over a loop's body. The fields are the positions of the
    /// loop's two brackets in the program that holds it.
    Loop(usize, usize),
    Print,
    Scan,
}

impl Operation {
    /// A `Loop` names a range that lies inside `code`, the opening bracket's
    /// position before the closing one's.
    pub open spec fn fits(self, code: Seq<u8>) -> bool {
        match self {
            Operation::Loop(start, end) => start < end <= code.len(),
            _ => true,
        }
    }

    /// The machine after this operation has been applied to `m`, where
    /// `code` is the program that a `Loop` speaks of.
    pub open spec fn effect(self, code: Seq<u8>, m: Machine, limit: nat) -> Machine {
        match self {
            Operation::IncPointer => step(RIGHT, m),
            Operation::DecPointer => step(LEFT, m),
            Operation::IncValue => step(PLUS, m),
            Operation::DecValue => step(MINUS, m),
            Operation::Loop(start, end) => run(code.subrange(start + 1, end as int), m, limit),
            Operation::Print => step(DOT, m),
            Operation::Scan => step(COMMA, m),
        }
    }

    /// Moves the cursor one cell to the right. On the last cell the cursor
    /// stays and the move is refused.
    pub fn inc_pointer(memory: &mut Memory) -> (result: Result<(), EvalError>)
        ensures
            old(memory)@.pointer + 1 < old(memory)@.cells.len() ==> {
                &&& result.is_ok()
                &&& final(memory)@ == old(memory)@.seek(old(memory)@.pointer + 1)
            },
            old(memory)@.pointer + 1 >= old(memory)@.cells.len() ==> {
                &&& result == Err::<(), EvalError>(EvalError::OutOfBounds)
                &&& *final(memory) == *old(memory)
            },
    {
        let n: usize = memory.data.len();
        if n == 0 || memory.pointer >= n - 1 {
            return Err(EvalError::OutOfBounds);
        }
        memory.pointer += 1;
        Ok(())
    }

    /// Moves the cursor one cell to the left. On the first cell the cursor
    /// stays and the move is refused.
    pub fn dec_pointer(memory: &mut Memory) -> (result: Result<(), EvalError>)
        ensures
            old(memory)@.pointer > 0 ==> {
                &&& result.is_ok()
                &&& final(memory)@ == old(memory)@.seek(old(memory)@.pointer - 1)
            },
            old(memory)@.pointer == 0 ==> {
                &&& result == Err::<(), EvalError>(EvalError::OutOfBounds)
                &&& *final(memory) == *old(memory)
            },
    {
        if memory.pointer == 0 {
            return Err(EvalError::OutOfBounds);
        }
        memory.pointer -= 1;
        Ok(())
    }

    /// Adds one to the current cell; the largest value becomes 0.
    pub fn inc_value(memory: &mut Memory)
        requires
            old(memory).wf(),
        ensures
            final(memory)@ == old(memory)@.store(succ(old(memory)@.current())),
    {
        let v: u16 = memory.read();
        memory.write(v.wrapping_add(1));
    }

    /// Takes one from the current cell; 0 becomes the largest value.
    pub fn dec_value(memory: &mut Memory)
        requires
            old(memory).wf(),
        ensures
            final(memory)@ == old(memory)@.store(pred(old(memory)@.current())),
    {
        let v: u16 = memory.read();
        memory.write(v.wrapping_sub(1));
    }

    /// Writes the low eight bits of the current cell to the console.
    pub fn print(memory: &Memory, console: &mut Console)
        requires
            memory.wf(),
        ensures
            final(console)@ == old(console)@.after_emit(low_byte(memory@.current())),
            old(console).wf() ==> final(console).wf(),
    {
        let v: u16 = memory.read();
        console.emit((v % 256) as u8);
    }

    /// Consumes one line of input and stores its first byte in the current
    /// cell. With no input left nothing is stored and the read is refused.
    pub fn scan(memory: &mut Memory, console: &mut Console) -> (result: Result<(), EvalError>)
        requires
            old(memory).wf(),
            old(console).wf(),
        ensures
            final(memory).wf(),
            final(console).wf(),
            Machine::of(final(memory)@, final(console)@, result) == Machine::of(
                old(memory)@,
                old(console)@,
                Ok(()),
            ).scan(),
    {
        match console.read_line() {
            Some(byte) => {
                memory.write(byte as u16);
                Ok(())
            },
            None => Err(EvalError::InputExhausted),
        }
    }

    /// Makes one pass over the body of the loop that `operation` names in
    /// `code`. Any other operation does nothing here.
    pub fn eval_loop(
        code: &[u8],
        memory: &mut Memory,
        console: &mut Console,
        limit: u64,
        operation: Operation,
    ) -> (result: Result<(), EvalError>)
        requires
            old(memory).wf(),
            old(console).wf(),
            operation.fits(code@),
        ensures
            final(memory).wf(),
            final(console).wf(),
            Machine::of(final(memory)@, final(console)@, result) == (match operation {
                Operation::Loop(start, end) => run(
                    code@.subrange(start + 1, end as int),
                    Machine::of(old(memory)@, old(console)@, Ok(())),
                    limit as nat,
                ),
                _ => Machine::of(old(memory)@, old(console)@, Ok(())),
            }),
        decreases code@.len(), 0int,
    {
        if let Operation::Loop(start, end) = operation {
            eval(slice_subrange(code, start + 1, end), memory, console, limit)
        } else {
            Ok(())
        }
    }
}

/// Applies one operation to the memory and the console.
pub fn apply(
    operation: Operation,
    code: &[u8],
    memory: &mut Memory,
    console: &mut Console,
    limit: u64,
) -> (result: Result<(), EvalError>)
    requires
        old(memory).wf(),
        old(console).wf(),
        operation.fits(code@),
    ensures
        final(memory).wf(),
        final(console).wf(),
        Machine::of(final(memory)@, final(console)@, result) == operation.effect(
            code@,
            Machine::of(old(memory)@, old(console)@, Ok(())),
            limit as nat,
        ),
    decreases code@.len(), 1int,
{
    match operation {
        Operation::IncPointer => Operation::inc_pointer(memory),
        Operation::DecPointer => Operation::dec_pointer(memory),
        Operation::IncValue => {
            Operation::inc_value(memory);
            Ok(())
        },
        Operation::DecValue => {
            Operation::dec_value(memory);
            Ok(())
        },
        Operation::Loop(_, _) => Operation::eval_loop(code, memory, console, limit, operation),
        Operation::Print => {
            Operation::print(memory, console);
            Ok(())
        },
        Operation::Scan => Operation::scan(memory, console),
    }
}

/// Runs `code` on the memory and the console, where no entry into a loop
/// may make more than `limit` passes.
///
/// The run ends at the first error, with memory and console as that moment
/// left them: what was written before it stays written.
pub fn eval(code: &[u8], memory: &mut Memory, console: &mut Console, limit: u64) -> (result:
    Result<(), EvalError>)
    requires
        old(memory).wf(),
        old(console).wf(),
    ensures
        final(memory).wf(),
        final(console).wf(),
        Machine::of(final(memory)@, final(console)@, result) == run(
            code@,
            Machine::of(old(memory)@, old(console)@, Ok(())),
            limit as nat,
        ),
    decreases code@.len(), 2int,
{
    let ghost goal = run(code@, Machine::of(memory@, console@, Ok(())), limit as nat);
    let n: usize = code.len();
    let mut i: usize = 0;
    while i < n
        invariant
            i <= n,
            n == code@.len(),
            memory.wf(),
            console.wf(),
            goal == run(code@, Machine::of(old(memory)@, old(console)@, Ok(())), limit as nat),
            run_from(code@, i as int, Machine::of(memory@, console@, Ok(())), limit as nat)
                == goal,
        decreases n - i,
    {
        let c: u8 = code[i];
        let ghost before = Machine::of(memory@, console@, Ok(()));
        if c == OPEN {
            let start: usize = i;
            let end: usize = match find_next(code, i) {
                Some(end) => end,
                None => {
                    return Err(EvalError::UnmatchedBracket);
                },
            };
            let ghost body = code@.subrange(start + 1, end as int);
            let mut passes: u64 = limit;
            while memory.read() != 0
                invariant
                    start < end < n,
                    n == code@.len(),
                    memory.wf(),
                    console.wf(),
                    goal == run(
                        code@,
                        Machine::of(old(memory)@, old(console)@, Ok(())),
                        limit as nat,
                    ),
                    body == code@.subrange(start + 1, end as int),
                    run_loop(
                        body,
                        Machine::of(memory@, console@, Ok(())),
                        passes as nat,
                        limit as nat,
                    ) == run_loop(body, before, limit as nat, limit as nat),
                    run_from(
                        code@,
                        end + 1,
                        run_loop(body, before, limit as nat, limit as nat),
                        limit as nat,
                    ) == goal,
                decreases passes,
            {
                if passes == 0 {
                    return Err(EvalError::PassLimit);
                }
                passes -= 1;
                match apply(Operation::Loop(start, end), code, memory, console, limit) {
                    Ok(_) => {},
                    Err(e) => {
                        proof {
                            let stopped = Machine::of(memory@, console@, Err(e));
                            assert(run_loop(body, stopped, passes as nat, limit as nat)
                                == stopped);
                            assert(run_from(code@, end + 1, stopped, limit as nat) == stopped);
                        }
                        return Err(e);
                    },
                }
            }
            i += end - start + 1;
            continue ;
        }
        let outcome: Result<(), EvalError> = if c == RIGHT {
            apply(Operation::IncPointer, code, memory, console, limit)
        } else if c == LEFT {
            apply(Operation::DecPointer, code, memory, console, limit)
        } else if c == PLUS {
            apply(Operation::IncValue, code, memory, console, limit)
        } else if c == MINUS {
            apply(Operation::DecValue, code, memory, console, limit)
        } else if c == DOT {
            apply(Operation::Print, code, memory, console, limit)
        } else if c == COMMA {
            apply(Operation::Scan, code, memory, console, limit)
        } else {
            Ok(())
        };
        match outcome {
            Ok(_) => {},
            Err(e) => {
                proof {
                    let stopped = Machine::of(memory@, console@, Err(e));
                    assert(run_from(code@, i + 1, stopped, limit as nat) == stopped);
                }
                return Err(e);
            },
        }
        i += 1;
    }
    Ok(())
}

} // verus!
