//! Laws of the tape, of the loops and of whole runs.

use vstd::prelude::*;
use crate::brackets::{has_match, is_match, match_of, OPEN};
use crate::console::lemma_line_end_bounds;
use crate::memory::{pred, succ, Tape};
use crate::semantics::{run, run_from, run_loop, step, Machine, MINUS};

verus! {

/// A value stored under the cursor is the value read back from there, and
/// every other cell keeps what it held.
pub proof fn lemma_store_then_current(tape: Tape, v: u16)
    requires
        tape.wf(),
    ensures
        tape.store(v).wf(),
        tape.store(v).current() == v,
        tape.store(v).pointer == tape.pointer,
        tape.store(v).cells.len() == tape.cells.len(),
        forall|k: int|
            0 <= k < tape.cells.len() && k != tape.pointer ==> tape.store(v).cells[k]
                == tape.cells[k],
{
}

/// Cells wrap around: after the largest value comes 0 and before 0 the
/// largest value. Everywhere else a cell moves by one, and the two moves
/// undo each other.
pub proof fn lemma_wraparound(v: u16)
    ensures
        succ(u16::MAX) == 0,
        pred(0) == u16::MAX,
        v < u16::MAX ==> succ(v) == v + 1,
        v > 0 ==> pred(v) == v - 1,
        pred(succ(v)) == v,
        succ(pred(v)) == v,
{
}

/// A move off either end of the tape stops the run as `OutOfBounds` and
/// leaves tape and console as they were.
pub proof fn lemma_moves_stay_on_tape(m: Machine)
    requires
        m.tape.wf(),
    ensures
        m.tape.pointer == 0 ==> m.move_left() == m.fail(crate::memory::EvalError::OutOfBounds),
        m.tape.pointer == m.tape.cells.len() - 1 ==> m.move_right() == m.fail(
            crate::memory::EvalError::OutOfBounds,
        ),
        m.tape.pointer > 0 ==> m.move_left().tape.wf() && m.move_left().fault == m.fault,
        m.tape.pointer < m.tape.cells.len() - 1 ==> m.move_right().tape.wf()
            && m.move_right().fault == m.fault,
{
}

/// A program without loops, byte by byte from left to right, each byte
/// once.
pub open spec fn straight(code: Seq<u8>, m: Machine) -> Machine {
    code.fold_left(m, |acc: Machine, c: u8| step(c, acc))
}

proof fn lemma_straight_prefix(code: Seq<u8>, k: int, m: Machine, limit: nat)
    requires
        0 <= k <= code.len(),
        forall|j: int| 0 <= j < code.len() ==> code[j] != OPEN,
    ensures
        run(code, m, limit) == run_from(code, k, straight(code.subrange(0, k), m), limit),
    decreases k,
{
    if k > 0 {
        lemma_straight_prefix(code, k - 1, m, limit);
        let shorter = code.subrange(0, k - 1);
        let longer = code.subrange(0, k);
        assert(longer.drop_last() =~= shorter);
        assert(longer.last() == code[k - 1]);
        let at = straight(shorter, m);
        assert(straight(longer, m) == step(code[k - 1], at));
        if at.fault is Some {
            assert(run_from(code, k, at, limit) == at);
        }
    }
}

/// Without a `[` in it, a program is run by taking every byte once, in the
/// order of the source. A `]` on its own is inert.
pub proof fn lemma_straight_line(code: Seq<u8>, m: Machine, limit: nat)
    requires
        forall|j: int| 0 <= j < code.len() ==> code[j] != OPEN,
    ensures
        run(code, m, limit) == straight(code, m),
{
    lemma_straight_prefix(code, code.len() as int, m, limit);
    assert(code.subrange(0, code.len() as int) =~= code);
}

/// Once stopped, a machine stays as it is, whatever is run on it.
pub proof fn lemma_stopped_stays(code: Seq<u8>, m: Machine, passes: nat, limit: nat)
    requires
        m.fault is Some,
    ensures
        run(code, m, limit) == m,
        run_loop(code, m, passes, limit) == m,
{
}

/// A loop entered on a cell that holds 0 is skipped: the run goes on behind
/// the closing bracket with the machine unchanged.
pub proof fn lemma_loop_skipped(code: Seq<u8>, start: int, end: int, m: Machine, limit: nat)
    requires
        m.fault is None,
        m.tape.current() == 0,
        is_match(code, start, end),
        code[start] == OPEN,
    ensures
        run_loop(code.subrange(start + 1, end), m, limit, limit) == m,
        run_from(code, start, m, limit) == run_from(code, end + 1, m, limit),
{
    assert(has_match(code, start));
    crate::brackets::lemma_match_unique(code, start, end, match_of(code, start));
}

/// Each pass over `body` leaves the cursor where it was and takes exactly
/// one from the cell under it, without stopping the run.
pub open spec fn counts_down(body: Seq<u8>, limit: nat) -> bool {
    forall|s: Machine|
        s.fault is None && s.tape.wf() && s.tape.current() != 0 ==> {
            let t = #[trigger] run(body, s, limit);
            &&& t.fault is None
            &&& t.tape.wf()
            &&& t.tape.pointer == s.tape.pointer
            &&& t.tape.current() == s.tape.current() - 1
        }
}

/// A loop whose body counts the current cell down runs until that cell
/// holds 0, provided the passes left are as many as the cell's value.
pub proof fn lemma_loop_counts_down(body: Seq<u8>, m: Machine, passes: nat, limit: nat)
    requires
        m.fault is None,
        m.tape.wf(),
        counts_down(body, limit),
        m.tape.current() <= passes,
    ensures
        run_loop(body, m, passes, limit).fault is None,
        run_loop(body, m, passes, limit).tape.wf(),
        run_loop(body, m, passes, limit).tape.pointer == m.tape.pointer,
        run_loop(body, m, passes, limit).tape.current() == 0,
    decreases passes,
{
    if m.tape.current() != 0 {
        let t = run(body, m, limit);
        lemma_loop_counts_down(body, t, (passes - 1) as nat, limit);
    }
}

/// The body `-` counts the current cell down.
pub proof fn lemma_decrement_counts_down(limit: nat)
    ensures
        counts_down(seq![MINUS], limit),
{
    let body = seq![MINUS];
    assert forall|s: Machine|
        s.fault is None && s.tape.wf() && s.tape.current() != 0 implies ({
        let t = #[trigger] run(body, s, limit);
        &&& t.fault is None
        &&& t.tape.wf()
        &&& t.tape.pointer == s.tape.pointer
        &&& t.tape.current() == s.tape.current() - 1
    }) by {
        let once = step(MINUS, s);
        assert(body[0] == MINUS);
        assert(run_from(body, 1, once, limit) == once);
        assert(run_from(body, 0, s, limit) == once);
    }
}

/// What every run keeps: `after` is well formed, its tape is as long as
/// that of `before`, its input is the same with no less of it consumed, and
/// its output begins with the output of `before`.
pub open spec fn follows(before: Machine, after: Machine) -> bool {
    &&& after.wf()
    &&& after.tape.cells.len() == before.tape.cells.len()
    &&& after.channel.input == before.channel.input
    &&& before.channel.position <= after.channel.position
    &&& before.channel.output.is_prefix_of(after.channel.output)
}

/// One byte keeps what every run keeps.
pub proof fn lemma_step_follows(c: u8, m: Machine)
    requires
        m.wf(),
    ensures
        follows(m, step(c, m)),
{
    lemma_line_end_bounds(m.channel.input, m.channel.position);
}

proof fn lemma_follows_chain(a: Machine, b: Machine, c: Machine)
    requires
        follows(a, b),
        follows(b, c),
    ensures
        follows(a, c),
{
}

/// The cursor stays on the tape, the tape keeps its length, input is only
/// consumed and output only added to, from any position of any program.
pub proof fn lemma_run_from_follows(code: Seq<u8>, i: int, m: Machine, limit: nat)
    requires
        m.wf(),
    ensures
        follows(m, run_from(code, i, m, limit)),
    decreases code.len(), 0int, code.len() - i,
{
    if m.fault is Some || i < 0 || i >= code.len() {
    } else if code[i] == OPEN {
        if has_match(code, i) {
            let end = match_of(code, i);
            let body = code.subrange(i + 1, end);
            let looped = run_loop(body, m, limit, limit);
            lemma_run_loop_follows(body, m, limit, limit);
            lemma_run_from_follows(code, end + 1, looped, limit);
            lemma_follows_chain(m, looped, run_from(code, end + 1, looped, limit));
        }
    } else {
        let next = step(code[i], m);
        lemma_step_follows(code[i], m);
        lemma_run_from_follows(code, i + 1, next, limit);
        lemma_follows_chain(m, next, run_from(code, i + 1, next, limit));
    }
}

/// The same holds of a loop, however many passes it makes.
pub proof fn lemma_run_loop_follows(body: Seq<u8>, m: Machine, passes: nat, limit: nat)
    requires
        m.wf(),
    ensures
        follows(m, run_loop(body, m, passes, limit)),
    decreases body.len(), 1int, passes,
{
    if m.fault is Some || m.tape.current() == 0 {
    } else if passes == 0 {
    } else {
        let once = run_from(body, 0, m, limit);
        lemma_run_from_follows(body, 0, m, limit);
        lemma_run_loop_follows(body, once, (passes - 1) as nat, limit);
        lemma_follows_chain(m, once, run_loop(body, once, (passes - 1) as nat, limit));
    }
}

} // verus!
