use vstd::prelude::*;
use vstd::arithmetic::div_mod::{lemma_add_mod_noop_right, lemma_sub_mod_noop_right};
use crate::cell_size::CellSize;
use crate::token::{Ast, Token, TokenType};

verus! {

/// The error for a tape that could hold no cell.
pub const TAPE_TOO_SMALL: &'static str = "Tape size must be greater than 0";

/// The error for a pointer that would go below the first cell.
pub const OUT_OF_BOUNDS_LEFT: &'static str = "Data pointer moved out of bounds (too far left)";

/// The error for a pointer that would reach the configured tape length.
pub const OUT_OF_BOUNDS_RIGHT: &'static str = "Data pointer moved out of bounds (too far right)";

/// The number of cells a tape starts with, and the least it grows by.
pub const TAPE_CHUNK: usize = 1000;

/// A sequence that can be executed: it ends in `End`, every loop token holds a
/// jump target inside the sequence before that `End`, and no pointer step is
/// negative.
pub open spec fn runnable(p: Seq<Token>) -> bool {
    &&& p.len() >= 1
    &&& p.last().tk == TokenType::End
    &&& forall|i: int|
        0 <= i < p.len() && (p[i].tk == TokenType::LoopStart || p[i].tk == TokenType::LoopEnd)
            ==> 0 <= #[trigger] p[i].value < p.len() - 1
    &&& forall|i: int|
        0 <= i < p.len() && (p[i].tk == TokenType::Left || p[i].tk == TokenType::Right)
            ==> 0 <= #[trigger] p[i].value
}

/// Tells whether `ast` can be executed.
pub fn is_runnable(ast: &Ast) -> (r: bool)
    ensures
        r == runnable(ast@),
{
    let n = ast.len();
    if n == 0 || ast[n - 1].tk != TokenType::End {
        return false;
    }
    let mut i: usize = 0;
    while i < n
        invariant
            n == ast@.len(),
            n >= 1,
            i <= n,
            forall|k: int|
                0 <= k < i && (ast@[k].tk == TokenType::LoopStart || ast@[k].tk
                    == TokenType::LoopEnd) ==> 0 <= #[trigger] ast@[k].value < n - 1,
            forall|k: int|
                0 <= k < i && (ast@[k].tk == TokenType::Left || ast@[k].tk == TokenType::Right)
                    ==> 0 <= #[trigger] ast@[k].value,
        decreases n - i,
    {
        let t = ast[i];
        if t.tk == TokenType::LoopStart || t.tk == TokenType::LoopEnd {
            if t.value < 0 || t.value as usize >= n - 1 {
                return false;
            }
        } else if t.tk == TokenType::Left || t.tk == TokenType::Right {
            if t.value < 0 {
                return false;
            }
        }
        i = i + 1;
    }
    true
}

/// `tape` made long enough to hold cell `target`: when it is too short it gains
/// zero cells up to `target` plus a chunk, but never beyond `limit` cells.
pub open spec fn grown(tape: Seq<int>, target: int, limit: int) -> Seq<int> {
    if target < tape.len() {
        tape
    } else {
        let new_len = if target + TAPE_CHUNK < limit {
            target + TAPE_CHUNK
        } else {
            limit
        };
        tape + Seq::new((new_len - tape.len()) as nat, |i: int| 0int)
    }
}

/// Growing the tape for a target beyond its end but under the limit makes room
/// for the target, keeps every existing cell, and adds only zero cells.
pub proof fn lemma_growth_reads_zero(tape: Seq<int>, target: int, limit: int)
    requires
        tape.len() <= target < limit,
    ensures
        grown(tape, target, limit).len() > target,
        grown(tape, target, limit).subrange(0, tape.len() as int) == tape,
        forall|i: int|
            tape.len() <= i < grown(tape, target, limit).len() ==> #[trigger] grown(
                tape,
                target,
                limit,
            )[i] == 0,
{
    assert(grown(tape, target, limit).subrange(0, tape.len() as int) =~= tape);
}

/// What one dispatched instruction asks of the surrounding program.
#[derive(Clone, Copy, Debug, PartialEq, Eq, Structural)]
pub enum Event {
    /// Nothing: dispatch the next instruction.
    Continue,
    /// Write this byte to the output and flush it.
    Output(u8),
    /// Read one byte and hand it to `feed_input`.
    NeedInput,
    /// The program has ended.
    Halt,
}

/// The state of one run: the tape, the data pointer and the instruction pointer.
pub struct Machine<T> {
    /// The cells allocated so far; cells past the end read as zero.
    pub cells: Vec<T>,
    pub data_pointer: usize,
    pub instruction_pointer: usize,
    /// The configured maximum tape length: the data pointer stays below it.
    pub tape_size: usize,
}

impl<T: CellSize> Machine<T> {
    /// The data pointer is on the tape and below the configured tape length.
    pub open spec fn wf(&self) -> bool {
        &&& self.data_pointer < self.cells.len()
        &&& self.data_pointer < self.tape_size
    }

    /// The values of the cells.
    pub open spec fn tape(&self) -> Seq<int> {
        self.cells@.map_values(|c: T| c.num())
    }

    /// The value of the current cell.
    pub open spec fn current(&self) -> int {
        self.tape()[self.data_pointer as int]
    }

    /// `other` has the same tape, pointers and tape length as `self`.
    pub open spec fn same_as(&self, other: &Self) -> bool {
        &&& self.tape() == other.tape()
        &&& self.data_pointer == other.data_pointer
        &&& self.instruction_pointer == other.instruction_pointer
        &&& self.tape_size == other.tape_size
    }

    /// `self` differs from `old` only in its tape, which is `tape`, and in having
    /// moved on to the next instruction.
    pub open spec fn advanced(&self, old: &Self, tape: Seq<int>, data_pointer: int) -> bool {
        &&& self.tape() == tape
        &&& self.data_pointer == data_pointer
        &&& self.instruction_pointer == old.instruction_pointer + 1
        &&& self.tape_size == old.tape_size
    }

    /// A machine at the first instruction with a tape of zero cells, which may
    /// grow up to `tape_size` cells.
    pub fn new(tape_size: usize) -> (r: Result<Machine<T>, &'static str>)
        ensures
            tape_size < 1 ==> r == Err::<Machine<T>, &'static str>(TAPE_TOO_SMALL),
            tape_size >= 1 ==> (r matches Ok(m) && {
                &&& m.wf()
                &&& m.tape() == Seq::new(TAPE_CHUNK as nat, |i: int| 0int)
                &&& m.data_pointer == 0
                &&& m.instruction_pointer == 0
                &&& m.tape_size == tape_size
            }),
    {
        if tape_size < 1 {
            return Err(TAPE_TOO_SMALL);
        }
        let cells = T::get_zeroes(TAPE_CHUNK);
        let m = Machine { cells, data_pointer: 0, instruction_pointer: 0, tape_size };
        proof {
            assert(m.tape() == Seq::new(TAPE_CHUNK as nat, |i: int| 0int));
        }
        Ok(m)
    }

    /// Makes the tape long enough to hold cell `target`.
    fn grow(&mut self, target: usize)
        requires
            target < old(self).tape_size,
        ensures
            final(self).tape() == grown(old(self).tape(), target as int, old(self).tape_size as int),
            final(self).cells.len() > target,
            final(self).cells.len() >= old(self).cells.len(),
            final(self).data_pointer == old(self).data_pointer,
            final(self).instruction_pointer == old(self).instruction_pointer,
            final(self).tape_size == old(self).tape_size,
    {
        let len = self.cells.len();
        if target >= len {
            let new_len = if self.tape_size > TAPE_CHUNK && target < self.tape_size - TAPE_CHUNK {
                target + TAPE_CHUNK
            } else {
                self.tape_size
            };
            let ghost before = self.tape();
            let mut more = T::get_zeroes(new_len - len);
            let ghost extra = more@;
            self.cells.append(&mut more);
            proof {
                assert(self.cells@ == old(self).cells@ + extra);
                assert(self.tape() == before + Seq::new((new_len - len) as nat, |i: int| 0int));
            }
        }
    }

    /// Dispatches the instruction at the instruction pointer.
    ///
    /// `Add`, `Sub` and `SetCell` change the current cell modulo the cell range.
    /// `Left` and `Right` move the data pointer, failing rather than leaving
    /// `0 .. tape_size`; the tape grows when the pointer passes its end. A loop
    /// token jumps to its partner when the current cell is zero (`[`) or not
    /// (`]`). `Move` adds the current cell into the cell `value` places away and
    /// zeroes it, when it is not zero already. `Out` hands back the low byte of the
    /// current cell; `In` asks for a byte and stays put until `feed_input`; `End`
    /// halts. On an error the machine is left as it was.
    pub fn step(&mut self, ast: &Ast) -> (r: Result<Event, &'static str>)
        requires
            old(self).wf(),
            runnable(ast@),
            old(self).instruction_pointer < ast.len(),
        ensures
            r is Ok ==> final(self).wf() && final(self).instruction_pointer < ast.len(),
            r is Err ==> final(self).same_as(old(self)),
            ({
                let t = ast@[old(self).instruction_pointer as int];
                let dp = old(self).data_pointer as int;
                let ip = old(self).instruction_pointer as int;
                let tape = old(self).tape();
                let c = old(self).current();
                let m = T::modulus() as int;
                let size = old(self).tape_size as int;
                let next = |tape: Seq<int>, dp: int|
                    r == Ok::<Event, &'static str>(Event::Continue) && final(self).advanced(
                        old(self),
                        tape,
                        dp,
                    );
                let jump = |target: int|
                    {
                        &&& r == Ok::<Event, &'static str>(Event::Continue)
                        &&& final(self).tape() == tape
                        &&& final(self).data_pointer == dp
                        &&& final(self).instruction_pointer == target + 1
                        &&& final(self).tape_size == size
                    };
                let fail = |e: &'static str| r == Err::<Event, &'static str>(e);
                match t.tk {
                    TokenType::Add => next(tape.update(dp, (c + t.value) % m), dp),
                    TokenType::Sub => next(tape.update(dp, (c - t.value) % m), dp),
                    TokenType::SetCell => next(tape.update(dp, (t.value as int) % m), dp),
                    TokenType::Left => if dp < t.value {
                        fail(OUT_OF_BOUNDS_LEFT)
                    } else {
                        next(tape, dp - t.value)
                    },
                    TokenType::Right => if dp + t.value >= size {
                        fail(OUT_OF_BOUNDS_RIGHT)
                    } else {
                        next(grown(tape, dp + t.value, size), dp + t.value)
                    },
                    TokenType::LoopStart => jump(if c == 0 { t.value as int } else { ip }),
                    TokenType::LoopEnd => jump(if c != 0 { t.value as int } else { ip }),
                    TokenType::Move => if c == 0 {
                        next(tape, dp)
                    } else if dp + t.value < 0 {
                        fail(OUT_OF_BOUNDS_LEFT)
                    } else if dp + t.value >= size {
                        fail(OUT_OF_BOUNDS_RIGHT)
                    } else {
                        let dest = dp + t.value;
                        let g = grown(tape, dest, size);
                        next(g.update(dest, (g[dest] + c) % m).update(dp, 0), dp)
                    },
                    TokenType::Out => r == Ok::<Event, &'static str>(Event::Output((c % 256) as u8))
                        && final(self).advanced(old(self), tape, dp),
                    TokenType::In => r == Ok::<Event, &'static str>(Event::NeedInput)
                        && final(self).same_as(old(self)),
                    TokenType::End => r == Ok::<Event, &'static str>(Event::Halt)
                        && final(self).same_as(old(self)),
                    TokenType::Invalid => next(tape, dp),
                }
            }),
    {
        let ghost tape = self.tape();
        let m = self.cells.len();
        let dp = self.data_pointer;
        let ip = self.instruction_pointer;
        let t = ast[ip];
        proof {
            let c0 = self.cells[dp as int];
            c0.lemma_range();
            assert(ip < ast@.len() - 1 || t.tk == TokenType::End);
        }
        match t.tk {
            TokenType::Add => {
                let mut c = self.cells[dp];
                c.add_to_cell(T::from_tk_value(t.value));
                self.cells.set(dp, c);
                proof {
                    lemma_add_mod_noop_right(tape[dp as int], t.value as int, T::modulus() as int);
                    assert(self.tape() == tape.update(dp as int, c.num()));
                }
            },
            TokenType::Sub => {
                let mut c = self.cells[dp];
                c.sub_from_cell(T::from_tk_value(t.value));
                self.cells.set(dp, c);
                proof {
                    lemma_sub_mod_noop_right(tape[dp as int], t.value as int, T::modulus() as int);
                    assert(self.tape() == tape.update(dp as int, c.num()));
                }
            },
            TokenType::SetCell => {
                let c = T::from_tk_value(t.value);
                self.cells.set(dp, c);
                proof {
                    assert(self.tape() == tape.update(dp as int, c.num()));
                }
            },
            TokenType::Left => {
                let v = t.value as usize;
                if dp < v {
                    return Err(OUT_OF_BOUNDS_LEFT);
                }
                self.data_pointer = dp - v;
            },
            TokenType::Right => {
                let v = t.value as usize;
                if v >= self.tape_size - dp {
                    return Err(OUT_OF_BOUNDS_RIGHT);
                }
                let new_pos = dp + v;
                self.grow(new_pos);
                self.data_pointer = new_pos;
            },
            TokenType::LoopStart => {
                if self.cells[dp].is_zero() {
                    self.instruction_pointer = t.value as usize;
                }
            },
            TokenType::LoopEnd => {
                if self.cells[dp].is_nonzero() {
                    self.instruction_pointer = t.value as usize;
                }
            },
            TokenType::Move => {
                let val = self.cells[dp];
                if val.is_nonzero() {
                    let dest = if t.value < 0 {
                        let back = (-(t.value as i64)) as usize;
                        if back > dp {
                            return Err(OUT_OF_BOUNDS_LEFT);
                        }
                        dp - back
                    } else {
                        let fwd = t.value as usize;
                        if fwd >= self.tape_size - dp {
                            return Err(OUT_OF_BOUNDS_RIGHT);
                        }
                        dp + fwd
                    };
                    self.grow(dest);
                    let ghost g = self.tape();
                    let mut d = self.cells[dest];
                    d.add_to_cell(val);
                    self.cells.set(dest, d);
                    let z = T::from_tk_value(0);
                    self.cells.set(dp, z);
                    proof {
                        assert(self.tape() == g.update(dest as int, d.num()).update(dp as int, z.num()));
                    }
                }
            },
            TokenType::Out => {
                let b = self.cells[dp].to_stdin();
                self.instruction_pointer = ip + 1;
                return Ok(Event::Output(b));
            },
            TokenType::In => {
                return Ok(Event::NeedInput);
            },
            TokenType::End => {
                return Ok(Event::Halt);
            },
            TokenType::Invalid => {},
        }
        self.instruction_pointer = self.instruction_pointer + 1;
        Ok(Event::Continue)
    }

    /// Completes an `In`: stores the byte read into the current cell, or zero when
    /// the input has ended, and moves on to the next instruction.
    pub fn feed_input(&mut self, ast: &Ast, byte: Option<u8>)
        requires
            old(self).wf(),
            runnable(ast@),
            old(self).instruction_pointer < ast.len(),
            ast@[old(self).instruction_pointer as int].tk == TokenType::In,
        ensures
            final(self).wf(),
            final(self).instruction_pointer < ast.len(),
            final(self).advanced(
                old(self),
                old(self).tape().update(
                    old(self).data_pointer as int,
                    match byte {
                        Some(b) => b as int,
                        None => 0,
                    },
                ),
                old(self).data_pointer as int,
            ),
    {
        let dp = self.data_pointer;
        let c = match byte {
            Some(b) => T::from_stdout(b),
            None => T::from_tk_value(0),
        };
        self.cells.set(dp, c);
        proof {
            c.lemma_range();
            assert(self.tape() == old(self).tape().update(dp as int, c.num()));
        }
        self.instruction_pointer = self.instruction_pointer + 1;
    }
}

} // verus!
