use vstd::prelude::*;
use vstd::string::{StrSliceExecFns, StringExecFns};
use crate::token::{Ast, Token, TokenType};

verus! {

/// The width, in characters, at which a line of the dump is flushed.
pub const LINE_WIDTH: usize = 80;

/// The character of a decimal digit.
pub open spec fn digit_char(d: nat) -> char {
    if d == 0 {
        '0'
    } else if d == 1 {
        '1'
    } else if d == 2 {
        '2'
    } else if d == 3 {
        '3'
    } else if d == 4 {
        '4'
    } else if d == 5 {
        '5'
    } else if d == 6 {
        '6'
    } else if d == 7 {
        '7'
    } else if d == 8 {
        '8'
    } else {
        '9'
    }
}

/// The decimal digits of `n`, without leading zeros.
pub open spec fn digits(n: nat) -> Seq<char>
    decreases n,
{
    if n < 10 {
        seq![digit_char(n)]
    } else {
        digits(n / 10) + seq![digit_char(n % 10)]
    }
}

/// `v` written in decimal, with a leading `-` when negative.
pub open spec fn decimal(v: int) -> Seq<char> {
    if v < 0 {
        seq!['-'] + digits((-v) as nat)
    } else {
        digits(v as nat)
    }
}

/// A step symbol followed by its count when the count is not one.
pub open spec fn counted(symbol: char, v: int) -> Seq<char> {
    if v == 1 {
        seq![symbol]
    } else {
        seq![symbol] + decimal(v)
    }
}

/// How one token is written in the dump.
pub open spec fn token_text(t: Token) -> Seq<char> {
    match t.tk {
        TokenType::Add => counted('+', t.value as int),
        TokenType::Sub => counted('-', t.value as int),
        TokenType::Left => counted('<', t.value as int),
        TokenType::Right => counted('>', t.value as int),
        TokenType::In => seq![','],
        TokenType::Out => seq!['.'],
        TokenType::LoopStart => seq!['['],
        TokenType::LoopEnd => seq![']'],
        TokenType::SetCell => seq!['S'] + decimal(t.value as int),
        TokenType::Move => seq!['M'] + decimal(t.value as int),
        TokenType::Invalid => seq!['I', 'N', 'V', 'A', 'L', 'I', 'D'],
        TokenType::End => seq![':'],
    }
}

/// Two spaces for each level of loop nesting.
pub open spec fn indent(depth: nat) -> Seq<char> {
    Seq::new(2 * depth, |i: int| ' ')
}

/// Loop tokens stand on lines of their own.
pub open spec fn is_bracket(k: TokenType) -> bool {
    k == TokenType::LoopStart || k == TokenType::LoopEnd
}

/// The text written so far, the nesting depth and the pending line, after the
/// tokens of `s`.
pub open spec fn dump_state(s: Seq<Token>) -> (Seq<char>, nat, Seq<char>)
    decreases s.len(),
{
    if s.len() == 0 {
        (Seq::empty(), 0, Seq::empty())
    } else {
        let (out, depth, line) = dump_state(s.drop_last());
        let t = s.last();
        let part = token_text(t).push(' ');
        let brk = is_bracket(t.tk);
        let line1 = if brk {
            line
        } else {
            line + part
        };
        let flush = brk || line1.len() >= LINE_WIDTH;
        let out1 = if flush {
            out + indent(depth) + line1.push('\n')
        } else {
            out
        };
        let line2 = if flush {
            Seq::empty()
        } else {
            line1
        };
        let depth1: nat = if t.tk == TokenType::LoopEnd && depth > 0 {
            (depth - 1) as nat
        } else {
            depth
        };
        let out2 = if brk {
            out1 + indent(depth1) + part.push('\n')
        } else {
            out1
        };
        let depth2 = if t.tk == TokenType::LoopStart {
            depth1 + 1
        } else {
            depth1
        };
        (out2, depth2, line2)
    }
}

/// Appends the digit `d`.
fn push_digit(out: &mut String, d: u64)
    requires
        d < 10,
    ensures
        final(out)@ == old(out)@ + seq![digit_char(d as nat)],
{
    proof {
        reveal_strlit("0");
        reveal_strlit("1");
        reveal_strlit("2");
        reveal_strlit("3");
        reveal_strlit("4");
        reveal_strlit("5");
        reveal_strlit("6");
        reveal_strlit("7");
        reveal_strlit("8");
        reveal_strlit("9");
    }
    if d == 0 {
        out.append("0");
    } else if d == 1 {
        out.append("1");
    } else if d == 2 {
        out.append("2");
    } else if d == 3 {
        out.append("3");
    } else if d == 4 {
        out.append("4");
    } else if d == 5 {
        out.append("5");
    } else if d == 6 {
        out.append("6");
    } else if d == 7 {
        out.append("7");
    } else if d == 8 {
        out.append("8");
    } else {
        out.append("9");
    }
}

/// Appends the decimal digits of `n`.
fn push_digits(out: &mut String, n: u64)
    ensures
        final(out)@ == old(out)@ + digits(n as nat),
    decreases n,
{
    if n >= 10 {
        push_digits(out, n / 10);
        push_digit(out, n % 10);
    } else {
        push_digit(out, n);
    }
}

/// Appends `v` in decimal.
fn push_decimal(out: &mut String, v: i32)
    ensures
        final(out)@ == old(out)@ + decimal(v as int),
{
    if v < 0 {
        proof {
            reveal_strlit("-");
        }
        out.append("-");
        push_digits(out, (-(v as i64)) as u64);
    } else {
        push_digits(out, v as u64);
    }
}

/// Appends a step symbol and its count when the count is not one.
fn push_counted(out: &mut String, symbol: &str, v: i32)
    requires
        symbol@.len() == 1,
    ensures
        final(out)@ == old(out)@ + counted(symbol@[0], v as int),
{
    out.append(symbol);
    if v != 1 {
        push_decimal(out, v);
    }
    proof {
        assert(symbol@ == seq![symbol@[0]]);
    }
}

/// Appends how `t` is written in the dump.
fn push_token(out: &mut String, t: Token)
    ensures
        final(out)@ == old(out)@ + token_text(t),
{
    proof {
        reveal_strlit("+");
        reveal_strlit("-");
        reveal_strlit("<");
        reveal_strlit(">");
        reveal_strlit(",");
        reveal_strlit(".");
        reveal_strlit("[");
        reveal_strlit("]");
        reveal_strlit("S");
        reveal_strlit("M");
        reveal_strlit("INVALID");
        reveal_strlit(":");
    }
    match t.tk {
        TokenType::Add => push_counted(out, "+", t.value),
        TokenType::Sub => push_counted(out, "-", t.value),
        TokenType::Left => push_counted(out, "<", t.value),
        TokenType::Right => push_counted(out, ">", t.value),
        TokenType::In => out.append(","),
        TokenType::Out => out.append("."),
        TokenType::LoopStart => out.append("["),
        TokenType::LoopEnd => out.append("]"),
        TokenType::SetCell => {
            out.append("S");
            push_decimal(out, t.value);
        },
        TokenType::Move => {
            out.append("M");
            push_decimal(out, t.value);
        },
        TokenType::Invalid => out.append("INVALID"),
        TokenType::End => out.append(":"),
    }
}

/// Appends the indentation of `depth` levels.
fn push_indent(out: &mut String, depth: usize)
    ensures
        final(out)@ == old(out)@ + indent(depth as nat),
{
    proof {
        reveal_strlit("  ");
    }
    let mut k: usize = 0;
    while k < depth
        invariant
            k <= depth,
            out@ == old(out)@ + indent(k as nat),
        decreases depth - k,
    {
        out.append("  ");
        k = k + 1;
        proof {
            reveal_strlit("  ");
            assert(indent((k - 1) as nat) + "  "@ =~= indent(k as nat));
        }
    }
}

/// Renders an instruction sequence as text for debugging.
pub trait Dumpable {
    /// The text of the dump.
    spec fn dump_text(&self) -> Seq<char>;

    fn dump(&self) -> (r: String)
        ensures
            r@ == self.dump_text();
}

impl Dumpable for Ast {
    /// Each nesting level indents by two spaces. Loop tokens stand on lines of
    /// their own; other tokens, each followed by a space, fill a line that is
    /// written once it reaches the line width. A pending line is not written
    /// at the end.
    open spec fn dump_text(&self) -> Seq<char> {
        dump_state(self@).0
    }

    fn dump(&self) -> (r: String) {
        let mut out = String::new();
        let mut depth: usize = 0;
        let mut line = String::new();
        let n = self.len();
        let mut i: usize = 0;
        proof {
            assert(self@.take(0).len() == 0);
        }
        while i < n
            invariant
                n == self@.len(),
                i <= n,
                depth <= i,
                dump_state(self@.take(i as int)) == (out@, depth as nat, line@),
            decreases n - i,
        {
            let token = self[i];
            let ghost prev = self@.take(i as int);
            proof {
                assert(self@.take(i + 1).drop_last() == prev);
                assert(self@.take(i + 1).last() == token);
                reveal_strlit(" ");
                reveal_strlit("\n");
            }
            let end_line = token.tk == TokenType::LoopStart || token.tk == TokenType::LoopEnd;
            let mut part = String::new();
            push_token(&mut part, token);
            part.append(" ");
            if !end_line {
                line.append(part.as_str());
            }
            if line.as_str().unicode_len() >= LINE_WIDTH || end_line {
                push_indent(&mut out, depth);
                out.append(line.as_str());
                out.append("\n");
                line = String::new();
            }
            if token.tk == TokenType::LoopEnd && depth > 0 {
                depth = depth - 1;
            }
            if end_line {
                push_indent(&mut out, depth);
                out.append(part.as_str());
                out.append("\n");
            }
            if token.tk == TokenType::LoopStart {
                depth = depth + 1;
            }
            i = i + 1;
        }
        proof {
            assert(self@.take(n as int) == self@);
        }
        out
    }
}

} // verus!
