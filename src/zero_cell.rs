use vstd::prelude::*;
use crate::replace::{
    lemma_spliced_extend, lemma_spliced_push, replace_in_ast, spliced, valid_replacements,
    ReplaceVec,
};
use crate::token::{Ast, Token, TokenType};

verus! {

/// `s[i .. i + 3]` is a loop whose body is one `Add` or `Sub` of odd payload.
/// Such a loop steps the cell through every residue and so ends exactly at zero.
pub open spec fn zero_window_at(s: Seq<Token>, i: int) -> bool {
    &&& 0 <= i
    &&& i + 3 <= s.len()
    &&& s[i].tk == TokenType::LoopStart
    &&& s[i + 1].tk == TokenType::Sub || s[i + 1].tk == TokenType::Add
    &&& s[i + 1].value > 0 && s[i + 1].value % 2 == 1
    &&& s[i + 2].tk == TokenType::LoopEnd
}

/// The instruction that clears the current cell.
pub open spec fn set_zero() -> Token {
    Token { tk: TokenType::SetCell, value: 0 }
}

/// `s` with every zeroing loop replaced by `SetCell(0)`.
pub open spec fn zeroed(s: Seq<Token>) -> Seq<Token>
    decreases s.len(),
{
    if s.len() == 0 {
        Seq::empty()
    } else if zero_window_at(s, 0) {
        seq![set_zero()] + zeroed(s.skip(3))
    } else {
        seq![s[0]] + zeroed(s.drop_first())
    }
}

/// Replaces zeroing loops with a single token to reduce time spent in loops.
///
/// `[-]` and `[+]`, and every such loop whose single step has an odd count, become
/// one `SetCell` token of value `0`. Loops with an even count may never reach zero
/// and are left alone. This pass is meant to run after duplicates are collapsed.
pub fn pass_zero_cell(ast: &mut Ast)
    ensures
        final(ast)@ == zeroed(old(ast)@),
{
    let ghost s = ast@;
    let n = ast.len();
    let mut replace = ReplaceVec::new();
    let mut i: usize = 0;
    proof {
        assert(s.take(0).subrange(0, 0) == Seq::<Token>::empty());
        assert(s.skip(0) == s);
    }
    while i < n
        invariant
            s == ast@,
            n == s.len(),
            i <= n,
            valid_replacements(replace@, i as int),
            spliced(s.take(i as int), replace@, 0) + zeroed(s.skip(i as int)) == zeroed(s),
        decreases n - i,
    {
        let ghost rest = s.skip(i as int);
        if n - i >= 3 && ast[i].tk == TokenType::LoopStart && (ast[i + 1].tk == TokenType::Sub
            || ast[i + 1].tk == TokenType::Add) && ast[i + 1].value > 0 && ast[i + 1].value % 2
            == 1 && ast[i + 2].tk == TokenType::LoopEnd {
            let ghost before = replace@;
            let t = Token::new(TokenType::SetCell, 0);
            replace.push((i, i + 3, t));
            proof {
                assert(zero_window_at(rest, 0));
                assert(rest.skip(3) == s.skip(i + 3));
                lemma_spliced_push(s, before, 0, i as int, i + 3, t);
            }
            i = i + 3;
        } else {
            proof {
                assert(!zero_window_at(rest, 0));
                lemma_spliced_extend(s, replace@, 0, i as int, i + 1);
                assert(s.subrange(i as int, i + 1) == seq![s[i as int]]);
                assert(rest.drop_first() == s.skip(i + 1));
            }
            i = i + 1;
        }
    }
    proof {
        assert(s.take(n as int) == s);
        assert(s.skip(n as int).len() == 0);
    }
    replace_in_ast(ast, replace);
}

/// The pass never lengthens a sequence, and shortens it wherever it fires.
proof fn lemma_zeroed_len(s: Seq<Token>, i: int)
    ensures
        zeroed(s).len() <= s.len(),
        zero_window_at(s, i) ==> zeroed(s).len() < s.len(),
    decreases s.len(),
{
    if s.len() > 0 {
        if zero_window_at(s, 0) {
            lemma_zeroed_len(s.skip(3), i - 3);
        } else {
            lemma_zeroed_len(s.drop_first(), i - 1);
        }
    }
}

/// Without a zeroing loop the pass leaves a sequence as it is.
proof fn lemma_zeroed_identity(s: Seq<Token>)
    requires
        forall|i: int| !#[trigger] zero_window_at(s, i),
    ensures
        zeroed(s) == s,
    decreases s.len(),
{
    if s.len() > 0 {
        let rest = s.drop_first();
        assert forall|i: int| !#[trigger] zero_window_at(rest, i) by {
            assert(!zero_window_at(s, i + 1));
        }
        assert(!zero_window_at(s, 0));
        lemma_zeroed_identity(rest);
        assert(s == seq![s[0]] + rest);
    }
}

/// The zero-cell pass changes a sequence exactly when the sequence holds a loop
/// whose body is a single `Add` or `Sub` with an odd count; with an even count it
/// does not fire.
pub proof fn lemma_zero_cell_fires_iff(s: Seq<Token>)
    ensures
        zeroed(s) != s <==> exists|i: int| zero_window_at(s, i),
{
    if exists|i: int| zero_window_at(s, i) {
        let i = choose|i: int| zero_window_at(s, i);
        lemma_zeroed_len(s, i);
    } else {
        lemma_zeroed_identity(s);
    }
}

} // verus!
