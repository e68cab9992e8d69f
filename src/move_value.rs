use vstd::prelude::*;
use crate::replace::{
    lemma_spliced_extend, lemma_spliced_push, replace_in_ast, spliced, valid_replacements,
    ReplaceVec,
};
use crate::token::{Ast, Token, TokenType};

verus! {

/// The pointer step in the other direction.
pub open spec fn opposite(k: TokenType) -> TokenType {
    if k == TokenType::Left {
        TokenType::Right
    } else {
        TokenType::Left
    }
}

/// `s[i .. i + 6]` is the transfer loop `[ -1, step n, +1, step n back ]` for a
/// distance `n` of at least one, stepping first in either direction.
pub open spec fn move_window_at(s: Seq<Token>, i: int) -> bool {
    &&& 0 <= i
    &&& i + 6 <= s.len()
    &&& s[i].tk == TokenType::LoopStart
    &&& s[i + 1].tk == TokenType::Sub && s[i + 1].value == 1
    &&& s[i + 2].tk == TokenType::Left || s[i + 2].tk == TokenType::Right
    &&& s[i + 2].value > 0
    &&& s[i + 3].tk == TokenType::Add && s[i + 3].value == 1
    &&& s[i + 4].tk == opposite(s[i + 2].tk) && s[i + 4].value == s[i + 2].value
    &&& s[i + 5].tk == TokenType::LoopEnd
}

/// The signed distance from the source cell to the destination of a transfer
/// whose first step is `step`: positive toward higher addresses.
pub open spec fn move_offset(step: Token) -> int {
    if step.tk == TokenType::Right {
        step.value as int
    } else {
        -step.value
    }
}

/// `s` with every transfer loop replaced by one `Move` to its destination.
pub open spec fn moved(s: Seq<Token>) -> Seq<Token>
    decreases s.len(),
{
    if s.len() == 0 {
        Seq::empty()
    } else if move_window_at(s, 0) {
        seq![Token { tk: TokenType::Move, value: move_offset(s[2]) as i32 }] + moved(s.skip(6))
    } else {
        seq![s[0]] + moved(s.drop_first())
    }
}

/// Replaces idiomatic moves of the form `[->+<]` with a single `Move` token.
///
/// Any step distance is accepted, e.g. `[->>>+<<<]`, in either order, e.g.
/// `[-<<<+>>>]`. A move adds the source cell into the destination, not replacing
/// it, and then zeroes the source. The decrement must come first: `[>+<-]` is
/// left alone. This pass is meant to run after duplicates are collapsed.
pub fn pass_move_value(ast: &mut Ast)
    ensures
        final(ast)@ == moved(old(ast)@),
{
    let ghost s = ast@;
    let n = ast.len();
    let mut replace = ReplaceVec::new();
    let mut i: usize = 0;
    proof {
        assert(s.take(0).subrange(0, 0) == Seq::<Token>::empty());
        assert(s.skip(0) == s);
    }
    while i < n
        invariant
            s == ast@,
            n == s.len(),
            i <= n,
            valid_replacements(replace@, i as int),
            spliced(s.take(i as int), replace@, 0) + moved(s.skip(i as int)) == moved(s),
        decreases n - i,
    {
        let ghost rest = s.skip(i as int);
        let found = n - i >= 6 && ast[i].tk == TokenType::LoopStart && ast[i + 1].tk
            == TokenType::Sub && ast[i + 1].value == 1 && (ast[i + 2].tk == TokenType::Left
            || ast[i + 2].tk == TokenType::Right) && ast[i + 2].value > 0 && ast[i + 3].tk
            == TokenType::Add && ast[i + 3].value == 1 && ast[i + 4].value == ast[i + 2].value
            && ast[i + 5].tk == TokenType::LoopEnd && (if ast[i + 2].tk == TokenType::Left {
            ast[i + 4].tk == TokenType::Right
        } else {
            ast[i + 4].tk == TokenType::Left
        });
        if found {
            let offset = if ast[i + 2].tk == TokenType::Right {
                ast[i + 2].value
            } else {
                -ast[i + 2].value
            };
            let ghost before = replace@;
            let t = Token::new(TokenType::Move, offset);
            replace.push((i, i + 6, t));
            proof {
                assert(move_window_at(rest, 0));
                assert(rest[2] == s[i + 2]);
                assert(rest.skip(6) == s.skip(i + 6));
                lemma_spliced_push(s, before, 0, i as int, i + 6, t);
            }
            i = i + 6;
        } else {
            proof {
                assert(!move_window_at(rest, 0));
                lemma_spliced_extend(s, replace@, 0, i as int, i + 1);
                assert(s.subrange(i as int, i + 1) == seq![s[i as int]]);
                assert(rest.drop_first() == s.skip(i + 1));
            }
            i = i + 1;
        }
    }
    proof {
        assert(s.take(n as int) == s);
        assert(s.skip(n as int).len() == 0);
    }
    replace_in_ast(ast, replace);
}

} // verus!
