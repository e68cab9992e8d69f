use vstd::prelude::*;
use crate::token::{Ast, Token, TokenType};

verus! {

/// The error for a `]` with no open `[` before it.
pub const UNMATCHED_END: &'static str = "Unmatched ]";

/// The error for a `[` that is never closed.
pub const UNMATCHED_START: &'static str = "Unmatched [";

/// How a token changes the loop nesting depth.
pub open spec fn nesting(t: Token) -> int {
    if t.tk == TokenType::LoopStart {
        1
    } else if t.tk == TokenType::LoopEnd {
        -1
    } else {
        0
    }
}

/// The number of loops open just before position `i`: the `[` in `s[0 .. i]`
/// less the `]`.
pub open spec fn depth(s: Seq<Token>, i: int) -> int
    decreases i,
{
    if i <= 0 {
        0
    } else {
        depth(s, i - 1) + nesting(s[i - 1])
    }
}

/// Some prefix of `s` closes more loops than it opens.
pub open spec fn has_unmatched_end(s: Seq<Token>) -> bool {
    exists|i: int| 0 <= i <= s.len() && #[trigger] depth(s, i) < 0
}

/// The `[` at `a` is closed by the `]` at `b`: the depth stays above that of `a`
/// in between and comes back to it just after `b`.
pub open spec fn matched(s: Seq<Token>, a: int, b: int) -> bool {
    &&& 0 <= a < b < s.len()
    &&& s[a].tk == TokenType::LoopStart
    &&& s[b].tk == TokenType::LoopEnd
    &&& depth(s, b + 1) == depth(s, a)
    &&& forall|k: int| a < k <= b ==> #[trigger] depth(s, k) > depth(s, a)
}

/// `t` is `s` with each `[` holding the position of its `]` and each `]` that of
/// its `[`; every other token is unchanged.
pub open spec fn linked(s: Seq<Token>, t: Seq<Token>) -> bool {
    &&& t.len() == s.len()
    &&& forall|i: int| 0 <= i < s.len() ==> #[trigger] t[i].tk == s[i].tk
    &&& forall|i: int|
        0 <= i < s.len() && s[i].tk != TokenType::LoopStart && s[i].tk != TokenType::LoopEnd
            ==> #[trigger] t[i] == s[i]
    &&& forall|i: int|
        0 <= i < s.len() && s[i].tk == TokenType::LoopStart ==> matched(s, i, #[trigger] t[i].value as int)
    &&& forall|i: int|
        0 <= i < s.len() && s[i].tk == TokenType::LoopEnd ==> matched(s, #[trigger] t[i].value as int, i)
}

/// The `[` at `a` is not yet closed by any of `s[a + 1 .. i]`.
pub open spec fn still_open(s: Seq<Token>, a: int, i: int) -> bool {
    forall|k: int| a < k <= i ==> #[trigger] depth(s, k) > depth(s, a)
}

/// Caches loop jump endpoints so that execution need not search for them:
/// each `[` gets the position of its `]`, and each `]` that of its `[`.
pub fn link_loops(ast: &mut Ast) -> (r: Result<(), &'static str>)
    requires
        old(ast).len() <= i32::MAX,
    ensures
        final(ast)@.len() == old(ast)@.len(),
        forall|i: int| 0 <= i < old(ast)@.len() ==> #[trigger] final(ast)@[i].tk == old(ast)@[i].tk,
        r is Ok <==> !has_unmatched_end(old(ast)@) && depth(old(ast)@, old(ast)@.len() as int) == 0,
        has_unmatched_end(old(ast)@) ==> r == Err::<(), &'static str>(UNMATCHED_END),
        !has_unmatched_end(old(ast)@) && depth(old(ast)@, old(ast)@.len() as int) != 0 ==> r == Err::<
            (),
            &'static str,
        >(UNMATCHED_START),
        r is Ok ==> linked(old(ast)@, final(ast)@),
{
    let ghost s = ast@;
    let n = ast.len();
    let mut loop_stack: Vec<usize> = Vec::new();
    let mut i: usize = 0;
    while i < n
        invariant
            s == old(ast)@,
            n == s.len(),
            n <= i32::MAX,
            i <= n,
            ast@.len() == n,
            forall|k: int| 0 <= k < n ==> #[trigger] ast@[k].tk == s[k].tk,
            forall|k: int|
                0 <= k < n && (i <= k || (s[k].tk != TokenType::LoopStart && s[k].tk
                    != TokenType::LoopEnd)) ==> #[trigger] ast@[k] == s[k],
            forall|k: int| 0 <= k <= i ==> #[trigger] depth(s, k) >= 0,
            loop_stack@.len() == depth(s, i as int),
            forall|d: int|
                #![trigger loop_stack@[d]]
                0 <= d < loop_stack@.len() ==> {
                    let a = loop_stack@[d] as int;
                    &&& a < i
                    &&& s[a].tk == TokenType::LoopStart
                    &&& depth(s, a) == d
                    &&& still_open(s, a, i as int)
                },
            forall|a: int|
                #![trigger s[a]]
                0 <= a < i && s[a].tk == TokenType::LoopStart ==> if still_open(s, a, i as int) {
                    loop_stack@[depth(s, a)] == a
                } else {
                    matched(s, a, ast@[a].value as int)
                },
            forall|b: int|
                #![trigger s[b]]
                0 <= b < i && s[b].tk == TokenType::LoopEnd ==> matched(s, ast@[b].value as int, b),
        decreases n - i,
    {
        let kind = ast[i].tk;
        if kind == TokenType::LoopStart {
            loop_stack.push(i);
        } else if kind == TokenType::LoopEnd {
            let jmp = match loop_stack.pop() {
                Some(x) => x,
                None => {
                    proof {
                        assert(depth(s, i + 1) < 0);
                    }
                    return Err(UNMATCHED_END);
                },
            };
            let mut t = ast[i];
            t.value = jmp as i32;
            ast.set(i, t);
            let mut u = ast[jmp];
            u.value = i as i32;
            ast.set(jmp, u);
        }
        i = i + 1;
    }
    if loop_stack.len() > 0 {
        Err(UNMATCHED_START)
    } else {
        Ok(())
    }
}

} // verus!
