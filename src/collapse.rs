use vstd::prelude::*;
use crate::replace::{
    lemma_spliced_extend, lemma_spliced_push, replace_in_ast, spliced, valid_replacements,
    ReplaceVec,
};
use crate::token::{Ast, Token, TokenType};

verus! {

/// The kinds that a run of repeats may be folded into one counted instruction.
pub open spec fn is_step(k: TokenType) -> bool {
    k == TokenType::Add || k == TokenType::Sub || k == TokenType::Left || k == TokenType::Right
}

/// The number of tokens of kind `k` at the front of `s`.
pub open spec fn run_len(s: Seq<Token>, k: TokenType) -> nat
    decreases s.len(),
{
    if s.len() > 0 && s[0].tk == k {
        1 + run_len(s.drop_first(), k)
    } else {
        0
    }
}

/// A run never reaches past the end of the sequence.
pub proof fn lemma_run_len_bounds(s: Seq<Token>, k: TokenType)
    ensures
        run_len(s, k) <= s.len(),
        s.len() > 0 && s[0].tk == k ==> run_len(s, k) >= 1,
    decreases s.len(),
{
    if s.len() > 0 && s[0].tk == k {
        lemma_run_len_bounds(s.drop_first(), k);
    }
}

/// `s` with every maximal run of two or more equal step kinds replaced by one
/// instruction of that kind whose payload is the length of the run.
pub open spec fn collapsed(s: Seq<Token>) -> Seq<Token>
    decreases s.len(),
{
    if s.len() == 0 {
        Seq::empty()
    } else if is_step(s[0].tk) {
        let n = run_len(s, s[0].tk);
        proof {
            lemma_run_len_bounds(s, s[0].tk);
        }
        let head = if n >= 2 {
            Token { tk: s[0].tk, value: n as i32 }
        } else {
            s[0]
        };
        seq![head] + collapsed(s.skip(n as int))
    } else {
        seq![s[0]] + collapsed(s.drop_first())
    }
}

/// The run at the front of `s` has length `m` exactly when the first `m` tokens
/// are of kind `k` and the next one, if any, is not.
pub proof fn lemma_run_len_exact(s: Seq<Token>, k: TokenType, m: int)
    requires
        0 <= m <= s.len(),
        forall|i: int| 0 <= i < m ==> #[trigger] s[i].tk == k,
        m == s.len() || s[m].tk != k,
    ensures
        run_len(s, k) == m,
    decreases m,
{
    if m > 0 {
        lemma_run_len_exact(s.drop_first(), k, m - 1);
    }
}

/// Collapses duplicated tokens into a single token.
///
/// e.g. `------`, six `Sub` tokens of value `1`, becomes one `Sub` of value `6`.
/// This applies to `+`, `-`, `<` and `>`; a lone token is left as it is.
pub fn pass_collapse_duplicated(ast: &mut Ast)
    requires
        old(ast).len() <= i32::MAX,
    ensures
        final(ast)@ == collapsed(old(ast)@),
{
    let ghost s = ast@;
    let n = ast.len();
    let mut replace = ReplaceVec::new();
    let mut i: usize = 0;
    proof {
        assert(s.take(0).subrange(0, 0) == Seq::<Token>::empty());
        assert(s.skip(0) == s);
    }
    while i < n
        invariant
            s == ast@,
            n == s.len(),
            n <= i32::MAX,
            i <= n,
            valid_replacements(replace@, i as int),
            spliced(s.take(i as int), replace@, 0) + collapsed(s.skip(i as int)) == collapsed(s),
        decreases n - i,
    {
        let kind = ast[i].tk;
        let ghost rest = s.skip(i as int);
        let ghost done = spliced(s.take(i as int), replace@, 0);
        if kind == TokenType::Add || kind == TokenType::Sub || kind == TokenType::Left || kind
            == TokenType::Right {
            let mut j: usize = i + 1;
            while j < n && ast[j].tk == kind
                invariant
                    s == ast@,
                    n == s.len(),
                    i < j <= n,
                    forall|m: int| i <= m < j ==> #[trigger] s[m].tk == kind,
                decreases n - j,
            {
                j = j + 1;
            }
            proof {
                lemma_run_len_exact(rest, kind, j - i);
                assert(rest.skip(j - i) == s.skip(j as int));
            }
            if j - i >= 2 {
                let ghost before = replace@;
                let t = Token::new(kind, (j - i) as i32);
                replace.push((i, j, t));
                proof {
                    lemma_spliced_push(s, before, 0, i as int, j as int, t);
                }
            } else {
                proof {
                    lemma_spliced_extend(s, replace@, 0, i as int, j as int);
                    assert(s.subrange(i as int, j as int) == seq![s[i as int]]);
                }
            }
            i = j;
        } else {
            proof {
                lemma_spliced_extend(s, replace@, 0, i as int, i + 1);
                assert(s.subrange(i as int, i + 1) == seq![s[i as int]]);
                assert(rest.drop_first() == s.skip(i + 1));
            }
            i = i + 1;
        }
    }
    proof {
        assert(s.take(n as int) == s);
        assert(s.skip(n as int).len() == 0);
    }
    replace_in_ast(ast, replace);
}

/// No step instruction is directly followed by another of the same kind.
pub open spec fn no_repeated_steps(t: Seq<Token>) -> bool {
    forall|i: int, j: int|
        #![trigger t[i], t[j]]
        0 <= i && j == i + 1 && j < t.len() ==> !(is_step(t[i].tk) && t[j].tk == t[i].tk)
}

/// The token just after a run is of another kind.
proof fn lemma_run_len_stop(s: Seq<Token>, k: TokenType)
    ensures
        run_len(s, k) < s.len() ==> s[run_len(s, k) as int].tk != k,
        forall|i: int| 0 <= i < run_len(s, k) ==> #[trigger] s[i].tk == k,
    decreases s.len(),
{
    lemma_run_len_bounds(s, k);
    if s.len() > 0 && s[0].tk == k {
        lemma_run_len_stop(s.drop_first(), k);
        assert forall|i: int| 0 <= i < run_len(s, k) implies #[trigger] s[i].tk == k by {
            if i > 0 {
                assert(s[i] == s.drop_first()[i - 1]);
            }
        }
    }
}

/// Collapsing keeps the kind of the first token.
proof fn lemma_collapsed_first(s: Seq<Token>)
    requires
        s.len() > 0,
    ensures
        collapsed(s).len() > 0,
        collapsed(s)[0].tk == s[0].tk,
{
}

/// A collapsed sequence holds no two adjacent steps of one kind.
proof fn lemma_collapsed_no_repeats(s: Seq<Token>)
    ensures
        no_repeated_steps(collapsed(s)),
    decreases s.len(),
{
    if s.len() > 0 {
        let c = collapsed(s);
        let rest = if is_step(s[0].tk) {
            lemma_run_len_bounds(s, s[0].tk);
            s.skip(run_len(s, s[0].tk) as int)
        } else {
            s.drop_first()
        };
        lemma_collapsed_no_repeats(rest);
        let cr = collapsed(rest);
        lemma_collapsed_first(s);
        assert(c == seq![c[0]] + cr);
        if rest.len() > 0 {
            lemma_collapsed_first(rest);
            if is_step(s[0].tk) {
                lemma_run_len_stop(s, s[0].tk);
                assert(rest[0] == s[run_len(s, s[0].tk) as int]);
            }
        }
        assert forall|i: int, j: int| 0 <= i && j == i + 1 && j < c.len() implies !(is_step(
            #[trigger] c[i].tk) && #[trigger] c[j].tk == c[i].tk) by {
            if i > 0 {
                assert(c[i] == cr[i - 1] && c[j] == cr[i]);
            } else {
                assert(c[1] == cr[0]);
                assert(cr[0].tk == rest[0].tk);
            }
        }
    }
}

/// A sequence with no two adjacent steps of one kind is left as it is.
proof fn lemma_collapsed_fixed(t: Seq<Token>)
    requires
        no_repeated_steps(t),
    ensures
        collapsed(t) == t,
    decreases t.len(),
{
    if t.len() > 0 {
        let rest = t.drop_first();
        assert(no_repeated_steps(rest)) by {
            assert forall|i: int, j: int| 0 <= i && j == i + 1 && j < rest.len() implies !(is_step(
                #[trigger] rest[i].tk) && #[trigger] rest[j].tk == rest[i].tk) by {
                assert(rest[i] == t[i + 1] && rest[j] == t[j + 1]);
            }
        }
        lemma_collapsed_fixed(rest);
        if is_step(t[0].tk) {
            if t.len() > 1 {
                assert(!(is_step(t[0].tk) && t[1].tk == t[0].tk));
            }
            lemma_run_len_exact(t, t[0].tk, 1);
            assert(t.skip(1) == rest);
        }
        assert(t == seq![t[0]] + rest);
    }
}

/// Collapsing duplicates twice gives the same sequence as collapsing once.
pub proof fn lemma_collapse_idempotent(s: Seq<Token>)
    ensures
        collapsed(collapsed(s)) == collapsed(s),
{
    lemma_collapsed_no_repeats(s);
    lemma_collapsed_fixed(collapsed(s));
}

} // verus!
