use vstd::prelude::*;
use crate::token::{Ast, Token};

verus! {

/// A batch of edits `(start, end, replacement)`: the tokens in `start .. end`
/// (start included, end excluded) are to be replaced by the single `replacement`.
pub type ReplaceVec = Vec<(usize, usize, Token)>;

/// The edits lie inside a sequence of length `len`, in ascending order, without overlap.
pub open spec fn valid_replacements(reps: Seq<(usize, usize, Token)>, len: int) -> bool {
    &&& forall|k: int| #![trigger reps[k]] 0 <= k < reps.len() ==> reps[k].0 <= reps[k].1 <= len
    &&& forall|i: int, j: int|
        0 <= i < j < reps.len() ==> #[trigger] reps[i].1 <= #[trigger] reps[j].0
}

/// What `s` from position `pos` on becomes once the edits in `reps` (all at or after
/// `pos`) are made.
pub open spec fn spliced(s: Seq<Token>, reps: Seq<(usize, usize, Token)>, pos: int) -> Seq<Token>
    decreases reps.len(),
{
    if reps.len() == 0 {
        s.subrange(pos, s.len() as int)
    } else {
        s.subrange(pos, reps[0].0 as int) + seq![reps[0].2] + spliced(
            s,
            reps.drop_first(),
            reps[0].1 as int,
        )
    }
}

/// Given a sorted vector of replacements, replaces each range of tokens with its
/// single token. The edits are made from the last to the first, so that an edit
/// never shifts the positions of those still to be made.
pub fn replace_in_ast(ast: &mut Ast, replacements: ReplaceVec)
    requires
        valid_replacements(replacements@, old(ast)@.len() as int),
    ensures
        final(ast)@ == spliced(old(ast)@, replacements@, 0),
{
    let ghost s = ast@;
    let ghost reps = replacements@;
    let mut k: usize = replacements.len();
    proof {
        let b = if k == 0 { 0 } else { reps[k - 1].1 as int };
        assert(reps.skip(k as int).len() == 0);
        assert(s.take(b) + s.subrange(b, s.len() as int) == s);
    }
    while k > 0
        invariant
            s == old(ast)@,
            reps == replacements@,
            valid_replacements(reps, s.len() as int),
            k <= reps.len(),
            ast@ == s.take(if k == 0 { 0 } else { reps[k - 1].1 as int }) + spliced(
                s,
                reps.skip(k as int),
                if k == 0 { 0 } else { reps[k - 1].1 as int },
            ),
        decreases k,
    {
        let (start, end, token) = replacements[k - 1];
        let ghost before = if k - 1 == 0 { 0 } else { reps[k - 2].1 as int };
        proof {
            assert(reps.skip(k - 1).drop_first() == reps.skip(k as int));
            assert(s.take(before) + s.subrange(before, start as int) == s.take(start as int));
        }
        let mut tail = ast.split_off(end);
        ast.truncate(start);
        ast.push(token);
        ast.append(&mut tail);
        k = k - 1;
        proof {
            assert(ast@ == s.take(start as int) + seq![token] + spliced(s, reps.skip(k + 1), end as int));
        }
    }
    proof {
        assert(reps.skip(0) == reps);
        assert(s.take(0) + spliced(s, reps, 0) == spliced(s, reps, 0));
    }
}

/// Extending the edited prefix by tokens that no edit touches appends them unchanged.
pub proof fn lemma_spliced_extend(
    s: Seq<Token>,
    reps: Seq<(usize, usize, Token)>,
    pos: int,
    i: int,
    j: int,
)
    requires
        valid_replacements(reps, i),
        0 <= pos <= i <= j <= s.len(),
        reps.len() > 0 ==> pos <= reps[0].0,
    ensures
        spliced(s.take(j), reps, pos) == spliced(s.take(i), reps, pos) + s.subrange(i, j),
    decreases reps.len(),
{
    if reps.len() == 0 {
        assert(s.take(j).subrange(pos, j) == s.take(i).subrange(pos, i) + s.subrange(i, j));
    } else {
        let r = reps.drop_first();
        assert(valid_replacements(r, i)) by {
            assert forall|a: int, b: int| 0 <= a < b < r.len() implies #[trigger] r[a].1
                <= #[trigger] r[b].0 by {
                assert(r[a] == reps[a + 1] && r[b] == reps[b + 1]);
            }
        }
        assert(r.len() > 0 ==> reps[0].1 <= r[0].0) by {
            if r.len() > 0 {
                assert(r[0] == reps[1]);
            }
        }
        lemma_spliced_extend(s, r, reps[0].1 as int, i, j);
        assert(s.take(j).subrange(pos, reps[0].0 as int) == s.take(i).subrange(
            pos,
            reps[0].0 as int,
        ));
    }
}

/// Adding one more edit that covers `i .. j` appends its replacement.
pub proof fn lemma_spliced_push(
    s: Seq<Token>,
    reps: Seq<(usize, usize, Token)>,
    pos: int,
    i: int,
    j: int,
    t: Token,
)
    requires
        valid_replacements(reps, i),
        0 <= pos <= i <= j <= s.len(),
        j <= usize::MAX,
        reps.len() > 0 ==> pos <= reps[0].0,
    ensures
        spliced(s.take(j), reps.push((i as usize, j as usize, t)), pos) == spliced(
            s.take(i),
            reps,
            pos,
        ) + seq![t],
    decreases reps.len(),
{
    let e = (i as usize, j as usize, t);
    if reps.len() == 0 {
        let r2 = reps.push(e);
        assert(r2[0] == e);
        assert(r2.drop_first().len() == 0);
        assert(spliced(s.take(j), r2.drop_first(), j) == Seq::<Token>::empty());
        assert(s.take(j).subrange(pos, i) == s.take(i).subrange(pos, i));
    } else {
        let r = reps.drop_first();
        assert(reps.push(e).drop_first() == r.push(e));
        assert(reps.push(e)[0] == reps[0]);
        assert(valid_replacements(r, i)) by {
            assert forall|a: int, b: int| 0 <= a < b < r.len() implies #[trigger] r[a].1
                <= #[trigger] r[b].0 by {
                assert(r[a] == reps[a + 1] && r[b] == reps[b + 1]);
            }
        }
        assert(r.len() > 0 ==> reps[0].1 <= r[0].0) by {
            if r.len() > 0 {
                assert(r[0] == reps[1]);
            }
        }
        lemma_spliced_push(s, r, reps[0].1 as int, i, j, t);
        assert(s.take(j).subrange(pos, reps[0].0 as int) == s.take(i).subrange(
            pos,
            reps[0].0 as int,
        ));
    }
}

} // verus!
