use vstd::prelude::*;
use crate::collapse::{collapsed, pass_collapse_duplicated};
use crate::move_value::{moved, pass_move_value};
use crate::token::{Ast, Token};
use crate::zero_cell::{pass_zero_cell, zeroed};

verus! {

/// The sequence after the three passes, in their fixed order.
pub open spec fn optimized(s: Seq<Token>) -> Seq<Token> {
    moved(zeroed(collapsed(s)))
}

/// Runs the optimizer passes on the sequence: duplicates are collapsed first,
/// since the other two patterns expect counted steps.
pub fn optimize(ast: &mut Ast)
    requires
        old(ast).len() <= i32::MAX,
    ensures
        final(ast)@ == optimized(old(ast)@),
{
    pass_collapse_duplicated(ast);
    pass_zero_cell(ast);
    pass_move_value(ast);
}

} // verus!
