//! An optimizing interpreter for the eight-command tape language.
//!
//! Source text is tokenized, rewritten by three peephole passes (collapsing
//! repeated steps, clearing loops, transfer loops), linked so that each loop
//! token knows its partner, and executed one instruction at a time on a tape of
//! 8, 16, 32 or 64-bit cells with wraparound arithmetic.

pub mod cell_size;
pub mod collapse;
pub mod dump;
pub mod link;
pub mod machine;
pub mod move_value;
pub mod optimize;
pub mod replace;
pub mod token;
pub mod zero_cell;

pub use cell_size::CellSize;
pub use collapse::pass_collapse_duplicated;
pub use link::link_loops;
pub use machine::{is_runnable, Event, Machine};
pub use move_value::pass_move_value;
pub use optimize::optimize;
pub use replace::{replace_in_ast, ReplaceVec};
pub use token::{parse, Ast, Token, TokenType};
pub use zero_cell::pass_zero_cell;
