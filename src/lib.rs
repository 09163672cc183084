//! A finite, circular, one-dimensional elementary cellular automaton, with a
//! fixed-capacity rolling history of its generations.

use vstd::prelude::*;

pub mod automaton;
pub mod entry;
pub mod history;
pub mod position;
pub mod rule;
pub mod text;

pub use automaton::{Automaton, IndexError};
pub use entry::{decode_rule, AutomatonRuleBuilder, EntryTimer};
pub use history::History;
pub use position::CellPosition;
pub use rule::{compute_ordinal, AutomatonRule};

verus! {

/// The number of cells of the automata of this application.
pub const AUTOMATON_LENGTH: usize = 64;

/// The number of generations that the history of this application keeps.
pub const AUTOMATON_HISTORY: usize = 50;

} // verus!
