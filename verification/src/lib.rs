pub use consensus_method::solve_using_consensus_method;
pub use consensus_table::{ConesnsusTable, ConsensusTableEntry};
pub use dice::{Die, DieError, DieSide};
pub use quine_table::{SecondQuineTable, SecondQuineTableEntry};

pub mod consensus_method;
pub mod consensus_table;
pub mod dice;
pub mod quine_table;
pub mod text;
