pub use consensus_table::ConesnsusTable;
pub use consensus_table_entry::ConsensusTableEntry;

pub mod consensus_table;
pub mod consensus_table_entry;
