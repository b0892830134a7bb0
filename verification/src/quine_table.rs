pub use second_quine_table::SecondQuineTable;
pub use second_quine_table_cell::{CellState, SecondQuineTableCell};
pub use second_quine_table_entry::SecondQuineTableEntry;

pub mod second_quine_table;
pub mod second_quine_table_cell;
pub mod second_quine_table_entry;
