pub use die::{Die, DieError};
pub use die_side::DieSide;

pub mod die;
pub mod die_side;
