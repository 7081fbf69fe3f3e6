//! A price-triggered task scheduler: accounts register price feeds for asset
//! pairs, authorized oracle providers publish price updates, and accounts
//! schedule actions that a weight-bounded engine executes once per block.

pub mod assoc;
pub mod executors;
pub mod laws;
pub mod model;
pub mod pallet;
pub mod task_id;
pub mod types;
