//! The core of a miner for `CreateX` salts: it checks the configuration of a search, writes
//! the source of the kernel that searches, decides what to do between two runs of the
//! kernel, and reports the salt and the address that were found.
//!
//! Talking to the device is left to the caller.

pub mod bytes;
pub mod checksum;
pub mod config;
pub mod decimal;
pub mod hex;
pub mod kernel;
pub mod kernel_laws;
pub mod search;
pub mod solution;
pub mod value;

pub use config::{Config, CreateXVariant, RewardVariant, SaltVariant};
pub use kernel::mk_kernel_src;
pub use search::Search;
pub use solution::report_solution;
