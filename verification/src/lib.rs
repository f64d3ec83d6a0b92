//! Navigation through the linear commit history of a branch.
//!
//! The library decides which commit to check out next. Reading the
//! repository and performing the checkout are left to the caller, who hands
//! over the text that the version-control tool printed.

pub mod error;
pub mod git;
pub mod history;
pub mod sequence;
pub mod text;

pub use crate::error::Error;
pub use crate::git::Git;
pub use crate::history::Direction;
