//! Codec for the header section of a TDF motion-capture file: the fixed
//! preamble and the jump table that follows it.
//!
//! Every decoder takes the whole input and the position at which its value
//! starts, and every encoder appends to a byte vector. What a decoder returns
//! is stated by the `parse` function of the value's view, what an encoder
//! appends by its `encode` function.

pub mod error;
pub mod bytes;
pub mod time;
pub mod block;
pub mod header;
pub mod entry;
pub mod table;

pub use crate::block::{TdfBlockType, TdfFormat};
pub use crate::entry::TdfJumptableEntry;
pub use crate::error::TdfError;
pub use crate::header::TdfHeaderInfo;
pub use crate::table::TdfHeader;
pub use crate::time::TimeT;
