//! What the operations of the library do, as a caller sees it.
//!
//! Each law speaks of calls: of what an operation was given and of what it gave back, in plain
//! terms. None of them says how the result is arrived at.

pub mod batch;
pub mod request;
pub mod routing;
pub mod supervision;
pub mod word;
