//! Removes rows of a CSV document that repeat an earlier row, keeping the
//! first occurrence of each row in the original order.

pub mod cli;
pub mod codec;
pub mod dedup;
pub mod laws;
pub mod row_key;
pub mod seen_set;
