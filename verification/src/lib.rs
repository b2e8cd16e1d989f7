//! A small memo store: short text notes kept one per file in a flat
//! directory, addressed by a 1-based display index that is recomputed
//! from the directory listing on every operation.
//!
//! The store itself ([`store::MemoStore`]) is a pure model of the
//! directory contents; every operation returns the file actions to
//! apply, so that a thin unverified shell can perform the actual I/O.

pub mod command;
pub mod digits;
pub mod laws;
pub mod store;
pub mod text;

pub use digits::parse_usize;
pub use digits::usize_to_string;
pub use text::base_of;
pub use text::join_words;
