//! A small string library for a native, C-style boundary.
//!
//! Every operation that produces text hands back a [`TerminatedString`]: an owned
//! byte buffer that ends in exactly one zero byte and holds no other. Ownership
//! moves to the caller, who gives it back once through [`release`].
pub mod handle;
pub mod identity;
pub mod join;
pub mod timestamp;

pub use handle::{release, TerminatedString};
pub use identity::{identity_label, IDENTITY_TEXT};
pub use join::{join_with_separator, CREATE_FAILED_MESSAGE, NULL_POINTER_MESSAGE};
pub use timestamp::{current_timestamp, format_timestamp, Timestamp};
