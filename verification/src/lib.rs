//! Identifiers of object files and of their debug information files.
//!
//! [`DebugId`] identifies a debug information file by a UUID or, for the
//! oldest PDB files, by a timestamp, together with an appendix. Its text
//! forms are read and written here; every function states over plain
//! sequences of characters what it accepts and what it produces.
//! [`CodeId`] identifies the code file itself by a lowercase hex string.

pub mod code_id;
pub mod debug_id;
pub mod hex;
pub mod laws;
pub mod uuid_text;

pub use crate::code_id::{CodeId, ParseCodeIdError};
pub use crate::debug_id::{BreakpadFormat, DebugId, ParseDebugIdError, ParseOptions};
