//! Detects which programming language a project directory belongs to and
//! resolves the shared-code file that is to be copied into it.

pub mod language;
pub mod name;
pub mod tree;
pub mod scan;
pub mod classify;
pub mod resolve;
