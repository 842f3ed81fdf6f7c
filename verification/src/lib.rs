//! Reader for the NFA0 game-asset container format.
//!
//! The crate has two layers: a format-specific decoder that parses the
//! obfuscated container layout ([`archive`]) against a mathematical model of
//! the wire format ([`format`]), and a generic bridge ([`api`]) that turns any
//! implementation of the archive capability contract into a pair of
//! defensive, null-tolerant dispatch tables.

pub mod api;
pub mod archive;
pub mod format;
pub mod utf16;
