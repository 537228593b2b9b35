//! Core of a per-project JavaScript toolchain version manager: the
//! installed-version catalog and its serialized representation, the shim
//! lifecycle decisions, and the unified failure and exit-code protocol.

pub mod fail;
pub mod version;
pub mod catalog;
pub mod serial;
pub mod shim;

pub use fail::Fallible;
