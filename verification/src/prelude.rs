//! Include this to get access to all the interesting public functions of this crate.
pub use crate::ciphersuites::Name as CiphersuiteName;
pub use crate::tree::{Error as TreeError, Tree};
