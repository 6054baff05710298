//! Outcome of system proxy settings changes.
use vstd::prelude::*;

verus! {

/// Outcome of a proxy settings operation.
#[derive(Debug)]
pub struct RegistryResult {
    pub success: bool,
    pub message: String,
}

} // verus!
