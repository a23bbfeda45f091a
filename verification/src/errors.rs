//! Errors surfaced to the orchestrating engine.

use vstd::prelude::*;

verus! {

/// A contract-call-level failure raised while recording a scheduled
/// operation: either a dependency handle does not name a pending receipt, or
/// an untrusted byte payload fails structural validation.
#[derive(Debug, Clone, Copy, PartialEq, Eq, Structural)]
pub enum HostError {
    /// A supplied dependency index is not a valid handle into the
    /// pending-receipt store.
    InvalidReceiptIndex { receipt_index: u64 },
    /// Method-name bytes are not valid text.
    InvalidMethodName,
    /// Public-key bytes do not deserialize to a recognized key encoding.
    InvalidPublicKey,
}

} // verus!
