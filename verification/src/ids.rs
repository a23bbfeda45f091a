//! Data identifiers and the collaborator that mints them.
//!
//! A data identifier links one receipt's completion output to another
//! receipt's input dependency.  Identifiers are minted on demand by an
//! external collaborator owned by the execution engine; the derivation is the
//! collaborator's business, this crate only requires a value it can store and
//! compare.

use vstd::prelude::*;

verus! {

/// An opaque dependency identifier, unique within one execution context.
#[derive(Debug, Clone, Copy, PartialEq, Eq, Hash, Structural)]
pub struct DataId {
    pub value: u64,
}

impl DataId {
    /// The placeholder identifier of a finalized receipt whose own identity
    /// has not been assigned yet; assignment is the execution engine's job.
    pub open spec fn unassigned_spec() -> DataId {
        DataId { value: 0 }
    }

    /// Returns the placeholder identifier.
    pub fn unassigned() -> (id: DataId)
        ensures
            id == DataId::unassigned_spec(),
    {
        DataId { value: 0 }
    }
}

/// The collaborator that mints fresh data identifiers.  The execution engine
/// implements this; nothing is promised of the values it hands back, so every
/// function of this crate is verified for every possible identifier.
pub trait DataIdSource {
    /// Mints the next dependency identifier.
    fn generate_data_id(&mut self) -> DataId;
}

/// A deterministic identifier source: hands out consecutive values.
pub struct CountingDataIdSource {
    pub next_value: u64,
}

impl CountingDataIdSource {
    /// A source whose first identifier is `first`.
    pub fn new(first: u64) -> (s: CountingDataIdSource)
        ensures
            s.next_value == first,
    {
        CountingDataIdSource { next_value: first }
    }
}

impl DataIdSource for CountingDataIdSource {
    fn generate_data_id(&mut self) -> DataId {
        let id = DataId { value: self.next_value };
        self.next_value = self.next_value.wrapping_add(1);
        id
    }
}

} // verus!
