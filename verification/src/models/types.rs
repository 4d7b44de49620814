use vstd::prelude::*;

verus! {

/// The two auction policies.
#[derive(Clone, Copy, Debug, PartialEq, Eq, Structural)]
pub enum TransactionType {
    Jit,
    Aot,
}

/// How a transaction asks to be included: in the next slot, or in a slot
/// reserved ahead of time.
#[derive(Clone, Copy, Debug, PartialEq, Eq, Structural)]
pub enum InclusionType {
    Jit,
    Aot { reserved_slot: u64 },
}

} // verus!
