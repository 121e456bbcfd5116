use vstd::prelude::*;

verus! {

/// The ways a memory access or a cycle-budgeted primitive can fail.
///
/// Register and pointer arithmetic wraps by design and never raises an
/// error; only address-range violations and an exhausted cycle budget do.
#[derive(Clone, Copy, Debug, PartialEq, Eq, Structural)]
pub enum CpuError {
    /// A memory access named an address at or beyond the memory's capacity.
    AddressOutOfRange,
    /// A fetch or read was attempted with no cycles left in the budget.
    CycleBudgetExhausted,
}

} // verus!
