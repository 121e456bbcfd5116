use vstd::prelude::*;

verus! {

/// The seven independent status bits of the CPU, one boolean field each.
///
/// A flag is always plainly true or false; the evaluators below are pure
/// functions of the defining result value.
#[derive(Clone, Copy, Debug, PartialEq, Eq, Structural)]
pub struct Flags {
    /// Carry.
    pub c: bool,
    /// Zero: the last defining result was zero.
    pub z: bool,
    /// Interrupt disable.
    pub i: bool,
    /// Decimal mode.
    pub d: bool,
    /// Break.
    pub b: bool,
    /// Overflow.
    pub v: bool,
    /// Negative: bit 7 of the last defining result was set.
    pub n: bool,
}

impl Flags {
    /// All seven bits clear.
    pub open spec fn cleared_spec() -> Flags {
        Flags { c: false, z: false, i: false, d: false, b: false, v: false, n: false }
    }

    /// Builds the all-clear flag record.
    pub fn cleared() -> (r: Flags)
        ensures
            r == Flags::cleared_spec(),
    {
        Flags { c: false, z: false, i: false, d: false, b: false, v: false, n: false }
    }
}

/// True exactly when the value is zero.
pub open spec fn zero_of(value: u8) -> bool {
    value == 0
}

/// True exactly when bit 7 of the value is set.
pub open spec fn negative_of(value: u8) -> bool {
    value & 0x80 != 0
}

/// The flags after an operation whose result defines zero and negative:
/// those two bits are recomputed from the value, the rest keep their state.
pub open spec fn with_zn(f: Flags, value: u8) -> Flags {
    Flags { z: zero_of(value), n: negative_of(value), ..f }
}

/// Zero flag for a result value.
pub fn zero_flag(value: u8) -> (r: bool)
    ensures
        r == zero_of(value),
{
    value == 0
}

/// Negative flag for a result value.
pub fn negative_flag(value: u8) -> (r: bool)
    ensures
        r == negative_of(value),
{
    value & 0x80 != 0
}

} // verus!
