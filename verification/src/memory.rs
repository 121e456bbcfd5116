use vstd::prelude::*;

use crate::errors::CpuError;

verus! {

/// Capacity of the memory: the full 16-bit address space.
pub const MEM_SIZE: usize = 65536;

/// The memory as a mathematical value: a zero-filled sequence of full
/// capacity, the state of a freshly reset machine.
pub open spec fn zeroed_mem() -> Seq<u8> {
    Seq::new(MEM_SIZE as nat, |i: int| 0u8)
}

/// Byte-addressable memory of fixed capacity with bounds-checked access.
///
/// The one invariant is `wf()`: the backing storage always holds exactly
/// `MEM_SIZE` cells. Every constructor establishes it and every method
/// preserves it.
#[derive(Clone, Debug, PartialEq)]
pub struct Mem {
    bytes: Vec<u8>,
}

impl View for Mem {
    type V = Seq<u8>;

    closed spec fn view(&self) -> Seq<u8> {
        self.bytes@
    }
}

impl Mem {
    /// Well-formed: the storage spans the whole address space.
    pub open spec fn wf(&self) -> bool {
        self@.len() == MEM_SIZE
    }

    /// A zero-filled memory of full capacity.
    pub fn new_zeroed() -> (r: Mem)
        ensures
            r.wf(),
            r@ == zeroed_mem(),
    {
        let mut bytes: Vec<u8> = Vec::new();
        while bytes.len() < MEM_SIZE
            invariant
                bytes@.len() <= MEM_SIZE,
                forall|i: int| 0 <= i < bytes@.len() ==> bytes@[i] == 0u8,
            decreases MEM_SIZE - bytes.len(),
        {
            bytes.push(0u8);
        }
        proof {
            assert(bytes@ =~= zeroed_mem());
        }
        Mem { bytes }
    }

    /// Reads the byte at an absolute address; an address at or beyond the
    /// capacity is rejected, never clamped.
    pub fn read_addr(&self, addr: usize) -> (r: Result<u8, CpuError>)
        ensures
            addr < self@.len() ==> r == Ok::<u8, CpuError>(self@[addr as int]),
            addr >= self@.len() ==> r == Err::<u8, CpuError>(CpuError::AddressOutOfRange),
    {
        if addr < self.bytes.len() {
            Ok(self.bytes[addr])
        } else {
            Err(CpuError::AddressOutOfRange)
        }
    }

    /// Writes a byte at an absolute address and returns the written value
    /// for chaining; exactly the addressed cell changes. An address at or
    /// beyond the capacity is rejected and the memory is untouched.
    pub fn write_addr(&mut self, addr: usize, value: u8) -> (r: Result<u8, CpuError>)
        ensures
            addr < old(self)@.len() ==> {
                &&& final(self)@ == old(self)@.update(addr as int, value)
                &&& r == Ok::<u8, CpuError>(value)
            },
            addr >= old(self)@.len() ==> {
                &&& final(self)@ == old(self)@
                &&& r == Err::<u8, CpuError>(CpuError::AddressOutOfRange)
            },
    {
        if addr < self.bytes.len() {
            self.bytes.set(addr, value);
            Ok(value)
        } else {
            Err(CpuError::AddressOutOfRange)
        }
    }

    /// Reads the cell a 16-bit address names; with a well-formed memory
    /// every such address is in range.
    pub fn read_at(&self, addr: u16) -> (r: u8)
        requires
            self.wf(),
        ensures
            r == self@[addr as int],
    {
        self.bytes[addr as usize]
    }

    /// Writes the cell a 16-bit address names; with a well-formed memory
    /// every such address is in range.
    pub fn write_at(&mut self, addr: u16, value: u8)
        requires
            old(self).wf(),
        ensures
            final(self).wf(),
            final(self)@ == old(self)@.update(addr as int, value),
    {
        self.bytes.set(addr as usize, value);
    }
}

} // verus!
