use vstd::prelude::*;

use crate::errors::CpuError;
use crate::flags::Flags;
use crate::flags::negative_flag;
use crate::flags::zero_flag;
use crate::isa::CpuView;
use crate::isa::INS_JSR;
use crate::isa::INS_LDA_IM;
use crate::isa::INS_LDA_ZP;
use crate::isa::INS_LDA_ZPX;
use crate::isa::high_byte;
use crate::isa::instr_cost;
use crate::isa::join_word;
use crate::isa::lemma_wrap16_add;
use crate::isa::low_byte;
use crate::isa::run;
use crate::isa::sat_sub;
use crate::isa::split_word;
use crate::isa::step;
use crate::isa::word_of;
use crate::isa::wrap16;
use crate::isa::wrapping_add16;
use crate::isa::wrapping_add8;
use crate::isa::wrapping_sub16;
use crate::memory::Mem;
use crate::memory::zeroed_mem;

verus! {

/// Where the program counter points after a reset: the conventional reset
/// vector near the top of the address space.
pub const RESET_PC: u16 = 0xFFFC;

/// Where the stack pointer points after a reset: the top of the dedicated
/// stack region, kept as a full 16-bit index into memory.
pub const RESET_SP: u16 = 0x10FF;

/// The CPU: program counter, stack pointer, three 8-bit registers, the
/// seven status bits, and an exclusively owned memory.
///
/// Register and pointer arithmetic wraps at its declared bit width, as the
/// hardware's does; only explicit memory accesses by absolute address are
/// bounds-checked.
#[derive(Clone, Debug, PartialEq)]
pub struct Cpu {
    /// Program counter.
    pub pc: u16,
    /// Stack pointer.
    pub sp: u16,
    /// The memory.
    pub mem: Mem,
    /// Accumulator.
    pub a: u8,
    /// Index register X.
    pub x: u8,
    /// Index register Y.
    pub y: u8,
    /// The status bits.
    pub flags: Flags,
}

impl View for Cpu {
    type V = CpuView;

    open spec fn view(&self) -> CpuView {
        CpuView {
            pc: self.pc,
            sp: self.sp,
            a: self.a,
            x: self.x,
            y: self.y,
            flags: self.flags,
            mem: self.mem@,
        }
    }
}

/// The state of a freshly reset machine: pointers at their fixed initial
/// offsets, registers and flags zeroed, memory zero-filled.
pub open spec fn reset_view() -> CpuView {
    CpuView {
        pc: RESET_PC,
        sp: RESET_SP,
        a: 0,
        x: 0,
        y: 0,
        flags: Flags::cleared_spec(),
        mem: zeroed_mem(),
    }
}

impl Cpu {
    /// Well-formed: the memory spans the whole address space.
    pub open spec fn wf(&self) -> bool {
        self.mem.wf()
    }

    /// The sole construction path: a freshly initialized CPU in the reset
    /// state. Deterministic, with no partially initialized state observable.
    pub fn reset() -> (r: Cpu)
        ensures
            r.wf(),
            r@ == reset_view(),
    {
        Cpu {
            pc: RESET_PC,
            sp: RESET_SP,
            mem: Mem::new_zeroed(),
            a: 0,
            x: 0,
            y: 0,
            flags: Flags::cleared(),
        }
    }

    /// Reads the byte at the program counter, advances the counter by one
    /// (wrapping), and deducts one cycle from the budget. Fails, changing
    /// nothing, when the budget is already exhausted.
    pub fn fetch_byte(&mut self, cycles: &mut u32) -> (r: Result<u8, CpuError>)
        requires
            old(self).wf(),
        ensures
            final(self).wf(),
            *old(cycles) == 0 ==> {
                &&& r == Err::<u8, CpuError>(CpuError::CycleBudgetExhausted)
                &&& final(self)@ == old(self)@
                &&& *final(cycles) == 0
            },
            *old(cycles) > 0 ==> {
                &&& r == Ok::<u8, CpuError>(old(self)@.mem[old(self)@.pc as int])
                &&& final(self)@ == (CpuView { pc: wrap16(old(self)@.pc + 1), ..old(self)@ })
                &&& *final(cycles) == *old(cycles) - 1
            },
    {
        if *cycles == 0 {
            return Err(CpuError::CycleBudgetExhausted);
        }
        let data = self.mem.read_at(self.pc);
        self.pc = wrapping_add16(self.pc, 1);
        *cycles = *cycles - 1;
        Ok(data)
    }

    /// Reads the byte at an explicit absolute address without touching the
    /// program counter, deducting one cycle. Fails, changing nothing, when
    /// the budget is already exhausted.
    pub fn read_byte(&mut self, addr: u16, cycles: &mut u32) -> (r: Result<u8, CpuError>)
        requires
            old(self).wf(),
        ensures
            final(self).wf(),
            *old(cycles) == 0 ==> {
                &&& r == Err::<u8, CpuError>(CpuError::CycleBudgetExhausted)
                &&& final(self)@ == old(self)@
                &&& *final(cycles) == 0
            },
            *old(cycles) > 0 ==> {
                &&& r == Ok::<u8, CpuError>(old(self)@.mem[addr as int])
                &&& final(self)@ == old(self)@
                &&& *final(cycles) == *old(cycles) - 1
            },
    {
        if *cycles == 0 {
            return Err(CpuError::CycleBudgetExhausted);
        }
        let data = self.mem.read_at(addr);
        *cycles = *cycles - 1;
        Ok(data)
    }

    /// Reads a 16-bit little-endian word spanning the cells at the program
    /// counter and the one after it (wrapping), advances the counter by two,
    /// and deducts two cycles. Fails, changing nothing, only when the budget
    /// is already exhausted: a fetch begun with one remaining cycle
    /// completes and leaves the budget empty (soft budget).
    pub fn fetch_word(&mut self, cycles: &mut u32) -> (r: Result<u16, CpuError>)
        requires
            old(self).wf(),
        ensures
            final(self).wf(),
            *old(cycles) == 0 ==> {
                &&& r == Err::<u16, CpuError>(CpuError::CycleBudgetExhausted)
                &&& final(self)@ == old(self)@
                &&& *final(cycles) == 0
            },
            *old(cycles) > 0 ==> {
                &&& r == Ok::<u16, CpuError>(
                    word_of(
                        old(self)@.mem[old(self)@.pc as int],
                        old(self)@.mem[wrap16(old(self)@.pc + 1) as int],
                    ),
                )
                &&& final(self)@ == (CpuView { pc: wrap16(old(self)@.pc + 2), ..old(self)@ })
                &&& *final(cycles) as nat == sat_sub(*old(cycles) as nat, 2)
            },
    {
        if *cycles == 0 {
            return Err(CpuError::CycleBudgetExhausted);
        }
        let lo = self.mem.read_at(self.pc);
        self.pc = wrapping_add16(self.pc, 1);
        let hi = self.mem.read_at(self.pc);
        self.pc = wrapping_add16(self.pc, 1);
        *cycles = if *cycles >= 2 {
            *cycles - 2
        } else {
            0
        };
        proof {
            lemma_wrap16_add(old(self)@.pc + 1, 1);
        }
        Ok(join_word(lo, hi))
    }

    /// Writes a 16-bit value little-endian into the cells at the address and
    /// the one after it (wrapping), deducting two cycles. Fails, changing
    /// nothing, only when the budget is already exhausted (soft budget).
    pub fn write_word(&mut self, addr: u16, value: u16, cycles: &mut u32) -> (r: Result<
        (),
        CpuError,
    >)
        requires
            old(self).wf(),
        ensures
            final(self).wf(),
            *old(cycles) == 0 ==> {
                &&& r == Err::<(), CpuError>(CpuError::CycleBudgetExhausted)
                &&& final(self)@ == old(self)@
                &&& *final(cycles) == 0
            },
            *old(cycles) > 0 ==> {
                &&& r == Ok::<(), CpuError>(())
                &&& final(self)@ == (CpuView {
                    mem: old(self)@.mem.update(addr as int, low_byte(value)).update(
                        wrap16(addr + 1) as int,
                        high_byte(value),
                    ),
                    ..old(self)@
                })
                &&& *final(cycles) as nat == sat_sub(*old(cycles) as nat, 2)
            },
    {
        if *cycles == 0 {
            return Err(CpuError::CycleBudgetExhausted);
        }
        let (lo, hi) = split_word(value);
        self.mem.write_at(addr, lo);
        self.mem.write_at(wrapping_add16(addr, 1), hi);
        *cycles = if *cycles >= 2 {
            *cycles - 2
        } else {
            0
        };
        Ok(())
    }

    /// Runs the fetch-decode-execute loop under a soft cycle budget: while
    /// any budget is left, fetches the opcode at the program counter,
    /// resolves its operand per its addressing mode, applies its effect, and
    /// recomputes the zero and negative flags where the opcode defines a
    /// result. An instruction begun always completes whole, so the deduction
    /// may overshoot the budget by at most the cost of the last instruction.
    /// An unrecognized opcode is consumed as a one-cycle no-op. A zero
    /// budget executes nothing and changes nothing.
    #[verifier::rlimit(50)]
    pub fn execute(&mut self, cycles: u32)
        requires
            old(self).wf(),
        ensures
            final(self).wf(),
            final(self)@ == run(old(self)@, cycles as nat),
    {
        let ghost start: CpuView = self@;
        let mut remaining: u32 = cycles;
        while remaining > 0
            invariant
                self.wf(),
                run(start, cycles as nat) == run(self@, remaining as nat),
            decreases remaining,
        {
            let ghost s0 = self@;
            let ghost rem0 = remaining as nat;
            let op = self.mem.read_at(self.pc);
            self.pc = wrapping_add16(self.pc, 1);
            remaining = remaining - 1;
            if op == INS_LDA_IM {
                let value = self.mem.read_at(self.pc);
                self.pc = wrapping_add16(self.pc, 1);
                remaining = if remaining >= 1 {
                    remaining - 1
                } else {
                    0
                };
                self.a = value;
                self.flags.z = zero_flag(value);
                self.flags.n = negative_flag(value);
                proof {
                    lemma_wrap16_add(s0.pc + 1, 1);
                    assert(self@ =~= step(s0));
                }
            } else if op == INS_LDA_ZP {
                let zp = self.mem.read_at(self.pc);
                self.pc = wrapping_add16(self.pc, 1);
                remaining = if remaining >= 1 {
                    remaining - 1
                } else {
                    0
                };
                let value = self.mem.read_at(zp as u16);
                remaining = if remaining >= 1 {
                    remaining - 1
                } else {
                    0
                };
                self.a = value;
                self.flags.z = zero_flag(value);
                self.flags.n = negative_flag(value);
                proof {
                    lemma_wrap16_add(s0.pc + 1, 1);
                    assert(self@ =~= step(s0));
                }
            } else if op == INS_LDA_ZPX {
                let zp = self.mem.read_at(self.pc);
                self.pc = wrapping_add16(self.pc, 1);
                remaining = if remaining >= 1 {
                    remaining - 1
                } else {
                    0
                };
                let addr = wrapping_add8(zp, self.x);
                remaining = if remaining >= 1 {
                    remaining - 1
                } else {
                    0
                };
                let value = self.mem.read_at(addr as u16);
                remaining = if remaining >= 1 {
                    remaining - 1
                } else {
                    0
                };
                self.a = value;
                self.flags.z = zero_flag(value);
                self.flags.n = negative_flag(value);
                proof {
                    lemma_wrap16_add(s0.pc + 1, 1);
                    assert(self@ =~= step(s0));
                }
            } else if op == INS_JSR {
                let lo = self.mem.read_at(self.pc);
                self.pc = wrapping_add16(self.pc, 1);
                remaining = if remaining >= 1 {
                    remaining - 1
                } else {
                    0
                };
                let hi = self.mem.read_at(self.pc);
                self.pc = wrapping_add16(self.pc, 1);
                remaining = if remaining >= 1 {
                    remaining - 1
                } else {
                    0
                };
                let target = join_word(lo, hi);
                let push_addr = wrapping_sub16(self.sp, 1);
                let (ret_lo, ret_hi) = split_word(self.pc);
                self.mem.write_at(push_addr, ret_lo);
                self.mem.write_at(wrapping_add16(push_addr, 1), ret_hi);
                remaining = if remaining >= 2 {
                    remaining - 2
                } else {
                    0
                };
                self.sp = wrapping_sub16(self.sp, 2);
                self.pc = target;
                remaining = if remaining >= 1 {
                    remaining - 1
                } else {
                    0
                };
                proof {
                    lemma_wrap16_add(s0.pc + 1, 1);
                    lemma_wrap16_add(s0.pc + 2, 1);
                    assert(self@ =~= step(s0));
                }
            } else {
                proof {
                    assert(self@ =~= step(s0));
                }
            }
            proof {
                assert(remaining as nat == sat_sub(rem0, instr_cost(s0.mem[s0.pc as int])));
                assert(run(s0, rem0) == run(step(s0), sat_sub(
                    rem0,
                    instr_cost(s0.mem[s0.pc as int]),
                )));
            }
        }
    }
}

} // verus!
