use vstd::prelude::*;

use crate::cpu::Cpu;
use crate::cpu::reset_view;
use crate::isa::CpuView;
use crate::isa::INS_JSR;
use crate::isa::lemma_word_split;
use crate::isa::lemma_wrap16_add;
use crate::isa::lemma_wrap16_small;
use crate::isa::run;
use crate::isa::step;
use crate::isa::word_of;
use crate::isa::wrap16;
use crate::memory::MEM_SIZE;

verus! {

/// Round trip: writing a value at an in-range address and then reading the
/// same address back yields exactly the written value. The memory is stated
/// as its contents, the sequence that `Mem`'s accessors speak of.
pub proof fn lemma_write_read_round_trip(mem: Seq<u8>, addr: int, value: u8)
    requires
        0 <= addr < mem.len(),
    ensures
        mem.update(addr, value)[addr] == value,
{
}

/// A cycle budget of zero executes no instruction: the machine it leaves is
/// the machine it was given.
pub proof fn lemma_zero_budget(s: CpuView)
    ensures
        run(s, 0) == s,
{
}

/// Reset is deterministic: any two freshly reset machines carry identical,
/// fully zeroed state.
pub proof fn lemma_reset_identical(first: Cpu, second: Cpu)
    requires
        first@ == reset_view(),
        second@ == reset_view(),
    ensures
        first@ == second@,
{
}

/// Subroutine jump: one step on a jump-to-subroutine opcode leaves the
/// program counter at the fetched little-endian target, moves the stack
/// pointer down by exactly two, and the return address (the counter just
/// past the three instruction bytes) can be read back, low byte first, from
/// the stack region the old stack pointer addressed.
pub proof fn lemma_jsr_step(s: CpuView)
    requires
        s.mem.len() == MEM_SIZE,
        s.mem[s.pc as int] == INS_JSR,
    ensures
        step(s).pc == word_of(s.mem[wrap16(s.pc + 1) as int], s.mem[wrap16(s.pc + 2) as int]),
        step(s).sp == wrap16(s.sp - 2),
        word_of(step(s).mem[wrap16(s.sp - 1) as int], step(s).mem[s.sp as int]) == wrap16(
            s.pc + 3,
        ),
{
    let ret = wrap16(s.pc + 3);
    let push_addr = wrap16(s.sp - 1);
    lemma_wrap16_add(s.sp - 1, 1);
    lemma_wrap16_small(s.sp as int);
    if s.sp > 0 {
        lemma_wrap16_small(s.sp - 1);
    }
    assert(wrap16(push_addr + 1) == s.sp);
    assert(push_addr != s.sp);
    lemma_word_split(ret);
}

} // verus!
