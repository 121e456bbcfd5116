use vstd::prelude::*;

use crate::flags::Flags;
use crate::flags::with_zn;

verus! {

/// Load the accumulator with an immediate operand.
pub const INS_LDA_IM: u8 = 0xA9;

/// Load the accumulator from a zero-page address.
pub const INS_LDA_ZP: u8 = 0xA5;

/// Load the accumulator from a zero-page address indexed by X.
pub const INS_LDA_ZPX: u8 = 0x85;

/// Jump to a subroutine at an absolute 16-bit target.
pub const INS_JSR: u8 = 0x20;

/// 16-bit wraparound: the value reduced into the address space.
pub open spec fn wrap16(v: int) -> u16 {
    (v % 0x10000) as u16
}

/// 8-bit wraparound: the value reduced into the zero page.
pub open spec fn wrap8(v: int) -> u8 {
    (v % 0x100) as u8
}

/// The 16-bit word two bytes form, low byte first.
pub open spec fn word_of(lo: u8, hi: u8) -> u16 {
    (lo + hi * 0x100) as u16
}

/// The low byte of a word.
pub open spec fn low_byte(w: u16) -> u8 {
    (w % 0x100) as u8
}

/// The high byte of a word.
pub open spec fn high_byte(w: u16) -> u8 {
    (w / 0x100) as u8
}

/// The whole machine as a mathematical value: registers, pointers, flags,
/// and the memory contents.
#[verifier::ext_equal]
pub struct CpuView {
    /// Program counter.
    pub pc: u16,
    /// Stack pointer: a full 16-bit index into memory.
    pub sp: u16,
    /// Accumulator.
    pub a: u8,
    /// Index register X.
    pub x: u8,
    /// Index register Y.
    pub y: u8,
    /// The seven status bits.
    pub flags: Flags,
    /// The memory contents.
    pub mem: Seq<u8>,
}

/// The cycle cost of one instruction: the opcode fetch plus the cost of
/// operand resolution and effect. An unrecognized opcode is a one-cycle
/// no-op that only consumes its own fetch.
pub open spec fn instr_cost(op: u8) -> nat {
    if op == INS_LDA_IM {
        2
    } else if op == INS_LDA_ZP {
        3
    } else if op == INS_LDA_ZPX {
        4
    } else if op == INS_JSR {
        6
    } else {
        1
    }
}

/// One instruction: the machine state after fetching the opcode at the
/// program counter, resolving its operand, and applying its effect.
///
/// The load family assigns the resolved operand to the accumulator and
/// recomputes the zero and negative flags. The subroutine jump fetches a
/// little-endian target word, pushes the return address (low byte at
/// `sp - 1`, high byte at `sp`), moves the stack pointer down by two, and
/// loads the target into the program counter. An unrecognized opcode only
/// advances past itself. All pointer arithmetic wraps.
pub open spec fn step(s: CpuView) -> CpuView {
    let op = s.mem[s.pc as int];
    let pc1 = wrap16(s.pc + 1);
    if op == INS_LDA_IM {
        let value = s.mem[pc1 as int];
        CpuView { pc: wrap16(s.pc + 2), a: value, flags: with_zn(s.flags, value), ..s }
    } else if op == INS_LDA_ZP {
        let zp = s.mem[pc1 as int];
        let value = s.mem[zp as int];
        CpuView { pc: wrap16(s.pc + 2), a: value, flags: with_zn(s.flags, value), ..s }
    } else if op == INS_LDA_ZPX {
        let zp = s.mem[pc1 as int];
        let value = s.mem[wrap8(zp + s.x) as int];
        CpuView { pc: wrap16(s.pc + 2), a: value, flags: with_zn(s.flags, value), ..s }
    } else if op == INS_JSR {
        let target = word_of(s.mem[pc1 as int], s.mem[wrap16(s.pc + 2) as int]);
        let ret = wrap16(s.pc + 3);
        let push_addr = wrap16(s.sp - 1);
        let mem2 = s.mem.update(push_addr as int, low_byte(ret)).update(
            wrap16(push_addr + 1) as int,
            high_byte(ret),
        );
        CpuView { pc: target, sp: wrap16(s.sp - 2), mem: mem2, ..s }
    } else {
        CpuView { pc: pc1, ..s }
    }
}

/// Budget subtraction that bottoms out at zero: an instruction whose cost
/// exceeds what is left empties the budget instead of underflowing it.
pub open spec fn sat_sub(a: nat, b: nat) -> nat {
    if a >= b {
        (a - b) as nat
    } else {
        0
    }
}

/// The machine after running with the given cycle budget: instructions
/// execute whole, one after another, while any budget is left.
///
/// The budget is soft: an instruction begun with a positive budget always
/// completes, so the deduction may overshoot by at most the cost of the
/// last instruction; the remainder then bottoms out at zero.
pub open spec fn run(s: CpuView, budget: nat) -> CpuView
    decreases budget,
{
    if budget == 0 {
        s
    } else {
        run(step(s), sat_sub(budget, instr_cost(s.mem[s.pc as int])))
    }
}

/// Reducing a value that already lies in the address space changes nothing.
pub proof fn lemma_wrap16_small(v: int)
    requires
        0 <= v < 0x10000,
    ensures
        wrap16(v) == v,
{
    vstd::arithmetic::div_mod::lemma_small_mod(v as nat, 0x10000);
}

/// A wrapped sum can be wrapped once at the end: reducing the left summand
/// first reaches the same point of the address space.
pub proof fn lemma_wrap16_add(x: int, y: int)
    ensures
        wrap16(wrap16(x) + y) == wrap16(x + y),
{
    vstd::arithmetic::div_mod::lemma_add_mod_noop_right(y, x, 0x10000);
}

/// Splitting a word into its bytes and recombining them, low byte first,
/// gives the word back.
pub proof fn lemma_word_split(w: u16)
    ensures
        word_of(low_byte(w), high_byte(w)) == w,
{
    vstd::arithmetic::div_mod::lemma_fundamental_div_mod(w as int, 0x100);
}

/// 16-bit addition with wraparound.
pub fn wrapping_add16(v: u16, d: u16) -> (r: u16)
    ensures
        r == wrap16(v + d),
{
    let s: u32 = v as u32 + d as u32;
    if s < 0x10000 {
        proof {
            lemma_wrap16_small(v + d);
        }
        s as u16
    } else {
        proof {
            vstd::arithmetic::div_mod::lemma_mod_sub_multiples_vanish(v + d, 0x10000);
            lemma_wrap16_small(v + d - 0x10000);
        }
        (s - 0x10000) as u16
    }
}

/// 16-bit subtraction with wraparound.
pub fn wrapping_sub16(v: u16, d: u16) -> (r: u16)
    ensures
        r == wrap16(v - d),
{
    if v >= d {
        proof {
            lemma_wrap16_small(v - d);
        }
        v - d
    } else {
        proof {
            vstd::arithmetic::div_mod::lemma_mod_add_multiples_vanish(v - d, 0x10000);
            lemma_wrap16_small(v - d + 0x10000);
        }
        let s: u32 = v as u32 + 0x10000 - d as u32;
        s as u16
    }
}

/// 8-bit addition with wraparound: an indexed zero-page address stays
/// within the zero page.
pub fn wrapping_add8(v: u8, d: u8) -> (r: u8)
    ensures
        r == wrap8(v + d),
{
    let s: u16 = v as u16 + d as u16;
    if s < 0x100 {
        proof {
            vstd::arithmetic::div_mod::lemma_small_mod((v + d) as nat, 0x100);
        }
        s as u8
    } else {
        proof {
            vstd::arithmetic::div_mod::lemma_mod_sub_multiples_vanish(v + d, 0x100);
            vstd::arithmetic::div_mod::lemma_small_mod((v + d - 0x100) as nat, 0x100);
        }
        (s - 0x100) as u8
    }
}

/// The low and the high byte of a word, computed executably.
pub fn split_word(w: u16) -> (r: (u8, u8))
    ensures
        r.0 == low_byte(w),
        r.1 == high_byte(w),
{
    ((w % 0x100) as u8, (w / 0x100) as u8)
}

/// The word two bytes form, low byte first, computed executably.
pub fn join_word(lo: u8, hi: u8) -> (r: u16)
    ensures
        r == word_of(lo, hi),
{
    lo as u16 + hi as u16 * 0x100
}

} // verus!
