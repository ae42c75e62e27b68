//! The meaning of each supported instruction, as functions on the
//! architectural state, with executable counterparts of the pieces.
use crate::dram::{access_ok, lemma_store_then_load, mem_load, mem_store, pow256, DRAM_SIZE};
use vstd::prelude::*;

verus! {

/// Architectural state of the hart: 32 registers, the program counter and memory.
pub struct Machine {
    pub regs: Seq<u64>,
    pub pc: u64,
    pub mem: Seq<u8>,
}

/// `x` modulo 2^64.
pub open spec fn wrap64(x: int) -> u64 {
    (x % 0x1_0000_0000_0000_0000) as u64
}

/// `a` read as a 64-bit two's-complement number.
pub open spec fn signed(a: u64) -> int {
    if a < 0x8000_0000_0000_0000 {
        a as int
    } else {
        a - 0x1_0000_0000_0000_0000
    }
}

/// The low `w` bits of `v`, taken as two's complement and widened to 64 bits:
/// bit `w - 1` is copied into every bit from `w` up.
pub open spec fn sext(v: u64, w: u64) -> u64 {
    if (v >> ((w - 1) as u64)) & 1 == 0 {
        v
    } else {
        v | (0xFFFF_FFFF_FFFF_FFFFu64 << w)
    }
}

/// The low 32 bits of `x`, sign-extended to 64 bits.
pub open spec fn sext32(x: u64) -> u64 {
    sext(x & 0xFFFF_FFFF, 32)
}

/// Arithmetic right shift: `a >> s` with copies of the sign bit shifted in.
pub open spec fn sra(a: u64, s: u64) -> u64 {
    if a >> 63u64 == 0 {
        a >> s
    } else {
        !((!a) >> s)
    }
}

/// `inst[6:0]`
pub open spec fn opcode(inst: u32) -> u32 {
    inst & 0x7f
}

/// `inst[11:7]`
pub open spec fn rd(inst: u32) -> u32 {
    (inst >> 7u32) & 0x1f
}

/// `inst[14:12]`
pub open spec fn funct3(inst: u32) -> u32 {
    (inst >> 12u32) & 0x7
}

/// `inst[19:15]`
pub open spec fn rs1(inst: u32) -> u32 {
    (inst >> 15u32) & 0x1f
}

/// `inst[24:20]`
pub open spec fn rs2(inst: u32) -> u32 {
    (inst >> 20u32) & 0x1f
}

/// `inst[31:25]`
pub open spec fn funct7(inst: u32) -> u32 {
    (inst >> 25u32) & 0x7f
}

/// I-type immediate: `inst[31:20]`, sign-extended from 12 bits.
pub open spec fn imm_i(inst: u32) -> u64 {
    sext((inst >> 20u32) as u64, 12)
}

/// S-type immediate: `inst[31:25]` above `inst[11:7]`, sign-extended from 12 bits.
pub open spec fn imm_s(inst: u32) -> u64 {
    sext((((inst >> 25u32) << 5u32) | ((inst >> 7u32) & 0x1f)) as u64, 12)
}

/// B-type immediate: `inst[31]`, `inst[7]`, `inst[30:25]`, `inst[11:8]` as
/// bits 12, 11, 10..5 and 4..1 of an even offset, sign-extended from 13 bits.
pub open spec fn imm_b(inst: u32) -> u64 {
    sext(
        ((((inst >> 31u32) & 1) << 12u32) | (((inst >> 7u32) & 1) << 11u32) | (((inst >> 25u32)
            & 0x3f) << 5u32) | (((inst >> 8u32) & 0xf) << 1u32)) as u64,
        13,
    )
}

/// U-type immediate: `inst[31:12]` in bits 31..12, sign-extended from 32 bits.
pub open spec fn imm_u(inst: u32) -> u64 {
    sext((inst & 0xFFFF_F000) as u64, 32)
}

/// J-type immediate: `inst[31]`, `inst[19:12]`, `inst[20]`, `inst[30:21]` as
/// bits 20, 19..12, 11 and 10..1 of an even offset, sign-extended from 21 bits.
pub open spec fn imm_j(inst: u32) -> u64 {
    sext(
        ((((inst >> 31u32) & 1) << 20u32) | (((inst >> 12u32) & 0xff) << 12u32) | (((inst
            >> 20u32) & 1) << 11u32) | (((inst >> 21u32) & 0x3ff) << 1u32)) as u64,
        21,
    )
}

/// Result of an ALU-immediate instruction (opcode 0x13), or `None` for an
/// encoding that is not handled.
pub open spec fn alu_imm(funct3: u32, funct7: u32, a: u64, imm: u64) -> Option<u64> {
    let shamt = imm & 0x3f;
    if funct3 == 0 {
        Some(wrap64(a + imm))
    } else if funct3 == 1 {
        Some(a << shamt)
    } else if funct3 == 2 {
        Some(if signed(a) < signed(imm) { 1u64 } else { 0u64 })
    } else if funct3 == 3 {
        Some(if a < imm { 1u64 } else { 0u64 })
    } else if funct3 == 4 {
        Some(a ^ imm)
    } else if funct3 == 5 {
        if funct7 >> 1u32 == 0 {
            Some(a >> shamt)
        } else if funct7 >> 1u32 == 0x10 {
            Some(sra(a, shamt))
        } else {
            None
        }
    } else if funct3 == 6 {
        Some(a | imm)
    } else if funct3 == 7 {
        Some(a & imm)
    } else {
        None
    }
}

/// Result of a 32-bit ALU-immediate instruction (opcode 0x1b), or `None`.
pub open spec fn alu_imm_w(funct3: u32, funct7: u32, a: u64, imm: u64) -> Option<u64> {
    let shamt = imm & 0x1f;
    if funct3 == 0 {
        Some(sext32(wrap64(a + imm)))
    } else if funct3 == 1 {
        Some(sext32(a << shamt))
    } else if funct3 == 5 && funct7 == 0 {
        Some(sext32((a & 0xFFFF_FFFF) >> shamt))
    } else if funct3 == 5 && funct7 == 0x20 {
        Some(sra(sext32(a), shamt))
    } else {
        None
    }
}

/// Result of a register-register instruction (opcode 0x33), or `None`.
pub open spec fn alu_reg(funct3: u32, funct7: u32, a: u64, b: u64) -> Option<u64> {
    let shamt = b & 0x3f;
    if funct3 == 0 && funct7 == 0 {
        Some(wrap64(a + b))
    } else if funct3 == 0 && funct7 == 0x01 {
        Some(wrap64(a * b))
    } else if funct3 == 0 && funct7 == 0x20 {
        Some(wrap64(a - b))
    } else if funct3 == 1 && funct7 == 0 {
        Some(a << shamt)
    } else if funct3 == 2 && funct7 == 0 {
        Some(if signed(a) < signed(b) { 1u64 } else { 0u64 })
    } else if funct3 == 3 && funct7 == 0 {
        Some(if a < b { 1u64 } else { 0u64 })
    } else if funct3 == 4 && funct7 == 0 {
        Some(a ^ b)
    } else if funct3 == 5 && funct7 == 0 {
        Some(a >> shamt)
    } else if funct3 == 5 && funct7 == 0x20 {
        Some(sra(a, shamt))
    } else if funct3 == 6 && funct7 == 0 {
        Some(a | b)
    } else if funct3 == 7 && funct7 == 0 {
        Some(a & b)
    } else {
        None
    }
}

/// Result of a 32-bit register-register instruction (opcode 0x3b), or `None`.
pub open spec fn alu_reg_w(funct3: u32, funct7: u32, a: u64, b: u64) -> Option<u64> {
    let shamt = b & 0x1f;
    if funct3 == 0 && funct7 == 0 {
        Some(sext32(wrap64(a + b)))
    } else if funct3 == 0 && funct7 == 0x20 {
        Some(sext32(wrap64(a - b)))
    } else if funct3 == 1 && funct7 == 0 {
        Some(sext32(a << shamt))
    } else if funct3 == 5 && funct7 == 0 {
        Some(sext32((a & 0xFFFF_FFFF) >> shamt))
    } else if funct3 == 5 && funct7 == 0x20 {
        Some(sra(sext32(a), shamt))
    } else {
        None
    }
}

/// Whether a conditional branch (opcode 0x63) is taken, or `None`.
pub open spec fn branch_taken(funct3: u32, a: u64, b: u64) -> Option<bool> {
    if funct3 == 0 {
        Some(a == b)
    } else if funct3 == 1 {
        Some(a != b)
    } else if funct3 == 4 {
        Some(signed(a) < signed(b))
    } else if funct3 == 5 {
        Some(signed(a) >= signed(b))
    } else if funct3 == 6 {
        Some(a < b)
    } else if funct3 == 7 {
        Some(a >= b)
    } else {
        None
    }
}

/// Width in bits read by a load (opcode 0x03), or `None`.
pub open spec fn load_width(funct3: u32) -> Option<u64> {
    if funct3 == 0 || funct3 == 4 {
        Some(8u64)
    } else if funct3 == 1 || funct3 == 5 {
        Some(16u64)
    } else if funct3 == 2 || funct3 == 6 {
        Some(32u64)
    } else if funct3 == 3 {
        Some(64u64)
    } else {
        None
    }
}

/// The register value a load writes for the zero-extended word `raw` it read:
/// LB, LH and LW sign-extend, the others keep `raw`.
pub open spec fn load_extend(funct3: u32, raw: u64) -> u64 {
    if funct3 == 0 {
        sext(raw, 8)
    } else if funct3 == 1 {
        sext(raw, 16)
    } else if funct3 == 2 {
        sext(raw, 32)
    } else {
        raw
    }
}

/// Width in bits written by a store (opcode 0x23), or `None`.
pub open spec fn store_width(funct3: u32) -> Option<u64> {
    if funct3 == 0 {
        Some(8u64)
    } else if funct3 == 1 {
        Some(16u64)
    } else if funct3 == 2 {
        Some(32u64)
    } else if funct3 == 3 {
        Some(64u64)
    } else {
        None
    }
}

/// The register file after writing `v` to register `rd`; register 0 ignores writes.
pub open spec fn write_reg(regs: Seq<u64>, rd: u32, v: u64) -> Seq<u64> {
    if rd == 0 {
        regs
    } else {
        regs.update(rd as int, v)
    }
}

/// The state with register 0 cleared, as every instruction starts.
pub open spec fn clear_x0(m: Machine) -> Machine {
    Machine { regs: m.regs.update(0, 0), ..m }
}

/// The state with `v` written to register `rd`.
pub open spec fn with_reg(m: Machine, rd: u32, v: u64) -> Machine {
    Machine { regs: write_reg(m.regs, rd, v), ..m }
}

/// A load (opcode 0x03) on `s`: `None` when the access fails.
pub open spec fn load_op(s: Machine, inst: u32) -> Option<Machine> {
    let f3 = funct3(inst);
    let addr = wrap64(s.regs[rs1(inst) as int] + imm_i(inst));
    match load_width(f3) {
        Some(size) => match mem_load(s.mem, addr, size) {
            Some(raw) => Some(with_reg(s, rd(inst), load_extend(f3, raw))),
            None => None,
        },
        None => Some(s),
    }
}

/// A store (opcode 0x23) on `s`: `None` when the access fails.
pub open spec fn store_op(s: Machine, inst: u32) -> Option<Machine> {
    let addr = wrap64(s.regs[rs1(inst) as int] + imm_s(inst));
    match store_width(funct3(inst)) {
        Some(size) => match mem_store(s.mem, addr, size, s.regs[rs2(inst) as int]) {
            Some(mem) => Some(Machine { mem, ..s }),
            None => None,
        },
        None => Some(s),
    }
}

/// Whether `op` is a branch or a jump.
pub open spec fn is_control(op: u32) -> bool {
    op == 0x63 || op == 0x67 || op == 0x6f
}

/// A conditional branch (opcode 0x63) on `s`: when taken, `pc` moves by the
/// B-immediate from the branch's own address, `s.pc - 4`.
pub open spec fn branch_op(s: Machine, inst: u32) -> Machine {
    match branch_taken(funct3(inst), s.regs[rs1(inst) as int], s.regs[rs2(inst) as int]) {
        Some(true) => Machine { pc: wrap64(s.pc + imm_b(inst) - 4), ..s },
        _ => s,
    }
}

/// JALR (opcode 0x67) on `s`: jump to `rs1 + imm` with bit 0 cleared, link `s.pc`.
pub open spec fn jalr_op(s: Machine, inst: u32) -> Machine {
    let target = wrap64(s.regs[rs1(inst) as int] + imm_i(inst)) & 0xFFFF_FFFF_FFFF_FFFE;
    with_reg(Machine { pc: target, ..s }, rd(inst), s.pc)
}

/// JAL (opcode 0x6f) on `s`: jump by the J-immediate from the instruction's own
/// address, `s.pc - 4`, link `s.pc`.
pub open spec fn jal_op(s: Machine, inst: u32) -> Machine {
    with_reg(Machine { pc: wrap64(s.pc + imm_j(inst) - 4), ..s }, rd(inst), s.pc)
}

/// A branch or a jump on `s`.
pub open spec fn control_op(s: Machine, inst: u32) -> Machine {
    let op = opcode(inst);
    if op == 0x63 {
        branch_op(s, inst)
    } else if op == 0x67 {
        jalr_op(s, inst)
    } else {
        jal_op(s, inst)
    }
}

/// The value that an instruction which only writes a register computes on
/// `s`, or `None` for an opcode or encoding that is not handled.
pub open spec fn reg_result(s: Machine, inst: u32) -> Option<u64> {
    let op = opcode(inst);
    let f3 = funct3(inst);
    let f7 = funct7(inst);
    let a = s.regs[rs1(inst) as int];
    let b = s.regs[rs2(inst) as int];
    if op == 0x13 {
        alu_imm(f3, f7, a, imm_i(inst))
    } else if op == 0x17 {
        Some(wrap64(s.pc + imm_u(inst) - 4))
    } else if op == 0x1b {
        alu_imm_w(f3, f7, a, imm_i(inst))
    } else if op == 0x33 {
        alu_reg(f3, f7, a, b)
    } else if op == 0x37 {
        Some(imm_u(inst))
    } else if op == 0x3b {
        alu_reg_w(f3, f7, a, b)
    } else {
        None
    }
}

/// Executes `inst` on `m`, whose `pc` has already been advanced past it, so the
/// instruction itself sits at `pc - 4`. `None` when a memory access fails.
/// Register 0 is cleared first; encodings that are not handled change nothing else.
pub open spec fn step(m: Machine, inst: u32) -> Option<Machine> {
    let s = clear_x0(m);
    let op = opcode(inst);
    if op == 0x03 {
        load_op(s, inst)
    } else if op == 0x23 {
        store_op(s, inst)
    } else if is_control(op) {
        Some(control_op(s, inst))
    } else {
        match reg_result(s, inst) {
            Some(v) => Some(with_reg(s, rd(inst), v)),
            None => Some(s),
        }
    }
}

/// One turn of the interpreter loop on `m`: fetch the word at `pc`, advance
/// `pc` by 4, execute. Gives the state after it and whether the loop goes on,
/// which it does unless the fetch or the instruction failed or `pc` became zero.
pub open spec fn cycle(m: Machine) -> (Machine, bool) {
    match mem_load(m.mem, m.pc, 32) {
        None => (m, false),
        Some(word) => {
            let advanced = Machine { pc: wrap64(m.pc + 4), ..m };
            match step(advanced, word as u32) {
                Some(next) => (next, next.pc != 0),
                None => (clear_x0(advanced), false),
            }
        },
    }
}

/// The state after at most `fuel` turns of the interpreter loop, and whether
/// the loop stopped by itself.
pub open spec fn run_for(m: Machine, fuel: nat) -> (Machine, bool)
    decreases fuel,
{
    if fuel == 0 {
        (m, false)
    } else {
        let (next, go) = cycle(m);
        if go {
            run_for(next, (fuel - 1) as nat)
        } else {
            (next, true)
        }
    }
}

/// Every instruction leaves register 0 holding zero.
pub proof fn lemma_step_keeps_x0_zero(m: Machine, inst: u32)
    requires
        m.regs.len() == 32,
    ensures
        clear_x0(m).regs[0] == 0,
        step(m, inst) is Some ==> step(m, inst)->Some_0.regs[0] == 0,
{
    let s = clear_x0(m);
    let d = rd(inst);
    assert(d < 32) by (bit_vector)
        requires
            d == (inst >> 7u32) & 0x1f,
    ;
    assert forall|v: u64| #[trigger] write_reg(s.regs, d, v)[0] == 0 by {
        if d != 0 {
            assert(write_reg(s.regs, d, v)[0] == s.regs[0]);
        }
    }
}

/// Signed loads sign-extend and unsigned loads zero-extend: after all ones are
/// stored in `size` bits at `addr` (`0xff`, `0xffff` or `0xffff_ffff`), LB, LH or
/// LW reads `0xFFFF_FFFF_FFFF_FFFF`, while LBU, LHU or LWU reads the stored value.
pub proof fn lemma_load_sign_extension(mem: Seq<u8>, addr: u64, size: u64)
    requires
        mem.len() == DRAM_SIZE,
        size == 8 || size == 16 || size == 32,
        access_ok(addr, size, mem.len()),
    ensures
        size == 8 ==> mem_load(mem_store(mem, addr, 8, 0xff)->Some_0, addr, 8) == Some(0xffu64)
            && load_extend(0, 0xff) == 0xFFFF_FFFF_FFFF_FFFF && load_extend(4, 0xff) == 0xff,
        size == 16 ==> mem_load(mem_store(mem, addr, 16, 0xffff)->Some_0, addr, 16) == Some(
            0xffffu64,
        ) && load_extend(1, 0xffff) == 0xFFFF_FFFF_FFFF_FFFF && load_extend(5, 0xffff) == 0xffff,
        size == 32 ==> mem_load(mem_store(mem, addr, 32, 0xffff_ffff)->Some_0, addr, 32) == Some(
            0xffff_ffffu64,
        ) && load_extend(2, 0xffff_ffff) == 0xFFFF_FFFF_FFFF_FFFF && load_extend(6, 0xffff_ffff)
            == 0xffff_ffff,
{
    reveal_with_fuel(pow256, 5);
    if size == 8 {
        lemma_store_then_load(mem, addr, size, 0xff);
        assert(sext(0xff, 8) == 0xFFFF_FFFF_FFFF_FFFF) by (bit_vector);
    } else if size == 16 {
        lemma_store_then_load(mem, addr, size, 0xffff);
        assert(pow256(2) == 0x1_0000);
        assert(0xffffnat % 0x1_0000 == 0xffff);
        assert(sext(0xffff, 16) == 0xFFFF_FFFF_FFFF_FFFF) by (bit_vector);
    } else {
        lemma_store_then_load(mem, addr, size, 0xffff_ffff);
        assert(pow256(4) == 0x1_0000_0000);
        assert(0xffff_ffffnat % 0x1_0000_0000 == 0xffff_ffff);
        assert(sext(0xffff_ffff, 32) == 0xFFFF_FFFF_FFFF_FFFF) by (bit_vector);
    }
}

/// Shift amounts are masked: a 64-bit shift uses the low six bits of its
/// amount and a 32-bit shift the low five, so SLLI by 64 and SLLIW by 32 act as
/// shifts by zero, as do SLL by 64 and SLLW by 32.
pub proof fn lemma_shift_amount_masked(funct7: u32, a: u64)
    ensures
        alu_imm(1, funct7, a, 64) == alu_imm(1, funct7, a, 0),
        alu_imm(1, funct7, a, 0) == Some(a),
        alu_imm_w(1, funct7, a, 32) == alu_imm_w(1, funct7, a, 0),
        alu_imm_w(1, funct7, a, 0) == Some(sext32(a)),
        alu_reg(1, 0, a, 64) == alu_reg(1, 0, a, 0),
        alu_reg_w(1, 0, a, 32) == alu_reg_w(1, 0, a, 0),
{
    assert(64u64 & 0x3f == 0 && 32u64 & 0x1f == 0 && 0u64 & 0x3f == 0 && 0u64 & 0x1f == 0)
        by (bit_vector);
    assert(a << 0u64 == a) by (bit_vector);
}

/// An arithmetic right shift keeps the sign bit, by any amount; in particular
/// SRAI of `0x8000_0000_0000_0000` by 63 gives all ones.
pub proof fn lemma_sra_keeps_sign(a: u64, s: u64)
    requires
        s < 64,
    ensures
        sra(a, s) >> 63u64 == a >> 63u64,
        alu_imm(5, 0x20, 0x8000_0000_0000_0000, 63) == Some(0xFFFF_FFFF_FFFF_FFFFu64),
{
    assert(sra(a, s) >> 63u64 == a >> 63u64) by (bit_vector)
        requires
            s < 64,
    ;
    assert(63u64 & 0x3f == 63 && 0x20u32 >> 1u32 == 0x10) by (bit_vector);
    assert(sra(0x8000_0000_0000_0000, 63) == 0xFFFF_FFFF_FFFF_FFFFu64) by (bit_vector);
}

/// A taken branch moves `pc` by exactly its B-immediate, measured from the
/// branch's own address: one turn of the loop at `m.pc` that fetches a taken
/// branch ends with `pc` at `m.pc + imm_b` (modulo 2^64).
pub proof fn lemma_branch_target(m: Machine)
    requires
        m.mem.len() == DRAM_SIZE,
        mem_load(m.mem, m.pc, 32) is Some,
        opcode(mem_load(m.mem, m.pc, 32)->Some_0 as u32) == 0x63,
        branch_taken(
            funct3(mem_load(m.mem, m.pc, 32)->Some_0 as u32),
            clear_x0(m).regs[rs1(mem_load(m.mem, m.pc, 32)->Some_0 as u32) as int],
            clear_x0(m).regs[rs2(mem_load(m.mem, m.pc, 32)->Some_0 as u32) as int],
        ) == Some(true),
    ensures
        cycle(m).0.pc == wrap64(m.pc + imm_b(mem_load(m.mem, m.pc, 32)->Some_0 as u32)),
{
    let inst = mem_load(m.mem, m.pc, 32)->Some_0 as u32;
    assert(wrap64(m.pc + 4) == m.pc + 4);
    let advanced = Machine { pc: wrap64(m.pc + 4), ..m };
    assert(clear_x0(advanced).regs == clear_x0(m).regs);
    assert(step(advanced, inst) == Some(branch_op(clear_x0(advanced), inst)));
}

/// `a + b` modulo 2^64.
pub(crate) fn add64(a: u64, b: u64) -> (r: u64)
    ensures
        r == wrap64(a + b),
{
    a.wrapping_add(b)
}

/// `a - b` modulo 2^64.
pub(crate) fn sub64(a: u64, b: u64) -> (r: u64)
    ensures
        r == wrap64(a - b),
{
    a.wrapping_sub(b)
}

/// `a * b` modulo 2^64.
pub(crate) fn mul64(a: u64, b: u64) -> (r: u64)
    ensures
        r == wrap64(a * b),
{
    a.wrapping_mul(b)
}

/// Sign-extends the low `w` bits of `v`.
pub(crate) fn sign_extend(v: u64, w: u64) -> (r: u64)
    requires
        1 <= w < 64,
    ensures
        r == sext(v, w),
{
    if (v >> (w - 1)) & 1 == 0 {
        v
    } else {
        v | (0xFFFF_FFFF_FFFF_FFFFu64 << w)
    }
}

/// The low 32 bits of `x`, sign-extended.
pub(crate) fn sign_extend32(x: u64) -> (r: u64)
    ensures
        r == sext32(x),
{
    sign_extend(x & 0xFFFF_FFFF, 32)
}

/// Whether `a < b` as two's-complement numbers.
pub(crate) fn signed_less(a: u64, b: u64) -> (r: bool)
    ensures
        r == (signed(a) < signed(b)),
{
    let sa = a >> 63u64;
    let sb = b >> 63u64;
    proof {
        assert(sa <= 1 && (sa == 0 <==> a < 0x8000_0000_0000_0000)) by (bit_vector)
            requires
                sa == a >> 63u64,
        ;
        assert(sb <= 1 && (sb == 0 <==> b < 0x8000_0000_0000_0000)) by (bit_vector)
            requires
                sb == b >> 63u64,
        ;
    }
    if sa == sb {
        a < b
    } else {
        sa != 0
    }
}

/// Arithmetic right shift of `a` by `s`.
pub(crate) fn shift_right_arith(a: u64, s: u64) -> (r: u64)
    requires
        s < 64,
    ensures
        r == sra(a, s),
{
    if a >> 63u64 == 0 {
        a >> s
    } else {
        !((!a) >> s)
    }
}

/// The I-type immediate of `inst`.
pub(crate) fn decode_imm_i(inst: u32) -> (r: u64)
    ensures
        r == imm_i(inst),
{
    sign_extend((inst >> 20u32) as u64, 12)
}

/// The S-type immediate of `inst`.
pub(crate) fn decode_imm_s(inst: u32) -> (r: u64)
    ensures
        r == imm_s(inst),
{
    sign_extend((((inst >> 25u32) << 5u32) | ((inst >> 7u32) & 0x1f)) as u64, 12)
}

/// The B-type immediate of `inst`.
pub(crate) fn decode_imm_b(inst: u32) -> (r: u64)
    ensures
        r == imm_b(inst),
{
    let raw = (((inst >> 31u32) & 1) << 12u32) | (((inst >> 7u32) & 1) << 11u32) | (((inst
        >> 25u32) & 0x3f) << 5u32) | (((inst >> 8u32) & 0xf) << 1u32);
    sign_extend(raw as u64, 13)
}

/// The U-type immediate of `inst`.
pub(crate) fn decode_imm_u(inst: u32) -> (r: u64)
    ensures
        r == imm_u(inst),
{
    sign_extend((inst & 0xFFFF_F000) as u64, 32)
}

/// The J-type immediate of `inst`.
pub(crate) fn decode_imm_j(inst: u32) -> (r: u64)
    ensures
        r == imm_j(inst),
{
    let raw = (((inst >> 31u32) & 1) << 20u32) | (((inst >> 12u32) & 0xff) << 12u32) | (((inst
        >> 20u32) & 1) << 11u32) | (((inst >> 21u32) & 0x3ff) << 1u32);
    sign_extend(raw as u64, 21)
}

/// Low six bits of `x`: a shift amount for a 64-bit shift.
pub(crate) fn shamt6(x: u64) -> (r: u64)
    ensures
        r == x & 0x3f,
        r < 64,
{
    assert(x & 0x3f < 64) by (bit_vector);
    x & 0x3f
}

/// Low five bits of `x`: a shift amount for a 32-bit shift.
pub(crate) fn shamt5(x: u64) -> (r: u64)
    ensures
        r == x & 0x1f,
        r < 32,
{
    assert(x & 0x1f < 32) by (bit_vector);
    x & 0x1f
}

/// Executable form of [`alu_imm`].
pub(crate) fn compute_alu_imm(funct3: u32, funct7: u32, a: u64, imm: u64) -> (r: Option<u64>)
    ensures
        r == alu_imm(funct3, funct7, a, imm),
{
    let shamt = shamt6(imm);
    if funct3 == 0 {
        Some(add64(a, imm))
    } else if funct3 == 1 {
        Some(a << shamt)
    } else if funct3 == 2 {
        Some(if signed_less(a, imm) { 1 } else { 0 })
    } else if funct3 == 3 {
        Some(if a < imm { 1 } else { 0 })
    } else if funct3 == 4 {
        Some(a ^ imm)
    } else if funct3 == 5 {
        if funct7 >> 1u32 == 0 {
            Some(a >> shamt)
        } else if funct7 >> 1u32 == 0x10 {
            Some(shift_right_arith(a, shamt))
        } else {
            None
        }
    } else if funct3 == 6 {
        Some(a | imm)
    } else if funct3 == 7 {
        Some(a & imm)
    } else {
        None
    }
}

/// Executable form of [`alu_imm_w`].
pub(crate) fn compute_alu_imm_w(funct3: u32, funct7: u32, a: u64, imm: u64) -> (r: Option<u64>)
    ensures
        r == alu_imm_w(funct3, funct7, a, imm),
{
    let shamt = shamt5(imm);
    if funct3 == 0 {
        Some(sign_extend32(add64(a, imm)))
    } else if funct3 == 1 {
        Some(sign_extend32(a << shamt))
    } else if funct3 == 5 && funct7 == 0 {
        Some(sign_extend32((a & 0xFFFF_FFFF) >> shamt))
    } else if funct3 == 5 && funct7 == 0x20 {
        Some(shift_right_arith(sign_extend32(a), shamt))
    } else {
        None
    }
}

/// Executable form of [`alu_reg`].
pub(crate) fn compute_alu_reg(funct3: u32, funct7: u32, a: u64, b: u64) -> (r: Option<u64>)
    ensures
        r == alu_reg(funct3, funct7, a, b),
{
    let shamt = shamt6(b);
    if funct3 == 0 && funct7 == 0 {
        Some(add64(a, b))
    } else if funct3 == 0 && funct7 == 0x01 {
        Some(mul64(a, b))
    } else if funct3 == 0 && funct7 == 0x20 {
        Some(sub64(a, b))
    } else if funct3 == 1 && funct7 == 0 {
        Some(a << shamt)
    } else if funct3 == 2 && funct7 == 0 {
        Some(if signed_less(a, b) { 1 } else { 0 })
    } else if funct3 == 3 && funct7 == 0 {
        Some(if a < b { 1 } else { 0 })
    } else if funct3 == 4 && funct7 == 0 {
        Some(a ^ b)
    } else if funct3 == 5 && funct7 == 0 {
        Some(a >> shamt)
    } else if funct3 == 5 && funct7 == 0x20 {
        Some(shift_right_arith(a, shamt))
    } else if funct3 == 6 && funct7 == 0 {
        Some(a | b)
    } else if funct3 == 7 && funct7 == 0 {
        Some(a & b)
    } else {
        None
    }
}

/// Executable form of [`alu_reg_w`].
pub(crate) fn compute_alu_reg_w(funct3: u32, funct7: u32, a: u64, b: u64) -> (r: Option<u64>)
    ensures
        r == alu_reg_w(funct3, funct7, a, b),
{
    let shamt = shamt5(b);
    if funct3 == 0 && funct7 == 0 {
        Some(sign_extend32(add64(a, b)))
    } else if funct3 == 0 && funct7 == 0x20 {
        Some(sign_extend32(sub64(a, b)))
    } else if funct3 == 1 && funct7 == 0 {
        Some(sign_extend32(a << shamt))
    } else if funct3 == 5 && funct7 == 0 {
        Some(sign_extend32((a & 0xFFFF_FFFF) >> shamt))
    } else if funct3 == 5 && funct7 == 0x20 {
        Some(shift_right_arith(sign_extend32(a), shamt))
    } else {
        None
    }
}

/// Executable form of [`branch_taken`].
pub(crate) fn compute_branch_taken(funct3: u32, a: u64, b: u64) -> (r: Option<bool>)
    ensures
        r == branch_taken(funct3, a, b),
{
    if funct3 == 0 {
        Some(a == b)
    } else if funct3 == 1 {
        Some(a != b)
    } else if funct3 == 4 {
        Some(signed_less(a, b))
    } else if funct3 == 5 {
        Some(!signed_less(a, b))
    } else if funct3 == 6 {
        Some(a < b)
    } else if funct3 == 7 {
        Some(a >= b)
    } else {
        None
    }
}

/// Executable form of [`load_width`].
pub(crate) fn compute_load_width(funct3: u32) -> (r: Option<u64>)
    ensures
        r == load_width(funct3),
{
    if funct3 == 0 || funct3 == 4 {
        Some(8)
    } else if funct3 == 1 || funct3 == 5 {
        Some(16)
    } else if funct3 == 2 || funct3 == 6 {
        Some(32)
    } else if funct3 == 3 {
        Some(64)
    } else {
        None
    }
}

/// Executable form of [`load_extend`].
pub(crate) fn compute_load_extend(funct3: u32, raw: u64) -> (r: u64)
    ensures
        r == load_extend(funct3, raw),
{
    if funct3 == 0 {
        sign_extend(raw, 8)
    } else if funct3 == 1 {
        sign_extend(raw, 16)
    } else if funct3 == 2 {
        sign_extend(raw, 32)
    } else {
        raw
    }
}

/// Executable form of [`store_width`].
pub(crate) fn compute_store_width(funct3: u32) -> (r: Option<u64>)
    ensures
        r == store_width(funct3),
{
    if funct3 == 0 {
        Some(8)
    } else if funct3 == 1 {
        Some(16)
    } else if funct3 == 2 {
        Some(32)
    } else if funct3 == 3 {
        Some(64)
    } else {
        None
    }
}

/// A five-bit register index field of `inst`, starting at bit `lo`.
pub(crate) fn reg_field(inst: u32, lo: u32) -> (r: u32)
    requires
        lo < 32,
    ensures
        r == (inst >> lo) & 0x1f,
        r < 32,
{
    let r = (inst >> lo) & 0x1f;
    assert(r < 32) by (bit_vector)
        requires
            r == (inst >> lo) & 0x1f,
    ;
    r
}

} // verus!
