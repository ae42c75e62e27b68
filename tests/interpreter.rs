use riscv_emu::bus::Bus;
use riscv_emu::cpu::Cpu;
use riscv_emu::dram::{Dram, DRAM_BASE, DRAM_SIZE};

fn r_type(funct7: u32, rs2: u32, rs1: u32, funct3: u32, rd: u32, opcode: u32) -> u32 {
    (funct7 << 25) | (rs2 << 20) | (rs1 << 15) | (funct3 << 12) | (rd << 7) | opcode
}

fn i_type(imm: i32, rs1: u32, funct3: u32, rd: u32, opcode: u32) -> u32 {
    (((imm as u32) & 0xfff) << 20) | (rs1 << 15) | (funct3 << 12) | (rd << 7) | opcode
}

fn s_type(imm: i32, rs2: u32, rs1: u32, funct3: u32) -> u32 {
    let imm = imm as u32;
    (((imm >> 5) & 0x7f) << 25) | (rs2 << 20) | (rs1 << 15) | (funct3 << 12) | ((imm & 0x1f) << 7)
        | 0x23
}

fn b_type(imm: i32, rs2: u32, rs1: u32, funct3: u32) -> u32 {
    let imm = imm as u32;
    (((imm >> 12) & 1) << 31)
        | (((imm >> 5) & 0x3f) << 25)
        | (rs2 << 20)
        | (rs1 << 15)
        | (funct3 << 12)
        | (((imm >> 1) & 0xf) << 8)
        | (((imm >> 11) & 1) << 7)
        | 0x63
}

fn u_type(imm20: u32, rd: u32, opcode: u32) -> u32 {
    (imm20 << 12) | (rd << 7) | opcode
}

fn j_type(imm: i32, rd: u32) -> u32 {
    let imm = imm as u32;
    (((imm >> 20) & 1) << 31)
        | (((imm >> 1) & 0x3ff) << 21)
        | (((imm >> 11) & 1) << 20)
        | (((imm >> 12) & 0xff) << 12)
        | (rd << 7)
        | 0x6f
}

fn addi(rd: u32, rs1: u32, imm: i32) -> u32 {
    i_type(imm, rs1, 0, rd, 0x13)
}

/// `jalr x0, 0(x0)`: jumps to address zero, which ends the run.
fn halt() -> u32 {
    i_type(0, 0, 0, 0, 0x67)
}

fn image(words: &[u32]) -> Vec<u8> {
    let mut bytes = Vec::new();
    for w in words {
        bytes.extend_from_slice(&w.to_le_bytes());
    }
    bytes
}

fn run_program(words: &[u32]) -> Cpu {
    let mut cpu = Cpu::new(image(words));
    assert!(cpu.run(10_000));
    cpu
}

#[test]
fn new_cpu_initial_state() {
    let mut cpu = Cpu::new(vec![0x13, 0x05, 0x10, 0x00]);
    assert_eq!(cpu.pc, DRAM_BASE);
    assert_eq!(cpu.regs[2], DRAM_BASE + DRAM_SIZE);
    for i in 0..32 {
        if i != 2 {
            assert_eq!(cpu.regs[i], 0);
        }
    }
    assert_eq!(cpu.fetch(), Ok(0x0010_0513));
    assert_eq!(cpu.load(DRAM_BASE + 4, 32), Ok(0));
    assert_eq!(cpu.load(DRAM_BASE + DRAM_SIZE - 8, 64), Ok(0));
}

#[test]
fn addi_chain() {
    let cpu = run_program(&[addi(1, 0, 5), addi(2, 1, 37), halt()]);
    assert_eq!(cpu.regs[1], 5);
    assert_eq!(cpu.regs[2], 42);
    assert_eq!(cpu.pc, 0);
}

#[test]
fn lui_addi_builds_constant() {
    let cpu = run_program(&[u_type(0x12345, 5, 0x37), addi(5, 5, 0x678), halt()]);
    assert_eq!(cpu.regs[5], 0x0000_0000_1234_5678);
}

#[test]
fn lui_sign_extends() {
    let cpu = run_program(&[u_type(0x80000, 5, 0x37), halt()]);
    assert_eq!(cpu.regs[5], 0xFFFF_FFFF_8000_0000);
}

#[test]
fn auipc_relative_address() {
    let mut cpu = Cpu::new(image(&[u_type(0x1, 6, 0x17)]));
    assert!(cpu.step());
    assert_eq!(cpu.regs[6], 0x8000_1000);
    assert_eq!(cpu.pc, 0x8000_0004);
}

#[test]
fn store_load_round_trip_on_stack() {
    let cpu = run_program(&[
        addi(7, 0, -1),
        s_type(-8, 7, 2, 3),
        i_type(-8, 2, 3, 8, 0x03),
        halt(),
    ]);
    assert_eq!(cpu.regs[8], 0xFFFF_FFFF_FFFF_FFFF);
}

#[test]
fn signed_and_unsigned_compare() {
    let cpu = run_program(&[
        addi(1, 0, -1),
        addi(2, 0, 1),
        r_type(0, 2, 1, 2, 3, 0x33),
        r_type(0, 2, 1, 3, 4, 0x33),
        halt(),
    ]);
    assert_eq!(cpu.regs[1], 0xFFFF_FFFF_FFFF_FFFF);
    assert_eq!(cpu.regs[3], 1);
    assert_eq!(cpu.regs[4], 0);
}

#[test]
fn branch_and_jal_loop_sums_to_45() {
    // x1 = i, x2 = 10, x3 = sum
    let cpu = run_program(&[
        addi(1, 0, 0),
        addi(2, 0, 10),
        addi(3, 0, 0),
        b_type(16, 2, 1, 0),                 // loop: beq x1, x2, end
        r_type(0, 1, 3, 0, 3, 0x33),         // add x3, x3, x1
        addi(1, 1, 1),                       // addi x1, x1, 1
        j_type(-12, 0),                      // jal x0, loop
        halt(),                              // end
    ]);
    assert_eq!(cpu.regs[3], 45);
    assert_eq!(cpu.regs[1], 10);
}

#[test]
fn register_zero_stays_zero() {
    let mut cpu = Cpu::new(image(&[addi(0, 0, 5), u_type(0x12345, 0, 0x37), j_type(8, 0)]));
    assert!(cpu.step());
    assert_eq!(cpu.regs[0], 0);
    assert!(cpu.step());
    assert_eq!(cpu.regs[0], 0);
    assert!(cpu.step());
    assert_eq!(cpu.regs[0], 0);
    assert_eq!(cpu.pc, DRAM_BASE + 16);
}

#[test]
fn execute_clears_register_zero_first() {
    let mut cpu = Cpu::new(Vec::new());
    cpu.regs[0] = 99;
    cpu.pc = DRAM_BASE + 4;
    assert_eq!(cpu.execute(addi(1, 0, 1)), Ok(()));
    assert_eq!(cpu.regs[0], 0);
    assert_eq!(cpu.regs[1], 1);
}

#[test]
fn dram_store_then_load_keeps_low_bits() {
    let mut dram = Dram::new(Vec::new());
    let v = 0x1122_3344_5566_7788u64;
    let a = DRAM_BASE + 0x100;
    assert_eq!(dram.store(a, 8, v), Ok(()));
    assert_eq!(dram.load(a, 8), Ok(0x88));
    assert_eq!(dram.store(a, 16, v), Ok(()));
    assert_eq!(dram.load(a, 16), Ok(0x7788));
    assert_eq!(dram.store(a, 32, v), Ok(()));
    assert_eq!(dram.load(a, 32), Ok(0x5566_7788));
    assert_eq!(dram.store(a, 64, 5), Ok(()));
    assert_eq!(dram.store(a, 64, v), Ok(()));
    assert_eq!(dram.load(a, 64), Ok(v));
}

#[test]
fn store64_bytes_are_little_endian() {
    let mut bus = Bus::new(Vec::new());
    let v = 0x0123_4567_89AB_CDEFu64;
    let a = DRAM_BASE + 0x2001;
    assert_eq!(bus.store(a, 64, v), Ok(()));
    for i in 0..8u64 {
        assert_eq!(bus.load(a + i, 8), Ok((v >> (8 * i)) & 0xff));
    }
    assert_eq!(bus.load(a, 16), Ok(0xCDEF));
    assert_eq!(bus.load(a + 1, 32), Ok(0x6789_ABCD));
}

#[test]
fn dram_new_places_image_at_base() {
    let dram = Dram::new(vec![1, 2, 3]);
    assert_eq!(dram.load(DRAM_BASE, 32), Ok(0x0003_0201));
    assert_eq!(dram.dram.len() as u64, DRAM_SIZE);
}

#[test]
fn memory_rejects_bad_width_and_range() {
    let mut dram = Dram::new(Vec::new());
    assert_eq!(dram.load(DRAM_BASE, 12), Err(()));
    assert_eq!(dram.store(DRAM_BASE, 0, 1), Err(()));
    assert_eq!(dram.load(DRAM_BASE - 1, 8), Err(()));
    assert_eq!(dram.load(DRAM_BASE + DRAM_SIZE - 1, 8), Ok(0));
    assert_eq!(dram.load(DRAM_BASE + DRAM_SIZE - 1, 16), Err(()));
    assert_eq!(dram.store(DRAM_BASE + DRAM_SIZE - 4, 64, 1), Err(()));
    assert_eq!(dram.load(DRAM_BASE + DRAM_SIZE - 8, 64), Ok(0));
}

#[test]
fn bus_rejects_unmapped_addresses() {
    let mut bus = Bus::new(Vec::new());
    assert_eq!(bus.load(0, 8), Err(()));
    assert_eq!(bus.load(DRAM_BASE + DRAM_SIZE, 8), Err(()));
    assert_eq!(bus.store(u64::MAX, 8, 1), Err(()));
    assert_eq!(bus.load(DRAM_BASE, 8), Ok(0));
}

#[test]
fn signed_loads_sign_extend() {
    let mut cpu = Cpu::new(Vec::new());
    let a = DRAM_BASE + 0x1000;
    assert_eq!(cpu.store(a, 8, 0xff), Ok(()));
    cpu.regs[10] = a;
    cpu.pc = DRAM_BASE + 4;
    assert_eq!(cpu.execute(i_type(0, 10, 0, 11, 0x03)), Ok(())); // lb
    assert_eq!(cpu.regs[11], 0xFFFF_FFFF_FFFF_FFFF);
    assert_eq!(cpu.execute(i_type(0, 10, 4, 12, 0x03)), Ok(())); // lbu
    assert_eq!(cpu.regs[12], 0xff);
    assert_eq!(cpu.store(a, 16, 0xffff), Ok(()));
    assert_eq!(cpu.execute(i_type(0, 10, 1, 13, 0x03)), Ok(())); // lh
    assert_eq!(cpu.regs[13], 0xFFFF_FFFF_FFFF_FFFF);
    assert_eq!(cpu.execute(i_type(0, 10, 5, 14, 0x03)), Ok(())); // lhu
    assert_eq!(cpu.regs[14], 0xffff);
    assert_eq!(cpu.store(a, 32, 0x8000_0001), Ok(()));
    assert_eq!(cpu.execute(i_type(0, 10, 2, 15, 0x03)), Ok(())); // lw
    assert_eq!(cpu.regs[15], 0xFFFF_FFFF_8000_0001);
    assert_eq!(cpu.execute(i_type(0, 10, 6, 16, 0x03)), Ok(())); // lwu
    assert_eq!(cpu.regs[16], 0x8000_0001);
}

#[test]
fn load_fault_stops_the_run() {
    let mut cpu = Cpu::new(image(&[i_type(0, 0, 3, 5, 0x03), addi(6, 0, 1)]));
    assert!(!cpu.step());
    assert_eq!(cpu.regs[5], 0);
    assert_eq!(cpu.pc, DRAM_BASE + 4);
    assert_eq!(cpu.execute(s_type(0, 5, 0, 2)), Err(()));
}

#[test]
fn fetch_outside_memory_stops() {
    let mut cpu = Cpu::new(Vec::new());
    cpu.pc = 0x1000;
    assert_eq!(cpu.fetch(), Err(()));
    assert!(!cpu.step());
    assert_eq!(cpu.pc, 0x1000);
}

#[test]
fn shift_amounts_are_masked() {
    let mut cpu = Cpu::new(Vec::new());
    cpu.pc = DRAM_BASE + 4;
    cpu.regs[1] = 0x8000_0000_0000_0003;
    assert_eq!(cpu.execute(i_type(64, 1, 1, 2, 0x13)), Ok(())); // slli x2, x1, 64
    assert_eq!(cpu.regs[2], 0x8000_0000_0000_0003);
    assert_eq!(cpu.execute(i_type(1, 1, 1, 3, 0x13)), Ok(())); // slli x3, x1, 1
    assert_eq!(cpu.regs[3], 6);
    cpu.regs[4] = 0x0000_0000_8000_0003;
    assert_eq!(cpu.execute(i_type(32, 4, 1, 5, 0x1b)), Ok(())); // slliw x5, x4, 32
    assert_eq!(cpu.regs[5], 0xFFFF_FFFF_8000_0003);
    cpu.regs[6] = 64;
    assert_eq!(cpu.execute(r_type(0, 6, 1, 1, 7, 0x33)), Ok(())); // sll x7, x1, x6
    assert_eq!(cpu.regs[7], 0x8000_0000_0000_0003);
}

#[test]
fn arithmetic_shift_keeps_sign() {
    let mut cpu = Cpu::new(Vec::new());
    cpu.pc = DRAM_BASE + 4;
    cpu.regs[1] = 0x8000_0000_0000_0000;
    assert_eq!(cpu.execute(i_type(0x400 | 63, 1, 5, 2, 0x13)), Ok(())); // srai x2, x1, 63
    assert_eq!(cpu.regs[2], 0xFFFF_FFFF_FFFF_FFFF);
    assert_eq!(cpu.execute(i_type(63, 1, 5, 3, 0x13)), Ok(())); // srli x3, x1, 63
    assert_eq!(cpu.regs[3], 1);
    cpu.regs[4] = 0x0000_0000_8000_0000;
    assert_eq!(cpu.execute(i_type(0x400 | 4, 4, 5, 5, 0x1b)), Ok(())); // sraiw x5, x4, 4
    assert_eq!(cpu.regs[5], 0xFFFF_FFFF_F800_0000);
    assert_eq!(cpu.execute(i_type(4, 4, 5, 6, 0x1b)), Ok(())); // srliw x6, x4, 4
    assert_eq!(cpu.regs[6], 0x0800_0000);
    cpu.regs[7] = 4;
    assert_eq!(cpu.execute(r_type(0x20, 7, 1, 5, 8, 0x33)), Ok(())); // sra x8, x1, x7
    assert_eq!(cpu.regs[8], 0xF800_0000_0000_0000);
    assert_eq!(cpu.execute(r_type(0x20, 7, 4, 5, 9, 0x3b)), Ok(())); // sraw x9, x4, x7
    assert_eq!(cpu.regs[9], 0xFFFF_FFFF_F800_0000);
}

#[test]
fn taken_branch_is_relative_to_its_own_address() {
    let mut cpu = Cpu::new(image(&[addi(0, 0, 0), b_type(-4, 0, 0, 0)]));
    assert!(cpu.step());
    assert!(cpu.step());
    assert_eq!(cpu.pc, DRAM_BASE);
    let mut cpu = Cpu::new(image(&[b_type(0x800, 0, 0, 0)]));
    assert!(cpu.step());
    assert_eq!(cpu.pc, DRAM_BASE + 0x800);
    let mut cpu = Cpu::new(image(&[b_type(8, 0, 0, 1)])); // bne x0, x0: not taken
    assert!(cpu.step());
    assert_eq!(cpu.pc, DRAM_BASE + 4);
}

#[test]
fn branch_conditions() {
    let mut cpu = Cpu::new(Vec::new());
    cpu.regs[1] = 0xFFFF_FFFF_FFFF_FFFF;
    cpu.regs[2] = 1;
    let at = DRAM_BASE + 0x100;
    let cases: [(u32, u32, u32, bool); 6] = [
        (4, 1, 2, true),  // blt -1, 1
        (5, 1, 2, false), // bge -1, 1
        (6, 1, 2, false), // bltu max, 1
        (7, 1, 2, true),  // bgeu max, 1
        (0, 1, 1, true),  // beq
        (1, 1, 2, true),  // bne
    ];
    for (funct3, rs1, rs2, taken) in cases {
        cpu.pc = at + 4;
        assert_eq!(cpu.execute(b_type(-16, rs2, rs1, funct3)), Ok(()));
        assert_eq!(cpu.pc, if taken { at - 16 } else { at + 4 });
    }
}

#[test]
fn jal_and_jalr_link_next_instruction() {
    let mut cpu = Cpu::new(image(&[j_type(8, 1), halt(), i_type(3, 1, 0, 5, 0x67)]));
    assert!(cpu.step());
    assert_eq!(cpu.regs[1], DRAM_BASE + 4);
    assert_eq!(cpu.pc, DRAM_BASE + 8);
    assert!(cpu.step()); // jalr x5, 3(x1): bit 0 of the target is cleared
    assert_eq!(cpu.regs[5], DRAM_BASE + 12);
    assert_eq!(cpu.pc, DRAM_BASE + 6);
}

#[test]
fn register_arithmetic_wraps() {
    let mut cpu = Cpu::new(Vec::new());
    cpu.pc = DRAM_BASE + 4;
    cpu.regs[1] = 0xFFFF_FFFF_FFFF_FFFF;
    cpu.regs[2] = 2;
    cpu.regs[3] = 0x7FFF_FFFF;
    let run = |cpu: &mut Cpu, inst: u32| assert_eq!(cpu.execute(inst), Ok(()));
    run(&mut cpu, r_type(0, 2, 1, 0, 10, 0x33)); // add
    assert_eq!(cpu.regs[10], 1);
    run(&mut cpu, r_type(0x20, 1, 2, 0, 11, 0x33)); // sub 2 - (-1)
    assert_eq!(cpu.regs[11], 3);
    run(&mut cpu, r_type(1, 2, 1, 0, 12, 0x33)); // mul
    assert_eq!(cpu.regs[12], 0xFFFF_FFFF_FFFF_FFFE);
    run(&mut cpu, r_type(0, 2, 3, 0, 13, 0x3b)); // addw overflow
    assert_eq!(cpu.regs[13], 0xFFFF_FFFF_8000_0001);
    run(&mut cpu, r_type(0x20, 3, 0, 0, 14, 0x3b)); // subw 0 - 0x7fffffff
    assert_eq!(cpu.regs[14], 0xFFFF_FFFF_8000_0001);
    run(&mut cpu, i_type(1, 3, 0, 15, 0x1b)); // addiw
    assert_eq!(cpu.regs[15], 0xFFFF_FFFF_8000_0000);
    run(&mut cpu, r_type(0, 2, 3, 1, 16, 0x3b)); // sllw
    assert_eq!(cpu.regs[16], 0xFFFF_FFFF_FFFF_FFFC);
    run(&mut cpu, r_type(0, 2, 1, 5, 17, 0x3b)); // srlw
    assert_eq!(cpu.regs[17], 0x3FFF_FFFF);
    run(&mut cpu, r_type(0, 2, 1, 4, 18, 0x33)); // xor
    assert_eq!(cpu.regs[18], 0xFFFF_FFFF_FFFF_FFFD);
    run(&mut cpu, r_type(0, 2, 1, 6, 19, 0x33)); // or
    assert_eq!(cpu.regs[19], 0xFFFF_FFFF_FFFF_FFFF);
    run(&mut cpu, r_type(0, 2, 1, 7, 20, 0x33)); // and
    assert_eq!(cpu.regs[20], 2);
    run(&mut cpu, r_type(0, 2, 1, 5, 21, 0x33)); // srl
    assert_eq!(cpu.regs[21], 0x3FFF_FFFF_FFFF_FFFF);
}

#[test]
fn immediate_alu_operations() {
    let mut cpu = Cpu::new(Vec::new());
    cpu.pc = DRAM_BASE + 4;
    cpu.regs[1] = 5;
    let run = |cpu: &mut Cpu, inst: u32| assert_eq!(cpu.execute(inst), Ok(()));
    run(&mut cpu, i_type(-1, 1, 2, 2, 0x13)); // slti 5 < -1
    assert_eq!(cpu.regs[2], 0);
    run(&mut cpu, i_type(-1, 1, 3, 3, 0x13)); // sltiu 5 < max
    assert_eq!(cpu.regs[3], 1);
    run(&mut cpu, i_type(-1, 1, 4, 4, 0x13)); // xori
    assert_eq!(cpu.regs[4], 0xFFFF_FFFF_FFFF_FFFA);
    run(&mut cpu, i_type(0x7f0, 1, 6, 5, 0x13)); // ori
    assert_eq!(cpu.regs[5], 0x7f5);
    run(&mut cpu, i_type(-4, 1, 7, 6, 0x13)); // andi
    assert_eq!(cpu.regs[6], 4);
    run(&mut cpu, i_type(-2048, 1, 0, 7, 0x13)); // addi with the most negative immediate
    assert_eq!(cpu.regs[7], 5u64.wrapping_sub(2048));
}

#[test]
fn store_widths_and_negative_offsets() {
    let mut cpu = Cpu::new(Vec::new());
    cpu.pc = DRAM_BASE + 4;
    let a = DRAM_BASE + 0x3000;
    cpu.regs[1] = a + 0x40;
    cpu.regs[2] = 0x1122_3344_5566_7788;
    assert_eq!(cpu.execute(s_type(-0x40, 2, 1, 0)), Ok(())); // sb
    assert_eq!(cpu.load(a, 64), Ok(0x88));
    assert_eq!(cpu.execute(s_type(-0x38, 2, 1, 1)), Ok(())); // sh at a + 8
    assert_eq!(cpu.load(a + 8, 64), Ok(0x7788));
    assert_eq!(cpu.execute(s_type(-0x30, 2, 1, 2)), Ok(())); // sw at a + 16
    assert_eq!(cpu.load(a + 16, 64), Ok(0x5566_7788));
    assert_eq!(cpu.execute(s_type(0x7ff, 2, 1, 3)), Ok(())); // sd at a + 0x83f
    assert_eq!(cpu.load(a + 0x83f, 64), Ok(0x1122_3344_5566_7788));
}

#[test]
fn unknown_instruction_changes_nothing() {
    let mut cpu = Cpu::new(image(&[0xFFFF_FFFF, r_type(0x7f, 1, 1, 0, 5, 0x33), halt()]));
    cpu.regs[5] = 7;
    assert!(cpu.step());
    assert!(cpu.step());
    assert_eq!(cpu.regs[5], 7);
    assert_eq!(cpu.pc, DRAM_BASE + 8);
}

#[test]
fn run_respects_step_limit() {
    let mut cpu = Cpu::new(image(&[j_type(0, 0)])); // jal x0, 0: loops forever
    assert!(!cpu.run(100));
    assert_eq!(cpu.pc, DRAM_BASE);
}
