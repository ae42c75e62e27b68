//! The hart: registers, program counter and bus, and the interpreter.
use crate::bus::Bus;
use crate::dram::{initial_memory, mem_load, mem_store, DRAM_BASE, DRAM_SIZE};
use crate::isa::{
    add64, branch_op, clear_x0, compute_alu_imm, compute_alu_imm_w, compute_alu_reg,
    compute_alu_reg_w, compute_branch_taken, compute_load_extend, compute_load_width,
    compute_store_width, control_op, cycle, decode_imm_b, decode_imm_i, decode_imm_j, decode_imm_s,
    decode_imm_u, is_control, jal_op, jalr_op, lemma_step_keeps_x0_zero, load_op, opcode,
    reg_field, reg_result, run_for, step, store_op, sub64, wrap64, write_reg, Machine,
};
use vstd::prelude::*;

verus! {

/// The state a hart starts in: `pc` at `DRAM_BASE`, the stack pointer (register 2)
/// at the top of memory, every other register zero, the image loaded.
pub open spec fn initial_state(image: Seq<u8>) -> Machine {
    Machine {
        regs: Seq::new(32, |i: int| if i == 2 { (DRAM_BASE + DRAM_SIZE) as u64 } else { 0u64 }),
        pc: DRAM_BASE,
        mem: initial_memory(image),
    }
}

/// A single hart: 32 integer registers, the program counter, and the bus it
/// reaches memory through.
pub struct Cpu {
    pub regs: [u64; 32],
    pub pc: u64,
    pub bus: Bus,
}

impl Cpu {
    /// The architectural state that this hart holds.
    pub open spec fn state(&self) -> Machine {
        Machine { regs: self.regs@, pc: self.pc, mem: self.bus@ }
    }

    /// The bus holds a memory of the full size.
    pub open spec fn wf(&self) -> bool {
        self.bus.wf()
    }

    /// A hart about to run `binary`, loaded at `DRAM_BASE`.
    pub fn new(binary: Vec<u8>) -> (r: Self)
        requires
            binary@.len() <= DRAM_SIZE,
        ensures
            r.wf(),
            r.state() == initial_state(binary@),
    {
        let mut regs = [0u64; 32];
        regs[2] = DRAM_BASE + DRAM_SIZE;
        let r = Cpu { regs, pc: DRAM_BASE, bus: Bus::new(binary) };
        assert(r.regs@ =~= initial_state(binary@).regs);
        r
    }

    /// Loads `size` bits at `addr` through the bus.
    pub fn load(&mut self, addr: u64, size: u64) -> (r: Result<u64, ()>)
        requires
            old(self).wf(),
        ensures
            *final(self) == *old(self),
            r is Ok <==> mem_load(old(self).bus@, addr, size) is Some,
            r is Ok ==> r->Ok_0 == mem_load(old(self).bus@, addr, size)->Some_0,
    {
        self.bus.load(addr, size)
    }

    /// Stores the low `size` bits of `value` at `addr` through the bus.
    pub fn store(&mut self, addr: u64, size: u64, value: u64) -> (r: Result<(), ()>)
        requires
            old(self).wf(),
        ensures
            final(self).wf(),
            final(self).regs == old(self).regs,
            final(self).pc == old(self).pc,
            r is Ok <==> mem_store(old(self).bus@, addr, size, value) is Some,
            r is Ok ==> final(self).bus@ == mem_store(old(self).bus@, addr, size, value)->Some_0,
            r is Err ==> final(self).bus@ == old(self).bus@,
    {
        self.bus.store(addr, size, value)
    }

    /// Reads the 32-bit instruction word at `pc`.
    pub fn fetch(&mut self) -> (r: Result<u64, ()>)
        requires
            old(self).wf(),
        ensures
            *final(self) == *old(self),
            r is Ok <==> mem_load(old(self).bus@, old(self).pc, 32) is Some,
            r is Ok ==> r->Ok_0 == mem_load(old(self).bus@, old(self).pc, 32)->Some_0,
    {
        match self.bus.load(self.pc, 32) {
            Ok(inst) => Ok(inst),
            Err(_) => Err(()),
        }
    }

    /// One turn of the interpreter loop: fetch at `pc`, advance `pc` by 4,
    /// execute. Returns whether the loop goes on: it stops when the fetch or
    /// the instruction fails, or when `pc` has become zero.
    pub fn step(&mut self) -> (go: bool)
        requires
            old(self).wf(),
        ensures
            final(self).wf(),
            (final(self).state(), go) == cycle(old(self).state()),
    {
        let inst = match self.fetch() {
            Ok(inst) => inst,
            Err(_) => return false,
        };
        self.pc = self.pc + 4;
        proof {
            assert(self.state() == Machine { pc: wrap64(old(self).pc + 4), ..old(self).state() });
        }
        match self.execute(inst as u32) {
            Ok(()) => {},
            Err(()) => return false,
        }
        self.pc != 0
    }

    /// Runs the interpreter loop for at most `max_steps` turns. Returns whether
    /// it stopped by itself before that.
    pub fn run(&mut self, max_steps: u64) -> (stopped: bool)
        requires
            old(self).wf(),
        ensures
            final(self).wf(),
            (final(self).state(), stopped) == run_for(old(self).state(), max_steps as nat),
    {
        let mut left: u64 = max_steps;
        while left > 0
            invariant
                self.wf(),
                run_for(old(self).state(), max_steps as nat) == run_for(self.state(), left as nat),
            decreases left,
        {
            if !self.step() {
                return true;
            }
            left = left - 1;
        }
        false
    }

    /// Writes `v` to register `rd`, unless `rd` is register 0.
    fn set_reg(&mut self, rd: u32, v: u64)
        requires
            rd < 32,
        ensures
            final(self).regs@ == write_reg(old(self).regs@, rd, v),
            final(self).pc == old(self).pc,
            final(self).bus == old(self).bus,
    {
        if rd != 0 {
            self.regs[rd as usize] = v;
        }
    }

    /// Executes one instruction; `pc` has already been advanced past it.
    /// Fails, changing nothing but register 0, when a memory access fails.
    pub fn execute(&mut self, instruction: u32) -> (r: Result<(), ()>)
        requires
            old(self).wf(),
        ensures
            final(self).wf(),
            r is Ok <==> step(old(self).state(), instruction) is Some,
            r is Ok ==> final(self).state() == step(old(self).state(), instruction)->Some_0,
            r is Err ==> final(self).state() == clear_x0(old(self).state()),
            final(self).regs@[0] == 0,
    {
        let opcode = instruction & 0x7f;
        self.regs[0] = 0;
        proof {
            assert(self.state() == clear_x0(old(self).state()));
        }
        let r = if opcode == 0x03 {
            self.execute_load(instruction)
        } else if opcode == 0x23 {
            self.execute_store(instruction)
        } else if opcode == 0x63 || opcode == 0x67 || opcode == 0x6f {
            self.execute_control(instruction);
            Ok(())
        } else {
            match self.register_result(instruction) {
                Some(v) => self.set_reg(reg_field(instruction, 7), v),
                None => {},
            }
            Ok(())
        };
        proof {
            lemma_step_keeps_x0_zero(old(self).state(), instruction);
        }
        r
    }

    /// A load instruction.
    fn execute_load(&mut self, inst: u32) -> (r: Result<(), ()>)
        requires
            old(self).wf(),
        ensures
            final(self).wf(),
            r is Ok <==> load_op(old(self).state(), inst) is Some,
            r is Ok ==> final(self).state() == load_op(old(self).state(), inst)->Some_0,
            r is Err ==> *final(self) == *old(self),
    {
        let funct3 = (inst >> 12u32) & 0x7;
        let a = self.regs[reg_field(inst, 15) as usize];
        let addr = add64(a, decode_imm_i(inst));
        match compute_load_width(funct3) {
            Some(size) => match self.load(addr, size) {
                Ok(raw) => {
                    self.set_reg(reg_field(inst, 7), compute_load_extend(funct3, raw));
                    Ok(())
                },
                Err(_) => Err(()),
            },
            None => Ok(()),
        }
    }

    /// A store instruction.
    fn execute_store(&mut self, inst: u32) -> (r: Result<(), ()>)
        requires
            old(self).wf(),
        ensures
            final(self).wf(),
            r is Ok <==> store_op(old(self).state(), inst) is Some,
            r is Ok ==> final(self).state() == store_op(old(self).state(), inst)->Some_0,
            r is Err ==> final(self).state() == old(self).state(),
    {
        let funct3 = (inst >> 12u32) & 0x7;
        let a = self.regs[reg_field(inst, 15) as usize];
        let b = self.regs[reg_field(inst, 20) as usize];
        let addr = add64(a, decode_imm_s(inst));
        match compute_store_width(funct3) {
            Some(size) => self.store(addr, size, b),
            None => Ok(()),
        }
    }

    /// A branch or a jump.
    fn execute_control(&mut self, inst: u32)
        requires
            old(self).wf(),
            is_control(opcode(inst)),
        ensures
            final(self).wf(),
            final(self).state() == control_op(old(self).state(), inst),
    {
        let opcode = inst & 0x7f;
        if opcode == 0x63 {
            self.execute_branch(inst);
        } else if opcode == 0x67 {
            self.execute_jalr(inst);
        } else {
            self.execute_jal(inst);
        }
    }

    /// A conditional branch.
    fn execute_branch(&mut self, inst: u32)
        requires
            old(self).wf(),
        ensures
            final(self).wf(),
            final(self).state() == branch_op(old(self).state(), inst),
    {
        let a = self.regs[reg_field(inst, 15) as usize];
        let b = self.regs[reg_field(inst, 20) as usize];
        match compute_branch_taken((inst >> 12u32) & 0x7, a, b) {
            Some(true) => {
                self.pc = sub64(add64(self.pc, decode_imm_b(inst)), 4);
            },
            _ => {},
        }
    }

    /// JALR.
    fn execute_jalr(&mut self, inst: u32)
        requires
            old(self).wf(),
        ensures
            final(self).wf(),
            final(self).state() == jalr_op(old(self).state(), inst),
    {
        let t = self.pc;
        let a = self.regs[reg_field(inst, 15) as usize];
        self.pc = add64(a, decode_imm_i(inst)) & 0xFFFF_FFFF_FFFF_FFFE;
        self.set_reg(reg_field(inst, 7), t);
    }

    /// JAL.
    fn execute_jal(&mut self, inst: u32)
        requires
            old(self).wf(),
        ensures
            final(self).wf(),
            final(self).state() == jal_op(old(self).state(), inst),
    {
        let t = self.pc;
        self.pc = sub64(add64(self.pc, decode_imm_j(inst)), 4);
        self.set_reg(reg_field(inst, 7), t);
    }

    /// The value that an instruction which only writes a register computes.
    fn register_result(&self, inst: u32) -> (r: Option<u64>)
        ensures
            r == reg_result(self.state(), inst),
    {
        let opcode = inst & 0x7f;
        let funct3 = (inst >> 12u32) & 0x7;
        let funct7 = (inst >> 25u32) & 0x7f;
        let a = self.regs[reg_field(inst, 15) as usize];
        let b = self.regs[reg_field(inst, 20) as usize];
        if opcode == 0x13 {
            compute_alu_imm(funct3, funct7, a, decode_imm_i(inst))
        } else if opcode == 0x17 {
            Some(sub64(add64(self.pc, decode_imm_u(inst)), 4))
        } else if opcode == 0x1b {
            compute_alu_imm_w(funct3, funct7, a, decode_imm_i(inst))
        } else if opcode == 0x33 {
            compute_alu_reg(funct3, funct7, a, b)
        } else if opcode == 0x37 {
            Some(decode_imm_u(inst))
        } else if opcode == 0x3b {
            compute_alu_reg_w(funct3, funct7, a, b)
        } else {
            None
        }
    }
}

} // verus!
