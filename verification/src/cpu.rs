//! The processor: program counter, register file and bus, and the
//! execution of one instruction at a time.

use vstd::prelude::*;
use crate::alu::{
    alu, bit31, compute, lemma_word_result_sign_extended, lemma_wrap_relative, sign_extend,
    sign_extend_16, sign_extend_32, sign_extend_8, upper_half, wrap64, AluOp,
};
use crate::bus::{
    first_unmapped, in_window, le16, le32, le64, lemma_put16_bytes, lemma_put32_bytes,
    lemma_put64_bytes, lemma_round_trip_16, lemma_round_trip_32, lemma_round_trip_64, put16,
    put32, put64, with_code, Bus, DRAM_BASE,
};
use crate::decode::{decode, decode_spec, lemma_decode_wf, BranchOp, Instr, LoadOp, StoreOp};

verus! {

/// The number of bytes of DRAM that a new processor owns.
pub const DRAM_SIZE: usize = 0x800_0000;

/// Why an instruction cannot be carried out.
#[derive(Clone, Copy, Debug, PartialEq, Eq, Structural)]
pub enum Fault {
    /// A fetch, a load or a store reaches the byte at `addr`, which lies
    /// outside the DRAM window.
    BadMemoryAccess { addr: u64 },
    /// The word `instr` encodes no instruction.
    IllegalInstruction { instr: u32 },
}

/// The privilege level that the processor runs at. There is one: no
/// instruction leaves machine mode.
#[derive(Clone, Copy, Debug, PartialEq, Eq, Structural)]
pub enum Mode {
    Machine,
}

/// The state of the processor as contracts see it.
pub struct State {
    pub pc: u64,
    pub regs: Seq<u64>,
    pub mem: Seq<u8>,
    pub mode: Mode,
    pub halt: bool,
}

impl State {
    /// There are 32 registers, and the first holds zero.
    pub open spec fn wf(self) -> bool {
        self.regs.len() == 32 && self.regs[0] == 0
    }

    /// What register `i` reads as.
    pub open spec fn reg(self, i: u32) -> u64 {
        if i == 0 {
            0
        } else {
            self.regs[i as int]
        }
    }

    /// The state after a write of `v` to register `i`; register 0 ignores it.
    pub open spec fn set_reg(self, i: u32, v: u64) -> State {
        if i == 0 {
            self
        } else {
            State { regs: self.regs.update(i as int, v), ..self }
        }
    }

    /// The state with the program counter at `pc`.
    pub open spec fn jump(self, pc: u64) -> State {
        State { pc, ..self }
    }
}

/// The number of bytes that a load reads.
pub open spec fn load_width(op: LoadOp) -> nat {
    match op {
        LoadOp::Lb | LoadOp::Lbu => 1,
        LoadOp::Lh | LoadOp::Lhu => 2,
        LoadOp::Lw | LoadOp::Lwu => 4,
        LoadOp::Ld => 8,
    }
}

/// The number of bytes that a store writes.
pub open spec fn store_width(op: StoreOp) -> nat {
    match op {
        StoreOp::Sb => 1,
        StoreOp::Sh => 2,
        StoreOp::Sw => 4,
        StoreOp::Sd => 8,
    }
}

/// The register value that a load produces from the bytes of `mem` at index `i`.
pub open spec fn loaded(op: LoadOp, mem: Seq<u8>, i: int) -> u64 {
    match op {
        LoadOp::Lb => sign_extend(mem[i] as u32, 0x80),
        LoadOp::Lh => sign_extend(le16(mem, i) as u32, 0x8000),
        LoadOp::Lw => sign_extend(le32(mem, i) as u32, 0x8000_0000),
        LoadOp::Ld => le64(mem, i) as u64,
        LoadOp::Lbu => mem[i] as u64,
        LoadOp::Lhu => le16(mem, i) as u64,
        LoadOp::Lwu => le32(mem, i) as u64,
    }
}

/// The memory after a store of the low bytes of `v` at index `i`.
pub open spec fn stored(op: StoreOp, mem: Seq<u8>, i: int, v: u64) -> Seq<u8> {
    match op {
        StoreOp::Sb => mem.update(i, (v % 0x100) as u8),
        StoreOp::Sh => put16(mem, i, (v % 0x1_0000) as u16),
        StoreOp::Sw => put32(mem, i, (v % 0x1_0000_0000) as u32),
        StoreOp::Sd => put64(mem, i, v),
    }
}

/// Whether a branch on the register values `a` and `b` is taken.
pub open spec fn branch_taken(op: BranchOp, a: u64, b: u64) -> bool {
    match op {
        BranchOp::Beq => a == b,
        BranchOp::Bne => a != b,
        BranchOp::Blt => (a as i64) < (b as i64),
        BranchOp::Bge => (a as i64) >= (b as i64),
        BranchOp::Bltu => a < b,
        BranchOp::Bgeu => a >= b,
    }
}

/// The fault of an access of `k` bytes at `addr` to a memory of `len`
/// bytes, if it is one: it names the first byte outside the DRAM window.
pub open spec fn memory_fault(len: nat, addr: u64, k: nat) -> Option<Fault> {
    if in_window(len, addr, k) {
        None
    } else {
        Some(Fault::BadMemoryAccess { addr: first_unmapped(len, addr) })
    }
}

/// The memory access that keeps `i` from being executed in state `m`, if any.
pub open spec fn access_fault(m: State, i: Instr) -> Option<Fault> {
    match i {
        Instr::Load { op, rd, rs1, imm } => memory_fault(
            m.mem.len(),
            wrap64(m.reg(rs1) + imm),
            load_width(op),
        ),
        Instr::Store { op, rs1, rs2, imm } => memory_fault(
            m.mem.len(),
            wrap64(m.reg(rs1) + imm),
            store_width(op),
        ),
        _ => None,
    }
}

/// The state after the instruction `i`, executed in the state `m` whose
/// program counter already points behind `i`.
pub open spec fn execute_spec(m: State, i: Instr) -> State {
    match i {
        Instr::Halt => State { halt: true, ..m },
        Instr::Load { op, rd, rs1, imm } => m.set_reg(
            rd,
            loaded(op, m.mem, wrap64(m.reg(rs1) + imm) - DRAM_BASE),
        ),
        Instr::Store { op, rs1, rs2, imm } => State {
            mem: stored(op, m.mem, wrap64(m.reg(rs1) + imm) - DRAM_BASE, m.reg(rs2)),
            ..m
        },
        Instr::OpImm { op, rd, rs1, imm } => m.set_reg(rd, alu(op, m.reg(rs1), imm)),
        Instr::Op { op, rd, rs1, rs2 } => m.set_reg(rd, alu(op, m.reg(rs1), m.reg(rs2))),
        Instr::Lui { rd, imm } => m.set_reg(rd, imm),
        Instr::Auipc { rd, imm } => m.set_reg(rd, wrap64(m.pc - 4 + imm)),
        Instr::Branch { op, rs1, rs2, imm } => if branch_taken(op, m.reg(rs1), m.reg(rs2)) {
            m.jump(wrap64(m.pc - 4 + imm))
        } else {
            m
        },
        Instr::Jalr { rd, rs1, imm } => m.jump(wrap64(m.reg(rs1) + imm) & !1u64).set_reg(rd, m.pc),
        Instr::Jal { rd, imm } => m.jump(wrap64(m.pc - 4 + imm)).set_reg(rd, m.pc),
    }
}

/// What keeps the word `w` from being executed in state `m`, if anything.
pub open spec fn execute_fault(m: State, w: u32) -> Option<Fault> {
    match decode_spec(w) {
        None => Some(Fault::IllegalInstruction { instr: w }),
        Some(i) => access_fault(m, i),
    }
}

/// The instruction word at the program counter.
pub open spec fn fetch_word(m: State) -> u32 {
    le32(m.mem, m.pc - DRAM_BASE) as u32
}

/// The state after a fetch: the program counter has moved on by 4.
pub open spec fn fetched(m: State) -> State {
    m.jump(wrap64(m.pc + 4))
}

/// What keeps the next step from being carried out in state `m`, if anything:
/// a fetch outside the DRAM window, an illegal instruction, or a load or
/// store outside the window, in this order.
pub open spec fn step_fault(m: State) -> Option<Fault> {
    match memory_fault(m.mem.len(), m.pc, 4) {
        Some(f) => Some(f),
        None => execute_fault(fetched(m), fetch_word(m)),
    }
}

/// The state after one step from `m`: fetch, then execute.
pub open spec fn step_spec(m: State) -> State {
    execute_spec(fetched(m), decode_spec(fetch_word(m)).unwrap())
}

/// The processor.
pub struct CPU {
    pc: u64,
    regs: [u64; 32],
    bus: Bus,
    mode: Mode,
    pub halt: bool,
}

impl View for CPU {
    type V = State;

    closed spec fn view(&self) -> State {
        State {
            pc: self.pc,
            regs: Seq::new(32, |i: int| if i == 0 { 0u64 } else { self.regs@[i] }),
            mem: self.bus@,
            mode: self.mode,
            halt: self.halt,
        }
    }
}

impl Default for CPU {
    /// A processor without any DRAM, its program counter and registers zero.
    fn default() -> (cpu: CPU)
        ensures
            cpu@.pc == 0,
            cpu@.regs == Seq::new(32, |i: int| 0u64),
            cpu@.mem.len() == 0,
            cpu@.mode == Mode::Machine,
            !cpu@.halt,
    {
        let cpu = CPU {
            pc: 0,
            regs: [0u64; 32],
            bus: Bus::default(),
            mode: Mode::Machine,
            halt: false,
        };
        assert(cpu@.regs =~= Seq::new(32, |i: int| 0u64));
        cpu
    }
}

impl CPU {
    /// The view of a processor is well formed, and its memory fits in `usize`.
    pub proof fn lemma_view(&self)
        ensures
            self@.wf(),
            self@.mem.len() <= usize::MAX,
    {
        self.bus.lemma_size_fits();
    }

    /// A processor at reset: the program counter at the base of DRAM, all
    /// registers and all of memory zero, not halted.
    pub fn new() -> (cpu: CPU)
        ensures
            cpu@.pc == DRAM_BASE,
            cpu@.regs == Seq::new(32, |i: int| 0u64),
            cpu@.mem == Seq::new(DRAM_SIZE as nat, |i: int| 0u8),
            cpu@.mode == Mode::Machine,
            !cpu@.halt,
    {
        let cpu = CPU {
            pc: DRAM_BASE,
            regs: [0u64; 32],
            bus: Bus::new(DRAM_SIZE),
            mode: Mode::Machine,
            halt: false,
        };
        assert(cpu@.regs =~= Seq::new(32, |i: int| 0u64));
        assert(cpu@.mem =~= Seq::new(DRAM_SIZE as nat, |i: int| 0u8));
        cpu
    }

    /// Copies a code image to the start of DRAM; what does not fit is left out.
    pub fn load_code(&mut self, code: Vec<u8>)
        ensures
            final(self)@ == (State { mem: with_code(old(self)@.mem, code@), ..old(self)@ }),
    {
        self.bus.load_code(code);
    }

    /// Whether the processor has met the halt word.
    pub fn halted(&self) -> (h: bool)
        ensures
            h == self@.halt,
    {
        self.halt
    }

    /// The privilege level.
    pub fn mode(&self) -> (mode: Mode)
        ensures
            mode == self@.mode,
    {
        self.mode
    }

    /// The program counter.
    pub fn pc(&self) -> (pc: u64)
        ensures
            pc == self@.pc,
    {
        self.pc
    }

    /// The bus, to inspect memory.
    pub fn bus(&self) -> (bus: &Bus)
        ensures
            bus@ == self@.mem,
    {
        &self.bus
    }

    /// Reads register `reg`; register 0 reads as zero.
    pub fn read_reg(&self, reg: u32) -> (value: u64)
        requires
            reg < 32,
        ensures
            value == self@.reg(reg),
    {
        if reg == 0 {
            0
        } else {
            self.regs[reg as usize]
        }
    }

    /// Writes `value` to register `reg`; register 0 ignores the write.
    pub fn write_reg(&mut self, reg: u32, value: u64)
        requires
            reg < 32,
        ensures
            final(self)@ == old(self)@.set_reg(reg, value),
    {
        if reg != 0 {
            self.regs[reg as usize] = value;
            assert(self@.regs =~= old(self)@.regs.update(reg as int, value));
        }
    }

    /// Reads the instruction word at the program counter and moves the
    /// counter on by 4.
    pub fn fetch(&mut self) -> (instr: u32)
        requires
            in_window(old(self)@.mem.len(), old(self)@.pc, 4),
        ensures
            instr == fetch_word(old(self)@),
            final(self)@ == fetched(old(self)@),
    {
        let instr: u32 = self.bus.load32(self.pc);
        self.pc = self.pc.wrapping_add(4);
        instr
    }

    fn memory_check(&self, addr: u64, k: u8) -> (r: Option<Fault>)
        ensures
            r == memory_fault(self@.mem.len(), addr, k as nat),
    {
        match self.bus.unmapped_byte(addr, k) {
            Some(byte) => Some(Fault::BadMemoryAccess { addr: byte }),
            None => None,
        }
    }

    /// Tells what keeps the decoded instruction `i` from being executed now.
    pub fn access_check(&self, i: Instr) -> (r: Option<Fault>)
        requires
            i.wf(),
        ensures
            r == access_fault(self@, i),
    {
        match i {
            Instr::Load { op, rd, rs1, imm } => {
                let addr: u64 = self.read_reg(rs1).wrapping_add(imm);
                let k: u8 = match op {
                    LoadOp::Lb | LoadOp::Lbu => 1,
                    LoadOp::Lh | LoadOp::Lhu => 2,
                    LoadOp::Lw | LoadOp::Lwu => 4,
                    LoadOp::Ld => 8,
                };
                self.memory_check(addr, k)
            },
            Instr::Store { op, rs1, rs2, imm } => {
                let addr: u64 = self.read_reg(rs1).wrapping_add(imm);
                let k: u8 = match op {
                    StoreOp::Sb => 1,
                    StoreOp::Sh => 2,
                    StoreOp::Sw => 4,
                    StoreOp::Sd => 8,
                };
                self.memory_check(addr, k)
            },
            _ => None,
        }
    }

    /// Tells what keeps the instruction word `instr` from being executed now.
    pub fn execute_check(&self, instr: u32) -> (r: Option<Fault>)
        ensures
            r == execute_fault(self@, instr),
    {
        match decode(instr) {
            None => Some(Fault::IllegalInstruction { instr }),
            Some(i) => self.access_check(i),
        }
    }

    /// Tells what keeps the next step from being carried out.
    pub fn pending_fault(&self) -> (r: Option<Fault>)
        ensures
            r == step_fault(self@),
    {
        match self.memory_check(self.pc, 4) {
            Some(f) => Some(f),
            None => {
                let instr: u32 = self.bus.load32(self.pc);
                self.execute_check(instr)
            },
        }
    }

    fn load_value(&self, op: LoadOp, addr: u64) -> (value: u64)
        requires
            in_window(self@.mem.len(), addr, load_width(op)),
        ensures
            value == loaded(op, self@.mem, addr - DRAM_BASE),
    {
        match op {
            LoadOp::Lb => sign_extend_8(self.bus.load8(addr)),
            LoadOp::Lh => sign_extend_16(self.bus.load16(addr)),
            LoadOp::Lw => sign_extend_32(self.bus.load32(addr)),
            LoadOp::Ld => self.bus.load64(addr),
            LoadOp::Lbu => self.bus.load8(addr) as u64,
            LoadOp::Lhu => self.bus.load16(addr) as u64,
            LoadOp::Lwu => self.bus.load32(addr) as u64,
        }
    }

    fn store_value(&mut self, op: StoreOp, addr: u64, value: u64)
        requires
            in_window(old(self)@.mem.len(), addr, store_width(op)),
        ensures
            final(self)@ == (State {
                mem: stored(op, old(self)@.mem, addr - DRAM_BASE, value),
                ..old(self)@
            }),
    {
        match op {
            StoreOp::Sb => self.bus.store8(addr, (value % 0x100) as u8),
            StoreOp::Sh => self.bus.store16(addr, (value % 0x1_0000) as u16),
            StoreOp::Sw => self.bus.store32(addr, (value % 0x1_0000_0000) as u32),
            StoreOp::Sd => self.bus.store64(addr, value),
        }
    }

    fn load(&mut self, op: LoadOp, rd: u32, rs1: u32, imm: u64)
        requires
            rd < 32,
            rs1 < 32,
            access_fault(old(self)@, Instr::Load { op, rd, rs1, imm }) is None,
        ensures
            final(self)@ == execute_spec(old(self)@, Instr::Load { op, rd, rs1, imm }),
    {
        let addr: u64 = self.read_reg(rs1).wrapping_add(imm);
        let value: u64 = self.load_value(op, addr);
        self.write_reg(rd, value);
    }

    fn store(&mut self, op: StoreOp, rs1: u32, rs2: u32, imm: u64)
        requires
            rs1 < 32,
            rs2 < 32,
            access_fault(old(self)@, Instr::Store { op, rs1, rs2, imm }) is None,
        ensures
            final(self)@ == execute_spec(old(self)@, Instr::Store { op, rs1, rs2, imm }),
    {
        let addr: u64 = self.read_reg(rs1).wrapping_add(imm);
        let value: u64 = self.read_reg(rs2);
        self.store_value(op, addr, value);
    }

    fn branch(&mut self, op: BranchOp, rs1: u32, rs2: u32, imm: u64)
        requires
            rs1 < 32,
            rs2 < 32,
        ensures
            final(self)@ == execute_spec(old(self)@, Instr::Branch { op, rs1, rs2, imm }),
    {
        let a: u64 = self.read_reg(rs1);
        let b: u64 = self.read_reg(rs2);
        let taken: bool = match op {
            BranchOp::Beq => a == b,
            BranchOp::Bne => a != b,
            BranchOp::Blt => (a as i64) < (b as i64),
            BranchOp::Bge => (a as i64) >= (b as i64),
            BranchOp::Bltu => a < b,
            BranchOp::Bgeu => a >= b,
        };
        if taken {
            self.pc = self.pc.wrapping_add(imm).wrapping_sub(4);
        }
    }

    fn jump_and_link(&mut self, rd: u32, target: u64)
        requires
            rd < 32,
        ensures
            final(self)@ == old(self)@.jump(target).set_reg(rd, old(self)@.pc),
    {
        let link: u64 = self.pc;
        self.pc = target;
        self.write_reg(rd, link);
    }

    fn operate(&mut self, op: AluOp, rd: u32, rs1: u32, operand: u64)
        requires
            rd < 32,
            rs1 < 32,
        ensures
            final(self)@ == old(self)@.set_reg(rd, alu(op, old(self)@.reg(rs1), operand)),
    {
        let value: u64 = compute(op, self.read_reg(rs1), operand);
        self.write_reg(rd, value);
    }

    fn add_upper_to_pc(&mut self, rd: u32, imm: u64)
        requires
            rd < 32,
        ensures
            final(self)@ == execute_spec(old(self)@, Instr::Auipc { rd, imm }),
    {
        let value: u64 = self.pc.wrapping_add(imm).wrapping_sub(4);
        self.write_reg(rd, value);
    }

    fn jump_relative(&mut self, rd: u32, imm: u64)
        requires
            rd < 32,
        ensures
            final(self)@ == execute_spec(old(self)@, Instr::Jal { rd, imm }),
    {
        let target: u64 = self.pc.wrapping_add(imm).wrapping_sub(4);
        self.jump_and_link(rd, target);
    }

    fn jump_register(&mut self, rd: u32, rs1: u32, imm: u64)
        requires
            rd < 32,
            rs1 < 32,
        ensures
            final(self)@ == execute_spec(old(self)@, Instr::Jalr { rd, rs1, imm }),
    {
        let target: u64 = self.read_reg(rs1).wrapping_add(imm) & !1u64;
        self.jump_and_link(rd, target);
    }

    /// Executes the decoded instruction `i`; the program counter points
    /// behind it already.
    pub fn perform(&mut self, i: Instr)
        requires
            i.wf(),
            access_fault(old(self)@, i) is None,
        ensures
            final(self)@ == execute_spec(old(self)@, i),
    {
        match i {
            Instr::Halt => {
                self.halt = true;
            },
            Instr::Load { op, rd, rs1, imm } => self.load(op, rd, rs1, imm),
            Instr::Store { op, rs1, rs2, imm } => self.store(op, rs1, rs2, imm),
            Instr::OpImm { op, rd, rs1, imm } => self.operate(op, rd, rs1, imm),
            Instr::Op { op, rd, rs1, rs2 } => {
                let operand: u64 = self.read_reg(rs2);
                self.operate(op, rd, rs1, operand);
            },
            Instr::Lui { rd, imm } => self.write_reg(rd, imm),
            Instr::Auipc { rd, imm } => self.add_upper_to_pc(rd, imm),
            Instr::Branch { op, rs1, rs2, imm } => self.branch(op, rs1, rs2, imm),
            Instr::Jalr { rd, rs1, imm } => self.jump_register(rd, rs1, imm),
            Instr::Jal { rd, imm } => self.jump_relative(rd, imm),
        }
    }

    /// Executes the instruction word `instr`; the program counter points
    /// behind it already.
    pub fn execute(&mut self, instr: u32)
        requires
            execute_fault(old(self)@, instr) is None,
        ensures
            final(self)@ == execute_spec(old(self)@, decode_spec(instr).unwrap()),
    {
        match decode(instr) {
            Some(i) => self.perform(i),
            None => {},
        }
    }

    /// Carries out one step: fetch, then execute.
    pub fn run_instr(&mut self)
        requires
            step_fault(old(self)@) is None,
        ensures
            final(self)@ == step_spec(old(self)@),
    {
        let instr: u32 = self.fetch();
        self.execute(instr);
    }

    /// Carries out one step if nothing keeps it from being carried out;
    /// reports the fault otherwise, and leaves the processor as it is.
    pub fn step(&mut self) -> (r: Result<(), Fault>)
        ensures
            match r {
                Ok(_) => step_fault(old(self)@) is None && final(self)@ == step_spec(old(self)@),
                Err(f) => step_fault(old(self)@) == Some(f) && final(self)@ == old(self)@,
            },
    {
        match self.pending_fault() {
            Some(f) => Err(f),
            None => {
                self.run_instr();
                Ok(())
            },
        }
    }
}

/// Whether an instruction may set the program counter: a branch or a jump.
pub open spec fn is_control_flow(i: Instr) -> bool {
    match i {
        Instr::Branch { .. } | Instr::Jalr { .. } | Instr::Jal { .. } => true,
        _ => false,
    }
}

/// Register 0 reads as zero before and after any instruction, and the
/// register file stays well formed.
pub proof fn lemma_zero_register(m: State, i: Instr)
    requires
        m.wf(),
        i.wf(),
    ensures
        m.reg(0) == 0,
        execute_spec(m, i).wf(),
        execute_spec(m, i).reg(0) == 0,
{
}

/// A load from where a store of the same width has just written gives the
/// stored value back: all of it for a doubleword, else its low bytes,
/// extended as the load says.
pub proof fn lemma_store_then_load(mem: Seq<u8>, i: int, v: u64)
    requires
        0 <= i,
        i + 8 <= mem.len(),
    ensures
        loaded(LoadOp::Ld, stored(StoreOp::Sd, mem, i, v), i) == v,
        loaded(LoadOp::Lwu, stored(StoreOp::Sw, mem, i, v), i) == v % 0x1_0000_0000,
        loaded(LoadOp::Lw, stored(StoreOp::Sw, mem, i, v), i) == sign_extend(
            (v % 0x1_0000_0000) as u32,
            0x8000_0000,
        ),
        loaded(LoadOp::Lhu, stored(StoreOp::Sh, mem, i, v), i) == v % 0x1_0000,
        loaded(LoadOp::Lh, stored(StoreOp::Sh, mem, i, v), i) == sign_extend(
            (v % 0x1_0000) as u32,
            0x8000,
        ),
        loaded(LoadOp::Lbu, stored(StoreOp::Sb, mem, i, v), i) == v % 0x100,
        loaded(LoadOp::Lb, stored(StoreOp::Sb, mem, i, v), i) == sign_extend(
            (v % 0x100) as u32,
            0x80,
        ),
{
    lemma_round_trip_64(mem, i, v);
    lemma_round_trip_32(mem, i, (v % 0x1_0000_0000) as u32);
    lemma_round_trip_16(mem, i, (v % 0x1_0000) as u16);
}

/// An instruction that meets no fault leaves the size of memory as it is.
pub proof fn lemma_memory_size_is_kept(m: State, i: Instr)
    requires
        access_fault(m, i) is None,
    ensures
        execute_spec(m, i).mem.len() == m.mem.len(),
{
    match i {
        Instr::Store { op, rs1, rs2, imm } => {
            let at = wrap64(m.reg(rs1) + imm) - DRAM_BASE;
            let v = m.reg(rs2);
            match op {
                StoreOp::Sb => {},
                StoreOp::Sh => lemma_put16_bytes(m.mem, at, (v % 0x1_0000) as u16, at),
                StoreOp::Sw => lemma_put32_bytes(m.mem, at, (v % 0x1_0000_0000) as u32, at),
                StoreOp::Sd => lemma_put64_bytes(m.mem, at, v, at),
            }
        },
        _ => {},
    }
}

/// Register 0 reads as zero before and after any step, and the register
/// file stays well formed.
pub proof fn lemma_step_keeps_zero_register(m: State)
    requires
        m.wf(),
        step_fault(m) is None,
    ensures
        m.reg(0) == 0,
        step_spec(m).wf(),
        step_spec(m).reg(0) == 0,
{
    lemma_decode_wf(fetch_word(m));
    lemma_zero_register(fetched(m), decode_spec(fetch_word(m)).unwrap());
}

/// A word operation leaves in its destination register a value whose upper
/// 32 bits are all equal to its bit 31.
pub proof fn lemma_word_instruction_sign_extends(m: State, i: Instr)
    requires
        m.wf(),
        i.wf(),
        match i {
            Instr::Op { op, rd, rs1, rs2 } => op.is_word() && rd != 0,
            Instr::OpImm { op, rd, rs1, imm } => op.is_word() && rd != 0,
            _ => false,
        },
    ensures
        match i {
            Instr::Op { op, rd, rs1, rs2 } => upper_half(execute_spec(m, i).reg(rd)) == if bit31(
                execute_spec(m, i).reg(rd),
            ) {
                0xFFFF_FFFFu64
            } else {
                0u64
            },
            Instr::OpImm { op, rd, rs1, imm } => upper_half(execute_spec(m, i).reg(rd)) == if bit31(
                execute_spec(m, i).reg(rd),
            ) {
                0xFFFF_FFFFu64
            } else {
                0u64
            },
            _ => true,
        },
{
    match i {
        Instr::Op { op, rd, rs1, rs2 } => {
            lemma_word_result_sign_extended(op, m.reg(rs1), m.reg(rs2));
        },
        Instr::OpImm { op, rd, rs1, imm } => {
            lemma_word_result_sign_extended(op, m.reg(rs1), imm);
        },
        _ => {},
    }
}

/// A step whose instruction is neither a branch nor a jump moves the
/// program counter on by exactly 4.
pub proof fn lemma_pc_advances_by_four(m: State)
    requires
        step_fault(m) is None,
        !is_control_flow(decode_spec(fetch_word(m)).unwrap()),
    ensures
        step_spec(m).pc == wrap64(m.pc + 4),
        m.pc + 4 <= u64::MAX ==> step_spec(m).pc == m.pc + 4,
{
}

/// A branch that is not taken moves the program counter on by exactly 4;
/// one that is taken moves it by its offset.
pub proof fn lemma_branch_target(m: State)
    requires
        step_fault(m) is None,
        decode_spec(fetch_word(m)) matches Some(Instr::Branch { .. }),
    ensures
        match decode_spec(fetch_word(m)) {
            Some(Instr::Branch { op, rs1, rs2, imm }) => step_spec(m).pc == if branch_taken(
                op,
                m.reg(rs1),
                m.reg(rs2),
            ) {
                wrap64(m.pc + imm)
            } else {
                wrap64(m.pc + 4)
            },
            _ => true,
        },
{
    match decode_spec(fetch_word(m)) {
        Some(Instr::Branch { op, rs1, rs2, imm }) => {
            lemma_wrap_relative(m.pc, imm);
        },
        _ => {},
    }
}

/// A jump leaves in its destination register, unless that is register 0,
/// the address of the instruction that follows the jump. A jump-and-link
/// with offset 0 leaves the program counter on the jump itself.
pub proof fn lemma_jump_links_next_instruction(m: State)
    requires
        m.wf(),
        step_fault(m) is None,
        decode_spec(fetch_word(m)) matches Some(i) && (i is Jal || i is Jalr),
    ensures
        match decode_spec(fetch_word(m)) {
            Some(Instr::Jal { rd, imm }) => (rd != 0 ==> step_spec(m).reg(rd) == wrap64(m.pc + 4))
                && step_spec(m).pc == wrap64(m.pc + imm),
            Some(Instr::Jalr { rd, rs1, imm }) => (rd != 0 ==> step_spec(m).reg(rd) == wrap64(
                m.pc + 4,
            )) && step_spec(m).pc == wrap64(m.reg(rs1) + imm) & !1u64,
            _ => true,
        },
{
    lemma_decode_wf(fetch_word(m));
    match decode_spec(fetch_word(m)) {
        Some(Instr::Jal { rd, imm }) => {
            lemma_wrap_relative(m.pc, imm);
        },
        _ => {},
    }
}

} // verus!
