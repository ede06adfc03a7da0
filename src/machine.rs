//! The machine model every backend realizes, the `LC3` contract they share,
//! and the semantics of executing one instruction.

use vstd::prelude::*;

use crate::defs::{
    reg_index, LC3MemAddr, LC3Word, RegAddr, IR_VEC_TBL, MACHINE_CONTROL_REGISTER, OS_SUPER_STACK,
    STACK_REG, SUPERVISOR_SP_INIT,
};
use crate::instruction::{
    decode, ConditionCodes, IAdd, IAnd, IBranch, IJump, IJumpSubRoutine, ILoad, INot, IStore,
    InstructionEnum, Trap,
};
use crate::util::{get_bit, get_bits, offset_addr};

verus! {

/// Condition flags: at most one of negative, zero and positive is set.
#[derive(Debug, Clone, Copy, PartialEq, Eq, Structural, PartialOrd, Ord, Hash)]
pub enum Condition {
    Clear,
    Negative,
    Zero,
    Positive,
}

/// A memory cell and its value.
#[derive(Debug, Clone, Copy, PartialEq, Eq, Structural, PartialOrd, Ord, Hash)]
pub struct LC3MemLoc {
    pub loc: LC3MemAddr,
    pub value: LC3Word,
}

/// User mode attempted a supervisor mode operation.
#[derive(Debug, Clone, Copy, PartialEq, Eq, Structural, PartialOrd, Ord, Hash)]
pub struct InsufficientPerms;

/// Failure of one instruction.
#[derive(Debug, Clone, Copy, PartialEq, Eq, Structural, PartialOrd, Ord, Hash)]
pub enum InstructionErr {
    InsufficientPerms(InsufficientPerms),
}

/// Failure of one machine step.
#[derive(Debug, Clone, Copy, PartialEq, Eq, Structural, PartialOrd, Ord, Hash)]
pub enum StepFailure {
    /// The word at the PC is no instruction.
    InvalidInstruction(LC3Word),
    /// User mode attempted a supervisor mode operation.
    InsufficientPerms(InsufficientPerms),
    /// The PC is at the last address and would have to advance past it.
    LastAddress,
    /// The machine is halted.
    Halted,
    /// Bit 15 of the machine control register was cleared.
    ClockDisabled,
}

impl From<InstructionErr> for StepFailure {
    fn from(value: InstructionErr) -> (r: StepFailure) {
        match value {
            InstructionErr::InsufficientPerms(x) => StepFailure::InsufficientPerms(x),
        }
    }
}

impl vstd::std_specs::convert::FromSpecImpl<InstructionErr> for StepFailure {
    open spec fn obeys_from_spec() -> bool {
        true
    }

    open spec fn from_spec(v: InstructionErr) -> StepFailure {
        match v {
            InstructionErr::InsufficientPerms(x) => StepFailure::InsufficientPerms(x),
        }
    }
}

/// Everything a machine holds, as mathematical values.
pub struct MachineState {
    /// All 65,536 memory words.
    pub mem: Seq<u16>,
    /// The eight user-visible registers; R6 here is the user stack pointer.
    pub regs: Seq<u16>,
    /// The supervisor stack pointer, which R6 names in supervisor mode.
    pub supervisor_sp: u16,
    pub pc: u16,
    pub condition: Condition,
    pub priority: u8,
    pub privileged: bool,
    pub halted: bool,
    /// Set when a write cleared bit 15 of the machine control register.
    pub clock_disabled: bool,
}

/// `a + 1`, wrapping around the address space.
pub open spec fn next_addr(a: u16) -> u16 {
    offset_addr(a as int, 1)
}

/// The word `v` as a flag setting: sign bit set is negative.
pub open spec fn condition_of(v: u16) -> Condition {
    if v == 0 {
        Condition::Zero
    } else if v >= 0x8000 {
        Condition::Negative
    } else {
        Condition::Positive
    }
}

impl MachineState {
    pub open spec fn wf(self) -> bool {
        &&& self.mem.len() == 65536
        &&& self.regs.len() == 8
        &&& self.priority < 8
    }

    /// A fresh machine: zeroed memory and registers, no flags, priority 0,
    /// supervisor mode, PC at the start of the supervisor stack region.
    pub open spec fn initial() -> MachineState {
        MachineState {
            mem: Seq::new(65536, |i: int| 0u16),
            regs: Seq::new(8, |i: int| 0u16),
            supervisor_sp: SUPERVISOR_SP_INIT,
            pc: OS_SUPER_STACK,
            condition: Condition::Clear,
            priority: 0,
            privileged: true,
            halted: false,
            clock_disabled: false,
        }
    }

    /// Register `r` as the running code sees it: R6 is banked in supervisor mode.
    pub open spec fn reg(self, r: RegAddr) -> u16 {
        if self.privileged && r == STACK_REG {
            self.supervisor_sp
        } else {
            self.regs[reg_index(r) as int]
        }
    }

    pub open spec fn set_reg(self, r: RegAddr, v: u16) -> MachineState {
        if self.privileged && r == STACK_REG {
            MachineState { supervisor_sp: v, ..self }
        } else {
            MachineState { regs: self.regs.update(reg_index(r) as int, v), ..self }
        }
    }

    pub open spec fn mem_at(self, a: u16) -> u16 {
        self.mem[a as int]
    }

    /// A memory write; writing the machine control register switches the
    /// clock by its bit 15.
    pub open spec fn set_mem(self, a: u16, v: u16) -> MachineState {
        MachineState {
            mem: self.mem.update(a as int, v),
            clock_disabled: if a == MACHINE_CONTROL_REGISTER {
                v < 0x8000
            } else {
                self.clock_disabled
            },
            ..self
        }
    }

    pub open spec fn set_pc(self, pc: u16) -> MachineState {
        MachineState { pc, ..self }
    }

    pub open spec fn set_condition(self, c: Condition) -> MachineState {
        MachineState { condition: c, ..self }
    }

    /// Writing a priority of 8 or more changes nothing.
    pub open spec fn set_priority(self, p: u8) -> MachineState {
        if p < 8 {
            MachineState { priority: p, ..self }
        } else {
            self
        }
    }

    pub open spec fn set_privileged(self, b: bool) -> MachineState {
        MachineState { privileged: b, ..self }
    }

    pub open spec fn set_halted(self, b: bool) -> MachineState {
        MachineState { halted: b, ..self }
    }

    /// Writes `v` to register `r` and sets the flags from it.
    pub open spec fn write_result(self, r: RegAddr, v: u16) -> MachineState {
        self.set_reg(r, v).set_condition(condition_of(v))
    }

    /// The processor status register: bit 15 user mode, bits 10-8 priority,
    /// bits 2, 1, 0 the negative, zero and positive flags.
    pub open spec fn psr(self) -> u16 {
        ((if self.privileged {
            0int
        } else {
            0x8000int
        }) + self.priority * 256 + match self.condition {
            Condition::Clear => 0int,
            Condition::Negative => 4int,
            Condition::Zero => 2int,
            Condition::Positive => 1int,
        }) as u16
    }

    /// Restores mode, priority and flags from a processor status register.
    pub open spec fn set_psr(self, v: u16) -> MachineState {
        MachineState {
            privileged: v < 0x8000,
            priority: ((v as int / 256) % 8) as u8,
            condition: if (v as int / 4) % 2 == 1 {
                Condition::Negative
            } else if (v as int / 2) % 2 == 1 {
                Condition::Zero
            } else if v as int % 2 == 1 {
                Condition::Positive
            } else {
                Condition::Clear
            },
            ..self
        }
    }

    /// Interrupt entry: the status register and then the PC are pushed on the
    /// supervisor stack, R6 drops by 2, the machine enters supervisor mode at
    /// the given priority (if any), and the PC moves to the vector's entry.
    pub open spec fn interrupt(self, vector: u16, priority: Option<u8>) -> MachineState {
        let psr = self.psr();
        let s1 = self.set_privileged(true);
        let s2 = match priority {
            Some(p) => s1.set_priority(p),
            None => s1,
        };
        let sp = s2.reg(STACK_REG);
        let s3 = s2.set_mem(sp, psr);
        let s4 = s3.set_mem(offset_addr(sp as int, -1), self.pc);
        let s5 = s4.set_reg(STACK_REG, offset_addr(sp as int, -2));
        s5.set_pc((IR_VEC_TBL + vector) as u16)
    }

    /// Memory after `words` are placed from `start` on, as far as memory goes.
    pub open spec fn populate(self, start: u16, words: Seq<u16>) -> MachineState {
        MachineState {
            mem: Seq::new(
                65536,
                |i: int|
                    if start <= i < start + words.len() {
                        words[i - start]
                    } else {
                        self.mem[i]
                    },
            ),
            ..self
        }
    }

    /// Whether the flags satisfy a branch's condition codes.
    pub open spec fn branch_taken(self, c: ConditionCodes) -> bool {
        (c.negative && self.condition == Condition::Negative) || (c.zero && self.condition
            == Condition::Zero) || (c.positive && self.condition == Condition::Positive)
    }
}

/// Whether executing `i` fails: RTI outside supervisor mode.
pub open spec fn execute_fails(i: InstructionEnum, s: MachineState) -> bool {
    i == InstructionEnum::IJump(IJump::InterRet) && !s.privileged
}

/// Whether `i` leaves the PC at the incremented value (no control transfer).
pub open spec fn falls_through(i: InstructionEnum, s: MachineState) -> bool {
    match i {
        InstructionEnum::IBranch(b) => !s.branch_taken(b.cond_codes),
        InstructionEnum::IJump(_) => false,
        InstructionEnum::IJumpSubRoutine(_) => false,
        InstructionEnum::Trap(_) => false,
        _ => true,
    }
}

/// State after executing `i` on `s`, whose PC already holds the address
/// after the instruction (PC-relative offsets count from there).
pub open spec fn execute_spec(i: InstructionEnum, s: MachineState) -> MachineState {
    match i {
        InstructionEnum::IAdd(IAdd::Reg(x)) => s.write_result(
            x.dest_reg,
            offset_addr(s.reg(x.src_reg_1) as int, s.reg(x.src_reg_2) as int),
        ),
        InstructionEnum::IAdd(IAdd::Imm(x)) => s.write_result(
            x.dest_reg,
            offset_addr(s.reg(x.src_reg) as int, x.imm as int),
        ),
        InstructionEnum::IAnd(IAnd::Reg(x)) => s.write_result(
            x.dest_reg,
            s.reg(x.src_reg_1) & s.reg(x.src_reg_2),
        ),
        InstructionEnum::IAnd(IAnd::Imm(x)) => s.write_result(
            x.dest_reg,
            s.reg(x.src_reg) & x.imm,
        ),
        InstructionEnum::INot(INot(x)) => s.write_result(x.dest_reg, !s.reg(x.src_reg)),
        InstructionEnum::IBranch(b) => if s.branch_taken(b.cond_codes) {
            s.set_pc(offset_addr(s.pc as int, b.pc_offset as int))
        } else {
            s
        },
        InstructionEnum::IJump(IJump::Instr(b)) => s.set_pc(s.reg(b)),
        InstructionEnum::IJump(IJump::Ret) => s.set_pc(s.reg(RegAddr::Seven)),
        InstructionEnum::IJump(IJump::PrivClear(b)) => {
            let s1 = s.set_privileged(false);
            s1.set_pc(s1.reg(b))
        },
        InstructionEnum::IJump(IJump::InterRet) => {
            let sp = s.reg(STACK_REG);
            let pc = s.mem_at(offset_addr(sp as int, 1));
            let psr = s.mem_at(offset_addr(sp as int, 2));
            s.set_reg(STACK_REG, offset_addr(sp as int, 2)).set_psr(psr).set_pc(pc)
        },
        InstructionEnum::IJumpSubRoutine(IJumpSubRoutine::Offset(o)) => s.set_reg(
            RegAddr::Seven,
            s.pc,
        ).set_pc(offset_addr(s.pc as int, o.pc_offset as int)),
        InstructionEnum::IJumpSubRoutine(IJumpSubRoutine::Reg(b)) => s.set_reg(
            RegAddr::Seven,
            s.pc,
        ).set_pc(s.reg(b)),
        InstructionEnum::ILoad(ILoad::Std(x)) => s.write_result(
            x.target_reg,
            s.mem_at(offset_addr(s.pc as int, x.pc_offset as int)),
        ),
        InstructionEnum::ILoad(ILoad::Indirect(x)) => s.write_result(
            x.target_reg,
            s.mem_at(s.mem_at(offset_addr(s.pc as int, x.pc_offset as int))),
        ),
        InstructionEnum::ILoad(ILoad::Reg(x)) => s.write_result(
            x.target_reg,
            s.mem_at(offset_addr(s.reg(x.base_reg) as int, x.offset as int)),
        ),
        InstructionEnum::ILoad(ILoad::Addr(x)) => s.write_result(
            x.target_reg,
            offset_addr(s.pc as int, x.pc_offset as int),
        ),
        InstructionEnum::IStore(IStore::Std(x)) => s.set_mem(
            offset_addr(s.pc as int, x.pc_offset as int),
            s.reg(x.target_reg),
        ),
        InstructionEnum::IStore(IStore::Indirect(x)) => s.set_mem(
            s.mem_at(offset_addr(s.pc as int, x.pc_offset as int)),
            s.reg(x.target_reg),
        ),
        InstructionEnum::IStore(IStore::Reg(x)) => s.set_mem(
            offset_addr(s.reg(x.base_reg) as int, x.offset as int),
            s.reg(x.target_reg),
        ),
        InstructionEnum::Trap(t) => {
            let s1 = if t == Trap::Halt {
                s.set_halted(true)
            } else {
                s
            };
            s1.set_reg(RegAddr::Seven, s.pc).set_pc(s.mem_at(t.spec_vector()))
        },
    }
}

/// One fetch-decode-execute step: the state after it and its result.
pub open spec fn step_spec(s: MachineState) -> (MachineState, Result<(), StepFailure>) {
    if s.halted {
        (s, Err(StepFailure::Halted))
    } else if s.clock_disabled {
        (s, Err(StepFailure::ClockDisabled))
    } else {
        match decode(s.mem_at(s.pc)) {
            None => (s, Err(StepFailure::InvalidInstruction(s.mem_at(s.pc)))),
            Some(i) => if s.pc == 0xFFFF && falls_through(i, s) {
                (s, Err(StepFailure::LastAddress))
            } else if execute_fails(i, s) {
                (s, Err(StepFailure::InsufficientPerms(InsufficientPerms)))
            } else {
                (execute_spec(i, s.set_pc(next_addr(s.pc))), Ok(()))
            },
        }
    }
}

/// The sparse view of memory: every nonzero cell with its address, in
/// address order.
pub open spec fn is_sparse_view(r: Seq<LC3MemLoc>, mem: Seq<u16>) -> bool {
    &&& forall|i: int| 0 <= i < r.len() ==> (#[trigger] r[i]).value != 0 && r[i].loc < mem.len() && r[i].value == mem[r[i].loc as int]
    &&& forall|i: int, j: int| 0 <= i < j < r.len() ==> #[trigger] r[i].loc < #[trigger] r[j].loc
    &&& forall|a: int| 0 <= a < mem.len() && #[trigger] mem[a] != 0 ==> exists|i: int| 0 <= i < r.len() && r[i].loc == a
}

/// Access to the state of an LC-3 machine: registers, memory, flags, mode
/// and priority. Every backend realizes the same `MachineState` transitions;
/// they differ only in how memory and decoded instructions are stored.
pub trait LC3Access: Sized {
    /// The machine this value stands for.
    spec fn state(&self) -> MachineState;

    /// The backend's own invariant over its storage.
    spec fn inv(&self) -> bool;

    proof fn lemma_inv(&self)
        requires
            self.inv(),
        ensures
            self.state().wf(),
    ;

    /// Current program counter.
    fn pc(&self) -> (r: LC3MemAddr)
        requires
            self.inv(),
        ensures
            r == self.state().pc,
    ;

    /// Replaces the program counter.
    fn set_pc(&mut self, pc: LC3MemAddr)
        requires
            old(self).inv(),
        ensures
            final(self).inv(),
            final(self).state() == old(self).state().set_pc(pc),
    ;

    /// Register `addr`; R6 names the supervisor stack pointer in supervisor mode.
    fn reg(&self, addr: RegAddr) -> (r: LC3Word)
        requires
            self.inv(),
        ensures
            r == self.state().reg(addr),
    ;

    fn set_reg(&mut self, addr: RegAddr, value: LC3Word)
        requires
            old(self).inv(),
        ensures
            final(self).inv(),
            final(self).state() == old(self).state().set_reg(addr, value),
    ;

    fn mem(&self, addr: LC3MemAddr) -> (r: LC3Word)
        requires
            self.inv(),
        ensures
            r == self.state().mem_at(addr),
    ;

    /// Writes memory; a write to the machine control register enables or
    /// disables the clock by its bit 15.
    fn set_mem(&mut self, addr: LC3MemAddr, value: LC3Word)
        requires
            old(self).inv(),
        ensures
            final(self).inv(),
            final(self).state() == old(self).state().set_mem(addr, value),
    ;

    /// Current priority in [0, 7].
    fn priority(&self) -> (r: u8)
        requires
            self.inv(),
        ensures
            r == self.state().priority,
            r < 8,
    ;

    /// Sets the priority if it is in [0, 7]; ignores it otherwise.
    fn set_priority(&mut self, priority: u8)
        requires
            old(self).inv(),
        ensures
            final(self).inv(),
            final(self).state() == old(self).state().set_priority(priority),
    ;

    /// True in supervisor mode, false in user mode.
    fn privileged(&self) -> (r: bool)
        requires
            self.inv(),
        ensures
            r == self.state().privileged,
    ;

    fn set_privileged(&mut self, privileged: bool)
        requires
            old(self).inv(),
        ensures
            final(self).inv(),
            final(self).state() == old(self).state().set_privileged(privileged),
    ;

    fn positive_cond(&self) -> (r: bool)
        requires
            self.inv(),
        ensures
            r == (self.state().condition == Condition::Positive),
    ;

    fn zero_cond(&self) -> (r: bool)
        requires
            self.inv(),
        ensures
            r == (self.state().condition == Condition::Zero),
    ;

    fn negative_cond(&self) -> (r: bool)
        requires
            self.inv(),
        ensures
            r == (self.state().condition == Condition::Negative),
    ;

    /// Sets the positive flag and clears the others.
    fn flag_positive(&mut self)
        requires
            old(self).inv(),
        ensures
            final(self).inv(),
            final(self).state() == old(self).state().set_condition(Condition::Positive),
    ;

    /// Sets the zero flag and clears the others.
    fn flag_zero(&mut self)
        requires
            old(self).inv(),
        ensures
            final(self).inv(),
            final(self).state() == old(self).state().set_condition(Condition::Zero),
    ;

    /// Sets the negative flag and clears the others.
    fn flag_negative(&mut self)
        requires
            old(self).inv(),
        ensures
            final(self).inv(),
            final(self).state() == old(self).state().set_condition(Condition::Negative),
    ;

    /// Clears all three flags.
    fn clear_flags(&mut self)
        requires
            old(self).inv(),
        ensures
            final(self).inv(),
            final(self).state() == old(self).state().set_condition(Condition::Clear),
    ;

    /// All words in address order from 0x0000.
    fn iter(&self) -> (r: Vec<LC3Word>)
        requires
            self.inv(),
        ensures
            r@ == self.state().mem,
    ;

    /// Every nonzero word with its address, in address order.
    fn sparse_iter(&self) -> (r: Vec<LC3MemLoc>)
        requires
            self.inv(),
        ensures
            is_sparse_view(r@, self.state().mem),
    ;

    fn halt(&mut self)
        requires
            old(self).inv(),
        ensures
            final(self).inv(),
            final(self).state() == old(self).state().set_halted(true),
    ;

    fn unhalt(&mut self)
        requires
            old(self).inv(),
        ensures
            final(self).inv(),
            final(self).state() == old(self).state().set_halted(false),
    ;

    fn is_halted(&self) -> (r: bool)
        requires
            self.inv(),
        ensures
            r == self.state().halted,
    ;

    /// Fills memory from `start` with `words`, stopping at the end of memory.
    fn populate(&mut self, start: LC3MemAddr, words: &[LC3Word])
        requires
            old(self).inv(),
        ensures
            final(self).inv(),
            final(self).state() == old(self).state().populate(start, words@),
    ;

    /// The processor status register.
    fn processor_status_reg(&self) -> (r: LC3Word)
        requires
            self.inv(),
        ensures
            r == self.state().psr(),
    {
        proof {
            self.lemma_inv();
        }
        let privilege: u16 = if self.privileged() {
            0
        } else {
            0x8000
        };
        let n: u16 = if self.negative_cond() {
            4
        } else {
            0
        };
        let z: u16 = if self.zero_cond() {
            2
        } else {
            0
        };
        let p: u16 = if self.positive_cond() {
            1
        } else {
            0
        };
        privilege + self.priority() as u16 * 256 + n + z + p
    }

    /// Restores mode, priority and flags from a processor status register.
    fn set_processor_status_reg(&mut self, status_reg: LC3Word)
        requires
            old(self).inv(),
        ensures
            final(self).inv(),
            final(self).state() == old(self).state().set_psr(status_reg),
    {
        proof {
            vstd::arithmetic::power2::lemma2_to64();
        }
        self.set_privileged(status_reg < 0x8000);
        self.set_priority(get_bits(status_reg, 10, 8) as u8);
        if get_bit(status_reg, 2) == 1 {
            self.flag_negative();
        } else if get_bit(status_reg, 1) == 1 {
            self.flag_zero();
        } else if get_bit(status_reg, 0) == 1 {
            self.flag_positive();
        } else {
            self.clear_flags();
        }
    }

    /// The instruction at the PC, if its word decodes.
    fn cur_inst(&self) -> (r: Option<InstructionEnum>)
        requires
            self.inv(),
        ensures
            r == decode(self.state().mem_at(self.state().pc)),
    {
        InstructionEnum::parse(self.mem(self.pc()))
    }

    /// Enters the interrupt service routine for `vector`; `set_priority` is
    /// given for device interrupts and absent for exceptions.
    fn interrupt(&mut self, vector: LC3Word, set_priority: Option<u8>)
        requires
            old(self).inv(),
            vector <= 0xFEFF,
        ensures
            final(self).inv(),
            final(self).state() == old(self).state().interrupt(vector, set_priority),
    {
        let psr = self.processor_status_reg();
        let pc = self.pc();
        self.set_privileged(true);
        if let Some(priority) = set_priority {
            self.set_priority(priority);
        }
        let stack_reg = self.reg(STACK_REG);
        self.set_mem(stack_reg, psr);
        self.set_mem(stack_reg.wrapping_sub(1), pc);
        self.set_reg(STACK_REG, stack_reg.wrapping_sub(2));
        self.set_pc(IR_VEC_TBL + vector);
    }
}

} // verus!

verus! {

/// Every nonzero word of `words` with its address, in address order.
pub fn sparse_of(words: &Vec<LC3Word>) -> (r: Vec<LC3MemLoc>)
    requires
        words.len() <= 65536,
    ensures
        is_sparse_view(r@, words@),
{
    let mut r: Vec<LC3MemLoc> = Vec::new();
    let mut i: usize = 0;
    while i < words.len()
        invariant
            i <= words.len() <= 65536,
            forall|k: int|
                0 <= k < r.len() ==> (#[trigger] r@[k]).value != 0 && r@[k].loc < i && r@[k].value
                    == words@[r@[k].loc as int],
            forall|k: int, l: int| 0 <= k < l < r.len() ==> #[trigger] r@[k].loc < #[trigger] r@[l].loc,
            forall|a: int|
                0 <= a < i && #[trigger] words@[a] != 0 ==> exists|k: int|
                    0 <= k < r.len() && r[k].loc == a,
        decreases words.len() - i,
    {
        let value = words[i];
        if value != 0 {
            let ghost old_r = r@;
            let loc = i as u16;
            assert(loc == i);
            r.push(LC3MemLoc { loc, value });
            proof {
                assert forall|k: int| 0 <= k < r.len() implies (#[trigger] r@[k]).value != 0 && r@[k].loc
                    < i + 1 && r@[k].value == words@[r@[k].loc as int] by {
                    if k < old_r.len() {
                        assert(r@[k] == old_r[k]);
                    }
                }
                assert forall|k: int, l: int| 0 <= k < l < r.len() implies #[trigger] r@[k].loc
                    < #[trigger] r@[l].loc by {
                    assert(r@[k] == old_r[k]);
                    if l < old_r.len() {
                        assert(r@[l] == old_r[l]);
                    }
                }
                assert forall|a: int| 0 <= a < i + 1 && #[trigger] words@[a] != 0 implies exists|
                    k: int,
                | 0 <= k < r.len() && r[k].loc == a by {
                    if a < i {
                        let k = choose|k: int| 0 <= k < old_r.len() && old_r[k].loc == a;
                        assert(r@[k] == old_r[k]);
                    } else {
                        assert(r@[r.len() - 1].loc == a);
                    }
                }
            }
        }
        i = i + 1;
    }
    r
}

/// A full LC-3 machine: state access plus stepping.
pub trait LC3: LC3Access {
    /// Fetches, decodes and executes the instruction at the PC.
    fn step(&mut self) -> (r: Result<(), StepFailure>)
        requires
            old(self).inv(),
        ensures
            final(self).inv(),
            (final(self).state(), r) == step_spec(old(self).state()),
    ;
}

} // verus!
