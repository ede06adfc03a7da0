//! Executing instructions against any `LC3` machine.

use vstd::prelude::*;

use crate::defs::{LC3Word, RegAddr, STACK_REG};
use crate::instruction::{
    decode, IAdd, IAnd, IBranch, IJump, IJumpSubRoutine, ILoad, INot, IStore, InstrOffset6,
    InstrPCOffset11, InstrPCOffset9, InstrRegImm, InstrRegOnly, InstrRegReg, InstructionEnum, Trap,
};
use crate::machine::{
    condition_of, execute_fails, execute_spec, falls_through, step_spec, InstructionErr, InsufficientPerms, StepFailure, LC3Access,
};
use crate::util::apply_offset;

verus! {

/// Sets the flags from `result`: negative when its sign bit is set, zero when
/// it is zero, positive otherwise.
pub fn set_condition_codes<P: LC3Access>(processor: &mut P, result: LC3Word)
    requires
        old(processor).inv(),
    ensures
        final(processor).inv(),
        final(processor).state() == old(processor).state().set_condition(condition_of(result)),
{
    if result == 0 {
        processor.flag_zero();
    } else if result >= 0x8000 {
        processor.flag_negative();
    } else {
        processor.flag_positive();
    }
}

/// Writes `value` to `dest` and sets the flags from it.
fn write_result<P: LC3Access>(processor: &mut P, dest: RegAddr, value: LC3Word)
    requires
        old(processor).inv(),
    ensures
        final(processor).inv(),
        final(processor).state() == old(processor).state().write_result(dest, value),
{
    processor.set_reg(dest, value);
    set_condition_codes(processor, value);
}

impl IAdd {
    /// Adds, wrapping modulo 2^16, writes the destination and sets the flags.
    pub fn execute<P: LC3Access>(self, processor: &mut P) -> (r: Result<(), InstructionErr>)
        requires
            old(processor).inv(),
        ensures
            final(processor).inv(),
            r == Ok::<(), InstructionErr>(()),
            final(processor).state() == execute_spec(
                InstructionEnum::IAdd(self),
                old(processor).state(),
            ),
    {
        match self {
            IAdd::Reg(InstrRegReg { dest_reg, src_reg_1, src_reg_2 }) => {
                let a = processor.reg(src_reg_1);
                let b = processor.reg(src_reg_2);
                write_result(processor, dest_reg, a.wrapping_add(b));
            },
            IAdd::Imm(InstrRegImm { dest_reg, src_reg, imm }) => {
                let a = processor.reg(src_reg);
                write_result(processor, dest_reg, a.wrapping_add(imm));
            },
        }
        Ok(())
    }
}

impl IAnd {
    /// Bitwise AND, writes the destination and sets the flags.
    pub fn execute<P: LC3Access>(self, processor: &mut P) -> (r: Result<(), InstructionErr>)
        requires
            old(processor).inv(),
        ensures
            final(processor).inv(),
            r == Ok::<(), InstructionErr>(()),
            final(processor).state() == execute_spec(
                InstructionEnum::IAnd(self),
                old(processor).state(),
            ),
    {
        match self {
            IAnd::Reg(InstrRegReg { dest_reg, src_reg_1, src_reg_2 }) => {
                let a = processor.reg(src_reg_1);
                let b = processor.reg(src_reg_2);
                write_result(processor, dest_reg, a & b);
            },
            IAnd::Imm(InstrRegImm { dest_reg, src_reg, imm }) => {
                let a = processor.reg(src_reg);
                write_result(processor, dest_reg, a & imm);
            },
        }
        Ok(())
    }
}

impl INot {
    /// Bitwise complement, writes the destination and sets the flags.
    pub fn execute<P: LC3Access>(self, processor: &mut P) -> (r: Result<(), InstructionErr>)
        requires
            old(processor).inv(),
        ensures
            final(processor).inv(),
            r == Ok::<(), InstructionErr>(()),
            final(processor).state() == execute_spec(
                InstructionEnum::INot(self),
                old(processor).state(),
            ),
    {
        let InstrRegOnly { dest_reg, src_reg } = self.0;
        let a = processor.reg(src_reg);
        write_result(processor, dest_reg, !a);
        Ok(())
    }
}

impl IBranch {
    /// Moves the PC by the offset when a tested flag is set.
    pub fn execute<P: LC3Access>(self, processor: &mut P) -> (r: Result<(), InstructionErr>)
        requires
            old(processor).inv(),
        ensures
            final(processor).inv(),
            r == Ok::<(), InstructionErr>(()),
            final(processor).state() == execute_spec(
                InstructionEnum::IBranch(self),
                old(processor).state(),
            ),
    {
        let pos_condition = self.cond_codes.positive && processor.positive_cond();
        let zero_condition = self.cond_codes.zero && processor.zero_cond();
        let neg_condition = self.cond_codes.negative && processor.negative_cond();
        if pos_condition || zero_condition || neg_condition {
            let pc = processor.pc();
            processor.set_pc(apply_offset(pc, self.pc_offset));
        }
        Ok(())
    }
}

impl IJump {
    /// Jumps to a register; RTI pops the PC and the status register from the
    /// supervisor stack and fails outside supervisor mode.
    pub fn execute<P: LC3Access>(self, processor: &mut P) -> (r: Result<(), InstructionErr>)
        requires
            old(processor).inv(),
        ensures
            final(processor).inv(),
            execute_fails(InstructionEnum::IJump(self), old(processor).state()) ==> r == Err::<
                (),
                InstructionErr,
            >(InstructionErr::InsufficientPerms(InsufficientPerms)) && final(processor).state()
                == old(processor).state(),
            !execute_fails(InstructionEnum::IJump(self), old(processor).state()) ==> r == Ok::<
                (),
                InstructionErr,
            >(()) && final(processor).state() == execute_spec(
                InstructionEnum::IJump(self),
                old(processor).state(),
            ),
    {
        let dest = match self {
            IJump::Instr(base_reg) => processor.reg(base_reg),
            IJump::PrivClear(base_reg) => {
                processor.set_privileged(false);
                processor.reg(base_reg)
            },
            IJump::Ret => processor.reg(RegAddr::Seven),
            IJump::InterRet => {
                if !processor.privileged() {
                    return Err(InstructionErr::InsufficientPerms(InsufficientPerms));
                }
                let stack_reg = processor.reg(STACK_REG);
                let pc = processor.mem(apply_offset(stack_reg, 1));
                let psr = processor.mem(apply_offset(stack_reg, 2));
                processor.set_reg(STACK_REG, apply_offset(stack_reg, 2));
                processor.set_processor_status_reg(psr);
                pc
            },
        };
        processor.set_pc(dest);
        Ok(())
    }
}

impl IJumpSubRoutine {
    /// Saves the PC in R7, then jumps by the offset or to the base register.
    pub fn execute<P: LC3Access>(self, processor: &mut P) -> (r: Result<(), InstructionErr>)
        requires
            old(processor).inv(),
        ensures
            final(processor).inv(),
            r == Ok::<(), InstructionErr>(()),
            final(processor).state() == execute_spec(
                InstructionEnum::IJumpSubRoutine(self),
                old(processor).state(),
            ),
    {
        let pc = processor.pc();
        let jump_addr = match self {
            IJumpSubRoutine::Offset(InstrPCOffset11 { pc_offset }) => apply_offset(pc, pc_offset),
            IJumpSubRoutine::Reg(base_reg) => processor.reg(base_reg),
        };
        processor.set_reg(RegAddr::Seven, pc);
        processor.set_pc(jump_addr);
        Ok(())
    }
}

impl ILoad {
    /// Loads the target register (LEA: with the address itself) and sets the
    /// flags from the loaded value.
    pub fn execute<P: LC3Access>(self, processor: &mut P) -> (r: Result<(), InstructionErr>)
        requires
            old(processor).inv(),
        ensures
            final(processor).inv(),
            r == Ok::<(), InstructionErr>(()),
            final(processor).state() == execute_spec(
                InstructionEnum::ILoad(self),
                old(processor).state(),
            ),
    {
        let pc = processor.pc();
        match self {
            ILoad::Std(InstrPCOffset9 { target_reg, pc_offset }) => {
                let value = processor.mem(apply_offset(pc, pc_offset));
                write_result(processor, target_reg, value);
            },
            ILoad::Indirect(InstrPCOffset9 { target_reg, pc_offset }) => {
                let target_loc = processor.mem(apply_offset(pc, pc_offset));
                let value = processor.mem(target_loc);
                write_result(processor, target_reg, value);
            },
            ILoad::Reg(InstrOffset6 { target_reg, base_reg, offset }) => {
                let base = processor.reg(base_reg);
                let value = processor.mem(apply_offset(base, offset));
                write_result(processor, target_reg, value);
            },
            ILoad::Addr(InstrPCOffset9 { target_reg, pc_offset }) => {
                write_result(processor, target_reg, apply_offset(pc, pc_offset));
            },
        }
        Ok(())
    }
}

impl IStore {
    /// Stores the source register; the flags are left alone.
    pub fn execute<P: LC3Access>(self, processor: &mut P) -> (r: Result<(), InstructionErr>)
        requires
            old(processor).inv(),
        ensures
            final(processor).inv(),
            r == Ok::<(), InstructionErr>(()),
            final(processor).state() == execute_spec(
                InstructionEnum::IStore(self),
                old(processor).state(),
            ),
    {
        let pc = processor.pc();
        match self {
            IStore::Std(InstrPCOffset9 { target_reg, pc_offset }) => {
                let value = processor.reg(target_reg);
                processor.set_mem(apply_offset(pc, pc_offset), value);
            },
            IStore::Indirect(InstrPCOffset9 { target_reg, pc_offset }) => {
                let target_addr = processor.mem(apply_offset(pc, pc_offset));
                let value = processor.reg(target_reg);
                processor.set_mem(target_addr, value);
            },
            IStore::Reg(InstrOffset6 { target_reg, base_reg, offset }) => {
                let base = processor.reg(base_reg);
                let value = processor.reg(target_reg);
                processor.set_mem(apply_offset(base, offset), value);
            },
        }
        Ok(())
    }
}

impl Trap {
    /// Saves the PC in R7 and jumps through the trap vector table; HALT also
    /// halts the machine.
    pub fn execute<P: LC3Access>(self, processor: &mut P) -> (r: Result<(), InstructionErr>)
        requires
            old(processor).inv(),
        ensures
            final(processor).inv(),
            r == Ok::<(), InstructionErr>(()),
            final(processor).state() == execute_spec(
                InstructionEnum::Trap(self),
                old(processor).state(),
            ),
    {
        if self == Trap::Halt {
            processor.halt();
        }
        let pc = processor.pc();
        let target = processor.mem(self.vector());
        processor.set_reg(RegAddr::Seven, pc);
        processor.set_pc(target);
        Ok(())
    }
}

impl InstructionEnum {
    /// Runs this instruction on `processor`, whose PC already holds the
    /// address after the instruction.
    pub fn execute<P: LC3Access>(self, processor: &mut P) -> (r: Result<(), InstructionErr>)
        requires
            old(processor).inv(),
        ensures
            final(processor).inv(),
            execute_fails(self, old(processor).state()) ==> r == Err::<(), InstructionErr>(
                InstructionErr::InsufficientPerms(InsufficientPerms),
            ) && final(processor).state() == old(processor).state(),
            !execute_fails(self, old(processor).state()) ==> r == Ok::<(), InstructionErr>(())
                && final(processor).state() == execute_spec(self, old(processor).state()),
    {
        match self {
            InstructionEnum::IAdd(x) => x.execute(processor),
            InstructionEnum::IAnd(x) => x.execute(processor),
            InstructionEnum::INot(x) => x.execute(processor),
            InstructionEnum::IBranch(x) => x.execute(processor),
            InstructionEnum::IJump(x) => x.execute(processor),
            InstructionEnum::IJumpSubRoutine(x) => x.execute(processor),
            InstructionEnum::ILoad(x) => x.execute(processor),
            InstructionEnum::IStore(x) => x.execute(processor),
            InstructionEnum::Trap(x) => x.execute(processor),
        }
    }

    /// Whether running this instruction leaves the PC at the incremented
    /// value.
    pub fn falls_through<P: LC3Access>(self, processor: &P) -> (r: bool)
        requires
            processor.inv(),
        ensures
            r == falls_through(self, processor.state()),
    {
        match self {
            InstructionEnum::IBranch(b) => {
                let taken = (b.cond_codes.negative && processor.negative_cond()) || (
                b.cond_codes.zero && processor.zero_cond()) || (b.cond_codes.positive
                    && processor.positive_cond());
                !taken
            },
            InstructionEnum::IJump(_) => false,
            InstructionEnum::IJumpSubRoutine(_) => false,
            InstructionEnum::Trap(_) => false,
            _ => true,
        }
    }
}

/// The part of a step after fetching: `inst` is what the word at the PC
/// decodes to, and the machine is running.
pub fn execute_fetched<P: LC3Access>(processor: &mut P, inst: InstructionEnum) -> (r: Result<
    (),
    StepFailure,
>)
    requires
        old(processor).inv(),
        !old(processor).state().halted,
        !old(processor).state().clock_disabled,
        decode(old(processor).state().mem_at(old(processor).state().pc)) == Some(inst),
    ensures
        final(processor).inv(),
        (final(processor).state(), r) == step_spec(old(processor).state()),
{
    let pc = processor.pc();
    if pc == 0xFFFF && inst.falls_through(processor) {
        return Err(StepFailure::LastAddress);
    }
    if inst == InstructionEnum::IJump(IJump::InterRet) && !processor.privileged() {
        return Err(StepFailure::InsufficientPerms(InsufficientPerms));
    }
    processor.set_pc(apply_offset(pc, 1));
    match inst.execute(processor) {
        Ok(()) => Ok(()),
        Err(e) => Err(StepFailure::from(e)),
    }
}

} // verus!
