//! Laws of the machine model that relate several operations.

use vstd::prelude::*;

use crate::codec_laws::lemma_decode_encode;
use crate::defs::{reg_index, RegAddr, MACHINE_CONTROL_REGISTER, STACK_REG};
use crate::instruction::{
    decode, encode, IAdd, IAnd, IJump, ILoad, INot, IStore, InstrOffset6, InstrPCOffset9,
    InstructionEnum, Trap,
};
use crate::machine::{
    execute_spec, falls_through, next_addr, step_spec, Condition, MachineState, StepFailure,
};
use crate::util::{lemma_offset_addr_twice, lemma_offset_addr_zero, offset_addr};

verus! {

/// Whether `i` writes a register and sets the flags from it.
pub open spec fn writes_flags(i: InstructionEnum) -> bool {
    i is IAdd || i is IAnd || i is INot || i is ILoad
}

/// The machine can run an instruction: it is neither halted nor stopped.
pub open spec fn running(s: MachineState) -> bool {
    !s.halted && !s.clock_disabled
}

/// After any step at most one of the negative, zero and positive flags is set.
pub proof fn lemma_flags_exclusive(s: MachineState)
    ensures
        ({
            let c = step_spec(s).0.condition;
            (c == Condition::Negative) as int + (c == Condition::Zero) as int + (c
                == Condition::Positive) as int <= 1
        }),
{
}

/// A step that runs a flag-writing instruction leaves exactly one flag set.
pub proof fn lemma_flag_writer_sets_flag(s: MachineState)
    requires
        running(s),
        decode(s.mem_at(s.pc)) is Some,
        writes_flags(decode(s.mem_at(s.pc))->0),
        step_spec(s).1 is Ok,
    ensures
        step_spec(s).0.condition != Condition::Clear,
{
}

/// A step that runs neither a flag-writing instruction nor RTI (which
/// restores the flags from the stack) leaves the flags as they were, so with
/// no flag set, no flag-writing instruction has run since they were cleared.
pub proof fn lemma_other_steps_keep_flags(s: MachineState)
    requires
        decode(s.mem_at(s.pc)) is Some,
        !writes_flags(decode(s.mem_at(s.pc))->0),
        decode(s.mem_at(s.pc))->0 != InstructionEnum::IJump(IJump::InterRet),
    ensures
        step_spec(s).0.condition == s.condition,
{
}

/// Restoring the status register from its own value changes nothing.
pub proof fn lemma_psr_round_trip(s: MachineState)
    requires
        s.wf(),
    ensures
        s.set_psr(s.psr()) == s,
{
    assert(s.set_psr(s.psr()) =~= s);
}

/// An interrupt followed by the RTI at its handler restores the PC, the
/// status register (mode, priority and flags) and R6, provided the handler's
/// address, the two stack slots and the machine control register are four
/// different cells.
pub proof fn lemma_interrupt_return(s: MachineState, vector: u16, priority: Option<u8>)
    requires
        s.wf(),
        running(s),
        vector <= 0xFEFF,
        ({
            let s1 = s.interrupt(vector, priority);
            let sp = s1.reg(STACK_REG);
            let psr_slot = offset_addr(sp as int, 2);
            let pc_slot = offset_addr(sp as int, 1);
            &&& s1.pc != psr_slot
            &&& s1.pc != pc_slot
            &&& s1.pc != MACHINE_CONTROL_REGISTER
            &&& psr_slot != MACHINE_CONTROL_REGISTER
            &&& pc_slot != MACHINE_CONTROL_REGISTER
        }),
    ensures
        ({
            let s1 = s.interrupt(vector, priority);
            let s2 = s1.set_mem(s1.pc, encode(InstructionEnum::IJump(IJump::InterRet)));
            let (s3, r) = step_spec(s2);
            &&& r is Ok
            &&& s3.pc == s.pc
            &&& s3.psr() == s.psr()
            &&& s3.privileged == s.privileged
            &&& s3.priority == s.priority
            &&& s3.condition == s.condition
            &&& s3.reg(STACK_REG) == s.reg(STACK_REG)
        }),
{
    let rti = InstructionEnum::IJump(IJump::InterRet);
    lemma_decode_encode(rti);
    let psr0 = s.psr();
    let a = s.set_privileged(true);
    let b = match priority {
        Some(p) => a.set_priority(p),
        None => a,
    };
    let sp = b.reg(STACK_REG);
    assert(sp == s.supervisor_sp);
    let pc_slot = offset_addr(sp as int, -1);
    let low = offset_addr(sp as int, -2);
    lemma_offset_addr_twice(sp as int, -2, 1);
    lemma_offset_addr_twice(sp as int, -2, 2);
    lemma_offset_addr_zero(sp);
    let s1 = s.interrupt(vector, priority);
    assert(s1.reg(STACK_REG) == low);
    assert(s1.supervisor_sp == low);
    assert(s1.mem_at(sp) == psr0);
    assert(s1.mem_at(pc_slot) == s.pc);
    assert(!s1.clock_disabled);
    let s2 = s1.set_mem(s1.pc, encode(rti));
    assert(s2.mem_at(s2.pc) == encode(rti));
    assert(s2.mem_at(sp) == psr0);
    assert(s2.mem_at(pc_slot) == s.pc);
    assert(s2.privileged);
    assert(!s2.clock_disabled);
    let s2n = s2.set_pc(next_addr(s2.pc));
    let s3 = execute_spec(rti, s2n);
    assert(step_spec(s2).0 == s3);
    assert(s2n.reg(STACK_REG) == low);
    let s4 = s2n.set_reg(STACK_REG, sp);
    assert(s4.supervisor_sp == s.supervisor_sp);
    assert(s4.regs == s.regs);
    assert(s3 == s4.set_psr(psr0).set_pc(s.pc));
    lemma_psr_round_trip(s);
    assert(s3.reg(STACK_REG) == s.reg(STACK_REG));
}

/// A load and then a store of the same register at the same PC and offset
/// leave memory as it was and the register as loaded (flags aside).
pub proof fn lemma_load_store(s: MachineState, x: InstrPCOffset9)
    requires
        s.wf(),
    ensures
        ({
            let s1 = execute_spec(InstructionEnum::ILoad(ILoad::Std(x)), s);
            let s2 = execute_spec(InstructionEnum::IStore(IStore::Std(x)), s1.set_pc(s.pc));
            &&& s2.mem == s.mem
            &&& s2.reg(x.target_reg) == s1.reg(x.target_reg)
        }),
{
    let s1 = execute_spec(InstructionEnum::ILoad(ILoad::Std(x)), s);
    let s2 = execute_spec(InstructionEnum::IStore(IStore::Std(x)), s1.set_pc(s.pc));
    assert(s2.mem =~= s.mem);
}

/// The same as `lemma_load_store` for the indirect forms LDI and STI.
pub proof fn lemma_load_store_indirect(s: MachineState, x: InstrPCOffset9)
    requires
        s.wf(),
    ensures
        ({
            let s1 = execute_spec(InstructionEnum::ILoad(ILoad::Indirect(x)), s);
            let s2 = execute_spec(InstructionEnum::IStore(IStore::Indirect(x)), s1.set_pc(s.pc));
            &&& s2.mem == s.mem
            &&& s2.reg(x.target_reg) == s1.reg(x.target_reg)
        }),
{
    let s1 = execute_spec(InstructionEnum::ILoad(ILoad::Indirect(x)), s);
    let s2 = execute_spec(InstructionEnum::IStore(IStore::Indirect(x)), s1.set_pc(s.pc));
    assert(s2.mem =~= s.mem);
}

/// The same as `lemma_load_store` for the base-register forms LDR and STR,
/// where the base register is not the one loaded.
pub proof fn lemma_load_store_base(s: MachineState, x: InstrOffset6)
    requires
        s.wf(),
        x.base_reg != x.target_reg,
    ensures
        ({
            let s1 = execute_spec(InstructionEnum::ILoad(ILoad::Reg(x)), s);
            let s2 = execute_spec(InstructionEnum::IStore(IStore::Reg(x)), s1.set_pc(s.pc));
            &&& s2.mem == s.mem
            &&& s2.reg(x.target_reg) == s1.reg(x.target_reg)
        }),
{
    let s1 = execute_spec(InstructionEnum::ILoad(ILoad::Reg(x)), s);
    let s2 = execute_spec(InstructionEnum::IStore(IStore::Reg(x)), s1.set_pc(s.pc));
    assert(reg_index(x.base_reg) != reg_index(x.target_reg));
    assert(s2.mem =~= s.mem);
}

/// LD with offset -1 loads the word at the PC: its own encoding.
pub proof fn lemma_load_own_word(s: MachineState, target: RegAddr)
    requires
        s.wf(),
        running(s),
        s.pc != 0xFFFF,
        s.mem_at(s.pc) == encode(
            InstructionEnum::ILoad(ILoad::Std(InstrPCOffset9 { target_reg: target, pc_offset: -1i16 })),
        ),
    ensures
        step_spec(s).1 is Ok,
        step_spec(s).0.reg(target) == s.mem_at(s.pc),
{
    let i = InstructionEnum::ILoad(ILoad::Std(InstrPCOffset9 { target_reg: target, pc_offset: -1i16 }));
    lemma_decode_encode(i);
    assert(decode(s.mem_at(s.pc)) == Some(i));
    lemma_offset_addr_twice(s.pc as int, 1, -1);
    lemma_offset_addr_zero(s.pc);
    let s1 = s.set_pc(next_addr(s.pc));
    assert(offset_addr(s1.pc as int, -1) == s.pc);
    assert(step_spec(s).0 == execute_spec(i, s1));
}

/// At the last address an instruction that would fall through to the next
/// address fails with `LastAddress` and changes nothing.
pub proof fn lemma_last_address(s: MachineState)
    requires
        running(s),
        s.pc == 0xFFFF,
        decode(s.mem_at(s.pc)) is Some,
        falls_through(decode(s.mem_at(s.pc))->0, s),
    ensures
        step_spec(s) == (s, Err::<(), StepFailure>(StepFailure::LastAddress)),
{
}

/// A HALT trap halts the machine, and the next step fails with `Halted`.
pub proof fn lemma_halt(s: MachineState)
    requires
        running(s),
        decode(s.mem_at(s.pc)) == Some(InstructionEnum::Trap(Trap::Halt)),
    ensures
        step_spec(s).1 is Ok,
        step_spec(s).0.halted,
        step_spec(step_spec(s).0) == (step_spec(s).0, Err::<(), StepFailure>(StepFailure::Halted)),
{
}

/// Clearing bit 15 of the machine control register stops the clock: the next
/// step fails with `ClockDisabled` (unless the machine is already halted).
pub proof fn lemma_clock_disable(s: MachineState, value: u16)
    requires
        !s.halted,
        value < 0x8000,
    ensures
        ({
            let s1 = s.set_mem(MACHINE_CONTROL_REGISTER, value);
            step_spec(s1) == (s1, Err::<(), StepFailure>(StepFailure::ClockDisabled))
        }),
{
}

} // verus!
