//! The flat backend: memory is a plain word array and every step decodes the
//! word at the PC afresh.

use vstd::prelude::*;

use crate::defs::{
    LC3MemAddr, LC3Word, RegAddr, ADDR_SPACE_SIZE, MACHINE_CONTROL_REGISTER, NUM_REGS,
    OS_SUPER_STACK, STACK_REG, SUPERVISOR_SP_INIT,
};
use crate::execute::execute_fetched;
use crate::instruction::InstructionEnum;
use crate::machine::{
    sparse_of, Condition, LC3MemLoc, MachineState, StepFailure, LC3, LC3Access,
};

verus! {

/// A machine whose memory is a flat array of words.
#[derive(Debug)]
pub struct CoreLC3 {
    mem: Vec<LC3Word>,
    condition: Condition,
    priority: u8,
    privileged: bool,
    regs: Vec<LC3Word>,
    supervisor_sp: LC3Word,
    pc: LC3MemAddr,
    halted: bool,
    clock_disabled: bool,
}

/// `n` zero words.
pub(crate) fn zeroed(n: usize) -> (r: Vec<LC3Word>)
    ensures
        r@ == Seq::new(n as nat, |i: int| 0u16),
{
    let mut r: Vec<LC3Word> = Vec::new();
    let mut i: usize = 0;
    while i < n
        invariant
            i <= n,
            r@ == Seq::new(i as nat, |k: int| 0u16),
        decreases n - i,
    {
        r.push(0);
        i = i + 1;
        proof {
            assert(r@ =~= Seq::new(i as nat, |k: int| 0u16));
        }
    }
    r
}

impl CoreLC3 {
    /// A fresh machine: zeroed memory and registers, no flags, priority 0,
    /// supervisor mode, PC at 0x0200.
    pub fn new() -> (r: CoreLC3)
        ensures
            r.inv(),
            r.state() == MachineState::initial(),
    {
        let r = CoreLC3 {
            mem: zeroed(ADDR_SPACE_SIZE),
            condition: Condition::Clear,
            priority: 0,
            privileged: true,
            regs: zeroed(NUM_REGS),
            supervisor_sp: SUPERVISOR_SP_INIT,
            pc: OS_SUPER_STACK,
            halted: false,
            clock_disabled: false,
        };
        proof {
            assert(r.state() =~= MachineState::initial());
        }
        r
    }
}

impl Default for CoreLC3 {
    fn default() -> (r: CoreLC3)
        ensures
            r.inv(),
            r.state() == MachineState::initial(),
    {
        CoreLC3::new()
    }
}

impl LC3Access for CoreLC3 {
    closed spec fn state(&self) -> MachineState {
        MachineState {
            mem: self.mem@,
            regs: self.regs@,
            supervisor_sp: self.supervisor_sp,
            pc: self.pc,
            condition: self.condition,
            priority: self.priority,
            privileged: self.privileged,
            halted: self.halted,
            clock_disabled: self.clock_disabled,
        }
    }

    closed spec fn inv(&self) -> bool {
        self.mem.len() == 65536 && self.regs.len() == 8 && self.priority < 8
    }

    proof fn lemma_inv(&self) {
    }

    fn pc(&self) -> LC3MemAddr {
        self.pc
    }

    fn set_pc(&mut self, pc: LC3MemAddr) {
        self.pc = pc;
    }

    fn reg(&self, addr: RegAddr) -> LC3Word {
        if self.privileged && addr == STACK_REG {
            self.supervisor_sp
        } else {
            self.regs[addr.index() as usize]
        }
    }

    fn set_reg(&mut self, addr: RegAddr, value: LC3Word) {
        if self.privileged && addr == STACK_REG {
            self.supervisor_sp = value;
        } else {
            self.regs.set(addr.index() as usize, value);
        }
    }

    fn mem(&self, addr: LC3MemAddr) -> LC3Word {
        self.mem[addr as usize]
    }

    fn set_mem(&mut self, addr: LC3MemAddr, value: LC3Word) {
        self.mem.set(addr as usize, value);
        if addr == MACHINE_CONTROL_REGISTER {
            self.clock_disabled = value < 0x8000;
        }
    }

    fn priority(&self) -> u8 {
        self.priority
    }

    fn set_priority(&mut self, priority: u8) {
        if priority < 8 {
            self.priority = priority;
        }
    }

    fn privileged(&self) -> bool {
        self.privileged
    }

    fn set_privileged(&mut self, privileged: bool) {
        self.privileged = privileged;
    }

    fn positive_cond(&self) -> bool {
        self.condition == Condition::Positive
    }

    fn zero_cond(&self) -> bool {
        self.condition == Condition::Zero
    }

    fn negative_cond(&self) -> bool {
        self.condition == Condition::Negative
    }

    fn flag_positive(&mut self) {
        self.condition = Condition::Positive;
    }

    fn flag_zero(&mut self) {
        self.condition = Condition::Zero;
    }

    fn flag_negative(&mut self) {
        self.condition = Condition::Negative;
    }

    fn clear_flags(&mut self) {
        self.condition = Condition::Clear;
    }

    fn iter(&self) -> Vec<LC3Word> {
        self.mem.clone()
    }

    fn sparse_iter(&self) -> Vec<LC3MemLoc> {
        sparse_of(&self.mem)
    }

    fn halt(&mut self) {
        self.halted = true;
    }

    fn unhalt(&mut self) {
        self.halted = false;
    }

    fn is_halted(&self) -> bool {
        self.halted
    }

    fn populate(&mut self, start: LC3MemAddr, words: &[LC3Word]) {
        let ghost before = self.state();
        let mut i: usize = 0;
        while i < words.len() && (start as usize) + i < ADDR_SPACE_SIZE
            invariant
                self.inv(),
                i <= words.len(),
                start + i <= 65536,
                self.state() == (MachineState { mem: self.mem@, ..before }),
                forall|a: int|
                    0 <= a < 65536 ==> #[trigger] self.mem@[a] == if start <= a < start + i {
                        words@[a - start]
                    } else {
                        before.mem[a]
                    },
            decreases words.len() - i,
        {
            self.mem.set((start as usize) + i, words[i]);
            i = i + 1;
        }
        proof {
            let after = before.populate(start, words@);
            assert forall|a: int| 0 <= a < 65536 implies self.mem@[a] == after.mem[a] by {
                if start <= a < start + words.len() {
                    assert(a < start + i);
                }
            }
            assert(self.mem@ =~= after.mem);
            assert(self.state() =~= after);
        }
    }
}

impl LC3 for CoreLC3 {
    fn step(&mut self) -> Result<(), StepFailure> {
        if self.halted {
            return Err(StepFailure::Halted);
        }
        if self.clock_disabled {
            return Err(StepFailure::ClockDisabled);
        }
        let word = self.mem[self.pc as usize];
        match InstructionEnum::parse(word) {
            None => Err(StepFailure::InvalidInstruction(word)),
            Some(inst) => execute_fetched(self, inst),
        }
    }
}

} // verus!
