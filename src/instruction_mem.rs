//! The parallel-cache backend: words and decoded instructions live in two
//! arrays of the same length; a write to memory drops the decoded entry.

use vstd::prelude::*;

use crate::defs::{
    LC3MemAddr, LC3Word, RegAddr, ADDR_SPACE_SIZE, MACHINE_CONTROL_REGISTER, NUM_REGS,
    OS_SUPER_STACK, STACK_REG, SUPERVISOR_SP_INIT,
};
use crate::execute::execute_fetched;
use crate::core_lc3::zeroed;
use crate::instruction::{decode, InstructionEnum};
use crate::machine::{
    sparse_of, Condition, LC3MemLoc, MachineState, StepFailure, LC3, LC3Access,
};

verus! {

/// A machine that keeps each word's decoded instruction beside it once it
/// has been executed.
#[derive(Debug)]
pub struct InstMemLC3 {
    mem: Vec<LC3Word>,
    insts: Vec<Option<InstructionEnum>>,
    condition: Condition,
    priority: u8,
    privileged: bool,
    regs: Vec<LC3Word>,
    supervisor_sp: LC3Word,
    pc: LC3MemAddr,
    halted: bool,
    clock_disabled: bool,
}

/// `n` empty cache entries.
fn no_insts(n: usize) -> (r: Vec<Option<InstructionEnum>>)
    ensures
        r@ == Seq::new(n as nat, |i: int| None::<InstructionEnum>),
{
    let mut r: Vec<Option<InstructionEnum>> = Vec::new();
    let mut i: usize = 0;
    while i < n
        invariant
            i <= n,
            r@ == Seq::new(i as nat, |k: int| None::<InstructionEnum>),
        decreases n - i,
    {
        r.push(None);
        i = i + 1;
        proof {
            assert(r@ =~= Seq::new(i as nat, |k: int| None::<InstructionEnum>));
        }
    }
    r
}

impl InstMemLC3 {
    /// A fresh machine: zeroed memory and registers, no flags, priority 0,
    /// supervisor mode, PC at 0x0200.
    pub fn new() -> (r: InstMemLC3)
        ensures
            r.inv(),
            r.state() == MachineState::initial(),
    {
        let r = InstMemLC3 {
            mem: zeroed(ADDR_SPACE_SIZE),
            insts: no_insts(ADDR_SPACE_SIZE),
            condition: Condition::Clear,
            priority: 0,
            privileged: true,
            regs: zeroed(NUM_REGS),
            supervisor_sp: SUPERVISOR_SP_INIT,
            pc: OS_SUPER_STACK,
            halted: false,
            clock_disabled: false,
        };
        proof {
            assert(r.state() =~= MachineState::initial());
        }
        r
    }
}

impl InstMemLC3 {
    /// A fresh machine on the heap.
    pub fn boxed() -> (r: Box<InstMemLC3>)
        ensures
            r.inv(),
            r.state() == MachineState::initial(),
    {
        Box::new(InstMemLC3::new())
    }
}

impl Default for InstMemLC3 {
    fn default() -> (r: InstMemLC3)
        ensures
            r.inv(),
            r.state() == MachineState::initial(),
    {
        InstMemLC3::new()
    }
}

impl LC3Access for InstMemLC3 {
    closed spec fn state(&self) -> MachineState {
        MachineState {
            mem: self.mem@,
            regs: self.regs@,
            supervisor_sp: self.supervisor_sp,
            pc: self.pc,
            condition: self.condition,
            priority: self.priority,
            privileged: self.privileged,
            halted: self.halted,
            clock_disabled: self.clock_disabled,
        }
    }

    closed spec fn inv(&self) -> bool {
        &&& self.mem.len() == 65536
        &&& self.insts.len() == 65536
        &&& self.regs.len() == 8
        &&& self.priority < 8
        &&& forall|a: int|
            0 <= a < 65536 && (#[trigger] self.insts@[a]) is Some ==> decode(self.mem@[a])
                == self.insts@[a]
    }

    proof fn lemma_inv(&self) {
    }

    fn pc(&self) -> LC3MemAddr {
        self.pc
    }

    fn set_pc(&mut self, pc: LC3MemAddr) {
        self.pc = pc;
    }

    fn reg(&self, addr: RegAddr) -> LC3Word {
        if self.privileged && addr == STACK_REG {
            self.supervisor_sp
        } else {
            self.regs[addr.index() as usize]
        }
    }

    fn set_reg(&mut self, addr: RegAddr, value: LC3Word) {
        if self.privileged && addr == STACK_REG {
            self.supervisor_sp = value;
        } else {
            self.regs.set(addr.index() as usize, value);
        }
    }

    fn mem(&self, addr: LC3MemAddr) -> LC3Word {
        self.mem[addr as usize]
    }

    fn set_mem(&mut self, addr: LC3MemAddr, value: LC3Word) {
        self.mem.set(addr as usize, value);
        self.insts.set(addr as usize, None);
        if addr == MACHINE_CONTROL_REGISTER {
            self.clock_disabled = value < 0x8000;
        }
    }

    fn priority(&self) -> u8 {
        self.priority
    }

    fn set_priority(&mut self, priority: u8) {
        if priority < 8 {
            self.priority = priority;
        }
    }

    fn privileged(&self) -> bool {
        self.privileged
    }

    fn set_privileged(&mut self, privileged: bool) {
        self.privileged = privileged;
    }

    fn positive_cond(&self) -> bool {
        self.condition == Condition::Positive
    }

    fn zero_cond(&self) -> bool {
        self.condition == Condition::Zero
    }

    fn negative_cond(&self) -> bool {
        self.condition == Condition::Negative
    }

    fn flag_positive(&mut self) {
        self.condition = Condition::Positive;
    }

    fn flag_zero(&mut self) {
        self.condition = Condition::Zero;
    }

    fn flag_negative(&mut self) {
        self.condition = Condition::Negative;
    }

    fn clear_flags(&mut self) {
        self.condition = Condition::Clear;
    }

    fn iter(&self) -> Vec<LC3Word> {
        self.mem.clone()
    }

    fn sparse_iter(&self) -> Vec<LC3MemLoc> {
        sparse_of(&self.mem)
    }

    fn halt(&mut self) {
        self.halted = true;
    }

    fn unhalt(&mut self) {
        self.halted = false;
    }

    fn is_halted(&self) -> bool {
        self.halted
    }

    fn populate(&mut self, start: LC3MemAddr, words: &[LC3Word]) {
        let ghost before = self.state();
        let mut i: usize = 0;
        while i < words.len() && (start as usize) + i < ADDR_SPACE_SIZE
            invariant
                self.inv(),
                i <= words.len(),
                start + i <= 65536,
                self.state() == (MachineState { mem: self.mem@, ..before }),
                forall|a: int|
                    0 <= a < 65536 ==> #[trigger] self.mem@[a] == if start <= a < start + i {
                        words@[a - start]
                    } else {
                        before.mem[a]
                    },
            decreases words.len() - i,
        {
            self.mem.set((start as usize) + i, words[i]);
            self.insts.set((start as usize) + i, None);
            i = i + 1;
        }
        proof {
            let after = before.populate(start, words@);
            assert forall|a: int| 0 <= a < 65536 implies self.mem@[a] == after.mem[a] by {
                if start <= a < start + words.len() {
                    assert(a < start + i);
                }
            }
            assert(self.mem@ =~= after.mem);
            assert(self.state() =~= after);
        }
    }
}

impl LC3 for InstMemLC3 {
    fn step(&mut self) -> Result<(), StepFailure> {
        if self.halted {
            return Err(StepFailure::Halted);
        }
        if self.clock_disabled {
            return Err(StepFailure::ClockDisabled);
        }
        let pc = self.pc as usize;
        let inst = match self.insts[pc] {
            Some(inst) => inst,
            None => {
                let word = self.mem[pc];
                match InstructionEnum::parse(word) {
                    None => {
                        return Err(StepFailure::InvalidInstruction(word));
                    },
                    Some(inst) => {
                        self.insts.set(pc, Some(inst));
                        proof {
                            assert(self.state() =~= old(self).state());
                        }
                        inst
                    },
                }
            },
        };
        execute_fetched(self, inst)
    }
}

} // verus!
