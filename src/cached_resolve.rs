//! The resolve-on-demand backend: each memory cell holds either a raw word or
//! the instruction it decoded to the first time it was executed.

use vstd::prelude::*;

use crate::defs::{
    LC3MemAddr, LC3Word, RegAddr, ADDR_SPACE_SIZE, MACHINE_CONTROL_REGISTER, NUM_REGS,
    OS_SUPER_STACK, STACK_REG, SUPERVISOR_SP_INIT,
};
use crate::execute::execute_fetched;
use crate::codec_laws::{lemma_decode_encode, lemma_encode_decode};
use crate::core_lc3::zeroed;
use crate::instruction::{decode, encode, InstructionEnum};
use crate::machine::{
    sparse_of, Condition, LC3MemLoc, MachineState, StepFailure, LC3, LC3Access,
};

verus! {

/// A memory cell: a raw word, or the instruction that word decoded to.
#[derive(Debug, Clone, Copy, PartialEq, Eq, Structural, PartialOrd, Ord, Hash)]
pub enum CachedResolve {
    Raw(LC3Word),
    Resolved(InstructionEnum),
}

impl CachedResolve {
    /// The word this cell holds.
    pub open spec fn spec_word(self) -> u16 {
        match self {
            CachedResolve::Raw(w) => w,
            CachedResolve::Resolved(i) => encode(i),
        }
    }

    /// A resolved cell holds a well-formed instruction.
    pub open spec fn wf(self) -> bool {
        match self {
            CachedResolve::Raw(_) => true,
            CachedResolve::Resolved(i) => i.wf(),
        }
    }

    /// A cell holding `word` unresolved.
    pub fn new(word: LC3Word) -> (r: CachedResolve)
        ensures
            r == CachedResolve::Raw(word),
    {
        CachedResolve::Raw(word)
    }

    /// Decodes `word`; on success the cell becomes the decoded instruction.
    pub fn raw_instr(&mut self, word: LC3Word) -> (r: Option<InstructionEnum>)
        ensures
            r == decode(word),
            r is Some ==> *final(self) == CachedResolve::Resolved(r->0),
            r is None ==> *final(self) == *old(self),
    {
        let instr = InstructionEnum::parse(word);
        if let Some(i) = instr {
            *self = CachedResolve::Resolved(i);
        }
        instr
    }

    /// The instruction this cell's word decodes to, resolving the cell on
    /// the first success; the word it holds stays the same.
    pub fn instr(&mut self) -> (r: Option<InstructionEnum>)
        requires
            old(self).wf(),
        ensures
            r == decode(old(self).spec_word()),
            final(self).spec_word() == old(self).spec_word(),
            final(self).wf(),
            r matches Some(i) ==> *final(self) == CachedResolve::Resolved(i),
    {
        match *self {
            CachedResolve::Raw(word) => {
                let r = self.raw_instr(word);
                proof {
                    if r is Some {
                        lemma_encode_decode(word);
                    }
                }
                r
            },
            CachedResolve::Resolved(i) => {
                proof {
                    lemma_decode_encode(i);
                }
                Some(i)
            },
        }
    }

    /// The word this cell holds.
    pub fn word(&self) -> (r: LC3Word)
        ensures
            r == self.spec_word(),
    {
        match self {
            CachedResolve::Raw(word) => *word,
            CachedResolve::Resolved(i) => i.encode(),
        }
    }
}

/// A memory cell of `CachedResolveLC3`.
#[derive(Debug, Clone, Copy, PartialEq, Eq, Structural, PartialOrd, Ord, Hash)]
pub struct CachedResolveStruct {
    pub inner: CachedResolve,
}

impl CachedResolveStruct {
    /// A cell holding `word` unresolved.
    pub fn new(word: LC3Word) -> (r: CachedResolveStruct)
        ensures
            r.inner == CachedResolve::Raw(word),
    {
        CachedResolveStruct { inner: CachedResolve::new(word) }
    }

    /// See [`CachedResolve::instr`].
    pub fn instr(&mut self) -> (r: Option<InstructionEnum>)
        requires
            old(self).inner.wf(),
        ensures
            r == decode(old(self).inner.spec_word()),
            final(self).inner.spec_word() == old(self).inner.spec_word(),
            final(self).inner.wf(),
            r matches Some(i) ==> final(self).inner == CachedResolve::Resolved(i),
    {
        self.inner.instr()
    }

    /// The word this cell holds.
    pub fn word(&self) -> (r: LC3Word)
        ensures
            r == self.inner.spec_word(),
    {
        self.inner.word()
    }
}

/// `n` cells holding zero.
fn zero_cells(n: usize) -> (r: Vec<CachedResolveStruct>)
    ensures
        r@ == Seq::new(n as nat, |i: int| CachedResolveStruct { inner: CachedResolve::Raw(0) }),
{
    let mut r: Vec<CachedResolveStruct> = Vec::new();
    let mut i: usize = 0;
    while i < n
        invariant
            i <= n,
            r@ == Seq::new(i as nat, |k: int| CachedResolveStruct { inner: CachedResolve::Raw(0) }),
        decreases n - i,
    {
        r.push(CachedResolveStruct::new(0));
        i = i + 1;
        proof {
            assert(r@ =~= Seq::new(
                i as nat,
                |k: int| CachedResolveStruct { inner: CachedResolve::Raw(0) },
            ));
        }
    }
    r
}

/// A machine whose memory cells cache the instruction they decode to.
#[derive(Debug)]
pub struct CachedResolveLC3 {
    mem: Vec<CachedResolveStruct>,
    condition: Condition,
    priority: u8,
    privileged: bool,
    regs: Vec<LC3Word>,
    supervisor_sp: LC3Word,
    pc: LC3MemAddr,
    halted: bool,
    clock_disabled: bool,
}

/// The words held by `cells`.
pub open spec fn cell_words(cells: Seq<CachedResolveStruct>) -> Seq<u16> {
    Seq::new(cells.len(), |i: int| cells[i].inner.spec_word())
}

impl CachedResolveLC3 {
    /// A fresh machine: zeroed memory and registers, no flags, priority 0,
    /// supervisor mode, PC at 0x0200.
    pub fn new() -> (r: CachedResolveLC3)
        ensures
            r.inv(),
            r.state() == MachineState::initial(),
    {
        let r = CachedResolveLC3 {
            mem: zero_cells(ADDR_SPACE_SIZE),
            condition: Condition::Clear,
            priority: 0,
            privileged: true,
            regs: zeroed(NUM_REGS),
            supervisor_sp: SUPERVISOR_SP_INIT,
            pc: OS_SUPER_STACK,
            halted: false,
            clock_disabled: false,
        };
        proof {
            assert(cell_words(r.mem@) =~= Seq::new(65536, |i: int| 0u16));
            assert(r.state() =~= MachineState::initial());
        }
        r
    }
}

impl CachedResolveLC3 {
    /// A fresh machine on the heap.
    pub fn boxed() -> (r: Box<CachedResolveLC3>)
        ensures
            r.inv(),
            r.state() == MachineState::initial(),
    {
        Box::new(CachedResolveLC3::new())
    }
}

impl Default for CachedResolveLC3 {
    fn default() -> (r: CachedResolveLC3)
        ensures
            r.inv(),
            r.state() == MachineState::initial(),
    {
        CachedResolveLC3::new()
    }
}

impl LC3Access for CachedResolveLC3 {
    closed spec fn state(&self) -> MachineState {
        MachineState {
            mem: cell_words(self.mem@),
            regs: self.regs@,
            supervisor_sp: self.supervisor_sp,
            pc: self.pc,
            condition: self.condition,
            priority: self.priority,
            privileged: self.privileged,
            halted: self.halted,
            clock_disabled: self.clock_disabled,
        }
    }

    closed spec fn inv(&self) -> bool {
        &&& self.mem.len() == 65536
        &&& self.regs.len() == 8
        &&& self.priority < 8
        &&& forall|a: int| 0 <= a < 65536 ==> (#[trigger] self.mem@[a]).inner.wf()
    }

    proof fn lemma_inv(&self) {
    }

    fn pc(&self) -> LC3MemAddr {
        self.pc
    }

    fn set_pc(&mut self, pc: LC3MemAddr) {
        self.pc = pc;
    }

    fn reg(&self, addr: RegAddr) -> LC3Word {
        if self.privileged && addr == STACK_REG {
            self.supervisor_sp
        } else {
            self.regs[addr.index() as usize]
        }
    }

    fn set_reg(&mut self, addr: RegAddr, value: LC3Word) {
        if self.privileged && addr == STACK_REG {
            self.supervisor_sp = value;
        } else {
            self.regs.set(addr.index() as usize, value);
        }
    }

    fn mem(&self, addr: LC3MemAddr) -> LC3Word {
        self.mem[addr as usize].word()
    }

    fn set_mem(&mut self, addr: LC3MemAddr, value: LC3Word) {
        self.mem.set(addr as usize, CachedResolveStruct::new(value));
        proof {
            assert(self.state().mem =~= old(self).state().mem.update(addr as int, value));
        }
        if addr == MACHINE_CONTROL_REGISTER {
            self.clock_disabled = value < 0x8000;
        }
    }

    fn priority(&self) -> u8 {
        self.priority
    }

    fn set_priority(&mut self, priority: u8) {
        if priority < 8 {
            self.priority = priority;
        }
    }

    fn privileged(&self) -> bool {
        self.privileged
    }

    fn set_privileged(&mut self, privileged: bool) {
        self.privileged = privileged;
    }

    fn positive_cond(&self) -> bool {
        self.condition == Condition::Positive
    }

    fn zero_cond(&self) -> bool {
        self.condition == Condition::Zero
    }

    fn negative_cond(&self) -> bool {
        self.condition == Condition::Negative
    }

    fn flag_positive(&mut self) {
        self.condition = Condition::Positive;
    }

    fn flag_zero(&mut self) {
        self.condition = Condition::Zero;
    }

    fn flag_negative(&mut self) {
        self.condition = Condition::Negative;
    }

    fn clear_flags(&mut self) {
        self.condition = Condition::Clear;
    }

    fn iter(&self) -> Vec<LC3Word> {
        let mut r: Vec<LC3Word> = Vec::new();
        let mut i: usize = 0;
        while i < self.mem.len()
            invariant
                self.inv(),
                i <= self.mem.len(),
                r@ == cell_words(self.mem@).subrange(0, i as int),
            decreases self.mem.len() - i,
        {
            r.push(self.mem[i].word());
            i = i + 1;
            proof {
                assert(r@ =~= cell_words(self.mem@).subrange(0, i as int));
            }
        }
        proof {
            assert(r@ =~= cell_words(self.mem@));
        }
        r
    }

    fn sparse_iter(&self) -> Vec<LC3MemLoc> {
        let words = self.iter();
        sparse_of(&words)
    }

    fn halt(&mut self) {
        self.halted = true;
    }

    fn unhalt(&mut self) {
        self.halted = false;
    }

    fn is_halted(&self) -> bool {
        self.halted
    }

    fn populate(&mut self, start: LC3MemAddr, words: &[LC3Word]) {
        let ghost before = self.state();
        let mut i: usize = 0;
        while i < words.len() && (start as usize) + i < ADDR_SPACE_SIZE
            invariant
                self.inv(),
                i <= words.len(),
                start + i <= 65536,
                self.state() == (MachineState { mem: cell_words(self.mem@), ..before }),
                forall|a: int|
                    0 <= a < 65536 ==> #[trigger] cell_words(self.mem@)[a] == if start <= a < start + i {
                        words@[a - start]
                    } else {
                        before.mem[a]
                    },
            decreases words.len() - i,
        {
            let ghost prev = self.mem@;
            self.mem.set((start as usize) + i, CachedResolveStruct::new(words[i]));
            proof {
                assert(cell_words(self.mem@) =~= cell_words(prev).update(start + i, words@[i as int]));
            }
            i = i + 1;
        }
        proof {
            let after = before.populate(start, words@);
            assert forall|a: int| 0 <= a < 65536 implies cell_words(self.mem@)[a] == after.mem[a] by {
                if start <= a < start + words.len() {
                    assert(a < start + i);
                }
            }
            assert(cell_words(self.mem@) =~= after.mem);
            assert(self.state() =~= after);
        }
    }
}

impl LC3 for CachedResolveLC3 {
    fn step(&mut self) -> Result<(), StepFailure> {
        if self.halted {
            return Err(StepFailure::Halted);
        }
        if self.clock_disabled {
            return Err(StepFailure::ClockDisabled);
        }
        let pc = self.pc as usize;
        let mut cell = self.mem[pc];
        match cell.instr() {
            None => Err(StepFailure::InvalidInstruction(cell.word())),
            Some(inst) => {
                self.mem.set(pc, cell);
                proof {
                    assert(cell_words(self.mem@) =~= cell_words(old(self).mem@));
                    assert(self.state() =~= old(self).state());
                }
                execute_fetched(self, inst)
            },
        }
    }
}

} // verus!
