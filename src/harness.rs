//! Harnesses drive a machine step by step and stand between it and the
//! outside world's I/O.

use vstd::prelude::*;

use crate::instruction::{decode, InstructionEnum, Trap};
use crate::defs::{DDR, DSR};
use crate::machine::{step_spec, LC3Access, MachineState, StepFailure, LC3};

verus! {

/// Relies on `std::io::Error` only as an opaque value: a byte-stream failure
/// carried unchanged in `ExecutionFailure::Io`.
#[verifier::external_type_specification]
#[verifier::external_body]
pub struct ExIoError(std::io::Error);

/// Failure of a harness step.
#[derive(Debug)]
pub enum ExecutionFailure {
    /// The machine itself failed to step.
    LC3(StepFailure),
    /// An input trap ran with no keyboard connected.
    NoKeyboard,
    /// An output trap ran with no console connected.
    NoConsole,
    /// A display write happened with no display connected.
    NoDisplay,
    /// The underlying byte stream failed.
    Io(std::io::Error),
}

/// Equality of failures; two I/O errors are never equal.
pub open spec fn failure_eq(a: &ExecutionFailure, b: &ExecutionFailure) -> bool {
    match (a, b) {
        (ExecutionFailure::LC3(x), ExecutionFailure::LC3(y)) => x == y,
        (ExecutionFailure::NoKeyboard, ExecutionFailure::NoKeyboard) => true,
        (ExecutionFailure::NoConsole, ExecutionFailure::NoConsole) => true,
        (ExecutionFailure::NoDisplay, ExecutionFailure::NoDisplay) => true,
        _ => false,
    }
}

impl PartialEq for ExecutionFailure {
    fn eq(&self, other: &ExecutionFailure) -> (r: bool) {
        match (self, other) {
            (ExecutionFailure::LC3(x), ExecutionFailure::LC3(y)) => *x == *y,
            (ExecutionFailure::NoKeyboard, ExecutionFailure::NoKeyboard) => true,
            (ExecutionFailure::NoConsole, ExecutionFailure::NoConsole) => true,
            (ExecutionFailure::NoDisplay, ExecutionFailure::NoDisplay) => true,
            _ => false,
        }
    }
}

impl vstd::std_specs::cmp::PartialEqSpecImpl for ExecutionFailure {
    open spec fn obeys_eq_spec() -> bool {
        false
    }

    open spec fn eq_spec(&self, other: &ExecutionFailure) -> bool {
        failure_eq(self, other)
    }
}

impl From<StepFailure> for ExecutionFailure {
    fn from(value: StepFailure) -> (r: ExecutionFailure) {
        ExecutionFailure::LC3(value)
    }
}

impl vstd::std_specs::convert::FromSpecImpl<StepFailure> for ExecutionFailure {
    open spec fn obeys_from_spec() -> bool {
        true
    }

    open spec fn from_spec(v: StepFailure) -> ExecutionFailure {
        ExecutionFailure::LC3(v)
    }
}

/// A machine step's result as a harness result.
pub open spec fn lift(r: Result<(), StepFailure>) -> Result<(), ExecutionFailure> {
    match r {
        Ok(()) => Ok(()),
        Err(e) => Err(ExecutionFailure::LC3(e)),
    }
}

/// Drives a machine one step at a time, handling I/O on its behalf.
pub trait SyncHarness {
    /// Whether one step of this harness may take the machine from `before`
    /// to `after` with result `r`. A harness that states nothing of its
    /// steps allows every one.
    open spec fn allows(before: MachineState, after: MachineState, r: Result<(), ExecutionFailure>) -> bool {
        true
    }

    fn step<P: LC3>(&mut self, processor: &mut P) -> (r: Result<(), ExecutionFailure>)
        requires
            old(processor).inv(),
        ensures
            final(processor).inv(),
            Self::allows(old(processor).state(), final(processor).state(), r),
    ;
}

/// Treats I/O as disconnected: every instruction, I/O traps included, runs
/// on the machine as it is, so a trap that waits on a device waits forever.
#[derive(Debug, Clone, Copy, PartialEq, Eq, Structural, PartialOrd, Ord, Hash)]
pub struct IgnoreIO;

impl IgnoreIO {
    /// One machine step, its failure wrapped.
    pub fn run_step<P: LC3>(processor: &mut P) -> (r: Result<(), ExecutionFailure>)
        requires
            old(processor).inv(),
        ensures
            final(processor).inv(),
            final(processor).state() == step_spec(old(processor).state()).0,
            r == lift(step_spec(old(processor).state()).1),
    {
        match processor.step() {
            Ok(()) => Ok(()),
            Err(e) => Err(ExecutionFailure::LC3(e)),
        }
    }
}

impl SyncHarness for IgnoreIO {
    open spec fn allows(before: MachineState, after: MachineState, r: Result<(), ExecutionFailure>) -> bool {
        after == step_spec(before).0 && r == lift(step_spec(before).1)
    }

    fn step<P: LC3>(&mut self, processor: &mut P) -> (r: Result<(), ExecutionFailure>) {
        IgnoreIO::run_step(processor)
    }
}

/// The failure that an I/O trap meets with no devices connected: GETC needs a
/// keyboard, the other I/O traps a console.
pub open spec fn io_trap_failure(inst: Option<InstructionEnum>) -> Option<ExecutionFailure> {
    match inst {
        Some(InstructionEnum::Trap(Trap::Getc)) => Some(ExecutionFailure::NoKeyboard),
        Some(InstructionEnum::Trap(Trap::Out)) => Some(ExecutionFailure::NoConsole),
        Some(InstructionEnum::Trap(Trap::PutS)) => Some(ExecutionFailure::NoConsole),
        Some(InstructionEnum::Trap(Trap::In)) => Some(ExecutionFailure::NoConsole),
        Some(InstructionEnum::Trap(Trap::PutSp)) => Some(ExecutionFailure::NoConsole),
        _ => None,
    }
}

/// Fails on every I/O trap.
#[derive(Debug, Clone, Copy, PartialEq, Eq, Structural, PartialOrd, Ord, Hash)]
pub struct FailIO;

impl FailIO {
    /// The failure `inst` meets with no devices connected, if it is an I/O trap.
    pub fn io_failure(inst: Option<InstructionEnum>) -> (r: Option<ExecutionFailure>)
        ensures
            r == io_trap_failure(inst),
    {
        match inst {
            Some(InstructionEnum::Trap(Trap::Getc)) => Some(ExecutionFailure::NoKeyboard),
            Some(InstructionEnum::Trap(Trap::Out)) => Some(ExecutionFailure::NoConsole),
            Some(InstructionEnum::Trap(Trap::PutS)) => Some(ExecutionFailure::NoConsole),
            Some(InstructionEnum::Trap(Trap::In)) => Some(ExecutionFailure::NoConsole),
            Some(InstructionEnum::Trap(Trap::PutSp)) => Some(ExecutionFailure::NoConsole),
            _ => None,
        }
    }
}

impl FailIO {
    /// Fails on an I/O trap at the PC without touching the machine;
    /// otherwise one machine step.
    pub fn run_step<P: LC3>(processor: &mut P) -> (r: Result<(), ExecutionFailure>)
        requires
            old(processor).inv(),
        ensures
            final(processor).inv(),
            ({
                let before = old(processor).state();
                match io_trap_failure(decode(before.mem_at(before.pc))) {
                    Some(e) => final(processor).state() == before && r == Err::<
                        (),
                        ExecutionFailure,
                    >(e),
                    None => final(processor).state() == step_spec(before).0 && r == lift(
                        step_spec(before).1,
                    ),
                }
            }),
    {
        if let Some(e) = FailIO::io_failure(processor.cur_inst()) {
            return Err(e);
        }
        match processor.step() {
            Ok(()) => Ok(()),
            Err(e) => Err(ExecutionFailure::LC3(e)),
        }
    }
}

impl SyncHarness for FailIO {
    open spec fn allows(before: MachineState, after: MachineState, r: Result<(), ExecutionFailure>) -> bool {
        match io_trap_failure(decode(before.mem_at(before.pc))) {
            Some(e) => after == before && r == Err::<(), ExecutionFailure>(e),
            None => after == step_spec(before).0 && r == lift(step_spec(before).1),
        }
    }

    fn step<P: LC3>(&mut self, processor: &mut P) -> (r: Result<(), ExecutionFailure>) {
        FailIO::run_step(processor)
    }
}

/// What a run does after one harness step: `None` to go on; otherwise the
/// run's result, where a halted machine counts as a completed run.
pub fn step_outcome(r: Result<(), ExecutionFailure>) -> (out: Option<Result<bool, ExecutionFailure>>)
    ensures
        r is Ok ==> out is None,
        r matches Err(ExecutionFailure::LC3(StepFailure::Halted)) ==> out matches Some(Ok(true)),
        r is Err && !(r matches Err(ExecutionFailure::LC3(StepFailure::Halted))) ==> out matches Some(Err(_)),
        out matches Some(Err(e)) ==> (r matches Err(f) && f == e),
{
    match r {
        Ok(()) => None,
        Err(ExecutionFailure::LC3(StepFailure::Halted)) => Some(Ok(true)),
        Err(e) => Some(Err(e)),
    }
}

/// A run of harness `H`: `states[i + 1]` and `results[i]` are what its
/// step `i` left and returned, every step but the last returned `Ok`, and a
/// run stops early only on a failure.
pub open spec fn is_run<H: SyncHarness>(
    states: Seq<MachineState>,
    results: Seq<Result<(), ExecutionFailure>>,
    limit: nat,
) -> bool {
    &&& states.len() == results.len() + 1
    &&& results.len() <= limit
    &&& forall|i: int| 0 <= i < results.len() ==> H::allows(states[i], states[i + 1], #[trigger] results[i])
    &&& forall|i: int| 0 <= i < results.len() - 1 ==> (#[trigger] results[i]) is Ok
    &&& results.len() < limit ==> results.len() > 0 && results.last() is Err
}

/// What a run reports: `Ok(true)` when its last step failed with `Halted`,
/// that step's failure when it failed otherwise, and `Ok(false)` when no step
/// failed.
pub open spec fn run_outcome(results: Seq<Result<(), ExecutionFailure>>) -> Result<bool, ExecutionFailure> {
    if results.len() == 0 {
        Ok(false)
    } else {
        match results.last() {
            Ok(()) => Ok(false),
            Err(ExecutionFailure::LC3(StepFailure::Halted)) => Ok(true),
            Err(e) => Err(e),
        }
    }
}

/// Runs `processor` on `harness` for at most `limit` steps. Returns
/// `Ok(true)` when the machine halted, `Ok(false)` when all `limit` steps
/// succeeded, and any other failure as it came.
pub fn lim_step_continue<H: SyncHarness, P: LC3>(harness: &mut H, processor: &mut P, limit: u64) -> (r: Result<bool, ExecutionFailure>)
    requires
        old(processor).inv(),
    ensures
        final(processor).inv(),
        exists|states: Seq<MachineState>, results: Seq<Result<(), ExecutionFailure>>|
            #[trigger] is_run::<H>(states, results, limit as nat) && states[0] == old(processor).state()
                && states.last() == final(processor).state() && r == run_outcome(results),
{
    let ghost mut states: Seq<MachineState> = seq![processor.state()];
    let ghost mut results: Seq<Result<(), ExecutionFailure>> = Seq::empty();
    let mut i: u64 = 0;
    while i < limit
        invariant
            processor.inv(),
            i <= limit,
            states.len() == results.len() + 1,
            results.len() == i,
            states[0] == old(processor).state(),
            states.last() == processor.state(),
            forall|k: int| 0 <= k < results.len() ==> H::allows(states[k], states[k + 1], #[trigger] results[k]),
            forall|k: int| 0 <= k < results.len() ==> (#[trigger] results[k]) is Ok,
        decreases limit - i,
    {
        let r = harness.step(processor);
        proof {
            let s0 = states;
            let r0 = results;
            states = states.push(processor.state());
            results = results.push(r);
            assert forall|k: int| 0 <= k < results.len() implies H::allows(states[k], states[k + 1], #[trigger] results[k]) by {
                if k < r0.len() {
                    assert(results[k] == r0[k]);
                    assert(states[k] == s0[k]);
                    assert(states[k + 1] == s0[k + 1]);
                }
            }
        }
        match step_outcome(r) {
            None => {},
            Some(out) => {
                proof {
                    assert forall|k: int| 0 <= k < results.len() - 1 implies (#[trigger] results[k]) is Ok by {
                        assert(results[k] == results.drop_last()[k]);
                    }
                    assert(is_run::<H>(states, results, limit as nat));
                }
                return out;
            },
        }
        i = i + 1;
    }
    proof {
        assert(is_run::<H>(states, results, limit as nat));
    }
    Ok(false)
}

/// The character waiting in the display data register, if the display
/// status register's bit 15 is clear; taking it sets that bit again.
pub fn take_display_output<P: LC3Access>(processor: &mut P) -> (r: Option<u8>)
    requires
        old(processor).inv(),
    ensures
        final(processor).inv(),
        old(processor).state().mem_at(DSR) < 0x8000 ==> r == Some(
            (old(processor).state().mem_at(DDR) % 256) as u8,
        ) && final(processor).state() == old(processor).state().set_mem(DSR, 0x8000),
        old(processor).state().mem_at(DSR) >= 0x8000 ==> r == None::<u8> && final(processor).state()
            == old(processor).state(),
{
    if processor.mem(DSR) < 0x8000 {
        let c = (processor.mem(DDR) % 256) as u8;
        processor.set_mem(DSR, 0x8000);
        Some(c)
    } else {
        None
    }
}

} // verus!
