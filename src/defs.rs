//! Word types, well-known addresses and the register names.

use vstd::prelude::*;

verus! {

/// One LC-3 word.
pub type LC3Word = u16;

/// One LC-3 word read as two's complement.
pub type SignedLC3Word = i16;

/// An LC-3 memory address.
pub type LC3MemAddr = u16;

/// Number of words in the address space.
pub const ADDR_SPACE_SIZE: usize = 65536;

/// First address of the trap vector table.
pub const TRAP_VEC_TBL: LC3Word = 0x0000;

/// First address of the interrupt vector table.
pub const IR_VEC_TBL: LC3Word = 0x0100;

/// First address of the operating system and supervisor stack space.
pub const OS_SUPER_STACK: LC3Word = 0x0200;

/// First address of the user code space.
pub const USER_SPACE: LC3Word = 0x3000;

/// First address of the device register space.
pub const DEV_REG_ADDR: LC3Word = 0xFE00;

/// Keyboard status register.
pub const KBSR: LC3Word = 0xFE00;

/// Keyboard data register.
pub const KBDR: LC3Word = 0xFE02;

/// Display status register.
pub const DSR: LC3Word = 0xFE04;

/// Display data register.
pub const DDR: LC3Word = 0xFE06;

/// Machine control register: bit 15 enables the clock.
pub const MACHINE_CONTROL_REGISTER: LC3Word = 0xFFFE;

/// Supervisor stack pointer on a fresh machine.
pub const SUPERVISOR_SP_INIT: LC3Word = 0x2FFF;

/// Interrupt vector of the keyboard.
pub const KEYBOARD_INTERRUPT: LC3Word = 0x0080;

/// Priority that I/O device interrupts run at.
pub const IO_PRIORITY: u8 = 4;

/// Number of general purpose registers.
pub const NUM_REGS: usize = 8;

/// One of the eight general purpose registers.
#[derive(Debug, Clone, Copy, PartialEq, Eq, Structural, PartialOrd, Ord, Hash)]
pub enum RegAddr {
    Zero,
    One,
    Two,
    Three,
    Four,
    Five,
    Six,
    Seven,
}

/// The register that holds the stack pointer (banked in supervisor mode).
pub const STACK_REG: RegAddr = RegAddr::Six;

/// Register number of `r`, in [0, 7].
pub open spec fn reg_index(r: RegAddr) -> nat {
    match r {
        RegAddr::Zero => 0,
        RegAddr::One => 1,
        RegAddr::Two => 2,
        RegAddr::Three => 3,
        RegAddr::Four => 4,
        RegAddr::Five => 5,
        RegAddr::Six => 6,
        RegAddr::Seven => 7,
    }
}

/// The register numbered `n`, for `n` in [0, 7].
pub open spec fn reg_of(n: nat) -> RegAddr
    recommends
        n < 8,
{
    if n == 0 {
        RegAddr::Zero
    } else if n == 1 {
        RegAddr::One
    } else if n == 2 {
        RegAddr::Two
    } else if n == 3 {
        RegAddr::Three
    } else if n == 4 {
        RegAddr::Four
    } else if n == 5 {
        RegAddr::Five
    } else if n == 6 {
        RegAddr::Six
    } else {
        RegAddr::Seven
    }
}

/// Register numbering is a bijection between `RegAddr` and [0, 7].
pub proof fn lemma_reg_index_bijective()
    ensures
        forall|r: RegAddr| #[trigger] reg_index(r) < 8 && reg_of(reg_index(r)) == r,
        forall|n: nat| n < 8 ==> #[trigger] reg_index(reg_of(n)) == n,
{
}

/// A register number outside [0, 7].
#[derive(Debug, Clone, Copy, PartialEq, Eq, Structural, PartialOrd, Ord, Hash)]
pub struct InvalidRegAddr(pub u8);

impl RegAddr {
    /// Register numbered `value`.
    pub fn panic_from_u8(value: u8) -> (r: RegAddr)
        requires
            value < 8,
        ensures
            reg_index(r) == value,
            r == reg_of(value as nat),
    {
        match value {
            0 => RegAddr::Zero,
            1 => RegAddr::One,
            2 => RegAddr::Two,
            3 => RegAddr::Three,
            4 => RegAddr::Four,
            5 => RegAddr::Five,
            6 => RegAddr::Six,
            _ => RegAddr::Seven,
        }
    }

    /// Register numbered by the low byte of `value`.
    pub fn panic_from_u16(value: u16) -> (r: RegAddr)
        requires
            value % 256 < 8,
        ensures
            reg_index(r) == value % 256,
            r == reg_of((value % 256) as nat),
    {
        Self::panic_from_u8((value % 256) as u8)
    }

    /// Register numbered `value`, or the error that carries `value`.
    pub fn try_from_u8(value: u8) -> (r: Result<RegAddr, InvalidRegAddr>)
        ensures
            value < 8 ==> r == Ok::<RegAddr, InvalidRegAddr>(reg_of(value as nat)),
            value >= 8 ==> r == Err::<RegAddr, InvalidRegAddr>(InvalidRegAddr(value)),
    {
        if value < 8 {
            Ok(Self::panic_from_u8(value))
        } else {
            Err(InvalidRegAddr(value))
        }
    }

    /// Register number in [0, 7].
    pub fn index(self) -> (r: u8)
        ensures
            r as nat == reg_index(self),
    {
        match self {
            RegAddr::Zero => 0,
            RegAddr::One => 1,
            RegAddr::Two => 2,
            RegAddr::Three => 3,
            RegAddr::Four => 4,
            RegAddr::Five => 5,
            RegAddr::Six => 6,
            RegAddr::Seven => 7,
        }
    }
}

impl From<RegAddr> for u8 {
    fn from(value: RegAddr) -> (r: u8) {
        value.index()
    }
}

impl vstd::std_specs::convert::FromSpecImpl<RegAddr> for u8 {
    open spec fn obeys_from_spec() -> bool {
        true
    }

    open spec fn from_spec(v: RegAddr) -> u8 {
        reg_index(v) as u8
    }
}

impl From<RegAddr> for usize {
    fn from(value: RegAddr) -> (r: usize) {
        value.index() as usize
    }
}

impl vstd::std_specs::convert::FromSpecImpl<RegAddr> for usize {
    open spec fn obeys_from_spec() -> bool {
        true
    }

    open spec fn from_spec(v: RegAddr) -> usize {
        reg_index(v) as usize
    }
}

impl From<RegAddr> for u16 {
    fn from(value: RegAddr) -> (r: u16) {
        value.index() as u16
    }
}

impl vstd::std_specs::convert::FromSpecImpl<RegAddr> for u16 {
    open spec fn obeys_from_spec() -> bool {
        true
    }

    open spec fn from_spec(v: RegAddr) -> u16 {
        reg_index(v) as u16
    }
}

} // verus!
