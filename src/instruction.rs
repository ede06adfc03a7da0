//! The instruction set: one type per opcode family, each with a decoder from
//! a word and an encoder back to the canonical word.

use vstd::prelude::*;
use vstd::arithmetic::power2::lemma2_to64;

use crate::defs::{LC3Word, RegAddr, SignedLC3Word, reg_index, reg_of};
use crate::util::{
    bit_field, get_bit, get_bits, get_opcode, low_bits, shift_to_signed, shift_to_unsigned,
    sign_extend,
};

verus! {

pub const ADD_OPCODE: u8 = 0b0001;
pub const AND_OPCODE: u8 = 0b0101;
pub const NOT_OPCODE: u8 = 0b1001;
pub const BRANCH_OPCODE: u8 = 0b0000;
pub const JMP_OPCODE: u8 = 0b1100;
pub const RTI_OPCODE: u8 = 0b1000;
pub const JSR_OPCODE: u8 = 0b0100;
pub const LD_OPCODE: u8 = 0b0010;
pub const LDI_OPCODE: u8 = 0b1010;
pub const LDR_OPCODE: u8 = 0b0110;
pub const LEA_OPCODE: u8 = 0b1110;
pub const ST_OPCODE: u8 = 0b0011;
pub const STI_OPCODE: u8 = 0b1011;
pub const STR_OPCODE: u8 = 0b0111;
pub const TRAP_OPCODE: u8 = 0b1111;

/// Trap vector of GETC.
pub const GETC: u16 = 0x20;
/// Trap vector of OUT.
pub const OUT: u16 = 0x21;
/// Trap vector of PUTS.
pub const PUTS: u16 = 0x22;
/// Trap vector of IN.
pub const IN: u16 = 0x23;
/// Trap vector of PUTSP.
pub const PUTSP: u16 = 0x24;
/// Trap vector of HALT.
pub const HALT: u16 = 0x25;

/// The register named by bits `start` down to `start - 2` of `w`.
pub open spec fn reg_field(w: u16, start: nat) -> RegAddr {
    reg_of(bit_field(w, start, (start - 2) as nat) as nat)
}

/// Bits `start` down to `end` of `w`, read as a two's complement number.
pub open spec fn signed_field(w: u16, start: nat, end: nat) -> i16 {
    sign_extend(bit_field(w, start, end), (start - end + 1) as nat) as i16
}

/// Register number of `r` as a word.
pub open spec fn reg_word(r: RegAddr) -> int {
    reg_index(r) as int
}

/// Destination and source registers plus a signed immediate.
#[derive(Debug, Clone, Copy, PartialEq, Eq, Structural, PartialOrd, Ord, Hash)]
pub struct InstrRegSignedImm {
    pub dest_reg: RegAddr,
    pub src_reg: RegAddr,
    pub imm: SignedLC3Word,
}

/// Destination and source registers plus an immediate, held sign-extended
/// to a 16-bit word.
#[derive(Debug, Clone, Copy, PartialEq, Eq, Structural, PartialOrd, Ord, Hash)]
pub struct InstrRegImm {
    pub dest_reg: RegAddr,
    pub src_reg: RegAddr,
    pub imm: LC3Word,
}

/// Destination register and two source registers.
#[derive(Debug, Clone, Copy, PartialEq, Eq, Structural, PartialOrd, Ord, Hash)]
pub struct InstrRegReg {
    pub dest_reg: RegAddr,
    pub src_reg_1: RegAddr,
    pub src_reg_2: RegAddr,
}

/// Destination and source register.
#[derive(Debug, Clone, Copy, PartialEq, Eq, Structural, PartialOrd, Ord, Hash)]
pub struct InstrRegOnly {
    pub dest_reg: RegAddr,
    pub src_reg: RegAddr,
}

/// Target register, base register and a signed 6-bit offset.
#[derive(Debug, Clone, Copy, PartialEq, Eq, Structural, PartialOrd, Ord, Hash)]
pub struct InstrOffset6 {
    pub target_reg: RegAddr,
    pub base_reg: RegAddr,
    pub offset: SignedLC3Word,
}

/// Target register and a signed 9-bit offset from the incremented PC.
#[derive(Debug, Clone, Copy, PartialEq, Eq, Structural, PartialOrd, Ord, Hash)]
pub struct InstrPCOffset9 {
    pub target_reg: RegAddr,
    pub pc_offset: SignedLC3Word,
}

/// A signed 11-bit offset from the incremented PC.
#[derive(Debug, Clone, Copy, PartialEq, Eq, Structural, PartialOrd, Ord, Hash)]
pub struct InstrPCOffset11 {
    pub pc_offset: SignedLC3Word,
}

/// Which condition flags a branch tests.
#[derive(Debug, Clone, Copy, PartialEq, Eq, Structural, PartialOrd, Ord, Hash)]
pub struct ConditionCodes {
    pub positive: bool,
    pub negative: bool,
    pub zero: bool,
}

/// ADD: register or immediate form.
#[derive(Debug, Clone, Copy, PartialEq, Eq, Structural, PartialOrd, Ord, Hash)]
pub enum IAdd {
    Reg(InstrRegReg),
    Imm(InstrRegImm),
}

/// AND: register or immediate form.
#[derive(Debug, Clone, Copy, PartialEq, Eq, Structural, PartialOrd, Ord, Hash)]
pub enum IAnd {
    Reg(InstrRegReg),
    Imm(InstrRegImm),
}

/// NOT: bitwise complement.
#[derive(Debug, Clone, Copy, PartialEq, Eq, Structural, PartialOrd, Ord, Hash)]
pub struct INot(pub InstrRegOnly);

/// BR: conditional branch by a signed 9-bit offset.
#[derive(Debug, Clone, Copy, PartialEq, Eq, Structural, PartialOrd, Ord, Hash)]
pub struct IBranch {
    pub cond_codes: ConditionCodes,
    pub pc_offset: SignedLC3Word,
}

/// JMP, its privilege-clearing form, RET and RTI.
#[derive(Debug, Clone, Copy, PartialEq, Eq, Structural, PartialOrd, Ord, Hash)]
pub enum IJump {
    Instr(RegAddr),
    PrivClear(RegAddr),
    Ret,
    InterRet,
}

/// JSR (offset form) and JSRR (register form).
#[derive(Debug, Clone, Copy, PartialEq, Eq, Structural, PartialOrd, Ord, Hash)]
pub enum IJumpSubRoutine {
    Offset(InstrPCOffset11),
    Reg(RegAddr),
}

/// LD, LDI, LDR and LEA.
#[derive(Debug, Clone, Copy, PartialEq, Eq, Structural, PartialOrd, Ord, Hash)]
pub enum ILoad {
    Std(InstrPCOffset9),
    Indirect(InstrPCOffset9),
    Reg(InstrOffset6),
    Addr(InstrPCOffset9),
}

/// ST, STI and STR.
#[derive(Debug, Clone, Copy, PartialEq, Eq, Structural, PartialOrd, Ord, Hash)]
pub enum IStore {
    Std(InstrPCOffset9),
    Indirect(InstrPCOffset9),
    Reg(InstrOffset6),
}

/// The six service routines reachable through TRAP.
#[derive(Debug, Clone, Copy, PartialEq, Eq, Structural, PartialOrd, Ord, Hash)]
pub enum Trap {
    Getc,
    Out,
    PutS,
    In,
    PutSp,
    Halt,
}

/// Every LC-3 instruction.
#[derive(Debug, Clone, Copy, PartialEq, Eq, Structural, PartialOrd, Ord, Hash)]
pub enum InstructionEnum {
    IAdd(IAdd),
    IAnd(IAnd),
    INot(INot),
    IBranch(IBranch),
    IJump(IJump),
    IJumpSubRoutine(IJumpSubRoutine),
    ILoad(ILoad),
    IStore(IStore),
    Trap(Trap),
}

// ---------------------------------------------------------------------------
// Field ranges

/// A 9-bit signed offset.
pub open spec fn offset9_ok(o: i16) -> bool {
    -256 <= o < 256
}

/// A 6-bit signed offset.
pub open spec fn offset6_ok(o: i16) -> bool {
    -32 <= o < 32
}

/// An 11-bit signed offset.
pub open spec fn offset11_ok(o: i16) -> bool {
    -1024 <= o < 1024
}

impl InstrRegImm {
    pub open spec fn wf(self) -> bool {
        self.imm < 16 || self.imm >= 0xFFF0
    }
}

impl IAdd {
    pub open spec fn wf(self) -> bool {
        match self {
            IAdd::Reg(_) => true,
            IAdd::Imm(x) => x.wf(),
        }
    }
}

impl IAnd {
    pub open spec fn wf(self) -> bool {
        match self {
            IAnd::Reg(_) => true,
            IAnd::Imm(x) => x.wf(),
        }
    }
}

impl IBranch {
    pub open spec fn wf(self) -> bool {
        offset9_ok(self.pc_offset)
    }
}

impl IJump {
    /// `JMP R7` is written `RET`.
    pub open spec fn wf(self) -> bool {
        self != IJump::Instr(RegAddr::Seven)
    }
}

impl IJumpSubRoutine {
    pub open spec fn wf(self) -> bool {
        match self {
            IJumpSubRoutine::Offset(o) => offset11_ok(o.pc_offset),
            IJumpSubRoutine::Reg(_) => true,
        }
    }
}

impl ILoad {
    pub open spec fn wf(self) -> bool {
        match self {
            ILoad::Std(x) => offset9_ok(x.pc_offset),
            ILoad::Indirect(x) => offset9_ok(x.pc_offset),
            ILoad::Reg(x) => offset6_ok(x.offset),
            ILoad::Addr(x) => offset9_ok(x.pc_offset),
        }
    }
}

impl IStore {
    pub open spec fn wf(self) -> bool {
        match self {
            IStore::Std(x) => offset9_ok(x.pc_offset),
            IStore::Indirect(x) => offset9_ok(x.pc_offset),
            IStore::Reg(x) => offset6_ok(x.offset),
        }
    }
}

impl InstructionEnum {
    /// Every field fits its bit range, and `JMP R7` is written `RET`.
    pub open spec fn wf(self) -> bool {
        match self {
            InstructionEnum::IAdd(x) => x.wf(),
            InstructionEnum::IAnd(x) => x.wf(),
            InstructionEnum::INot(_) => true,
            InstructionEnum::IBranch(x) => x.wf(),
            InstructionEnum::IJump(x) => x.wf(),
            InstructionEnum::IJumpSubRoutine(x) => x.wf(),
            InstructionEnum::ILoad(x) => x.wf(),
            InstructionEnum::IStore(x) => x.wf(),
            InstructionEnum::Trap(_) => true,
        }
    }
}

// ---------------------------------------------------------------------------
// ADD and AND

/// Decoding shared by ADD and AND: bit 5 selects the immediate form, and the
/// register form needs bits 4-3 clear.
pub open spec fn reg_reg_of(w: u16) -> InstrRegReg {
    InstrRegReg { dest_reg: reg_field(w, 11), src_reg_1: reg_field(w, 8), src_reg_2: reg_field(w, 2) }
}

pub open spec fn reg_imm_of(w: u16) -> InstrRegImm {
    InstrRegImm { dest_reg: reg_field(w, 11), src_reg: reg_field(w, 8), imm: imm5_of(w) }
}

/// The imm5 field of `w` sign-extended to a 16-bit word.
pub open spec fn imm5_of(w: u16) -> u16 {
    let f = bit_field(w, 4, 0);
    (if f >= 16 {
        f + 0xFFE0
    } else {
        f
    }) as u16
}

/// Word of a two-register arithmetic instruction with opcode `op`.
pub open spec fn reg_reg_word(op: int, x: InstrRegReg) -> u16 {
    (op * 4096 + reg_word(x.dest_reg) * 512 + reg_word(x.src_reg_1) * 64 + reg_word(x.src_reg_2)) as u16
}

/// Word of an immediate arithmetic instruction with opcode `op`.
pub open spec fn reg_imm_word(op: int, x: InstrRegImm) -> u16 {
    (op * 4096 + reg_word(x.dest_reg) * 512 + reg_word(x.src_reg) * 64 + 32 + x.imm % 32) as u16
}

/// Reads the register form of an arithmetic instruction.
fn parse_reg_reg(word: LC3Word) -> (r: InstrRegReg)
    ensures
        r == reg_reg_of(word),
{
    proof {
        lemma2_to64();
    }
    InstrRegReg {
        dest_reg: RegAddr::panic_from_u16(get_bits(word, 11, 9)),
        src_reg_1: RegAddr::panic_from_u16(get_bits(word, 8, 6)),
        src_reg_2: RegAddr::panic_from_u16(get_bits(word, 2, 0)),
    }
}

/// Reads the immediate form of an arithmetic instruction.
fn parse_reg_imm(word: LC3Word) -> (r: InstrRegImm)
    ensures
        r == reg_imm_of(word),
{
    proof {
        lemma2_to64();
    }
    InstrRegImm {
        dest_reg: RegAddr::panic_from_u16(get_bits(word, 11, 9)),
        src_reg: RegAddr::panic_from_u16(get_bits(word, 8, 6)),
        imm: imm5(word),
    }
}

/// The imm5 field of `word` sign-extended to a 16-bit word.
fn imm5(word: LC3Word) -> (r: LC3Word)
    ensures
        r == imm5_of(word),
{
    proof {
        lemma2_to64();
    }
    let field = get_bits(word, 4, 0);
    if field >= 16 {
        field + 0xFFE0
    } else {
        field
    }
}

fn reg_reg_encode(op: u16, x: InstrRegReg) -> (r: LC3Word)
    requires
        op < 16,
    ensures
        r == reg_reg_word(op as int, x),
{
    op * 4096 + x.dest_reg.index() as u16 * 512 + x.src_reg_1.index() as u16 * 64
        + x.src_reg_2.index() as u16
}

fn reg_imm_encode(op: u16, x: InstrRegImm) -> (r: LC3Word)
    requires
        op < 16,
    ensures
        r == reg_imm_word(op as int, x),
{
    op * 4096 + x.dest_reg.index() as u16 * 512 + x.src_reg.index() as u16 * 64 + 32 + x.imm % 32
}

impl IAdd {
    pub open spec fn spec_parse(w: u16) -> Option<IAdd> {
        if w / 4096 != ADD_OPCODE {
            None
        } else if bit_field(w, 5, 5) == 1 {
            Some(IAdd::Imm(reg_imm_of(w)))
        } else if bit_field(w, 4, 3) == 0 {
            Some(IAdd::Reg(reg_reg_of(w)))
        } else {
            None
        }
    }

    pub open spec fn spec_encode(self) -> u16 {
        match self {
            IAdd::Reg(x) => reg_reg_word(ADD_OPCODE as int, x),
            IAdd::Imm(x) => reg_imm_word(ADD_OPCODE as int, x),
        }
    }

    /// The ADD that `word` encodes, if any.
    pub fn parse(word: LC3Word) -> (r: Option<IAdd>)
        ensures
            r == IAdd::spec_parse(word),
    {
        proof {
            lemma2_to64();
        }
        if get_opcode(word) != ADD_OPCODE {
            None
        } else if get_bit(word, 5) == 1 {
            Some(IAdd::Imm(parse_reg_imm(word)))
        } else if get_bits(word, 4, 3) == 0 {
            Some(IAdd::Reg(parse_reg_reg(word)))
        } else {
            None
        }
    }

    /// The canonical word of this instruction.
    pub fn encode(self) -> (r: LC3Word)
        ensures
            r == self.spec_encode(),
    {
        match self {
            IAdd::Reg(x) => reg_reg_encode(ADD_OPCODE as u16, x),
            IAdd::Imm(x) => reg_imm_encode(ADD_OPCODE as u16, x),
        }
    }
}

impl From<IAdd> for LC3Word {
    fn from(value: IAdd) -> (r: LC3Word) {
        value.encode()
    }
}

impl vstd::std_specs::convert::FromSpecImpl<IAdd> for LC3Word {
    open spec fn obeys_from_spec() -> bool {
        true
    }

    open spec fn from_spec(v: IAdd) -> LC3Word {
        v.spec_encode()
    }
}

impl IAnd {
    pub open spec fn spec_parse(w: u16) -> Option<IAnd> {
        if w / 4096 != AND_OPCODE {
            None
        } else if bit_field(w, 5, 5) == 1 {
            Some(IAnd::Imm(reg_imm_of(w)))
        } else if bit_field(w, 4, 3) == 0 {
            Some(IAnd::Reg(reg_reg_of(w)))
        } else {
            None
        }
    }

    pub open spec fn spec_encode(self) -> u16 {
        match self {
            IAnd::Reg(x) => reg_reg_word(AND_OPCODE as int, x),
            IAnd::Imm(x) => reg_imm_word(AND_OPCODE as int, x),
        }
    }

    /// The AND that `word` encodes, if any.
    pub fn parse(word: LC3Word) -> (r: Option<IAnd>)
        ensures
            r == IAnd::spec_parse(word),
    {
        proof {
            lemma2_to64();
        }
        if get_opcode(word) != AND_OPCODE {
            None
        } else if get_bit(word, 5) == 1 {
            Some(IAnd::Imm(parse_reg_imm(word)))
        } else if get_bits(word, 4, 3) == 0 {
            Some(IAnd::Reg(parse_reg_reg(word)))
        } else {
            None
        }
    }

    /// The canonical word of this instruction.
    pub fn encode(self) -> (r: LC3Word)
        ensures
            r == self.spec_encode(),
    {
        match self {
            IAnd::Reg(x) => reg_reg_encode(AND_OPCODE as u16, x),
            IAnd::Imm(x) => reg_imm_encode(AND_OPCODE as u16, x),
        }
    }
}

impl From<IAnd> for LC3Word {
    fn from(value: IAnd) -> (r: LC3Word) {
        value.encode()
    }
}

impl vstd::std_specs::convert::FromSpecImpl<IAnd> for LC3Word {
    open spec fn obeys_from_spec() -> bool {
        true
    }

    open spec fn from_spec(v: IAnd) -> LC3Word {
        v.spec_encode()
    }
}

// ---------------------------------------------------------------------------
// NOT

impl INot {
    pub open spec fn spec_parse(w: u16) -> Option<INot> {
        if w / 4096 == NOT_OPCODE && bit_field(w, 5, 0) == 63 {
            Some(INot(InstrRegOnly { dest_reg: reg_field(w, 11), src_reg: reg_field(w, 8) }))
        } else {
            None
        }
    }

    pub open spec fn spec_encode(self) -> u16 {
        (NOT_OPCODE * 4096 + reg_word(self.0.dest_reg) * 512 + reg_word(self.0.src_reg) * 64
            + 63) as u16
    }

    /// The NOT that `word` encodes, if any: the low six bits must all be set.
    pub fn parse(word: LC3Word) -> (r: Option<INot>)
        ensures
            r == INot::spec_parse(word),
    {
        proof {
            lemma2_to64();
        }
        if get_opcode(word) == NOT_OPCODE && get_bits(word, 5, 0) == 63 {
            let dest_reg = RegAddr::panic_from_u16(get_bits(word, 11, 9));
            let src_reg = RegAddr::panic_from_u16(get_bits(word, 8, 6));
            Some(INot(InstrRegOnly { dest_reg, src_reg }))
        } else {
            None
        }
    }

    /// The canonical word of this instruction.
    pub fn encode(self) -> (r: LC3Word)
        ensures
            r == self.spec_encode(),
    {
        NOT_OPCODE as u16 * 4096 + self.0.dest_reg.index() as u16 * 512
            + self.0.src_reg.index() as u16 * 64 + 63
    }
}

impl From<INot> for LC3Word {
    fn from(value: INot) -> (r: LC3Word) {
        value.encode()
    }
}

impl vstd::std_specs::convert::FromSpecImpl<INot> for LC3Word {
    open spec fn obeys_from_spec() -> bool {
        true
    }

    open spec fn from_spec(v: INot) -> LC3Word {
        v.spec_encode()
    }
}

// ---------------------------------------------------------------------------
// BR

impl IBranch {
    pub open spec fn spec_parse(w: u16) -> Option<IBranch> {
        if w / 4096 == BRANCH_OPCODE {
            Some(
                IBranch {
                    cond_codes: ConditionCodes {
                        positive: bit_field(w, 9, 9) == 1,
                        negative: bit_field(w, 11, 11) == 1,
                        zero: bit_field(w, 10, 10) == 1,
                    },
                    pc_offset: signed_field(w, 8, 0),
                },
            )
        } else {
            None
        }
    }

    pub open spec fn spec_encode(self) -> u16 {
        ((if self.cond_codes.negative { 2048int } else { 0 }) + (if self.cond_codes.zero {
            1024int
        } else {
            0
        }) + (if self.cond_codes.positive { 512int } else { 0 }) + low_bits(self.pc_offset as int, 9))
            as u16
    }

    /// The branch that `word` encodes, if any.
    pub fn parse(word: LC3Word) -> (r: Option<IBranch>)
        ensures
            r == IBranch::spec_parse(word),
    {
        proof {
            lemma2_to64();
        }
        if get_opcode(word) == BRANCH_OPCODE {
            let cond_codes = ConditionCodes {
                positive: get_bit(word, 9) == 1,
                negative: get_bit(word, 11) == 1,
                zero: get_bit(word, 10) == 1,
            };
            let bits = get_bits(word, 8, 0);
            let pc_offset = shift_to_signed::<7>(bits);
            proof {
                assert(low_bits(bits as int, 9) == bits as int);
            }
            Some(IBranch { cond_codes, pc_offset })
        } else {
            None
        }
    }

    /// The canonical word of this instruction.
    pub fn encode(self) -> (r: LC3Word)
        ensures
            r == self.spec_encode(),
    {
        let mut with_cond: u16 = 0;
        if self.cond_codes.negative {
            with_cond = with_cond + 2048;
        }
        if self.cond_codes.zero {
            with_cond = with_cond + 1024;
        }
        if self.cond_codes.positive {
            with_cond = with_cond + 512;
        }
        proof {
            lemma2_to64();
        }
        with_cond + shift_to_unsigned::<7>(self.pc_offset)
    }
}

impl From<IBranch> for LC3Word {
    fn from(value: IBranch) -> (r: LC3Word) {
        value.encode()
    }
}

impl vstd::std_specs::convert::FromSpecImpl<IBranch> for LC3Word {
    open spec fn obeys_from_spec() -> bool {
        true
    }

    open spec fn from_spec(v: IBranch) -> LC3Word {
        v.spec_encode()
    }
}

// ---------------------------------------------------------------------------
// JMP, RET, RTI

impl IJump {
    pub open spec fn spec_parse(w: u16) -> Option<IJump> {
        if w / 4096 == JMP_OPCODE {
            if bit_field(w, 11, 9) == 0 && bit_field(w, 5, 1) == 0 {
                if bit_field(w, 0, 0) == 1 {
                    Some(IJump::PrivClear(reg_field(w, 8)))
                } else if reg_field(w, 8) == RegAddr::Seven {
                    Some(IJump::Ret)
                } else {
                    Some(IJump::Instr(reg_field(w, 8)))
                }
            } else {
                None
            }
        } else if w / 4096 == RTI_OPCODE {
            if bit_field(w, 11, 0) == 0 {
                Some(IJump::InterRet)
            } else {
                None
            }
        } else {
            None
        }
    }

    pub open spec fn spec_encode(self) -> u16 {
        match self {
            IJump::Instr(b) => (JMP_OPCODE * 4096 + reg_word(b) * 64) as u16,
            IJump::PrivClear(b) => (JMP_OPCODE * 4096 + reg_word(b) * 64 + 1) as u16,
            IJump::Ret => (JMP_OPCODE * 4096 + 7 * 64) as u16,
            IJump::InterRet => (RTI_OPCODE * 4096) as u16,
        }
    }

    /// The jump that `word` encodes, if any: JMP needs bits 11-9 and 5-1
    /// clear, RTI needs bits 11-0 clear.
    pub fn parse(word: LC3Word) -> (r: Option<IJump>)
        ensures
            r == IJump::spec_parse(word),
    {
        proof {
            lemma2_to64();
        }
        let opcode = get_opcode(word);
        if opcode == JMP_OPCODE {
            if get_bits(word, 11, 9) == 0 && get_bits(word, 5, 1) == 0 {
                let dest = RegAddr::panic_from_u16(get_bits(word, 8, 6));
                if get_bit(word, 0) == 1 {
                    Some(IJump::PrivClear(dest))
                } else if dest == RegAddr::Seven {
                    Some(IJump::Ret)
                } else {
                    Some(IJump::Instr(dest))
                }
            } else {
                None
            }
        } else if opcode == RTI_OPCODE {
            if get_bits(word, 11, 0) == 0 {
                Some(IJump::InterRet)
            } else {
                None
            }
        } else {
            None
        }
    }

    /// The canonical word of this instruction.
    pub fn encode(self) -> (r: LC3Word)
        ensures
            r == self.spec_encode(),
    {
        match self {
            IJump::Instr(b) => JMP_OPCODE as u16 * 4096 + b.index() as u16 * 64,
            IJump::PrivClear(b) => JMP_OPCODE as u16 * 4096 + b.index() as u16 * 64 + 1,
            IJump::Ret => JMP_OPCODE as u16 * 4096 + 7 * 64,
            IJump::InterRet => RTI_OPCODE as u16 * 4096,
        }
    }
}

impl From<IJump> for LC3Word {
    fn from(value: IJump) -> (r: LC3Word) {
        value.encode()
    }
}

impl vstd::std_specs::convert::FromSpecImpl<IJump> for LC3Word {
    open spec fn obeys_from_spec() -> bool {
        true
    }

    open spec fn from_spec(v: IJump) -> LC3Word {
        v.spec_encode()
    }
}

// ---------------------------------------------------------------------------
// JSR, JSRR

impl IJumpSubRoutine {
    pub open spec fn spec_parse(w: u16) -> Option<IJumpSubRoutine> {
        if w / 4096 != JSR_OPCODE {
            None
        } else if bit_field(w, 11, 11) == 1 {
            Some(IJumpSubRoutine::Offset(InstrPCOffset11 { pc_offset: signed_field(w, 10, 0) }))
        } else if bit_field(w, 11, 9) == 0 && bit_field(w, 5, 0) == 0 {
            Some(IJumpSubRoutine::Reg(reg_field(w, 8)))
        } else {
            None
        }
    }

    pub open spec fn spec_encode(self) -> u16 {
        match self {
            IJumpSubRoutine::Reg(b) => (JSR_OPCODE * 4096 + reg_word(b) * 64) as u16,
            IJumpSubRoutine::Offset(o) => (JSR_OPCODE * 4096 + 2048 + low_bits(
                o.pc_offset as int,
                11,
            )) as u16,
        }
    }

    /// The subroutine call that `word` encodes, if any: bit 11 selects the
    /// offset form; the register form needs bits 10-9 and 5-0 clear.
    pub fn parse(word: LC3Word) -> (r: Option<IJumpSubRoutine>)
        ensures
            r == IJumpSubRoutine::spec_parse(word),
    {
        proof {
            lemma2_to64();
        }
        if get_opcode(word) != JSR_OPCODE {
            None
        } else if get_bit(word, 11) == 1 {
            let bits = get_bits(word, 10, 0);
            let pc_offset = shift_to_signed::<5>(bits);
            proof {
                assert(low_bits(bits as int, 11) == bits as int);
            }
            Some(IJumpSubRoutine::Offset(InstrPCOffset11 { pc_offset }))
        } else if get_bits(word, 11, 9) == 0 && get_bits(word, 5, 0) == 0 {
            Some(IJumpSubRoutine::Reg(RegAddr::panic_from_u16(get_bits(word, 8, 6))))
        } else {
            None
        }
    }

    /// The canonical word of this instruction.
    pub fn encode(self) -> (r: LC3Word)
        ensures
            r == self.spec_encode(),
    {
        proof {
            lemma2_to64();
        }
        match self {
            IJumpSubRoutine::Reg(b) => JSR_OPCODE as u16 * 4096 + b.index() as u16 * 64,
            IJumpSubRoutine::Offset(o) => JSR_OPCODE as u16 * 4096 + 2048 + shift_to_unsigned::<5>(
                o.pc_offset,
            ),
        }
    }
}

impl From<IJumpSubRoutine> for LC3Word {
    fn from(value: IJumpSubRoutine) -> (r: LC3Word) {
        value.encode()
    }
}

impl vstd::std_specs::convert::FromSpecImpl<IJumpSubRoutine> for LC3Word {
    open spec fn obeys_from_spec() -> bool {
        true
    }

    open spec fn from_spec(v: IJumpSubRoutine) -> LC3Word {
        v.spec_encode()
    }
}

// ---------------------------------------------------------------------------
// Loads and stores

/// Target register and 9-bit PC offset of `w`.
pub open spec fn pc9_of(w: u16) -> InstrPCOffset9 {
    InstrPCOffset9 { target_reg: reg_field(w, 11), pc_offset: signed_field(w, 8, 0) }
}

/// Target register, base register and 6-bit offset of `w`.
pub open spec fn off6_of(w: u16) -> InstrOffset6 {
    InstrOffset6 {
        target_reg: reg_field(w, 11),
        base_reg: reg_field(w, 8),
        offset: signed_field(w, 5, 0),
    }
}

pub open spec fn pc9_word(op: int, x: InstrPCOffset9) -> u16 {
    (op * 4096 + reg_word(x.target_reg) * 512 + low_bits(x.pc_offset as int, 9)) as u16
}

pub open spec fn off6_word(op: int, x: InstrOffset6) -> u16 {
    (op * 4096 + reg_word(x.target_reg) * 512 + reg_word(x.base_reg) * 64 + low_bits(
        x.offset as int,
        6,
    )) as u16
}

fn parse_pc9(word: LC3Word) -> (r: InstrPCOffset9)
    ensures
        r == pc9_of(word),
{
    proof {
        lemma2_to64();
    }
    let target_reg = RegAddr::panic_from_u16(get_bits(word, 11, 9));
    let bits = get_bits(word, 8, 0);
    let pc_offset = shift_to_signed::<7>(bits);
    proof {
        assert(low_bits(bits as int, 9) == bits as int);
    }
    InstrPCOffset9 { target_reg, pc_offset }
}

fn parse_off6(word: LC3Word) -> (r: InstrOffset6)
    ensures
        r == off6_of(word),
{
    proof {
        lemma2_to64();
    }
    let target_reg = RegAddr::panic_from_u16(get_bits(word, 11, 9));
    let base_reg = RegAddr::panic_from_u16(get_bits(word, 8, 6));
    let bits = get_bits(word, 5, 0);
    let offset = shift_to_signed::<10>(bits);
    proof {
        assert(low_bits(bits as int, 6) == bits as int);
    }
    InstrOffset6 { target_reg, base_reg, offset }
}

fn pc9_encode(op: u16, x: InstrPCOffset9) -> (r: LC3Word)
    requires
        op < 16,
    ensures
        r == pc9_word(op as int, x),
{
    proof {
        lemma2_to64();
    }
    op * 4096 + x.target_reg.index() as u16 * 512 + shift_to_unsigned::<7>(x.pc_offset)
}

fn off6_encode(op: u16, x: InstrOffset6) -> (r: LC3Word)
    requires
        op < 16,
    ensures
        r == off6_word(op as int, x),
{
    proof {
        lemma2_to64();
    }
    op * 4096 + x.target_reg.index() as u16 * 512 + x.base_reg.index() as u16 * 64
        + shift_to_unsigned::<10>(x.offset)
}

impl ILoad {
    pub open spec fn spec_parse(w: u16) -> Option<ILoad> {
        if w / 4096 == LD_OPCODE {
            Some(ILoad::Std(pc9_of(w)))
        } else if w / 4096 == LDI_OPCODE {
            Some(ILoad::Indirect(pc9_of(w)))
        } else if w / 4096 == LDR_OPCODE {
            Some(ILoad::Reg(off6_of(w)))
        } else if w / 4096 == LEA_OPCODE {
            Some(ILoad::Addr(pc9_of(w)))
        } else {
            None
        }
    }

    pub open spec fn spec_encode(self) -> u16 {
        match self {
            ILoad::Std(x) => pc9_word(LD_OPCODE as int, x),
            ILoad::Indirect(x) => pc9_word(LDI_OPCODE as int, x),
            ILoad::Reg(x) => off6_word(LDR_OPCODE as int, x),
            ILoad::Addr(x) => pc9_word(LEA_OPCODE as int, x),
        }
    }

    /// The load that `word` encodes, if any.
    pub fn parse(word: LC3Word) -> (r: Option<ILoad>)
        ensures
            r == ILoad::spec_parse(word),
    {
        let opcode = get_opcode(word);
        if opcode == LD_OPCODE {
            Some(ILoad::Std(parse_pc9(word)))
        } else if opcode == LDI_OPCODE {
            Some(ILoad::Indirect(parse_pc9(word)))
        } else if opcode == LDR_OPCODE {
            Some(ILoad::Reg(parse_off6(word)))
        } else if opcode == LEA_OPCODE {
            Some(ILoad::Addr(parse_pc9(word)))
        } else {
            None
        }
    }

    /// The canonical word of this instruction.
    pub fn encode(self) -> (r: LC3Word)
        ensures
            r == self.spec_encode(),
    {
        match self {
            ILoad::Std(x) => pc9_encode(LD_OPCODE as u16, x),
            ILoad::Indirect(x) => pc9_encode(LDI_OPCODE as u16, x),
            ILoad::Reg(x) => off6_encode(LDR_OPCODE as u16, x),
            ILoad::Addr(x) => pc9_encode(LEA_OPCODE as u16, x),
        }
    }
}

impl From<ILoad> for LC3Word {
    fn from(value: ILoad) -> (r: LC3Word) {
        value.encode()
    }
}

impl vstd::std_specs::convert::FromSpecImpl<ILoad> for LC3Word {
    open spec fn obeys_from_spec() -> bool {
        true
    }

    open spec fn from_spec(v: ILoad) -> LC3Word {
        v.spec_encode()
    }
}

impl IStore {
    pub open spec fn spec_parse(w: u16) -> Option<IStore> {
        if w / 4096 == ST_OPCODE {
            Some(IStore::Std(pc9_of(w)))
        } else if w / 4096 == STI_OPCODE {
            Some(IStore::Indirect(pc9_of(w)))
        } else if w / 4096 == STR_OPCODE {
            Some(IStore::Reg(off6_of(w)))
        } else {
            None
        }
    }

    pub open spec fn spec_encode(self) -> u16 {
        match self {
            IStore::Std(x) => pc9_word(ST_OPCODE as int, x),
            IStore::Indirect(x) => pc9_word(STI_OPCODE as int, x),
            IStore::Reg(x) => off6_word(STR_OPCODE as int, x),
        }
    }

    /// The store that `word` encodes, if any.
    pub fn parse(word: LC3Word) -> (r: Option<IStore>)
        ensures
            r == IStore::spec_parse(word),
    {
        let opcode = get_opcode(word);
        if opcode == ST_OPCODE {
            Some(IStore::Std(parse_pc9(word)))
        } else if opcode == STI_OPCODE {
            Some(IStore::Indirect(parse_pc9(word)))
        } else if opcode == STR_OPCODE {
            Some(IStore::Reg(parse_off6(word)))
        } else {
            None
        }
    }

    /// The canonical word of this instruction.
    pub fn encode(self) -> (r: LC3Word)
        ensures
            r == self.spec_encode(),
    {
        match self {
            IStore::Std(x) => pc9_encode(ST_OPCODE as u16, x),
            IStore::Indirect(x) => pc9_encode(STI_OPCODE as u16, x),
            IStore::Reg(x) => off6_encode(STR_OPCODE as u16, x),
        }
    }
}

impl From<IStore> for LC3Word {
    fn from(value: IStore) -> (r: LC3Word) {
        value.encode()
    }
}

impl vstd::std_specs::convert::FromSpecImpl<IStore> for LC3Word {
    open spec fn obeys_from_spec() -> bool {
        true
    }

    open spec fn from_spec(v: IStore) -> LC3Word {
        v.spec_encode()
    }
}

// ---------------------------------------------------------------------------
// TRAP

impl Trap {
    /// The trap vector of this service routine.
    pub open spec fn spec_vector(self) -> u16 {
        match self {
            Trap::Getc => GETC,
            Trap::Out => OUT,
            Trap::PutS => PUTS,
            Trap::In => IN,
            Trap::PutSp => PUTSP,
            Trap::Halt => HALT,
        }
    }

    pub open spec fn spec_parse(w: u16) -> Option<Trap> {
        if w / 4096 == TRAP_OPCODE && bit_field(w, 11, 8) == 0 {
            let v = bit_field(w, 7, 0);
            if v == GETC {
                Some(Trap::Getc)
            } else if v == OUT {
                Some(Trap::Out)
            } else if v == PUTS {
                Some(Trap::PutS)
            } else if v == IN {
                Some(Trap::In)
            } else if v == PUTSP {
                Some(Trap::PutSp)
            } else if v == HALT {
                Some(Trap::Halt)
            } else {
                None
            }
        } else {
            None
        }
    }

    pub open spec fn spec_encode(self) -> u16 {
        (TRAP_OPCODE * 4096 + self.spec_vector()) as u16
    }

    /// The trap vector of this service routine.
    pub fn vector(self) -> (r: u16)
        ensures
            r == self.spec_vector(),
    {
        match self {
            Trap::Getc => GETC,
            Trap::Out => OUT,
            Trap::PutS => PUTS,
            Trap::In => IN,
            Trap::PutSp => PUTSP,
            Trap::Halt => HALT,
        }
    }

    /// The trap that `word` encodes, if any: bits 11-8 clear and one of the
    /// six known vectors.
    pub fn parse(word: LC3Word) -> (r: Option<Trap>)
        ensures
            r == Trap::spec_parse(word),
    {
        proof {
            lemma2_to64();
        }
        if get_opcode(word) == TRAP_OPCODE && get_bits(word, 11, 8) == 0 {
            let v = get_bits(word, 7, 0);
            if v == GETC {
                Some(Trap::Getc)
            } else if v == OUT {
                Some(Trap::Out)
            } else if v == PUTS {
                Some(Trap::PutS)
            } else if v == IN {
                Some(Trap::In)
            } else if v == PUTSP {
                Some(Trap::PutSp)
            } else if v == HALT {
                Some(Trap::Halt)
            } else {
                None
            }
        } else {
            None
        }
    }

    /// The canonical word of this instruction.
    pub fn encode(self) -> (r: LC3Word)
        ensures
            r == self.spec_encode(),
    {
        TRAP_OPCODE as u16 * 4096 + self.vector()
    }
}

impl From<Trap> for LC3Word {
    fn from(value: Trap) -> (r: LC3Word) {
        value.encode()
    }
}

impl vstd::std_specs::convert::FromSpecImpl<Trap> for LC3Word {
    open spec fn obeys_from_spec() -> bool {
        true
    }

    open spec fn from_spec(v: Trap) -> LC3Word {
        v.spec_encode()
    }
}

// ---------------------------------------------------------------------------
// Any instruction

/// The instruction that `w` encodes, if any.
pub open spec fn decode(w: u16) -> Option<InstructionEnum> {
    let op = w / 4096;
    if op == ADD_OPCODE {
        match IAdd::spec_parse(w) {
            Some(x) => Some(InstructionEnum::IAdd(x)),
            None => None,
        }
    } else if op == AND_OPCODE {
        match IAnd::spec_parse(w) {
            Some(x) => Some(InstructionEnum::IAnd(x)),
            None => None,
        }
    } else if op == NOT_OPCODE {
        match INot::spec_parse(w) {
            Some(x) => Some(InstructionEnum::INot(x)),
            None => None,
        }
    } else if op == BRANCH_OPCODE {
        match IBranch::spec_parse(w) {
            Some(x) => Some(InstructionEnum::IBranch(x)),
            None => None,
        }
    } else if op == JMP_OPCODE || op == RTI_OPCODE {
        match IJump::spec_parse(w) {
            Some(x) => Some(InstructionEnum::IJump(x)),
            None => None,
        }
    } else if op == JSR_OPCODE {
        match IJumpSubRoutine::spec_parse(w) {
            Some(x) => Some(InstructionEnum::IJumpSubRoutine(x)),
            None => None,
        }
    } else if op == LD_OPCODE || op == LDI_OPCODE || op == LDR_OPCODE || op == LEA_OPCODE {
        match ILoad::spec_parse(w) {
            Some(x) => Some(InstructionEnum::ILoad(x)),
            None => None,
        }
    } else if op == ST_OPCODE || op == STI_OPCODE || op == STR_OPCODE {
        match IStore::spec_parse(w) {
            Some(x) => Some(InstructionEnum::IStore(x)),
            None => None,
        }
    } else if op == TRAP_OPCODE {
        match Trap::spec_parse(w) {
            Some(x) => Some(InstructionEnum::Trap(x)),
            None => None,
        }
    } else {
        None
    }
}

/// The canonical word of `i`.
pub open spec fn encode(i: InstructionEnum) -> u16 {
    match i {
        InstructionEnum::IAdd(x) => x.spec_encode(),
        InstructionEnum::IAnd(x) => x.spec_encode(),
        InstructionEnum::INot(x) => x.spec_encode(),
        InstructionEnum::IBranch(x) => x.spec_encode(),
        InstructionEnum::IJump(x) => x.spec_encode(),
        InstructionEnum::IJumpSubRoutine(x) => x.spec_encode(),
        InstructionEnum::ILoad(x) => x.spec_encode(),
        InstructionEnum::IStore(x) => x.spec_encode(),
        InstructionEnum::Trap(x) => x.spec_encode(),
    }
}

impl InstructionEnum {
    /// The instruction that `word` encodes, or `None` when no instruction
    /// accepts the bit pattern.
    pub fn parse(word: LC3Word) -> (r: Option<InstructionEnum>)
        ensures
            r == decode(word),
    {
        let op = get_opcode(word);
        if op == ADD_OPCODE {
            match IAdd::parse(word) {
                Some(x) => Some(InstructionEnum::IAdd(x)),
                None => None,
            }
        } else if op == AND_OPCODE {
            match IAnd::parse(word) {
                Some(x) => Some(InstructionEnum::IAnd(x)),
                None => None,
            }
        } else if op == NOT_OPCODE {
            match INot::parse(word) {
                Some(x) => Some(InstructionEnum::INot(x)),
                None => None,
            }
        } else if op == BRANCH_OPCODE {
            match IBranch::parse(word) {
                Some(x) => Some(InstructionEnum::IBranch(x)),
                None => None,
            }
        } else if op == JMP_OPCODE || op == RTI_OPCODE {
            match IJump::parse(word) {
                Some(x) => Some(InstructionEnum::IJump(x)),
                None => None,
            }
        } else if op == JSR_OPCODE {
            match IJumpSubRoutine::parse(word) {
                Some(x) => Some(InstructionEnum::IJumpSubRoutine(x)),
                None => None,
            }
        } else if op == LD_OPCODE || op == LDI_OPCODE || op == LDR_OPCODE || op == LEA_OPCODE {
            match ILoad::parse(word) {
                Some(x) => Some(InstructionEnum::ILoad(x)),
                None => None,
            }
        } else if op == ST_OPCODE || op == STI_OPCODE || op == STR_OPCODE {
            match IStore::parse(word) {
                Some(x) => Some(InstructionEnum::IStore(x)),
                None => None,
            }
        } else if op == TRAP_OPCODE {
            match Trap::parse(word) {
                Some(x) => Some(InstructionEnum::Trap(x)),
                None => None,
            }
        } else {
            None
        }
    }

    /// The canonical word of this instruction.
    pub fn encode(self) -> (r: LC3Word)
        ensures
            r == encode(self),
    {
        match self {
            InstructionEnum::IAdd(x) => x.encode(),
            InstructionEnum::IAnd(x) => x.encode(),
            InstructionEnum::INot(x) => x.encode(),
            InstructionEnum::IBranch(x) => x.encode(),
            InstructionEnum::IJump(x) => x.encode(),
            InstructionEnum::IJumpSubRoutine(x) => x.encode(),
            InstructionEnum::ILoad(x) => x.encode(),
            InstructionEnum::IStore(x) => x.encode(),
            InstructionEnum::Trap(x) => x.encode(),
        }
    }
}

impl From<InstructionEnum> for LC3Word {
    fn from(value: InstructionEnum) -> (r: LC3Word) {
        value.encode()
    }
}

impl vstd::std_specs::convert::FromSpecImpl<InstructionEnum> for LC3Word {
    open spec fn obeys_from_spec() -> bool {
        true
    }

    open spec fn from_spec(v: InstructionEnum) -> LC3Word {
        encode(v)
    }
}

} // verus!
