//! Laws of the instruction codec: decoding and encoding are inverse to each
//! other, and malformed words inside a valid opcode are rejected.

use vstd::prelude::*;
use vstd::arithmetic::power2::{pow2, lemma2_to64};
use vstd::arithmetic::div_mod::{lemma_fundamental_div_mod, lemma_mod_breakdown};

use crate::defs::{lemma_reg_index_bijective, reg_index};
use crate::instruction::{
    decode, encode, reg_field, IAdd, IAnd, InstrPCOffset9, InstrOffset6, offset9_ok, offset6_ok,
    pc9_word, pc9_of, off6_word, off6_of, IJumpSubRoutine, ILoad, IStore, InstructionEnum, JSR_OPCODE, LDI_OPCODE,
    LDR_OPCODE, LD_OPCODE, LEA_OPCODE, NOT_OPCODE, STI_OPCODE, STR_OPCODE, ST_OPCODE, ADD_OPCODE,
    AND_OPCODE, BRANCH_OPCODE, JMP_OPCODE, RTI_OPCODE, TRAP_OPCODE,
};
use crate::util::{bit_field, low_bits, sign_extend};

verus! {

/// Each named bit range of a word as division and remainder.
pub proof fn lemma_word_fields(w: u16)
    ensures
        bit_field(w, 11, 9) == (w as int / 512) % 8,
        bit_field(w, 8, 6) == (w as int / 64) % 8,
        bit_field(w, 2, 0) == w as int % 8,
        bit_field(w, 5, 5) == (w as int / 32) % 2,
        bit_field(w, 4, 3) == (w as int / 8) % 4,
        bit_field(w, 4, 0) == w as int % 32,
        bit_field(w, 5, 0) == w as int % 64,
        bit_field(w, 5, 1) == (w as int / 2) % 32,
        bit_field(w, 0, 0) == w as int % 2,
        bit_field(w, 8, 0) == w as int % 512,
        bit_field(w, 10, 0) == w as int % 2048,
        bit_field(w, 11, 11) == (w as int / 2048) % 2,
        bit_field(w, 10, 10) == (w as int / 1024) % 2,
        bit_field(w, 9, 9) == (w as int / 512) % 2,
        bit_field(w, 11, 0) == w as int % 4096,
        bit_field(w, 11, 8) == (w as int / 256) % 16,
        bit_field(w, 7, 0) == w as int % 256,
        w as int / 4096 < 16,
{
    lemma2_to64();
}

/// A word as the sum of its bit ranges.
pub proof fn lemma_word_split(w: u16)
    ensures
        w as int == 4096 * (w as int / 4096) + w as int % 4096,
        w as int % 4096 == 512 * ((w as int / 512) % 8) + w as int % 512,
        w as int % 512 == 64 * ((w as int / 64) % 8) + w as int % 64,
        w as int % 64 == 32 * ((w as int / 32) % 2) + w as int % 32,
        w as int % 32 == 8 * ((w as int / 8) % 4) + w as int % 8,
        w as int % 64 == 2 * ((w as int / 2) % 32) + w as int % 2,
        w as int % 4096 == 2048 * ((w as int / 2048) % 2) + w as int % 2048,
        w as int % 2048 == 1024 * ((w as int / 1024) % 2) + w as int % 1024,
        w as int % 1024 == 512 * ((w as int / 512) % 2) + w as int % 512,
        w as int % 4096 == 256 * ((w as int / 256) % 16) + w as int % 256,
{
    let x = w as int;
    lemma_fundamental_div_mod(x, 4096);
    lemma_mod_breakdown(x, 512, 8);
    lemma_mod_breakdown(x, 64, 8);
    lemma_mod_breakdown(x, 32, 2);
    lemma_mod_breakdown(x, 8, 4);
    lemma_mod_breakdown(x, 2, 32);
    lemma_mod_breakdown(x, 2048, 2);
    lemma_mod_breakdown(x, 1024, 2);
    lemma_mod_breakdown(x, 512, 2);
    lemma_mod_breakdown(x, 256, 16);
}

/// A two's complement field read back as bits is the field itself.
proof fn lemma_sign_extend_inverse(f: int, n: nat)
    requires
        0 < n <= 15,
        0 <= f < pow2(n),
    ensures
        low_bits(sign_extend(f, n), n) == f,
        -pow2((n - 1) as nat) <= sign_extend(f, n) < pow2((n - 1) as nat),
{
    vstd::arithmetic::power2::lemma_pow2_unfold(n);
    if f >= pow2((n - 1) as nat) {
        vstd::arithmetic::div_mod::lemma_mod_add_multiples_vanish(f - pow2(n), pow2(n) as int);
        vstd::arithmetic::div_mod::lemma_small_mod(f as nat, pow2(n));
    } else {
        vstd::arithmetic::div_mod::lemma_small_mod(f as nat, pow2(n));
    }
}

/// A small signed number written as bits is read back as itself.
proof fn lemma_low_bits_inverse(v: int, n: nat)
    requires
        0 < n <= 15,
        -pow2((n - 1) as nat) <= v < pow2((n - 1) as nat),
    ensures
        sign_extend(low_bits(v, n), n) == v,
        0 <= low_bits(v, n) < pow2(n),
{
    vstd::arithmetic::power2::lemma_pow2_unfold(n);
    if v < 0 {
        vstd::arithmetic::div_mod::lemma_mod_add_multiples_vanish(v, pow2(n) as int);
        vstd::arithmetic::div_mod::lemma_small_mod((v + pow2(n)) as nat, pow2(n));
    } else {
        vstd::arithmetic::div_mod::lemma_small_mod(v as nat, pow2(n));
    }
}

proof fn lemma_reg_fields(w: u16)
    ensures
        reg_index(reg_field(w, 11)) == (w as int / 512) % 8,
        reg_index(reg_field(w, 8)) == (w as int / 64) % 8,
        reg_index(reg_field(w, 2)) == w as int % 8,
{
    lemma_word_fields(w);
    lemma_reg_index_bijective();
}

#[verifier::rlimit(100)]
proof fn lemma_encode_decode_arith(w: u16)
    requires
        decode(w) is Some,
        w / 4096 == ADD_OPCODE || w / 4096 == AND_OPCODE,
    ensures
        encode(decode(w)->0) == w,
        decode(w)->0.wf(),
{
    lemma_word_fields(w);
    lemma_word_split(w);
    lemma_reg_fields(w);
}

#[verifier::rlimit(100)]
proof fn lemma_encode_decode_not(w: u16)
    requires
        decode(w) is Some,
        w / 4096 == NOT_OPCODE,
    ensures
        encode(decode(w)->0) == w,
        decode(w)->0.wf(),
{
    lemma_word_fields(w);
    lemma_word_split(w);
    lemma_reg_fields(w);
}

#[verifier::rlimit(100)]
proof fn lemma_encode_decode_branch(w: u16)
    requires
        decode(w) is Some,
        w / 4096 == BRANCH_OPCODE,
    ensures
        encode(decode(w)->0) == w,
        decode(w)->0.wf(),
{
    lemma2_to64();
    lemma_word_fields(w);
    lemma_word_split(w);
    lemma_sign_extend_inverse(w as int % 512, 9);
}

#[verifier::rlimit(100)]
proof fn lemma_encode_decode_jump(w: u16)
    requires
        decode(w) is Some,
        w / 4096 == JMP_OPCODE || w / 4096 == RTI_OPCODE,
    ensures
        encode(decode(w)->0) == w,
        decode(w)->0.wf(),
{
    lemma_word_fields(w);
    lemma_word_split(w);
    lemma_reg_fields(w);
    lemma_reg_index_bijective();
}

#[verifier::rlimit(100)]
proof fn lemma_encode_decode_subroutine(w: u16)
    requires
        decode(w) is Some,
        w / 4096 == JSR_OPCODE,
    ensures
        encode(decode(w)->0) == w,
        decode(w)->0.wf(),
{
    lemma2_to64();
    lemma_word_fields(w);
    lemma_word_split(w);
    lemma_reg_fields(w);
    if bit_field(w, 11, 11) == 1 {
        lemma_sign_extend_inverse(w as int % 2048, 11);
    }
}

#[verifier::rlimit(100)]
proof fn lemma_encode_decode_pc9(w: u16)
    requires
        decode(w) is Some,
        w / 4096 == LD_OPCODE || w / 4096 == LDI_OPCODE || w / 4096 == LEA_OPCODE || w / 4096
            == ST_OPCODE || w / 4096 == STI_OPCODE,
    ensures
        encode(decode(w)->0) == w,
        decode(w)->0.wf(),
{
    lemma2_to64();
    lemma_word_fields(w);
    lemma_word_split(w);
    lemma_reg_fields(w);
    lemma_sign_extend_inverse(w as int % 512, 9);
}

#[verifier::rlimit(100)]
proof fn lemma_encode_decode_off6(w: u16)
    requires
        decode(w) is Some,
        w / 4096 == LDR_OPCODE || w / 4096 == STR_OPCODE,
    ensures
        encode(decode(w)->0) == w,
        decode(w)->0.wf(),
{
    lemma2_to64();
    lemma_word_fields(w);
    lemma_word_split(w);
    lemma_reg_fields(w);
    lemma_sign_extend_inverse(w as int % 64, 6);
}

#[verifier::rlimit(100)]
proof fn lemma_encode_decode_trap(w: u16)
    requires
        decode(w) is Some,
        w / 4096 == TRAP_OPCODE,
    ensures
        encode(decode(w)->0) == w,
        decode(w)->0.wf(),
{
    lemma_word_fields(w);
    lemma_word_split(w);
}

/// Every word that decodes is the canonical encoding of what it decodes to,
/// and what it decodes to is well formed.
pub proof fn lemma_encode_decode(w: u16)
    requires
        decode(w) is Some,
    ensures
        encode(decode(w)->0) == w,
        decode(w)->0.wf(),
{
    let op = w / 4096;
    if op == ADD_OPCODE || op == AND_OPCODE {
        lemma_encode_decode_arith(w);
    } else if op == NOT_OPCODE {
        lemma_encode_decode_not(w);
    } else if op == BRANCH_OPCODE {
        lemma_encode_decode_branch(w);
    } else if op == JMP_OPCODE || op == RTI_OPCODE {
        lemma_encode_decode_jump(w);
    } else if op == JSR_OPCODE {
        lemma_encode_decode_subroutine(w);
    } else if op == LDR_OPCODE || op == STR_OPCODE {
        lemma_encode_decode_off6(w);
    } else if op == TRAP_OPCODE {
        lemma_encode_decode_trap(w);
    } else {
        lemma_encode_decode_pc9(w);
    }
}

#[verifier::rlimit(100)]
proof fn lemma_decode_encode_reg_reg(i: InstructionEnum)
    requires
        i matches InstructionEnum::IAdd(IAdd::Reg(_)) || i matches InstructionEnum::IAnd(IAnd::Reg(_)),
    ensures
        decode(encode(i)) == Some(i),
{
    lemma_reg_index_bijective();
    let w = encode(i);
    lemma_word_fields(w);
    lemma_word_split(w);
}

#[verifier::rlimit(100)]
proof fn lemma_decode_encode_reg_imm(i: InstructionEnum)
    requires
        i.wf(),
        i matches InstructionEnum::IAdd(IAdd::Imm(_)) || i matches InstructionEnum::IAnd(IAnd::Imm(_)),
    ensures
        decode(encode(i)) == Some(i),
{
    lemma_reg_index_bijective();
    let w = encode(i);
    lemma_word_fields(w);
    lemma_word_split(w);
}

#[verifier::rlimit(100)]
proof fn lemma_decode_encode_arith(i: InstructionEnum)
    requires
        i.wf(),
        i is IAdd || i is IAnd,
    ensures
        decode(encode(i)) == Some(i),
{
    match i {
        InstructionEnum::IAdd(IAdd::Reg(_)) => lemma_decode_encode_reg_reg(i),
        InstructionEnum::IAnd(IAnd::Reg(_)) => lemma_decode_encode_reg_reg(i),
        _ => lemma_decode_encode_reg_imm(i),
    }
}

#[verifier::rlimit(100)]
proof fn lemma_decode_encode_not(i: InstructionEnum)
    requires
        i.wf(),
        i is INot,
    ensures
        decode(encode(i)) == Some(i),
{
    lemma_reg_index_bijective();
    let w = encode(i);
    lemma_word_fields(w);
    lemma_word_split(w);
}

#[verifier::rlimit(100)]
proof fn lemma_decode_encode_branch(i: InstructionEnum)
    requires
        i.wf(),
        i is IBranch,
    ensures
        decode(encode(i)) == Some(i),
{
    lemma2_to64();
    if let InstructionEnum::IBranch(b) = i {
        lemma_low_bits_inverse(b.pc_offset as int, 9);
    }
    let w = encode(i);
    lemma_word_fields(w);
    lemma_word_split(w);
}

#[verifier::rlimit(100)]
proof fn lemma_decode_encode_jump(i: InstructionEnum)
    requires
        i.wf(),
        i is IJump,
    ensures
        decode(encode(i)) == Some(i),
{
    lemma_reg_index_bijective();
    let w = encode(i);
    lemma_word_fields(w);
    lemma_word_split(w);
}

#[verifier::rlimit(100)]
proof fn lemma_decode_encode_subroutine(i: InstructionEnum)
    requires
        i.wf(),
        i is IJumpSubRoutine,
    ensures
        decode(encode(i)) == Some(i),
{
    lemma2_to64();
    lemma_reg_index_bijective();
    let w = encode(i);
    lemma_word_fields(w);
    lemma_word_split(w);
    if let InstructionEnum::IJumpSubRoutine(IJumpSubRoutine::Offset(o)) = i {
        lemma_low_bits_inverse(o.pc_offset as int, 11);
    }
}

#[verifier::rlimit(100)]
proof fn lemma_decode_encode_pc9(op: int, x: InstrPCOffset9)
    requires
        offset9_ok(x.pc_offset),
        op == LD_OPCODE || op == LDI_OPCODE || op == LEA_OPCODE || op == ST_OPCODE || op
            == STI_OPCODE,
    ensures
        ({
            let w = pc9_word(op, x);
            w / 4096 == op && pc9_of(w) == x
        }),
{
    lemma2_to64();
    lemma_reg_index_bijective();
    let w = pc9_word(op, x);
    lemma_word_fields(w);
    lemma_word_split(w);
    lemma_low_bits_inverse(x.pc_offset as int, 9);
}

#[verifier::rlimit(100)]
proof fn lemma_decode_encode_off6(op: int, x: InstrOffset6)
    requires
        offset6_ok(x.offset),
        op == LDR_OPCODE || op == STR_OPCODE,
    ensures
        ({
            let w = off6_word(op, x);
            w / 4096 == op && off6_of(w) == x
        }),
{
    lemma2_to64();
    lemma_reg_index_bijective();
    let w = off6_word(op, x);
    lemma_word_fields(w);
    lemma_word_split(w);
    lemma_low_bits_inverse(x.offset as int, 6);
}

proof fn lemma_decode_encode_memory(i: InstructionEnum)
    requires
        i.wf(),
        i is ILoad || i is IStore,
    ensures
        decode(encode(i)) == Some(i),
{
    match i {
        InstructionEnum::ILoad(ILoad::Reg(x)) => lemma_decode_encode_off6(LDR_OPCODE as int, x),
        InstructionEnum::IStore(IStore::Reg(x)) => lemma_decode_encode_off6(STR_OPCODE as int, x),
        InstructionEnum::ILoad(ILoad::Std(x)) => lemma_decode_encode_pc9(LD_OPCODE as int, x),
        InstructionEnum::ILoad(ILoad::Indirect(x)) => lemma_decode_encode_pc9(LDI_OPCODE as int, x),
        InstructionEnum::ILoad(ILoad::Addr(x)) => lemma_decode_encode_pc9(LEA_OPCODE as int, x),
        InstructionEnum::IStore(IStore::Std(x)) => lemma_decode_encode_pc9(ST_OPCODE as int, x),
        InstructionEnum::IStore(IStore::Indirect(x)) => lemma_decode_encode_pc9(STI_OPCODE as int, x),
        _ => {},
    }
}

#[verifier::rlimit(100)]
proof fn lemma_decode_encode_trap(i: InstructionEnum)
    requires
        i is Trap,
    ensures
        decode(encode(i)) == Some(i),
{
    let w = encode(i);
    lemma_word_fields(w);
    lemma_word_split(w);
}

/// Every well-formed instruction decodes from its canonical encoding.
pub proof fn lemma_decode_encode(i: InstructionEnum)
    requires
        i.wf(),
    ensures
        decode(encode(i)) == Some(i),
{
    match i {
        InstructionEnum::IAdd(_) => lemma_decode_encode_arith(i),
        InstructionEnum::IAnd(_) => lemma_decode_encode_arith(i),
        InstructionEnum::INot(_) => lemma_decode_encode_not(i),
        InstructionEnum::IBranch(_) => lemma_decode_encode_branch(i),
        InstructionEnum::IJump(_) => lemma_decode_encode_jump(i),
        InstructionEnum::IJumpSubRoutine(_) => lemma_decode_encode_subroutine(i),
        InstructionEnum::ILoad(_) => lemma_decode_encode_memory(i),
        InstructionEnum::IStore(_) => lemma_decode_encode_memory(i),
        InstructionEnum::Trap(_) => lemma_decode_encode_trap(i),
    }
}

/// An ADD word in register form with any of bits 4-3 set does not decode.
pub proof fn lemma_add_reserved_bits(w: u16)
    requires
        w / 4096 == ADD_OPCODE,
        (w as int / 32) % 2 == 0,
        (w as int / 8) % 4 != 0,
    ensures
        decode(w) is None,
{
    lemma_word_fields(w);
    lemma_word_split(w);
}

/// A NOT word decodes exactly when its low six bits are all set.
pub proof fn lemma_not_trailing_ones(w: u16)
    requires
        w / 4096 == NOT_OPCODE,
    ensures
        decode(w) is Some <==> w % 64 == 63,
{
    lemma_word_fields(w);
}

} // verus!
