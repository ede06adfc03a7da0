//! Bit-level helpers shared by the decoder, the encoder and the executors.

use vstd::prelude::*;
use vstd::arithmetic::power2::{pow2, lemma2_to64, lemma_pow2_pos, lemma_pow2_unfold, lemma_pow2_adds};
use vstd::arithmetic::div_mod::lemma_mod_multiples_vanish;
use vstd::bits::{lemma_u16_shr_is_div, lemma_u32_shl_is_mul};

use crate::defs::{LC3MemAddr, LC3Word, SignedLC3Word};

verus! {

/// `w` as a 16-bit address offset by `off`, wrapping around the address space.
pub open spec fn offset_addr(w: int, off: int) -> u16 {
    ((w + off) % 65536) as u16
}

/// Moving an address twice is moving it once by the sum.
pub proof fn lemma_offset_addr_twice(a: int, x: int, y: int)
    ensures
        offset_addr(offset_addr(a, x) as int, y) == offset_addr(a, x + y),
        0 <= offset_addr(a, x) < 65536,
{
    vstd::arithmetic::div_mod::lemma_add_mod_noop(a + x, y, 65536);
    vstd::arithmetic::div_mod::lemma_mod_twice(y, 65536);
    vstd::arithmetic::div_mod::lemma_add_mod_noop(a + x, y % 65536, 65536);
    vstd::arithmetic::div_mod::lemma_mod_bound(a + x, 65536);
    vstd::arithmetic::div_mod::lemma_mod_bound(a + x + y, 65536);
}

/// A 16-bit address moved by 0 is itself.
pub proof fn lemma_offset_addr_zero(a: u16)
    ensures
        offset_addr(a as int, 0) == a,
{
    vstd::arithmetic::div_mod::lemma_small_mod(a as nat, 65536);
}

/// The `n`-bit two's complement value of the bit pattern `field`.
pub open spec fn sign_extend(field: int, n: nat) -> int {
    if field >= pow2((n - 1) as nat) {
        field - pow2(n)
    } else {
        field
    }
}

/// The low `n` bits of the two's complement pattern of `v`.
pub open spec fn low_bits(v: int, n: nat) -> int {
    v % (pow2(n) as int)
}

/// Bits `start` down to `end` (inclusive) of `word`, shifted down to bit 0.
pub open spec fn bit_field(word: u16, start: nat, end: nat) -> int {
    (word as int / pow2(end) as int) % (pow2((start - end + 1) as nat) as int)
}

/// `'1'` or `'0'` for bit `i` of `byte`.
pub open spec fn bit_char(byte: u8, i: int) -> char {
    if (byte as int / pow2(i as nat) as int) % 2 == 1 {
        '1'
    } else {
        '0'
    }
}

/// Binary text of `byte`, most significant bit first.
pub open spec fn byte_text(byte: u8) -> Seq<char> {
    Seq::new(8, |j: int| bit_char(byte, 7 - j))
}

/// Big-endian byte `idx` of `word`.
pub open spec fn word_byte(word: u16, idx: int) -> u8 {
    if idx == 0 {
        (word as int / 256) as u8
    } else {
        (word as int % 256) as u8
    }
}

/// Relies on `String::push`: appends one character to the end of the string.
#[verifier::external_body]
fn push_char(s: &mut String, c: char)
    ensures
        final(s)@ == old(s)@.push(c),
{
    s.push(c)
}

/// Appends the bits of `byte` to `s`, most significant first.
fn push_byte_bits(s: &mut String, byte: u8)
    ensures
        final(s)@ == old(s)@ + byte_text(byte),
{
    let ghost start = s@;
    let mut mask: u8 = 128;
    proof {
        lemma2_to64();
    }
    let mut i: usize = 0;
    while i < 8
        invariant
            i <= 8,
            i < 8 ==> mask as int == pow2((7 - i) as nat),
            s@ == start + byte_text(byte).subrange(0, i as int),
        decreases 8 - i,
    {
        proof {
            lemma_pow2_pos((7 - i) as nat);
        }
        let c = if (byte / mask) % 2 == 1 {
            '1'
        } else {
            '0'
        };
        push_char(s, c);
        proof {
            assert(c == bit_char(byte, 7 - i));
        }
        if i < 7 {
            proof {
                lemma_pow2_unfold((7 - i) as nat);
            }
            mask = mask / 2;
        }
        i = i + 1;
        proof {
            assert(s@ =~= start + byte_text(byte).subrange(0, i as int));
        }
    }
    proof {
        assert(byte_text(byte).subrange(0, 8) =~= byte_text(byte));
    }
}

/// Bits of `byte` as eight characters, most significant first.
pub fn format_bits(byte: u8) -> (r: String)
    ensures
        r@ == byte_text(byte),
{
    let mut s = String::new();
    push_byte_bits(&mut s, byte);
    proof {
        assert(s@ =~= byte_text(byte));
    }
    s
}

/// Big-endian byte `idx` of `word`, for `idx` in [0, 1].
fn word_byte_at(word: LC3Word, idx: usize) -> (r: u8)
    requires
        idx < 2,
    ensures
        r == word_byte(word, idx as int),
{
    if idx == 0 {
        (word / 256) as u8
    } else {
        (word % 256) as u8
    }
}

/// Bits of big-endian byte `idx` of `word`, most significant first.
pub fn format_word_bits(word: LC3Word, idx: usize) -> (r: String)
    requires
        idx < 2,
    ensures
        r@ == byte_text(word_byte(word, idx as int)),
{
    format_bits(word_byte_at(word, idx))
}

/// Bits of both bytes of `word`, high byte first, separated by a space.
pub fn format_all_word_bits(word: LC3Word) -> (r: String)
    ensures
        r@ == byte_text(word_byte(word, 0)) + seq![' '] + byte_text(word_byte(word, 1)),
{
    let mut s = format_word_bits(word, 0);
    push_char(&mut s, ' ');
    push_byte_bits(&mut s, word_byte_at(word, 1));
    s
}

/// `value` moved by `offset`, wrapping around the address space.
pub fn apply_offset(value: LC3MemAddr, offset: SignedLC3Word) -> (r: LC3MemAddr)
    ensures
        r == offset_addr(value as int, offset as int),
{
    if offset < 0 {
        value.wrapping_sub((0 - (offset as i32)) as u16)
    } else {
        value.wrapping_add(offset as u16)
    }
}

/// `2^n` as a machine integer, for `n` in [0, 16].
fn pow2_u32(n: u32) -> (r: u32)
    requires
        n <= 16,
    ensures
        r as int == pow2(n as nat),
        0 < r <= 65536,
{
    proof {
        lemma2_to64();
        lemma_pow2_pos(n as nat);
        if n < 16 {
            vstd::arithmetic::power2::lemma_pow2_strictly_increases(n as nat, 16);
        }
        vstd::arithmetic::power2::lemma_pow2_strictly_increases(n as nat, 17);
        lemma_u32_shl_is_mul(1, n);
    }
    1u32 << n
}

/// Bits `start` down to `end` (inclusive) of `word`, shifted down to bit 0.
pub fn get_bits(word: LC3Word, start: u8, end: u8) -> (r: u16)
    requires
        end <= start < 16,
    ensures
        r as int == bit_field(word, start as nat, end as nat),
{
    proof {
        lemma_u16_shr_is_div(word, end as u16);
    }
    let shifted: u16 = word >> (end as u16);
    let modulus = pow2_u32((start - end + 1) as u32);
    (shifted as u32 % modulus) as u16
}

/// Bit `loc` of `word`.
pub fn get_bit(word: LC3Word, loc: u8) -> (r: u8)
    requires
        loc < 16,
    ensures
        r as int == bit_field(word, loc as nat, loc as nat),
        r < 2,
{
    proof {
        lemma2_to64();
    }
    get_bits(word, loc, loc) as u8
}

/// The opcode: the top four bits of `word`.
pub fn get_opcode(word: LC3Word) -> (r: u8)
    ensures
        r as int == word as int / 4096,
{
    (word / 4096) as u8
}

/// Sign-extends the low `16 - AMOUNT` bits of `unsigned_offset`.
pub fn shift_to_signed<const AMOUNT: u32>(unsigned_offset: LC3Word) -> (r: SignedLC3Word)
    requires
        AMOUNT < 16,
    ensures
        r as int == sign_extend(low_bits(unsigned_offset as int, (16 - AMOUNT) as nat), (16 - AMOUNT) as nat),
{
    let n: u32 = 16 - AMOUNT;
    let m = pow2_u32(n);
    proof {
        lemma_pow2_unfold(n as nat);
    }
    let low: u32 = (unsigned_offset as u32) % m;
    if low >= m / 2 {
        (low as i32 - m as i32) as i16
    } else {
        low as i16
    }
}

/// The low `16 - AMOUNT` bits of the two's complement pattern of `offset`.
pub fn shift_to_unsigned<const AMOUNT: u32>(offset: SignedLC3Word) -> (r: LC3Word)
    requires
        AMOUNT < 16,
    ensures
        r as int == low_bits(offset as int, (16 - AMOUNT) as nat),
{
    let n: u32 = 16 - AMOUNT;
    let m = pow2_u32(n);
    proof {
        lemma2_to64();
        lemma_pow2_adds(n as nat, AMOUNT as nat);
        lemma_pow2_pos(AMOUNT as nat);
        lemma_mod_multiples_vanish(pow2(AMOUNT as nat) as int, offset as int, m as int);
    }
    let shifted: u32 = (offset as i32 + 65536) as u32;
    (shifted % m) as u16
}

} // verus!
