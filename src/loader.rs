//! The binary object format: big-endian words, the first of which is the
//! load address.

use vstd::prelude::*;

use crate::defs::LC3Word;
use crate::machine::{LC3Access, MachineState};

verus! {

/// The big-endian words of `bytes`; an odd trailing byte is dropped.
pub open spec fn be_words(bytes: Seq<u8>) -> Seq<u16> {
    Seq::new(bytes.len() / 2, |i: int| (bytes[2 * i] as int * 256 + bytes[2 * i + 1] as int) as u16)
}

/// The machine after loading the object `bytes` into `s`: the first word is
/// the start address and the following words fill memory from there. With
/// fewer than two bytes nothing is loaded.
pub open spec fn load_object(s: MachineState, bytes: Seq<u8>) -> MachineState {
    let words = be_words(bytes);
    if words.len() == 0 {
        s
    } else {
        s.populate(words[0], words.drop_first())
    }
}

/// The big-endian words of `bytes`; an odd trailing byte is dropped.
pub fn words_from_be_bytes(bytes: &[u8]) -> (r: Vec<LC3Word>)
    ensures
        r@ == be_words(bytes@),
{
    let mut r: Vec<LC3Word> = Vec::new();
    let mut i: usize = 0;
    while i + 1 < bytes.len()
        invariant
            i % 2 == 0,
            i <= bytes.len(),
            r@ == be_words(bytes@).subrange(0, i as int / 2),
        decreases bytes.len() - i,
    {
        let word = bytes[i] as u16 * 256 + bytes[i + 1] as u16;
        r.push(word);
        i = i + 2;
        proof {
            assert(r@ =~= be_words(bytes@).subrange(0, i as int / 2));
        }
    }
    proof {
        assert(i / 2 == bytes.len() / 2);
        assert(r@ =~= be_words(bytes@));
    }
    r
}

/// Loads a binary object into `processor`: the first big-endian word is the
/// load address, the rest fill memory from there on. A trailing odd byte is
/// dropped; fewer than two bytes load nothing.
pub fn populate_from_bin<P: LC3Access>(processor: &mut P, bin: &[u8])
    requires
        old(processor).inv(),
    ensures
        final(processor).inv(),
        final(processor).state() == load_object(old(processor).state(), bin@),
{
    let words = words_from_be_bytes(bin);
    if words.len() > 0 {
        let start = words[0];
        let rest = vstd::slice::slice_subrange(words.as_slice(), 1, words.len());
        processor.populate(start, rest);
        proof {
            assert(rest@ =~= be_words(bin@).drop_first());
        }
    }
}

} // verus!
