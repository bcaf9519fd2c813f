//! Tensor codec: conversion between a flat little-endian byte buffer and the
//! typed numeric values it encodes.
//!
//! Tensor payloads travel over the wire as raw bytes; the numeric execution
//! library consumes and produces 32-bit IEEE-754 elements.  The codec is kept
//! free of machine floating point by working on the 32-bit patterns
//! themselves: every element is carried as the `u32` holding its bit pattern,
//! which is exactly what the little-endian byte quadruple spells.  Callers
//! that want `f32` values reinterpret the patterns with `f32::from_bits`,
//! which loses nothing.
use vstd::bytes::{
    lemma_auto_spec_u32_to_from_le_bytes, spec_u32_from_le_bytes, spec_u32_to_le_bytes,
    u32_from_le_bytes, u32_to_le_bytes,
};
use vstd::prelude::*;
use vstd::slice::slice_subrange;

verus! {

/// The 32-bit words spelled by a byte buffer, four little-endian bytes each.
pub open spec fn le_words_of(bytes: Seq<u8>) -> Seq<u32> {
    Seq::new(bytes.len() / 4, |i: int| spec_u32_from_le_bytes(bytes.subrange(4 * i, 4 * i + 4)))
}

/// The byte buffer spelling a sequence of 32-bit words, little-endian.
pub open spec fn le_bytes_of(words: Seq<u32>) -> Seq<u8>
    decreases words.len(),
{
    if words.len() == 0 {
        Seq::empty()
    } else {
        spec_u32_to_le_bytes(words[0]) + le_bytes_of(words.drop_first())
    }
}

pub proof fn lemma_le_bytes_of_len(words: Seq<u32>)
    ensures
        le_bytes_of(words).len() == 4 * words.len(),
    decreases words.len(),
{
    lemma_auto_spec_u32_to_from_le_bytes();
    if words.len() > 0 {
        lemma_le_bytes_of_len(words.drop_first());
    }
}

/// Round trip, decoding after encoding: a word sequence survives the trip
/// through its byte spelling unchanged.
pub proof fn lemma_words_round_trip(words: Seq<u32>)
    ensures
        le_words_of(le_bytes_of(words)) == words,
    decreases words.len(),
{
    lemma_auto_spec_u32_to_from_le_bytes();
    lemma_le_bytes_of_len(words);
    if words.len() == 0 {
        assert(le_words_of(le_bytes_of(words)) =~= words);
    } else {
        let rest = words.drop_first();
        lemma_words_round_trip(rest);
        lemma_le_bytes_of_len(rest);
        let bytes = le_bytes_of(words);
        assert forall|i: int| 0 <= i < words.len() implies #[trigger] le_words_of(bytes)[i]
            == words[i] by {
            if i == 0 {
                assert(bytes.subrange(0, 4) =~= spec_u32_to_le_bytes(words[0]));
            } else {
                assert(bytes.subrange(4 * i, 4 * i + 4) =~= le_bytes_of(rest).subrange(
                    4 * (i - 1),
                    4 * (i - 1) + 4,
                ));
                assert(le_words_of(le_bytes_of(rest))[i - 1] == rest[i - 1]);
            }
        }
        assert(le_words_of(bytes) =~= words);
    }
}

/// Round trip, encoding after decoding: a byte buffer whose length is a
/// multiple of four survives the trip through its word reading unchanged.
pub proof fn lemma_bytes_round_trip(bytes: Seq<u8>)
    requires
        bytes.len() % 4 == 0,
    ensures
        le_bytes_of(le_words_of(bytes)) == bytes,
    decreases bytes.len(),
{
    lemma_auto_spec_u32_to_from_le_bytes();
    if bytes.len() == 0 {
        assert(le_bytes_of(le_words_of(bytes)) =~= bytes);
    } else {
        let rest = bytes.skip(4);
        lemma_bytes_round_trip(rest);
        assert(le_words_of(bytes).drop_first() =~= le_words_of(rest)) by {
            assert forall|i: int| 0 <= i < le_words_of(bytes).len() - 1 implies #[trigger] le_words_of(
                rest,
            )[i] == le_words_of(bytes).drop_first()[i] by {
                assert(rest.subrange(4 * i, 4 * i + 4) =~= bytes.subrange(
                    4 * (i + 1),
                    4 * (i + 1) + 4,
                ));
            }
        }
        assert(le_words_of(bytes)[0] == spec_u32_from_le_bytes(bytes.subrange(0, 4)));
        assert(le_bytes_of(le_words_of(bytes)) =~= bytes) by {
            assert(spec_u32_to_le_bytes(spec_u32_from_le_bytes(bytes.subrange(0, 4)))
                == bytes.subrange(0, 4));
            assert(le_bytes_of(le_words_of(bytes)) == spec_u32_to_le_bytes(le_words_of(bytes)[0])
                + le_bytes_of(le_words_of(bytes).drop_first()));
            assert(bytes =~= bytes.subrange(0, 4) + rest);
        }
    }
}

/// Decodes a flat byte buffer into the 32-bit element patterns it spells,
/// little-endian, in order.  Rejects a buffer whose length is not a multiple
/// of the element size.
pub fn bytes_to_floats(data: &[u8]) -> (r: Result<Vec<u32>, ()>)
    ensures
        r.is_ok() <==> data@.len() % 4 == 0,
        r matches Ok(v) ==> v@ == le_words_of(data@),
{
    if data.len() % 4 != 0 {
        return Err(());
    }
    let len: usize = data.len();
    let n: usize = len / 4;
    let mut out: Vec<u32> = Vec::with_capacity(n);
    let mut i: usize = 0;
    while i < n
        invariant
            data@.len() % 4 == 0,
            len == data@.len(),
            n == data@.len() / 4,
            i <= n,
            out@ == le_words_of(data@).take(i as int),
        decreases n - i,
    {
        proof {
            assert(4 * (i as int) + 4 <= data@.len());
        }
        let w = u32_from_le_bytes(slice_subrange(data, 4 * i, 4 * i + 4));
        out.push(w);
        assert(out@ =~= le_words_of(data@).take(i + 1));
        i = i + 1;
    }
    assert(out@ =~= le_words_of(data@));
    Ok(out)
}

/// Encodes 32-bit element patterns into a flat little-endian byte buffer:
/// the inverse of `bytes_to_floats`, which always succeeds.
pub fn floats_to_bytes(values: &[u32]) -> (r: Vec<u8>)
    ensures
        r@ == le_bytes_of(values@),
        r@.len() == 4 * values@.len(),
{
    let mut out: Vec<u8> = Vec::new();
    let mut i: usize = 0;
    proof {
        lemma_le_bytes_of_len(values@);
    }
    while i < values.len()
        invariant
            i <= values@.len(),
            out@ == le_bytes_of(values@.take(i as int)),
        decreases values@.len() - i,
    {
        let mut word_bytes = u32_to_le_bytes(values[i]);
        out.append(&mut word_bytes);
        proof {
            lemma_le_bytes_of_take_push(values@, i as int);
        }
        i = i + 1;
    }
    assert(values@.take(values@.len() as int) =~= values@);
    proof {
        lemma_le_bytes_of_len(values@);
    }
    out
}

/// Appending one word appends its four bytes to the spelling.
proof fn lemma_le_bytes_of_take_push(words: Seq<u32>, i: int)
    requires
        0 <= i < words.len(),
    ensures
        le_bytes_of(words.take(i + 1)) == le_bytes_of(words.take(i)) + spec_u32_to_le_bytes(
            words[i],
        ),
    decreases i,
{
    if i == 0 {
        let t1 = words.take(1);
        assert(t1.drop_first() =~= Seq::<u32>::empty());
        assert(t1[0] == words[0]);
        assert(le_bytes_of(t1) == spec_u32_to_le_bytes(t1[0]) + le_bytes_of(t1.drop_first()));
        assert(le_bytes_of(Seq::<u32>::empty()) =~= Seq::<u8>::empty());
        assert(le_bytes_of(words.take(0)) =~= Seq::<u8>::empty());
        assert(le_bytes_of(t1) =~= le_bytes_of(words.take(0)) + spec_u32_to_le_bytes(words[0]));
    } else {
        lemma_le_bytes_of_take_push(words.drop_first(), i - 1);
        assert(words.take(i + 1).drop_first() =~= words.drop_first().take(i));
        assert(words.take(i).drop_first() =~= words.drop_first().take(i - 1));
        assert(words.take(i + 1)[0] == words[0]);
        assert(words.take(i)[0] == words[0]);
        assert(words.drop_first()[i - 1] == words[i]);
        assert(le_bytes_of(words.take(i + 1)) == spec_u32_to_le_bytes(words[0]) + le_bytes_of(
            words.drop_first().take(i),
        ));
        assert(spec_u32_to_le_bytes(words[0]) + (le_bytes_of(words.drop_first().take(i - 1))
            + spec_u32_to_le_bytes(words[i])) =~= (spec_u32_to_le_bytes(words[0]) + le_bytes_of(
            words.drop_first().take(i - 1),
        )) + spec_u32_to_le_bytes(words[i]));
    }
}

} // verus!
