//! Unambiguous byte layouts: numbers of a fixed width and byte strings that carry their length
//! in front. What is laid out this way can be told apart again.
use crate::text::{
    byte_capacity, lemma_little_endian_injective, lemma_little_endian_len, little_endian,
};
use vstd::prelude::*;

verus! {

/// A byte string with its length in front.
pub open spec fn framed(bytes: Seq<u8>, width: nat) -> Seq<u8> {
    little_endian(bytes.len(), width) + bytes
}

/// A frame is the bytes behind their number, which is written in the given width, the lowest byte
/// first.
pub proof fn law_frames_carry_their_length(bytes: Seq<u8>, width: nat, at: int)
    ensures
        framed(bytes, width).len() == width + bytes.len(),
        0 <= at < width ==> framed(bytes, width)[at] == bytes.len() / (vstd::arithmetic::power::pow(
            256,
            at as nat,
        ) as nat) % 256,
        0 <= at < bytes.len() ==> framed(bytes, width)[width + at] == bytes[at],
{
    lemma_little_endian_len(bytes.len(), width);
    if 0 <= at < width {
        crate::text::law_little_endian_bytes(bytes.len(), width, at);
    }
}

/// A number in front of other bytes is told apart from them.
pub proof fn lemma_number_splits(
    left: nat,
    after_left: Seq<u8>,
    right: nat,
    after_right: Seq<u8>,
    width: nat,
)
    requires
        left < byte_capacity(width),
        right < byte_capacity(width),
        little_endian(left, width) + after_left == little_endian(right, width) + after_right,
    ensures
        left == right,
        after_left == after_right,
{
    let (a, b) = (little_endian(left, width), little_endian(right, width));
    lemma_little_endian_len(left, width);
    lemma_little_endian_len(right, width);
    assert((a + after_left).take(width as int) =~= a);
    assert((b + after_right).take(width as int) =~= b);
    lemma_little_endian_injective(left, right, width);
    assert((a + after_left).skip(width as int) =~= after_left);
    assert((b + after_right).skip(width as int) =~= after_right);
}

/// A framed byte string in front of other bytes is told apart from them.
pub proof fn lemma_frame_splits(
    left: Seq<u8>,
    after_left: Seq<u8>,
    right: Seq<u8>,
    after_right: Seq<u8>,
    width: nat,
)
    requires
        left.len() < byte_capacity(width),
        right.len() < byte_capacity(width),
        framed(left, width) + after_left == framed(right, width) + after_right,
    ensures
        left == right,
        after_left == after_right,
{
    assert(framed(left, width) + after_left =~= little_endian(left.len(), width) + (left
        + after_left));
    assert(framed(right, width) + after_right =~= little_endian(right.len(), width) + (right
        + after_right));
    lemma_number_splits(left.len(), left + after_left, right.len(), right + after_right, width);
    let length = left.len() as int;
    assert((left + after_left).take(length) =~= left);
    assert((right + after_right).take(length) =~= right);
    assert((left + after_left).skip(length) =~= after_left);
    assert((right + after_right).skip(length) =~= after_right);
}

/// A shared prefix of a known length is taken off both sides.
pub proof fn lemma_prefix_cancels(prefix: Seq<u8>, left: Seq<u8>, right: Seq<u8>)
    requires
        prefix + left == prefix + right,
    ensures
        left == right,
{
    assert((prefix + left).skip(prefix.len() as int) =~= left);
    assert((prefix + right).skip(prefix.len() as int) =~= right);
}

/// Appends bytes to a buffer.
pub fn push_bytes(buffer: &mut Vec<u8>, bytes: &[u8])
    ensures
        final(buffer)@ == old(buffer)@ + bytes@,
{
    let ghost before = buffer@;
    let mut done: usize = 0;
    while done < bytes.len()
        invariant
            done <= bytes@.len(),
            buffer@ == before + bytes@.take(done as int),
            before == old(buffer)@,
        decreases bytes@.len() - done,
    {
        buffer.push(bytes[done]);
        done = done + 1;
        assert(buffer@ =~= before + bytes@.take(done as int));
    }
    assert(bytes@.take(done as int) =~= bytes@);
}

/// Appends a byte string with its length in eight bytes.
pub fn push_frame(buffer: &mut Vec<u8>, bytes: &[u8])
    ensures
        final(buffer)@ == old(buffer)@ + framed(bytes@, 8),
{
    let ghost before = buffer@;
    let length: Vec<u8> = crate::text::little_endian_u64(bytes.len() as u64);
    push_bytes(buffer, &length);
    push_bytes(buffer, bytes);
    assert(buffer@ =~= before + framed(bytes@, 8));
}

/// Appends a byte string with its length in a machine word.
pub fn push_word_frame(buffer: &mut Vec<u8>, bytes: &[u8])
    ensures
        final(buffer)@ == old(buffer)@ + framed(bytes@, crate::text::word_width()),
{
    let ghost before = buffer@;
    let length: Vec<u8> = crate::text::little_endian_word(bytes.len());
    push_bytes(buffer, &length);
    push_bytes(buffer, bytes);
    assert(buffer@ =~= before + framed(bytes@, crate::text::word_width()));
}

} // verus!
