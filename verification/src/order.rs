//! The byte-order tag and the in-place transform primitive.
//!
//! Scratch buffers in this library always stage a value's bytes in the
//! canonical little-endian arrangement (least-significant byte first), fixed
//! by construction rather than inherited from the host. The transform
//! primitive therefore leaves a region alone when the target order is little
//! and reverses it when the target order is big; decoding reuses the same
//! primitive because byte reversal is self-inverse.

use vstd::prelude::*;

verus! {

/// A byte-order tag. It is never stored; it is a parameter selecting which
/// arrangement a conversion produces or consumes.
#[derive(Clone, Copy, Debug, PartialEq, Eq, Structural)]
pub enum ByteOrder {
    /// Least-significant byte first.
    Little,
    /// Most-significant byte first.
    Big,
}

/// The bytes `b`, staged in the canonical little-endian arrangement,
/// rearranged into `order`.
pub open spec fn ordered_bytes(b: Seq<u8>, order: ByteOrder) -> Seq<u8> {
    match order {
        ByteOrder::Little => b,
        ByteOrder::Big => b.reverse(),
    }
}

/// Reverses the first `len` bytes of `buf` in place by swapping the byte at
/// offset `i` with the byte at offset `len - 1 - i` for `i` in `[0, len / 2)`;
/// for odd `len` the middle byte is untouched, and `len` of 0 or 1 performs no
/// swaps. Bytes beyond `len` are not read or written. The caller guarantees
/// that `buf` holds at least `len` bytes.
pub fn reverse_bytes(buf: &mut Vec<u8>, len: usize)
    requires
        len <= old(buf)@.len(),
    ensures
        final(buf)@ == old(buf)@.take(len as int).reverse() + old(buf)@.skip(len as int),
{
    let ghost orig = buf@;
    let half: usize = len / 2;
    for i in 0..half
        invariant
            len <= buf@.len(),
            buf@.len() == orig.len(),
            half == len / 2,
            forall|j: int| 0 <= j < i ==> buf@[j] == orig[len - 1 - j],
            forall|j: int| 0 <= j < i ==> buf@[len - 1 - j] == orig[j],
            forall|j: int| i <= j < len - i ==> buf@[j] == orig[j],
            forall|j: int| len <= j < orig.len() ==> buf@[j] == orig[j],
    {
        let lo = buf[i];
        let hi = buf[len - 1 - i];
        buf.set(i, hi);
        buf.set(len - 1 - i, lo);
    }
    proof {
        assert(buf@ =~= orig.take(len as int).reverse() + orig.skip(len as int));
    }
}

/// Rearranges the first `len` bytes of `buf` in place from the canonical
/// little-endian staging arrangement into `order`: the little target needs no
/// byte movement, the big target is a full reversal of the region. Bytes
/// beyond `len` are untouched. The caller guarantees that `buf` holds at
/// least `len` bytes.
pub fn transform_bytes(buf: &mut Vec<u8>, len: usize, order: ByteOrder)
    requires
        len <= old(buf)@.len(),
    ensures
        final(buf)@ == ordered_bytes(old(buf)@.take(len as int), order) + old(buf)@.skip(len as int),
{
    match order {
        ByteOrder::Little => {
            proof {
                assert(buf@ =~= buf@.take(len as int) + buf@.skip(len as int));
            }
        },
        ByteOrder::Big => {
            reverse_bytes(buf, len);
        },
    }
}

/// Reversal is self-inverse: reversing a byte sequence twice restores it.
pub proof fn lemma_reverse_involutive(s: Seq<u8>)
    ensures
        s.reverse().reverse() == s,
{
    assert(s.reverse().reverse() =~= s);
}

/// Rearranging a staged byte sequence into an order and then rearranging the
/// result into the same order restores the original sequence, for either
/// order.
pub proof fn lemma_ordered_bytes_involutive(b: Seq<u8>, order: ByteOrder)
    ensures
        ordered_bytes(ordered_bytes(b, order), order) == b,
{
    match order {
        ByteOrder::Little => {},
        ByteOrder::Big => {
            lemma_reverse_involutive(b);
        },
    }
}

/// Applying the transform primitive twice, with the same region length and
/// the same target order, restores the original buffer contents: the ensures
/// of [`transform_bytes`], applied to its own result, gives back the input.
pub proof fn lemma_transform_involutive(b: Seq<u8>, len: int, order: ByteOrder)
    requires
        0 <= len <= b.len(),
    ensures
        ({
            let once = ordered_bytes(b.take(len), order) + b.skip(len);
            ordered_bytes(once.take(len), order) + once.skip(len) == b
        }),
{
    let once = ordered_bytes(b.take(len), order) + b.skip(len);
    assert(ordered_bytes(b.take(len), order).len() == len);
    assert(once.take(len) =~= ordered_bytes(b.take(len), order));
    assert(once.skip(len) =~= b.skip(len));
    lemma_ordered_bytes_involutive(b.take(len), order);
    assert(ordered_bytes(once.take(len), order) + once.skip(len) =~= b);
}

/// For a region of odd length, the middle byte is unchanged by the transform
/// primitive in either direction.
pub proof fn lemma_transform_middle_byte(b: Seq<u8>, len: int, order: ByteOrder)
    requires
        0 <= len <= b.len(),
        len % 2 == 1,
    ensures
        (ordered_bytes(b.take(len), order) + b.skip(len))[len / 2] == b[len / 2],
{
    assert(ordered_bytes(b.take(len), order).len() == len);
    match order {
        ByteOrder::Little => {},
        ByteOrder::Big => {
            assert(len - 1 - len / 2 == len / 2);
        },
    }
}

} // verus!
