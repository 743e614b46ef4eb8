//! The conversion capability: serialize-to-little, serialize-to-big,
//! deserialize-from-little, deserialize-from-big, each in a checked
//! (stream-based, bounds-checked) and an unchecked (caller-guaranteed)
//! form, exposed uniformly to every eligible value type.
//!
//! A conversion stages the value's bytes in a scratch region in the
//! canonical little-endian arrangement, applies the transform primitive of
//! [`crate::order`] to reach the requested order, and moves the bytes to or
//! from the stream or buffer. The unchecked forms place the burden of
//! capacity on the caller as a precondition instead of checking a stream.

use crate::order::lemma_ordered_bytes_involutive;
use crate::order::ordered_bytes;
use crate::order::transform_bytes;
use crate::order::ByteOrder;
use crate::stream::ByteSink;
use crate::stream::ByteSource;
use crate::stream::EndianError;
use vstd::prelude::*;

verus! {

/// A fixed-size value type eligible for byte-order conversion: its bit
/// pattern may be freely duplicated, it has a well-defined default instance,
/// and every byte sequence of its size denotes a value.
///
/// An implementation supplies the type's size, its canonical little-endian
/// byte arrangement, and the staging conversions between a value and that
/// arrangement; the eight conversion operations are provided on top of them.
pub trait Endian: Copy + Default {
    /// The fixed size of every value of the type, in bytes; may be zero.
    spec fn spec_size() -> nat;

    /// The value's bytes in the canonical little-endian arrangement.
    spec fn le_repr(self) -> Seq<u8>;

    /// The value whose canonical little-endian arrangement is `b`;
    /// meaningful when `b` holds exactly [`Self::spec_size`] bytes.
    spec fn of_le_repr(b: Seq<u8>) -> Self;

    /// A value's canonical arrangement holds exactly [`Self::spec_size`]
    /// bytes.
    proof fn lemma_le_repr_len(self)
        ensures
            self.le_repr().len() == Self::spec_size(),
    ;

    /// Reading a value back from its own canonical arrangement yields the
    /// value itself.
    proof fn lemma_repr_round_trip(self)
        ensures
            Self::of_le_repr(self.le_repr()) == self,
    ;

    /// The type's size as a runtime value.
    fn size() -> (n: usize)
        ensures
            n == Self::spec_size(),
    ;

    /// Stages the value's bytes in a fresh scratch buffer, in the canonical
    /// little-endian arrangement.
    fn to_le_vec(&self) -> (r: Vec<u8>)
        ensures
            r@ == self.le_repr(),
    ;

    /// Reads a value from exactly [`Self::spec_size`] canonically arranged
    /// bytes.
    fn from_le_vec(b: &Vec<u8>) -> (r: Self)
        requires
            b@.len() == Self::spec_size(),
        ensures
            r == Self::of_le_repr(b@),
    ;

    /// Converts the value into its little-endian representation and writes
    /// the result to `buf`; returns the number of bytes the sink accepted,
    /// which is exactly what the sink, in its prior state, accepts of the
    /// value's size. A zero-size value succeeds with 0 bytes written and no
    /// stream interaction.
    fn to_le_bytes<W: ByteSink>(&self, buf: &mut W) -> (r: Result<usize, EndianError>)
        ensures
            r is Ok,
            r matches Ok(n) ==> n <= Self::spec_size() && final(buf).sink_bytes() == old(
                buf,
            ).sink_bytes() + ordered_bytes(self.le_repr(), ByteOrder::Little).take(n as int),
            Self::spec_size() > 0 ==> r == Ok::<usize, EndianError>(
                old(buf).accepts(Self::spec_size()) as usize,
            ),
            Self::spec_size() == 0 ==> r == Ok::<usize, EndianError>(0) && *final(buf) == *old(buf),
    {
        let size = Self::size();
        proof {
            self.lemma_le_repr_len();
        }
        if size == 0 {
            proof {
                assert(ordered_bytes(self.le_repr(), ByteOrder::Little).take(0)
                    =~= Seq::<u8>::empty());
                assert(buf.sink_bytes() + Seq::<u8>::empty() =~= buf.sink_bytes());
            }
            return Ok(0);
        }
        let mut scratch = self.to_le_vec();
        transform_bytes(&mut scratch, size, ByteOrder::Little);
        proof {
            assert(self.le_repr().take(size as int) =~= self.le_repr());
            assert(scratch@ =~= ordered_bytes(self.le_repr(), ByteOrder::Little));
        }
        let n = buf.write_bytes(&scratch);
        Ok(n)
    }

    /// Converts the value into its big-endian representation and writes the
    /// result to `buf`; returns the number of bytes the sink accepted, which
    /// is exactly what the sink, in its prior state, accepts of the value's
    /// size. A zero-size value succeeds with 0 bytes written and no stream
    /// interaction.
    fn to_be_bytes<W: ByteSink>(&self, buf: &mut W) -> (r: Result<usize, EndianError>)
        ensures
            r is Ok,
            r matches Ok(n) ==> n <= Self::spec_size() && final(buf).sink_bytes() == old(
                buf,
            ).sink_bytes() + ordered_bytes(self.le_repr(), ByteOrder::Big).take(n as int),
            Self::spec_size() > 0 ==> r == Ok::<usize, EndianError>(
                old(buf).accepts(Self::spec_size()) as usize,
            ),
            Self::spec_size() == 0 ==> r == Ok::<usize, EndianError>(0) && *final(buf) == *old(buf),
    {
        let size = Self::size();
        proof {
            self.lemma_le_repr_len();
        }
        if size == 0 {
            proof {
                assert(ordered_bytes(self.le_repr(), ByteOrder::Big).take(0)
                    =~= Seq::<u8>::empty());
                assert(buf.sink_bytes() + Seq::<u8>::empty() =~= buf.sink_bytes());
            }
            return Ok(0);
        }
        let mut scratch = self.to_le_vec();
        transform_bytes(&mut scratch, size, ByteOrder::Big);
        proof {
            assert(self.le_repr().take(size as int) =~= self.le_repr());
            assert(scratch@ =~= ordered_bytes(self.le_repr(), ByteOrder::Big));
        }
        let n = buf.write_bytes(&scratch);
        Ok(n)
    }

    /// Converts the value into its little-endian representation and writes
    /// it to the front of `out`, whose capacity the caller guarantees;
    /// returns the number of bytes written, always exactly the value's
    /// size. Bytes of `out` beyond the value's size are untouched.
    fn to_le_bytes_unchecked(&self, out: &mut Vec<u8>) -> (n: usize)
        requires
            Self::spec_size() <= old(out)@.len(),
        ensures
            n == Self::spec_size(),
            final(out)@ == ordered_bytes(self.le_repr(), ByteOrder::Little) + old(out)@.skip(
                n as int,
            ),
    {
        let size = Self::size();
        proof {
            self.lemma_le_repr_len();
        }
        if size == 0 {
            proof {
                assert(ordered_bytes(self.le_repr(), ByteOrder::Little) + out@.skip(0) =~= out@);
            }
            return 0;
        }
        let tmp = self.to_le_vec();
        let ghost orig = out@;
        for i in 0..size
            invariant
                tmp@ == self.le_repr(),
                tmp@.len() == size,
                out@.len() == orig.len(),
                size <= orig.len(),
                forall|j: int| 0 <= j < i ==> out@[j] == tmp@[j],
                forall|j: int| i <= j < orig.len() ==> out@[j] == orig[j],
        {
            let b = tmp[i];
            out.set(i, b);
        }
        proof {
            assert(out@.take(size as int) =~= self.le_repr());
            assert(out@.skip(size as int) =~= orig.skip(size as int));
        }
        transform_bytes(out, size, ByteOrder::Little);
        proof {
            assert(out@ =~= ordered_bytes(self.le_repr(), ByteOrder::Little) + orig.skip(
                size as int,
            ));
        }
        size
    }

    /// Converts the value into its big-endian representation and writes it
    /// to the front of `out`, whose capacity the caller guarantees; returns
    /// the number of bytes written, always exactly the value's size. Bytes
    /// of `out` beyond the value's size are untouched.
    fn to_be_bytes_unchecked(&self, out: &mut Vec<u8>) -> (n: usize)
        requires
            Self::spec_size() <= old(out)@.len(),
        ensures
            n == Self::spec_size(),
            final(out)@ == ordered_bytes(self.le_repr(), ByteOrder::Big) + old(out)@.skip(
                n as int,
            ),
    {
        let size = Self::size();
        proof {
            self.lemma_le_repr_len();
        }
        if size == 0 {
            proof {
                assert(ordered_bytes(self.le_repr(), ByteOrder::Big) + out@.skip(0) =~= out@);
            }
            return 0;
        }
        let tmp = self.to_le_vec();
        let ghost orig = out@;
        for i in 0..size
            invariant
                tmp@ == self.le_repr(),
                tmp@.len() == size,
                out@.len() == orig.len(),
                size <= orig.len(),
                forall|j: int| 0 <= j < i ==> out@[j] == tmp@[j],
                forall|j: int| i <= j < orig.len() ==> out@[j] == orig[j],
        {
            let b = tmp[i];
            out.set(i, b);
        }
        proof {
            assert(out@.take(size as int) =~= self.le_repr());
            assert(out@.skip(size as int) =~= orig.skip(size as int));
        }
        transform_bytes(out, size, ByteOrder::Big);
        proof {
            assert(out@ =~= ordered_bytes(self.le_repr(), ByteOrder::Big) + orig.skip(
                size as int,
            ));
        }
        size
    }

    /// Creates a value from the little-endian bytes in `buf`. Succeeds if
    /// and only if the source holds at least the value's size in bytes;
    /// otherwise it fails with [`EndianError::EndOfStream`] carrying the
    /// count actually obtained, and no partial value is returned. A
    /// zero-size value is returned immediately with no stream interaction.
    fn from_le_bytes<R: ByteSource>(buf: &mut R) -> (r: Result<Self, EndianError>)
        ensures
            r is Ok <==> Self::spec_size() == 0 || old(buf).remaining().len() >= Self::spec_size(),
            r matches Ok(v) ==> v == Self::of_le_repr(
                ordered_bytes(
                    old(buf).remaining().take(Self::spec_size() as int),
                    ByteOrder::Little,
                ),
            ) && final(buf).remaining() == old(buf).remaining().skip(Self::spec_size() as int),
            r matches Err(EndianError::EndOfStream(k)) ==> k == old(buf).remaining().len() && k
                < Self::spec_size() && final(buf).remaining() == Seq::<u8>::empty(),
            Self::spec_size() == 0 ==> r == Ok::<Self, EndianError>(Self::of_le_repr(Seq::empty()))
                && *final(buf) == *old(buf),
    {
        let ghost orig_rem = buf.remaining();
        let size = Self::size();
        if size == 0 {
            let empty: Vec<u8> = Vec::new();
            let val = Self::from_le_vec(&empty);
            proof {
                assert(orig_rem.take(0) =~= Seq::<u8>::empty());
                assert(orig_rem.skip(0) =~= orig_rem);
            }
            return Ok(val);
        }
        let mut scratch: Vec<u8> = Vec::new();
        for i in 0..size
            invariant
                scratch@.len() == i,
        {
            scratch.push(0u8);
        }
        let n = buf.read_bytes(&mut scratch);
        if n < size {
            proof {
                assert(orig_rem.skip(n as int) =~= Seq::<u8>::empty());
            }
            return Err(EndianError::EndOfStream(n));
        }
        proof {
            assert(scratch@ =~= orig_rem.take(size as int));
        }
        transform_bytes(&mut scratch, size, ByteOrder::Little);
        proof {
            assert(orig_rem.take(size as int).take(size as int) =~= orig_rem.take(size as int));
            assert(scratch@ =~= ordered_bytes(orig_rem.take(size as int), ByteOrder::Little));
        }
        let val = Self::from_le_vec(&scratch);
        Ok(val)
    }

    /// Creates a value from the big-endian bytes in `buf`. Succeeds if and
    /// only if the source holds at least the value's size in bytes;
    /// otherwise it fails with [`EndianError::EndOfStream`] carrying the
    /// count actually obtained, and no partial value is returned. A
    /// zero-size value is returned immediately with no stream interaction.
    fn from_be_bytes<R: ByteSource>(buf: &mut R) -> (r: Result<Self, EndianError>)
        ensures
            r is Ok <==> Self::spec_size() == 0 || old(buf).remaining().len() >= Self::spec_size(),
            r matches Ok(v) ==> v == Self::of_le_repr(
                ordered_bytes(old(buf).remaining().take(Self::spec_size() as int), ByteOrder::Big),
            ) && final(buf).remaining() == old(buf).remaining().skip(Self::spec_size() as int),
            r matches Err(EndianError::EndOfStream(k)) ==> k == old(buf).remaining().len() && k
                < Self::spec_size() && final(buf).remaining() == Seq::<u8>::empty(),
            Self::spec_size() == 0 ==> r == Ok::<Self, EndianError>(Self::of_le_repr(Seq::empty()))
                && *final(buf) == *old(buf),
    {
        let ghost orig_rem = buf.remaining();
        let size = Self::size();
        if size == 0 {
            let empty: Vec<u8> = Vec::new();
            let val = Self::from_le_vec(&empty);
            proof {
                assert(orig_rem.take(0) =~= Seq::<u8>::empty());
                assert(orig_rem.skip(0) =~= orig_rem);
            }
            return Ok(val);
        }
        let mut scratch: Vec<u8> = Vec::new();
        for i in 0..size
            invariant
                scratch@.len() == i,
        {
            scratch.push(0u8);
        }
        let n = buf.read_bytes(&mut scratch);
        if n < size {
            proof {
                assert(orig_rem.skip(n as int) =~= Seq::<u8>::empty());
            }
            return Err(EndianError::EndOfStream(n));
        }
        proof {
            assert(scratch@ =~= orig_rem.take(size as int));
        }
        transform_bytes(&mut scratch, size, ByteOrder::Big);
        proof {
            assert(orig_rem.take(size as int).take(size as int) =~= orig_rem.take(size as int));
            assert(scratch@ =~= ordered_bytes(orig_rem.take(size as int), ByteOrder::Big));
        }
        let val = Self::from_le_vec(&scratch);
        Ok(val)
    }

    /// Creates a value from the little-endian bytes at the front of `src`,
    /// whose length the caller guarantees. No failure path: the bytes are
    /// reinterpreted directly.
    fn from_le_bytes_unchecked(src: &Vec<u8>) -> (r: Self)
        requires
            Self::spec_size() <= src@.len(),
        ensures
            r == Self::of_le_repr(
                ordered_bytes(src@.take(Self::spec_size() as int), ByteOrder::Little),
            ),
    {
        let size = Self::size();
        if size == 0 {
            let empty: Vec<u8> = Vec::new();
            let r = Self::from_le_vec(&empty);
            proof {
                assert(src@.take(0) =~= Seq::<u8>::empty());
            }
            return r;
        }
        let mut scratch: Vec<u8> = Vec::new();
        for i in 0..size
            invariant
                size <= src@.len(),
                scratch@ == src@.take(i as int),
        {
            scratch.push(src[i]);
            proof {
                assert(src@.take(i as int) + seq![src@[i as int]] =~= src@.take(i + 1));
            }
        }
        transform_bytes(&mut scratch, size, ByteOrder::Little);
        proof {
            assert(src@.take(size as int).take(size as int) =~= src@.take(size as int));
            assert(scratch@ =~= ordered_bytes(src@.take(size as int), ByteOrder::Little));
        }
        Self::from_le_vec(&scratch)
    }

    /// Creates a value from the big-endian bytes at the front of `src`,
    /// whose length the caller guarantees. No failure path: the bytes are
    /// reinterpreted directly.
    fn from_be_bytes_unchecked(src: &Vec<u8>) -> (r: Self)
        requires
            Self::spec_size() <= src@.len(),
        ensures
            r == Self::of_le_repr(
                ordered_bytes(src@.take(Self::spec_size() as int), ByteOrder::Big),
            ),
    {
        let size = Self::size();
        if size == 0 {
            let empty: Vec<u8> = Vec::new();
            let r = Self::from_le_vec(&empty);
            proof {
                assert(src@.take(0) =~= Seq::<u8>::empty());
            }
            return r;
        }
        let mut scratch: Vec<u8> = Vec::new();
        for i in 0..size
            invariant
                size <= src@.len(),
                scratch@ == src@.take(i as int),
        {
            scratch.push(src[i]);
            proof {
                assert(src@.take(i as int) + seq![src@[i as int]] =~= src@.take(i + 1));
            }
        }
        transform_bytes(&mut scratch, size, ByteOrder::Big);
        proof {
            assert(src@.take(size as int).take(size as int) =~= src@.take(size as int));
            assert(scratch@ =~= ordered_bytes(src@.take(size as int), ByteOrder::Big));
        }
        Self::from_le_vec(&scratch)
    }
}

/// The serialized form of `v` in `order`: its canonical little-endian
/// arrangement rearranged into the requested order. The encode operations
/// produce exactly these bytes.
pub open spec fn encoded_bytes<T: Endian>(v: T, order: ByteOrder) -> Seq<u8> {
    ordered_bytes(v.le_repr(), order)
}

/// The value denoted by the serialized bytes `b` read in `order`;
/// meaningful when `b` holds exactly `T::spec_size()` bytes. The decode
/// operations return exactly this value.
pub open spec fn decoded_value<T: Endian>(b: Seq<u8>, order: ByteOrder) -> T {
    T::of_le_repr(ordered_bytes(b, order))
}

/// Size fidelity: the serialized form of a value holds exactly the type's
/// size in bytes, for either byte order.
pub proof fn lemma_encoded_len<T: Endian>(v: T, order: ByteOrder)
    ensures
        encoded_bytes(v, order).len() == T::spec_size(),
{
    v.lemma_le_repr_len();
}

/// Round-trip law: for every eligible value type and every byte order,
/// decoding the bytes produced by encoding a value yields the value itself.
pub proof fn lemma_round_trip<T: Endian>(v: T, order: ByteOrder)
    ensures
        decoded_value::<T>(encoded_bytes(v, order), order) == v,
{
    lemma_ordered_bytes_involutive(v.le_repr(), order);
    v.lemma_repr_round_trip();
}

/// Checked/unchecked equivalence: after the unchecked encode writes a value
/// into a caller-supplied buffer, the buffer's prefix is exactly the
/// encoding the checked encode hands to a stream, and decoding that prefix
/// by either decode path yields the value back.
pub proof fn lemma_checked_unchecked_agree<T: Endian>(v: T, out: Seq<u8>, order: ByteOrder)
    requires
        out.len() >= T::spec_size(),
    ensures
        (encoded_bytes(v, order) + out.skip(T::spec_size() as int)).take(T::spec_size() as int)
            == encoded_bytes(v, order),
        decoded_value::<T>(
            (encoded_bytes(v, order) + out.skip(T::spec_size() as int)).take(
                T::spec_size() as int,
            ),
            order,
        ) == v,
{
    v.lemma_le_repr_len();
    assert((encoded_bytes(v, order) + out.skip(T::spec_size() as int)).take(T::spec_size() as int)
        =~= encoded_bytes(v, order));
    lemma_round_trip(v, order);
}

} // verus!
