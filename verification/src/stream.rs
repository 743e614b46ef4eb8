//! The stream collaborators: a byte-accepting sink, a byte-producing source,
//! and in-memory implementations of both.
//!
//! The conversion capability only requires that a stream can attempt to
//! transfer a requested number of bytes and report how many actually
//! transferred; a short count signals that the stream ended.

use vstd::prelude::*;

verus! {

/// An error incurred when converting between binary representations.
#[derive(Clone, Copy, Debug, PartialEq, Eq, Structural)]
pub enum EndianError {
    /// Reached the end of the stream while reading or writing; carries the
    /// number of bytes transferred before the shortfall.
    EndOfStream(usize),
}

/// A byte-accepting stream: an external collaborator consumed by the encode
/// paths. The core borrows it for the duration of one operation.
pub trait ByteSink {
    /// The bytes the sink has accepted so far.
    spec fn sink_bytes(&self) -> Seq<u8>;

    /// How many bytes the sink, in its current state, will accept of
    /// `offered` bytes written to it; at most `offered`.
    spec fn accepts(&self, offered: nat) -> nat;

    /// Attempts to write `data` to the sink and returns how many bytes the
    /// sink accepted: exactly what [`Self::accepts`] says of the sink's
    /// state before the write, a prefix of `data`, appended to the bytes
    /// accepted so far. A count short of `data`'s length signals that the
    /// sink ended.
    fn write_bytes(&mut self, data: &Vec<u8>) -> (n: usize)
        ensures
            n <= data@.len(),
            n == old(self).accepts(data@.len()),
            final(self).sink_bytes() == old(self).sink_bytes() + data@.take(n as int),
    ;
}

/// A byte-producing stream: an external collaborator consumed by the decode
/// paths. The core borrows it for the duration of one operation.
pub trait ByteSource {
    /// The bytes the source can still produce.
    spec fn remaining(&self) -> Seq<u8>;

    /// Attempts to read up to `dst.len()` bytes into the front of `dst` and
    /// returns how many were obtained: as many as the source still holds, up
    /// to the requested count. The bytes read are consumed from the source;
    /// the portion of `dst` beyond the count is left as it was.
    fn read_bytes(&mut self, dst: &mut Vec<u8>) -> (n: usize)
        ensures
            n <= old(dst)@.len(),
            n <= old(self).remaining().len(),
            n == old(dst)@.len() || n == old(self).remaining().len(),
            final(dst)@ == old(self).remaining().take(n as int) + old(dst)@.skip(n as int),
            final(self).remaining() == old(self).remaining().skip(n as int),
    ;
}

/// An in-memory sink that accepts every byte written to it.
pub struct VecSink {
    /// The bytes accepted so far, in order.
    pub bytes: Vec<u8>,
}

impl VecSink {
    /// Creates a sink that has accepted nothing yet.
    pub fn new() -> (s: VecSink)
        ensures
            s.sink_bytes() == Seq::<u8>::empty(),
    {
        VecSink { bytes: Vec::new() }
    }
}

impl ByteSink for VecSink {
    open spec fn sink_bytes(&self) -> Seq<u8> {
        self.bytes@
    }

    open spec fn accepts(&self, offered: nat) -> nat {
        offered
    }

    fn write_bytes(&mut self, data: &Vec<u8>) -> (n: usize) {
        let ghost orig = self.bytes@;
        let len = data.len();
        for i in 0..len
            invariant
                len == data@.len(),
                self.bytes@ == orig + data@.take(i as int),
        {
            self.bytes.push(data[i]);
            proof {
                assert(orig + data@.take(i as int) + seq![data@[i as int]] =~= orig + data@.take(
                    i + 1,
                ));
            }
        }
        proof {
            assert(orig + data@.take(len as int) =~= orig + data@);
        }
        len
    }
}

/// An in-memory sink with a fixed capacity: it accepts bytes until the
/// capacity is reached and ends there, so a write may be short.
pub struct BoundedSink {
    bytes: Vec<u8>,
    cap: usize,
}

impl BoundedSink {
    /// The total number of bytes the sink will ever accept.
    pub closed spec fn capacity(&self) -> nat {
        self.cap as nat
    }

    /// Creates a sink that will accept at most `cap` bytes in total.
    pub fn new(cap: usize) -> (s: BoundedSink)
        ensures
            s.sink_bytes() == Seq::<u8>::empty(),
            s.capacity() == cap,
    {
        BoundedSink { bytes: Vec::new(), cap }
    }

    /// Hands out the bytes the sink accepted.
    pub fn into_bytes(self) -> (b: Vec<u8>)
        ensures
            b@ == self.sink_bytes(),
    {
        self.bytes
    }
}

impl ByteSink for BoundedSink {
    closed spec fn sink_bytes(&self) -> Seq<u8> {
        self.bytes@
    }

    open spec fn accepts(&self, offered: nat) -> nat {
        let room: int = if self.sink_bytes().len() >= self.capacity() {
            0
        } else {
            self.capacity() - self.sink_bytes().len()
        };
        if offered <= room {
            offered
        } else {
            room as nat
        }
    }

    fn write_bytes(&mut self, data: &Vec<u8>) -> (n: usize)
        ensures
            final(self).capacity() == old(self).capacity(),
    {
        let ghost orig = self.bytes@;
        let ghost cap0 = self.cap;
        let room = if self.bytes.len() < self.cap {
            self.cap - self.bytes.len()
        } else {
            0
        };
        let n = if data.len() < room {
            data.len()
        } else {
            room
        };
        for i in 0..n
            invariant
                n <= data@.len(),
                self.cap == cap0,
                self.bytes@ == orig + data@.take(i as int),
        {
            self.bytes.push(data[i]);
            proof {
                assert(orig + data@.take(i as int) + seq![data@[i as int]] =~= orig + data@.take(
                    i + 1,
                ));
            }
        }
        n
    }
}

/// An in-memory source that produces the bytes it was created over, in order,
/// and ends when they are exhausted.
pub struct VecSource {
    bytes: Vec<u8>,
    pos: usize,
}

impl VecSource {
    #[verifier::type_invariant]
    spec fn wf(self) -> bool {
        self.pos <= self.bytes@.len()
    }

    /// Creates a source that will produce exactly `bytes`.
    pub fn new(bytes: Vec<u8>) -> (s: VecSource)
        ensures
            s.remaining() == bytes@,
    {
        let s = VecSource { bytes, pos: 0 };
        proof {
            assert(s.remaining() =~= s.bytes@);
        }
        s
    }
}

impl ByteSource for VecSource {
    closed spec fn remaining(&self) -> Seq<u8> {
        self.bytes@.skip(self.pos as int)
    }

    fn read_bytes(&mut self, dst: &mut Vec<u8>) -> (n: usize) {
        proof {
            use_type_invariant(&*self);
        }
        let ghost orig_dst = dst@;
        let ghost orig_rem = self.remaining();
        let avail = self.bytes.len() - self.pos;
        let n = if dst.len() < avail {
            dst.len()
        } else {
            avail
        };
        for i in 0..n
            invariant
                self.wf(),
                n <= dst@.len(),
                self.pos + n <= self.bytes@.len() <= usize::MAX,
                dst@.len() == orig_dst.len(),
                orig_rem == self.bytes@.skip(self.pos as int),
                forall|j: int| 0 <= j < i ==> dst@[j] == self.bytes@[self.pos + j],
                forall|j: int| i <= j < dst@.len() ==> dst@[j] == orig_dst[j],
        {
            let b = self.bytes[self.pos + i];
            dst.set(i, b);
        }
        self.pos = self.pos + n;
        proof {
            assert(dst@ =~= orig_rem.take(n as int) + orig_dst.skip(n as int));
            assert(self.bytes@.skip(self.pos as int) =~= orig_rem.skip(n as int));
        }
        n
    }
}

} // verus!
