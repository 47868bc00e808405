//! A fixed-capacity write buffer with offset tracking, overflow detection
//! and exact-size validation. Every record of the replay container has a
//! statically known size, so the buffer never resizes: a write past the
//! capacity is an error, and `validate` checks that exactly the expected
//! number of bytes was written before the bytes leave the encoder.

use vstd::prelude::*;

use crate::errors::{BufferOp, FormatError, ReplayError};
use crate::nums::{enc_i32, enc_i64, i32_to_le_vec, i64_to_le_vec};

verus! {

pub struct ReplayBuffer {
    buffer: Vec<u8>,
    pos: usize,
}

impl ReplayBuffer {
    /// The fixed capacity chosen at construction.
    pub closed spec fn cap(&self) -> nat {
        self.buffer@.len()
    }

    /// The bytes written so far, in order.
    pub closed spec fn written(&self) -> Seq<u8> {
        self.buffer@.take(self.pos as int)
    }

    /// The cursor never passes the capacity, and the bytes beyond it are
    /// still the zero fill of the constructor.
    pub closed spec fn wf(&self) -> bool {
        &&& self.pos <= self.buffer@.len()
        &&& forall|i: int| self.pos <= i < self.buffer@.len() ==> self.buffer@[i] == 0u8
    }

    pub fn with_capacity(capacity: usize) -> (r: Self)
        ensures
            r.wf(),
            r.cap() == capacity,
            r.written() == Seq::<u8>::empty(),
    {
        let buffer: Vec<u8> = vec![0u8; capacity];
        let r = ReplayBuffer { buffer, pos: 0 };
        proof {
            assert(r.written() =~= Seq::<u8>::empty());
        }
        r
    }

    /// The current write offset.
    pub fn offset(&self) -> (r: usize)
        requires
            self.wf(),
        ensures
            r == self.written().len(),
    {
        self.pos
    }

    /// Appends bytes that are known to fit.
    fn write_fitting(&mut self, bytes: &[u8])
        requires
            old(self).wf(),
            old(self).written().len() + bytes@.len() <= old(self).cap(),
        ensures
            final(self).wf(),
            final(self).cap() == old(self).cap(),
            final(self).written() == old(self).written() + bytes@,
    {
        let n: usize = bytes.len();
        let start: usize = self.pos;
        let cap: usize = self.buffer.len();
        let mut i: usize = 0;
        while i < n
            invariant
                self.pos == start,
                self.buffer@.len() == old(self).cap(),
                i <= n,
                n == bytes@.len(),
                cap == self.buffer@.len(),
                start + n <= cap,
                forall|j: int| 0 <= j < start ==> self.buffer@[j] == old(self).buffer@[j],
                forall|j: int| start <= j < start + i ==> self.buffer@[j] == bytes@[j - start],
                forall|j: int| start + i <= j < self.buffer@.len() ==> self.buffer@[j] == 0u8,
            decreases n - i,
        {
            let b: u8 = bytes[i];
            self.buffer[start + i] = b;
            i = i + 1;
        }
        self.pos = start + n;
        proof {
            assert(final(self).written() =~= old(self).written() + bytes@);
        }
    }

    /// Writes a 32-bit integer as four little-endian bytes, or fails with
    /// an `Overflow` error that names the operation and leaves the buffer
    /// unchanged.
    pub fn write_int32(&mut self, value: i32) -> (r: Result<(), ReplayError>)
        requires
            old(self).wf(),
        ensures
            final(self).wf(),
            final(self).cap() == old(self).cap(),
            old(self).written().len() + 4 <= old(self).cap() ==> {
                &&& r is Ok
                &&& final(self).written() == old(self).written() + enc_i32(value)
            },
            old(self).written().len() + 4 > old(self).cap() ==> {
                &&& *final(self) == *old(self)
                &&& r == Result::<(), ReplayError>::Err(ReplayError::FormatError(
                    FormatError::Overflow {
                        op: BufferOp::WriteInt32,
                        capacity: old(self).cap() as usize,
                        offset: old(self).written().len() as usize,
                    },
                ))
            },
    {
        if self.buffer.len() - self.pos < 4 {
            return Err(ReplayError::FormatError(FormatError::Overflow {
                op: BufferOp::WriteInt32,
                capacity: self.buffer.len(),
                offset: self.pos,
            }));
        }
        let bytes: Vec<u8> = i32_to_le_vec(value);
        self.write_fitting(bytes.as_slice());
        Ok(())
    }

    /// Writes a 64-bit integer as eight little-endian bytes, or fails with
    /// an `Overflow` error that names the operation and leaves the buffer
    /// unchanged.
    pub fn write_int64(&mut self, value: i64) -> (r: Result<(), ReplayError>)
        requires
            old(self).wf(),
        ensures
            final(self).wf(),
            final(self).cap() == old(self).cap(),
            old(self).written().len() + 8 <= old(self).cap() ==> {
                &&& r is Ok
                &&& final(self).written() == old(self).written() + enc_i64(value)
            },
            old(self).written().len() + 8 > old(self).cap() ==> {
                &&& *final(self) == *old(self)
                &&& r == Result::<(), ReplayError>::Err(ReplayError::FormatError(
                    FormatError::Overflow {
                        op: BufferOp::WriteInt64,
                        capacity: old(self).cap() as usize,
                        offset: old(self).written().len() as usize,
                    },
                ))
            },
    {
        if self.buffer.len() - self.pos < 8 {
            return Err(ReplayError::FormatError(FormatError::Overflow {
                op: BufferOp::WriteInt64,
                capacity: self.buffer.len(),
                offset: self.pos,
            }));
        }
        let bytes: Vec<u8> = i64_to_le_vec(value);
        self.write_fitting(bytes.as_slice());
        Ok(())
    }

    /// Appends a byte slice verbatim, or fails with an `Overflow` error that
    /// names the operation and leaves the buffer unchanged.
    pub fn write_bytes(&mut self, bytes: &[u8]) -> (r: Result<(), ReplayError>)
        requires
            old(self).wf(),
        ensures
            final(self).wf(),
            final(self).cap() == old(self).cap(),
            old(self).written().len() + bytes@.len() <= old(self).cap() ==> {
                &&& r is Ok
                &&& final(self).written() == old(self).written() + bytes@
            },
            old(self).written().len() + bytes@.len() > old(self).cap() ==> {
                &&& *final(self) == *old(self)
                &&& r == Result::<(), ReplayError>::Err(ReplayError::FormatError(
                    FormatError::Overflow {
                        op: BufferOp::WriteBytes,
                        capacity: old(self).cap() as usize,
                        offset: old(self).written().len() as usize,
                    },
                ))
            },
    {
        if self.buffer.len() - self.pos < bytes.len() {
            return Err(ReplayError::FormatError(FormatError::Overflow {
                op: BufferOp::WriteBytes,
                capacity: self.buffer.len(),
                offset: self.pos,
            }));
        }
        self.write_fitting(bytes);
        Ok(())
    }

    /// Checks that the final offset equals the expected record size; a
    /// mismatch means the encoder wrote a malformed record and is reported,
    /// never silently ignored.
    pub fn validate(&self, expected: usize) -> (r: Result<(), ReplayError>)
        requires
            self.wf(),
        ensures
            self.written().len() == expected ==> r is Ok,
            self.written().len() != expected ==> r == Result::<(), ReplayError>::Err(
                ReplayError::FormatError(FormatError::SizeMismatch {
                    expected,
                    actual: self.written().len() as usize,
                }),
            ),
    {
        if self.pos != expected {
            Err(ReplayError::FormatError(FormatError::SizeMismatch {
                expected,
                actual: self.pos,
            }))
        } else {
            Ok(())
        }
    }

    /// Hands the underlying storage out: the written prefix followed by the
    /// zero fill of any remaining capacity.
    pub fn into_inner(self) -> (r: Vec<u8>)
        requires
            self.wf(),
        ensures
            r@.len() == self.cap(),
            r@.take(self.written().len() as int) == self.written(),
            forall|i: int| self.written().len() <= i < r@.len() ==> r@[i] == 0u8,
    {
        self.buffer
    }
}

} // verus!
