//! Reading from an in-memory byte source: exact-size reads and reading until
//! the end of the source into a fixed buffer.

use vstd::prelude::*;

verus! {

/// Error for an exact-size read that ran out of bytes.
#[derive(PartialEq, Eq, Structural, Clone, Copy, Debug)]
pub enum ByteReadError {
    /// The source ended before the requested count was read.
    UnexpectedEof,
}

/// Error for reading a source into a fixed buffer until its end.
#[derive(Debug)]
pub enum ReadSliceUntilEofError {
    /// The source failed with an input/output error.
    Io(std::io::Error),
    /// The buffer was filled before the source ended.
    FilledBuffer,
}

/// An in-memory byte source: bytes are consumed front to back.
#[derive(Debug)]
pub struct MemReader {
    /// The bytes of the source.
    data: Vec<u8>,
    /// How many bytes were consumed.
    pos: usize,
}

impl View for MemReader {
    type V = Seq<u8>;

    closed spec fn view(&self) -> Seq<u8> {
        self.data@.skip(self.pos as int)
    }
}

impl MemReader {
    #[verifier::type_invariant]
    closed spec fn inv(self) -> bool {
        self.pos <= self.data.len()
    }

    /// Creates a source over the given bytes.
    pub fn new(data: Vec<u8>) -> (r: Self)
        ensures
            r@ == data@,
    {
        let r = MemReader { data, pos: 0 };
        proof {
            assert(r@ =~= r.data@);
        }
        r
    }

    /// How many bytes remain.
    pub fn remaining(&self) -> (r: usize)
        ensures
            r == self@.len(),
    {
        proof {
            use_type_invariant(self);
        }
        self.data.len() - self.pos
    }

    /// Reads one byte, if any remains.
    pub fn read_byte(&mut self) -> (r: Option<u8>)
        ensures
            old(self)@.len() > 0 ==> r == Some(old(self)@[0]) && final(self)@ == old(
                self,
            )@.drop_first(),
            old(self)@.len() == 0 ==> r is None && final(self)@ == old(self)@,
    {
        proof {
            use_type_invariant(&*self);
        }
        if self.pos < self.data.len() {
            let b = self.data[self.pos];
            self.pos = self.pos + 1;
            proof {
                assert(self@ =~= old(self)@.drop_first());
            }
            Some(b)
        } else {
            None
        }
    }
}

/// Reading an exact number of bytes from a source.
pub trait ReadByteArray: Sized {
    /// What an exact-size read does: either the next `n` bytes come out and
    /// are consumed, or the source is too short and unchanged.
    spec fn byte_array_post(pre: Self, n: usize, post: Self, r: Result<Vec<u8>, ByteReadError>) -> bool;

    /// Reads exactly `n` bytes from this source.
    fn read_byte_array(&mut self, n: usize) -> (r: Result<Vec<u8>, ByteReadError>)
        ensures
            Self::byte_array_post(*old(self), n, *final(self), r),
    ;
}

impl ReadByteArray for MemReader {
    open spec fn byte_array_post(
        pre: Self,
        n: usize,
        post: Self,
        r: Result<Vec<u8>, ByteReadError>,
    ) -> bool {
        if pre@.len() >= n {
            &&& r matches Ok(b) && b@ == pre@.take(n as int)
            &&& post@ == pre@.skip(n as int)
        } else {
            &&& r == Err::<Vec<u8>, ByteReadError>(ByteReadError::UnexpectedEof)
            &&& post@ == pre@
        }
    }

    fn read_byte_array(&mut self, n: usize) -> (r: Result<Vec<u8>, ByteReadError>) {
        proof {
            use_type_invariant(&*self);
        }
        if n <= self.data.len() - self.pos {
            let mut out: Vec<u8> = Vec::new();
            let mut i: usize = 0;
            while i < n
                invariant
                    i <= n,
                    n <= self.data.len() - self.pos,
                    self.pos <= self.data.len(),
                    *self == *old(self),
                    out@ == self.data@.subrange(self.pos as int, self.pos + i),
                decreases n - i,
            {
                out.push(self.data[self.pos + i]);
                proof {
                    assert(out@ =~= self.data@.subrange(self.pos as int, self.pos + i + 1));
                }
                i += 1;
            }
            self.pos = self.pos + n;
            proof {
                assert(out@ =~= old(self)@.take(n as int));
                assert(self@ =~= old(self)@.skip(n as int));
            }
            Ok(out)
        } else {
            Err(ByteReadError::UnexpectedEof)
        }
    }
}

/// Reads from a source into a buffer until the source ends, overwriting the
/// buffer from the front. Returns the number of trailing buffer bytes that
/// were not filled; an in-memory source never fails, so the result is always
/// a count.
pub fn read_slice_until_eof(reader: &mut MemReader, buffer: &mut Vec<u8>) -> (r: Result<
    usize,
    ReadSliceUntilEofError,
>)
    ensures
        ({
            let m = if old(reader)@.len() < old(buffer)@.len() {
                old(reader)@.len() as int
            } else {
                old(buffer)@.len() as int
            };
            &&& r matches Ok(unfilled) && unfilled == old(buffer)@.len() - m
            &&& final(buffer)@ == old(reader)@.take(m) + old(buffer)@.skip(m)
            &&& final(reader)@ == old(reader)@.skip(m)
        }),
{
    let mut i: usize = 0;
    let ghost m = if old(reader)@.len() < old(buffer)@.len() {
        old(reader)@.len() as int
    } else {
        old(buffer)@.len() as int
    };
    while i < buffer.len() && reader.remaining() > 0
        invariant
            i <= buffer@.len(),
            buffer@.len() == old(buffer)@.len(),
            i <= m,
            m == (if old(reader)@.len() < old(buffer)@.len() {
                old(reader)@.len() as int
            } else {
                old(buffer)@.len() as int
            }),
            reader@ == old(reader)@.skip(i as int),
            buffer@ == old(reader)@.take(i as int) + old(buffer)@.skip(i as int),
            i < m ==> reader@.len() > 0,
        decreases buffer@.len() - i,
    {
        let b = match reader.read_byte() {
            Some(b) => b,
            // The loop runs only while bytes remain, so a read cannot miss.
            None => unreached(),
        };
        buffer[i] = b;
        proof {
            assert(reader@ =~= old(reader)@.skip(i + 1));
            assert(buffer@ =~= old(reader)@.take(i + 1) + old(buffer)@.skip(i + 1));
        }
        i += 1;
    }
    proof {
        assert(i == m);
        assert(buffer@ =~= old(reader)@.take(m) + old(buffer)@.skip(m));
    }
    Ok(buffer.len() - i)
}

} // verus!
