//! Null-terminated ASCII string helpers: reading a string out of a buffer up
//! to its first null byte, and writing one back with its terminator.

use vstd::prelude::*;

verus! {

/// Error for reading a null-terminated ASCII string out of a buffer.
#[derive(PartialEq, Eq, Structural, Clone, Copy, Debug)]
pub enum ReadError {
    /// The buffer holds no null byte.
    NoNull,
    /// A byte before the null is not ASCII.
    NotAscii,
}

/// The index of the first null byte of a buffer, or its length when there is
/// none.
pub open spec fn first_nul(s: Seq<u8>) -> int
    decreases s.len(),
{
    if s.len() == 0 {
        0
    } else if s[0] == 0 {
        0
    } else {
        1 + first_nul(s.drop_first())
    }
}

/// Characterizes the first null byte: an index below which no byte is null,
/// and which holds a null unless the buffer's end was reached.
pub proof fn lemma_first_nul_at(s: Seq<u8>, i: int)
    requires
        0 <= i <= s.len(),
        forall|j: int| 0 <= j < i ==> s[j] != 0,
        i < s.len() ==> s[i] == 0,
    ensures
        first_nul(s) == i,
    decreases i,
{
    if i > 0 {
        lemma_first_nul_at(s.drop_first(), i - 1);
    }
}

/// Reading and writing null-terminated ASCII strings in a buffer.
pub trait NullAsciiString: Sized {
    /// What a read returns: the bytes before the first null, if there is a
    /// null and they are all ASCII.
    spec fn read_string_post(&self, r: Result<Vec<u8>, ReadError>) -> bool;

    /// What a write needs: room for the string and its terminator.
    spec fn write_string_pre(pre: Self, s: Seq<u8>) -> bool;

    /// What a write does: the string, a null, and the untouched tail.
    spec fn write_string_post(pre: Self, s: Seq<u8>, post: Self) -> bool;

    /// Reads a null-terminated ASCII string from this buffer and returns it.
    fn read_string(&self) -> (r: Result<Vec<u8>, ReadError>)
        ensures
            self.read_string_post(r),
    ;

    /// Writes a null-terminated ASCII string to this buffer.
    fn write_string(&mut self, s: &Vec<u8>)
        requires
            Self::write_string_pre(*old(self), s@),
        ensures
            Self::write_string_post(*old(self), s@, *final(self)),
    ;
}

impl NullAsciiString for Vec<u8> {
    open spec fn read_string_post(&self, r: Result<Vec<u8>, ReadError>) -> bool {
        let nul = first_nul(self@);
        if nul == self@.len() {
            r == Err::<Vec<u8>, ReadError>(ReadError::NoNull)
        } else if forall|j: int| 0 <= j < nul ==> self@[j] < 128 {
            r matches Ok(p) && p@ == self@.take(nul)
        } else {
            r == Err::<Vec<u8>, ReadError>(ReadError::NotAscii)
        }
    }

    open spec fn write_string_pre(pre: Self, s: Seq<u8>) -> bool {
        s.len() < pre@.len()
    }

    open spec fn write_string_post(pre: Self, s: Seq<u8>, post: Self) -> bool {
        post@ == s + seq![0u8] + pre@.skip(s.len() as int + 1)
    }

    #[verifier::loop_isolation(false)]
    fn read_string(&self) -> (r: Result<Vec<u8>, ReadError>) {
        let mut i: usize = 0;
        while i < self.len() && self[i] != 0
            invariant
                i <= self@.len(),
                forall|j: int| 0 <= j < i ==> self@[j] != 0,
            decreases self@.len() - i,
        {
            i += 1;
        }
        proof {
            lemma_first_nul_at(self@, i as int);
        }
        if i == self.len() {
            return Err(ReadError::NoNull);
        }
        let nul = i;
        let mut out: Vec<u8> = Vec::new();
        let mut k: usize = 0;
        while k < nul
            invariant
                k <= nul < self@.len(),
                out@ == self@.take(k as int),
                forall|j: int| 0 <= j < k ==> self@[j] < 128,
            decreases nul - k,
        {
            let b = self[k];
            if b >= 128 {
                return Err(ReadError::NotAscii);
            }
            out.push(b);
            proof {
                assert(out@ =~= self@.take(k + 1));
            }
            k += 1;
        }
        Ok(out)
    }

    fn write_string(&mut self, s: &Vec<u8>) {
        let mut i: usize = 0;
        while i < s.len()
            invariant
                i <= s@.len() < old(self)@.len(),
                self@.len() == old(self)@.len(),
                self@ == s@.take(i as int) + old(self)@.skip(i as int),
            decreases s@.len() - i,
        {
            let b = s[i];
            self[i] = b;
            proof {
                assert(self@ =~= s@.take(i + 1) + old(self)@.skip(i + 1));
            }
            i += 1;
        }
        self[i] = 0;
        proof {
            assert(self@ =~= s@ + seq![0u8] + old(self)@.skip(s@.len() as int + 1));
        }
    }
}

} // verus!
