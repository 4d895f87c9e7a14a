//! A pre-initialization log sink: an in-memory byte buffer that captures
//! output produced before the real logger is up, and hands it over once the
//! logger is running. The host shares it behind its own lock and plugs it
//! into its logging framework; the buffer logic lives here.

use vstd::prelude::*;

verus! {

/// The captured output of the pre-initialization phase.
#[derive(Debug)]
pub struct PreInitOutput {
    /// The captured bytes.
    bytes: Vec<u8>,
}

impl View for PreInitOutput {
    type V = Seq<u8>;

    closed spec fn view(&self) -> Seq<u8> {
        self.bytes@
    }
}

impl PreInitOutput {
    /// Creates an empty capture buffer.
    pub fn new() -> (r: Self)
        ensures
            r@ == Seq::<u8>::empty(),
    {
        let r = PreInitOutput { bytes: Vec::new() };
        proof {
            assert(r@ =~= Seq::<u8>::empty());
        }
        r
    }

    /// Appends captured output.
    pub fn append_bytes(&mut self, data: &[u8])
        ensures
            final(self)@ == old(self)@ + data@,
    {
        let mut i: usize = 0;
        while i < data.len()
            invariant
                i <= data@.len(),
                self@ == old(self)@ + data@.take(i as int),
            decreases data@.len() - i,
        {
            self.bytes.push(data[i]);
            proof {
                assert(self@ =~= old(self)@ + data@.take(i + 1));
            }
            i += 1;
        }
        proof {
            assert(self@ =~= old(self)@ + data@);
        }
    }

    /// Uses the captured bytes.
    pub fn with_bytes<O, F: FnOnce(&[u8]) -> O>(&self, f: F) -> (r: O)
        requires
            forall|s: &[u8]| s@ == self@ ==> call_requires(f, (s,)),
        ensures
            exists|s: &[u8]| s@ == self@ && call_ensures(f, (s,), r),
    {
        f(self.bytes.as_slice())
    }
}

/// A writer over the capture buffer, in the shape logging sinks expect:
/// write and flush.
#[derive(Debug)]
pub struct PreOutputWrite {
    /// The buffer written into.
    out: PreInitOutput,
}

impl View for PreOutputWrite {
    type V = Seq<u8>;

    closed spec fn view(&self) -> Seq<u8> {
        self.out@
    }
}

impl PreOutputWrite {
    /// Wraps a capture buffer for writing.
    pub fn new(out: PreInitOutput) -> (r: Self)
        ensures
            r@ == out@,
    {
        PreOutputWrite { out }
    }

    /// Appends a chunk of output; the whole chunk is always taken.
    pub fn write(&mut self, buf: &[u8]) -> (n: usize)
        ensures
            n == buf@.len(),
            final(self)@ == old(self)@ + buf@,
    {
        self.out.append_bytes(buf);
        buf.len()
    }

    /// Makes the captured output durable; an in-memory buffer already is, so
    /// nothing changes.
    pub fn flush(&mut self)
        ensures
            final(self)@ == old(self)@,
    {
    }

    /// Hands the buffer back.
    pub fn into_output(self) -> (r: PreInitOutput)
        ensures
            r@ == self@,
    {
        self.out
    }
}

/// The pre-initialization logger: owns the capture buffer while the real
/// logger is not yet running.
#[derive(Debug)]
pub struct PreInitLogger {
    /// The captured output.
    output: PreInitOutput,
}

impl View for PreInitLogger {
    type V = Seq<u8>;

    closed spec fn view(&self) -> Seq<u8> {
        self.output@
    }
}

impl PreInitLogger {
    /// Creates a new pre-init logger with an empty capture buffer. The host
    /// routes its logging framework's early output into it.
    pub fn new() -> (r: Self)
        ensures
            r@ == Seq::<u8>::empty(),
    {
        PreInitLogger { output: PreInitOutput::new() }
    }

    /// Appends early log output.
    pub fn capture(&mut self, data: &[u8])
        ensures
            final(self)@ == old(self)@ + data@,
    {
        self.output.append_bytes(data);
    }

    /// Drops this logger and returns its output.
    pub fn into_output(self) -> (r: PreInitOutput)
        ensures
            r@ == self@,
    {
        self.output
    }
}

} // verus!
