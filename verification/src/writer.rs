//! A byte sink that accepts writes only while a budget lasts.

use vstd::prelude::*;

verus! {

/// The error type of `std::io`, as it appears in the signatures of
/// `std::io::Write`. Nothing is claimed of its values.
#[verifier::external_type_specification]
#[verifier::external_body]
pub struct ExIoError(std::io::Error);

/// A growable byte sink together with the number of bytes it may still take.
///
/// A write that fits is appended whole and paid for from the budget. A write
/// that does not fit is refused whole: nothing is appended, nothing is paid,
/// and the writer reports that it took zero bytes.
pub struct BoundedWriter {
    sink: Vec<u8>,
    remaining: usize,
}

impl BoundedWriter {
    /// The bytes held by the sink.
    pub closed spec fn bytes(&self) -> Seq<u8> {
        self.sink@
    }

    /// The budget that is left.
    pub closed spec fn budget(&self) -> nat {
        self.remaining as nat
    }

    /// Whether `self` holds what `earlier` held, followed by whatever was
    /// accepted since, paid for byte by byte.
    pub open spec fn extends(&self, earlier: &BoundedWriter) -> bool {
        &&& earlier.bytes().len() <= self.bytes().len()
        &&& self.bytes().subrange(0, earlier.bytes().len() as int) == earlier.bytes()
        &&& self.budget() + self.bytes().len() == earlier.budget() + earlier.bytes().len()
    }

    /// A writer extends itself.
    pub proof fn lemma_extends_itself(&self)
        ensures
            self.extends(self),
    {
        assert(self.bytes().subrange(0, self.bytes().len() as int) =~= self.bytes());
    }

    /// What extends an extension of `first` extends `first`.
    pub proof fn lemma_extends_chain(&self, middle: &BoundedWriter, first: &BoundedWriter)
        requires
            self.extends(middle),
            middle.extends(first),
        ensures
            self.extends(first),
    {
        let cut = first.bytes().len() as int;
        assert(self.bytes().subrange(0, cut) =~= middle.bytes().subrange(0, cut)) by {
            assert forall|i: int| 0 <= i < cut implies self.bytes()[i] == middle.bytes()[i] by {
                assert(self.bytes().subrange(0, middle.bytes().len() as int)[i]
                    == self.bytes()[i]);
            }
        }
    }

    /// Wraps `sink`, which keeps its contents, with `budget` bytes to spend.
    pub fn new(sink: Vec<u8>, budget: usize) -> (writer: Self)
        ensures
            writer.bytes() == sink@,
            writer.budget() == budget,
    {
        BoundedWriter { sink, remaining: budget }
    }

    /// Gives the sink back.
    pub fn into_sink(self) -> (sink: Vec<u8>)
        ensures
            sink@ == self.bytes(),
    {
        self.sink
    }

    /// The budget that is left.
    pub fn remaining(&self) -> (left: usize)
        ensures
            left == self.budget(),
    {
        self.remaining
    }

    /// Writes `buf` whole, or nothing of it. Returns whether it was written.
    /// An empty `buf` is always written.
    pub fn put(&mut self, buf: &[u8]) -> (written: bool)
        ensures
            written <==> buf@.len() <= old(self).budget(),
            written ==> final(self).bytes() == old(self).bytes() + buf@,
            written ==> final(self).budget() == old(self).budget() - buf@.len(),
            !written ==> *final(self) == *old(self),
    {
        if buf.len() > self.remaining {
            return false;
        }
        self.remaining = self.remaining - buf.len();
        self.sink.extend_from_slice(buf);
        true
    }
}

impl std::io::Write for BoundedWriter {
    /// Takes `buf` whole if the budget covers it, and nothing otherwise. The
    /// result is the number of bytes taken, so a refusal reads as `Ok(0)`.
    fn write(&mut self, buf: &[u8]) -> (taken: Result<usize, std::io::Error>)
        ensures
            buf@.len() <= old(self).budget() ==> (taken matches Ok(n) && n == buf@.len()),
            buf@.len() <= old(self).budget() ==> final(self).bytes() == old(self).bytes() + buf@,
            buf@.len() <= old(self).budget() ==> final(self).budget() == old(self).budget()
                - buf@.len(),
            buf@.len() > old(self).budget() ==> (taken matches Ok(n) && n == 0),
            buf@.len() > old(self).budget() ==> *final(self) == *old(self),
    {
        if self.put(buf) {
            Ok(buf.len())
        } else {
            Ok(0)
        }
    }

    /// Does nothing: the sink holds every accepted byte already.
    fn flush(&mut self) -> (done: Result<(), std::io::Error>)
        ensures
            done is Ok,
            *final(self) == *old(self),
    {
        Ok(())
    }
}

} // verus!
