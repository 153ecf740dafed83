//! A sink that counts the bytes written to it without storing them.

use vstd::prelude::*;

verus! {

/// Counts the UTF-8 bytes of formatted output without storing it; the
/// count saturates nowhere: a write that would overflow `usize` fails.
#[derive(Clone, Copy, Debug, Default, PartialEq, Eq)]
pub struct CountingWriter {
    bytes: usize,
}

impl CountingWriter {
    /// The number of bytes counted so far.
    pub closed spec fn count(&self) -> nat {
        self.bytes as nat
    }

    /// Creates a writer that has counted nothing.
    pub fn new() -> (writer: Self)
        ensures
            writer.count() == 0,
    {
        CountingWriter { bytes: 0 }
    }

    /// Returns the number of bytes counted so far.
    pub fn bytes(&self) -> (bytes: usize)
        ensures
            bytes == self.count(),
    {
        self.bytes
    }

    /// Counts `amount` more bytes; fails, counting nothing, when the total
    /// would overflow `usize`.
    pub fn add(&mut self, amount: usize) -> (result: Result<(), ()>)
        ensures
            result is Ok <==> old(self).count() + amount <= usize::MAX,
            result is Ok ==> final(self).count() == old(self).count() + amount,
            result is Err ==> final(self).count() == old(self).count(),
    {
        match self.bytes.checked_add(amount) {
            Some(total) => {
                self.bytes = total;
                Ok(())
            },
            None => Err(()),
        }
    }

    /// Counts the UTF-8 bytes of `value`, as `fmt::Write::write_str` would
    /// write them.
    pub fn write_str(&mut self, value: &str) -> (result: Result<(), ()>)
        ensures
            result is Ok <==> old(self).count() + value.len() <= usize::MAX,
            result is Ok ==> final(self).count() == old(self).count() + value.len(),
            result is Err ==> final(self).count() == old(self).count(),
    {
        self.add(value.len())
    }
}

} // verus!
