//! Fixed-capacity secret storage that is wiped when no longer needed.

use vstd::prelude::*;

use crate::errors::BufferError;

verus! {

/// Total size in bytes of a [`SecureBuffer`].  One slot is reserved for the
/// implicit terminator expected by consumers, so a secret holds at most
/// `CAPACITY - 1` bytes.
pub const CAPACITY: usize = 512;

/// A fixed-capacity byte container for secret data.
///
/// The buffer always holds exactly [`CAPACITY`] bytes, starts zero-filled,
/// and is only ever moved, never copied.  Callers that finish with a buffer
/// call [`SecureBuffer::wipe`] so no secret byte outlives its use.
pub struct SecureBuffer {
    data: Vec<u8>,
}

impl View for SecureBuffer {
    type V = Seq<u8>;

    closed spec fn view(&self) -> Seq<u8> {
        self.data@
    }
}

/// All bytes of `s` from `from` onward are zero.
pub open spec fn zeroed_from(s: Seq<u8>, from: int) -> bool {
    forall|i: int| from <= i < s.len() ==> s[i] == 0
}

impl SecureBuffer {
    /// A zero-filled buffer of [`CAPACITY`] bytes.
    pub fn create() -> (b: SecureBuffer)
        ensures
            b@.len() == CAPACITY,
            zeroed_from(b@, 0),
    {
        let mut data: Vec<u8> = Vec::new();
        let mut i: usize = 0;
        while i < CAPACITY
            invariant
                i <= CAPACITY,
                data@.len() == i,
                zeroed_from(data@, 0),
            decreases CAPACITY - i,
        {
            data.push(0);
            i += 1;
        }
        SecureBuffer { data }
    }

    /// The fixed total size of the buffer.
    pub fn capacity(&self) -> (c: usize)
        ensures
            c == CAPACITY,
    {
        CAPACITY
    }

    /// Stores `byte` at `index`.  The last slot is reserved for the implicit
    /// terminator, so any index at or past `CAPACITY - 1` is refused; callers
    /// treat that refusal as "secret too long" and abort the read.
    pub fn write_at(&mut self, index: usize, byte: u8) -> (r: Result<(), BufferError>)
        requires
            old(self)@.len() == CAPACITY,
        ensures
            final(self)@.len() == CAPACITY,
            index < CAPACITY - 1 ==> r is Ok && final(self)@ == old(self)@.update(index as int, byte),
            index >= CAPACITY - 1 ==> r == Err::<(), BufferError>(BufferError::CapacityExceeded)
                && final(self)@ == old(self)@,
    {
        if index < CAPACITY - 1 {
            self.data.set(index, byte);
            Ok(())
        } else {
            Err(BufferError::CapacityExceeded)
        }
    }

    /// Zeroes every byte from `index` to the end of the buffer.
    pub fn clear_from(&mut self, index: usize)
        requires
            old(self)@.len() == CAPACITY,
        ensures
            final(self)@.len() == CAPACITY,
            forall|i: int| 0 <= i < index && i < CAPACITY ==> final(self)@[i] == old(self)@[i],
            zeroed_from(final(self)@, index as int),
    {
        let mut i: usize = index;
        while i < CAPACITY
            invariant
                index <= i <= CAPACITY || (index > CAPACITY && i == index),
                self@.len() == CAPACITY,
                forall|j: int| 0 <= j < index && j < CAPACITY ==> self@[j] == old(self)@[j],
                forall|j: int| index <= j < i && j < CAPACITY ==> self@[j] == 0,
            decreases CAPACITY - i,
        {
            self.data.set(i, 0);
            i += 1;
        }
    }

    /// Zeroes the whole buffer.  Every code path that abandons a partly
    /// filled buffer calls this first, so secret bytes never linger.
    pub fn wipe(&mut self)
        requires
            old(self)@.len() == CAPACITY,
        ensures
            final(self)@.len() == CAPACITY,
            zeroed_from(final(self)@, 0),
    {
        self.clear_from(0);
    }

    /// The byte stored at `index`, or `None` past the end.
    pub fn get(&self, index: usize) -> (r: Option<u8>)
        ensures
            index < self@.len() ==> r == Some(self@[index as int]),
            index >= self@.len() ==> r is None,
    {
        if index < self.data.len() {
            Some(self.data[index])
        } else {
            None
        }
    }
}

} // verus!
