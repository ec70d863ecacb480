//! The backing store of one cache entry: a growable run of bytes with
//! positioned reads and writes and a settable length.

use vstd::prelude::*;
use crate::error::Error;

verus! {

/// `s` cut or zero-extended to `n` bytes.
pub open spec fn resized(s: Seq<u8>, n: nat) -> Seq<u8> {
    Seq::new(n, |i: int| if i < s.len() { s[i] } else { 0u8 })
}

/// `s` after `data` was written at `offset`: the bytes of `data` stand at
/// `offset..offset + data.len()`, a gap between the old end and `offset` is
/// zero, and every other byte is the old one.
pub open spec fn overwritten(s: Seq<u8>, offset: nat, data: Seq<u8>) -> Seq<u8> {
    Seq::new(
        if s.len() >= offset + data.len() { s.len() } else { offset + data.len() },
        |i: int|
            if offset <= i < offset + data.len() {
                data[i - offset]
            } else if i < s.len() {
                s[i]
            } else {
                0u8
            },
    )
}

/// The bytes of one cache entry.
pub struct BackingFile {
    bytes: Vec<u8>,
}

impl View for BackingFile {
    type V = Seq<u8>;

    closed spec fn view(&self) -> Seq<u8> {
        self.bytes@
    }
}

impl BackingFile {
    /// An empty store.
    pub fn new() -> (file: Self)
        ensures
            file@ == Seq::<u8>::empty(),
    {
        BackingFile { bytes: Vec::new() }
    }

    /// The number of bytes held.
    pub fn len(&self) -> (n: u64)
        ensures
            n == self@.len(),
    {
        self.bytes.len() as u64
    }

    /// Sets the length to `new_len`, cutting the tail or appending zeros.
    pub fn set_len(&mut self, new_len: u64)
        requires
            new_len <= usize::MAX,
        ensures
            final(self)@ == resized(old(self)@, new_len as nat),
    {
        self.bytes.resize(new_len as usize, 0u8);
        assert(self@ =~= resized(old(self)@, new_len as nat));
    }

    /// Copies `len` bytes starting at `offset`.
    pub fn read_exact_at(&self, offset: u64, len: usize) -> (out: Vec<u8>)
        requires
            offset + len <= self@.len(),
        ensures
            out@ == self@.subrange(offset as int, offset + len),
    {
        let total: usize = self.bytes.len();
        assert(offset + len <= total);
        let start: usize = offset as usize;
        let mut out: Vec<u8> = Vec::with_capacity(len);
        let mut i: usize = 0;
        while i < len
            invariant
                i <= len,
                start == offset,
                start + len <= total,
                total == self.bytes@.len(),
                out@ == self.bytes@.subrange(start as int, start + i),
            decreases len - i,
        {
            out.push(self.bytes[start + i]);
            i += 1;
            assert(out@ =~= self.bytes@.subrange(start as int, start + i));
        }
        out
    }

    /// Writes all of `data` at `offset`, growing the store where it ends
    /// before `offset + data.len()`. Fails, and changes nothing, where that
    /// end cannot be addressed.
    pub fn write_all_at(&mut self, offset: u64, data: &[u8]) -> (r: Result<(), Error>)
        ensures
            r is Ok <==> offset + data@.len() <= usize::MAX,
            r is Ok ==> final(self)@ == overwritten(old(self)@, offset as nat, data@),
            r is Err ==> r == Err::<(), Error>(Error::Io) && final(self)@ == old(self)@,
    {
        let n: usize = data.len();
        if offset > usize::MAX as u64 {
            return Err(Error::Io);
        }
        let start: usize = offset as usize;
        if n > usize::MAX - start {
            return Err(Error::Io);
        }
        let end: usize = start + n;
        if self.bytes.len() < end {
            self.bytes.resize(end, 0u8);
        }
        let ghost grown: Seq<u8> = self.bytes@;
        assert(grown =~= resized(old(self)@, grown.len()));
        let mut i: usize = 0;
        while i < n
            invariant
                i <= n,
                n == data@.len(),
                end == start + n,
                self.bytes@.len() == grown.len(),
                end <= grown.len(),
                forall|j: int| 0 <= j < grown.len() ==> self.bytes@[j] == (if start <= j < start + i {
                    data@[j - start]
                } else {
                    grown[j]
                }),
            decreases n - i,
        {
            self.bytes.set(start + i, data[i]);
            i += 1;
        }
        assert(self@ =~= overwritten(old(self)@, offset as nat, data@));
        Ok(())
    }
}

} // verus!
