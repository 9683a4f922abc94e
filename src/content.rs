//! The byte contents of an in-memory file, with offset-based reads and writes
//! that clamp to the current length and zero-fill on growth.

use vstd::prelude::*;

verus! {

/// `s` brought to length `n`: cut short, or extended with zero bytes.
pub open spec fn resized(s: Seq<u8>, n: nat) -> Seq<u8> {
    if n <= s.len() {
        s.subrange(0, n as int)
    } else {
        s + Seq::new((n - s.len()) as nat, |_i: int| 0u8)
    }
}

/// The bytes in common between `[off, off + n)` and `[0, s.len())`.
pub open spec fn read_window(s: Seq<u8>, off: nat, n: nat) -> Seq<u8> {
    let start = if off <= s.len() { off } else { s.len() };
    let end = if off + n <= s.len() { off + n } else { s.len() };
    s.subrange(start as int, end as int)
}

/// A buffer after a read: the window at its start, the rest untouched.
pub open spec fn filled(buf: Seq<u8>, window: Seq<u8>) -> Seq<u8> {
    window + buf.subrange(window.len() as int, buf.len() as int)
}

/// `s` after `b` is written at `off`: first grown with zero bytes to cover
/// `off + b.len()` where it is shorter, then overwritten there. An empty `b`
/// leaves `s` as it is.
pub open spec fn written(s: Seq<u8>, off: nat, b: Seq<u8>) -> Seq<u8> {
    let n = if b.len() == 0 || off + b.len() <= s.len() { s.len() } else { off + b.len() };
    Seq::new(
        n,
        |i: int|
            if off <= i < off + b.len() {
                b[i - off]
            } else if i < s.len() {
                s[i]
            } else {
                0u8
            },
    )
}

/// Reading back at the offset of a write, into a buffer as long as what was
/// written, yields exactly the bytes written.
pub proof fn lemma_read_after_write(s: Seq<u8>, off: nat, b: Seq<u8>)
    ensures
        read_window(written(s, off, b), off, b.len()) == b,
{
    assert(read_window(written(s, off, b), off, b.len()) =~= b);
}

/// A read at or past the end copies nothing and leaves the buffer as it was.
pub proof fn lemma_read_past_end(s: Seq<u8>, off: nat, buf: Seq<u8>)
    requires
        off >= s.len(),
    ensures
        read_window(s, off, buf.len()).len() == 0,
        filled(buf, read_window(s, off, buf.len())) == buf,
{
    assert(filled(buf, read_window(s, off, buf.len())) =~= buf);
}

/// Truncating twice to the same size leaves what truncating once left.
pub proof fn lemma_resize_idempotent(s: Seq<u8>, n: nat)
    ensures
        resized(resized(s, n), n) == resized(s, n),
{
    assert(resized(resized(s, n), n) =~= resized(s, n));
}

/// Growing by truncation fills the new bytes with zeros; the old ones stay.
pub proof fn lemma_resize_zero_fills(s: Seq<u8>, n: nat)
    ensures
        resized(s, n).len() == n,
        forall|i: int| 0 <= i < s.len() && i < n ==> #[trigger] resized(s, n)[i] == s[i],
        forall|i: int| s.len() <= i < n ==> #[trigger] resized(s, n)[i] == 0u8,
{
}

/// Writing past the end fills the gap between the old end and the offset
/// with zeros.
pub proof fn lemma_write_zero_fills(s: Seq<u8>, off: nat, b: Seq<u8>)
    requires
        b.len() > 0,
    ensures
        forall|i: int| s.len() <= i < off ==> #[trigger] written(s, off, b)[i] == 0u8,
{
}

/// The bytes of one file. Its length is the file's size.
pub struct FileContent {
    bytes: Vec<u8>,
}

impl View for FileContent {
    type V = Seq<u8>;

    closed spec fn view(&self) -> Seq<u8> {
        self.bytes@
    }
}

impl FileContent {
    /// Empty contents.
    pub fn new() -> (r: FileContent)
        ensures
            r@ == Seq::<u8>::empty(),
    {
        FileContent { bytes: Vec::new() }
    }

    /// The current size in bytes.
    pub fn len(&self) -> (r: usize)
        ensures
            r == self@.len(),
    {
        self.bytes.len()
    }

    /// Cuts the contents to `size` bytes, or extends them with zero bytes.
    pub fn truncate(&mut self, size: u64)
        requires
            size <= usize::MAX,
        ensures
            final(self)@ == resized(old(self)@, size as nat),
    {
        let n = size as usize;
        if n < self.bytes.len() {
            self.bytes.truncate(n);
        } else {
            self.bytes.resize(n, 0u8);
            assert(self@ =~= resized(old(self)@, size as nat));
        }
    }

    /// Copies into the start of `buf` the bytes of `[offset, offset + buf.len())`
    /// that lie within the contents, and returns how many were copied. Past the
    /// end nothing is copied and `buf` stays as it was.
    pub fn read_at(&self, offset: u64, buf: &mut [u8]) -> (r: usize)
        ensures
            r == read_window(self@, offset as nat, old(buf)@.len()).len(),
            final(buf)@ == filled(old(buf)@, read_window(self@, offset as nat, old(buf)@.len())),
    {
        let len = self.bytes.len();
        let start: usize = if offset >= len as u64 {
            len
        } else {
            offset as usize
        };
        let avail: usize = len - start;
        let n: usize = if avail < buf.len() {
            avail
        } else {
            buf.len()
        };
        let ghost window = read_window(self@, offset as nat, old(buf)@.len());
        assert(window =~= self@.subrange(start as int, start + n));
        let mut i: usize = 0;
        while i < n
            invariant
                i <= n,
                start + n <= len,
                len == self@.len(),
                n <= old(buf)@.len(),
                buf@.len() == old(buf)@.len(),
                forall|j: int| 0 <= j < i ==> buf@[j] == self@[start + j],
                forall|j: int| i <= j < buf@.len() ==> buf@[j] == old(buf)@[j],
            decreases n - i,
        {
            buf[i] = self.bytes[start + i];
            i = i + 1;
        }
        assert(buf@ =~= filled(old(buf)@, window));
        n
    }

    /// Writes all of `buf` at `offset`, first extending the contents with zero
    /// bytes where they end before `offset + buf.len()`. Returns `buf.len()`.
    /// An empty `buf` changes nothing, wherever `offset` lies.
    pub fn write_at(&mut self, offset: u64, buf: &[u8]) -> (r: usize)
        requires
            offset + buf@.len() <= usize::MAX,
        ensures
            r == buf@.len(),
            final(self)@ == written(old(self)@, offset as nat, buf@),
            buf@.len() == 0 ==> final(self)@ == old(self)@,
    {
        if buf.len() == 0 {
            assert(written(old(self)@, offset as nat, buf@) =~= old(self)@);
            return 0;
        }
        let start = offset as usize;
        let end = start + buf.len();
        if end > self.bytes.len() {
            self.bytes.resize(end, 0u8);
        }
        let ghost grown = self@;
        assert forall|j: int| 0 <= j < old(self)@.len() implies grown[j] == old(self)@[j] by {
            if end > old(self)@.len() {
                assert(grown.subrange(0, old(self)@.len() as int)[j] == grown[j]);
            }
        }
        assert(grown.len() == if end <= old(self)@.len() { old(self)@.len() } else { end as nat });
        assert(forall|j: int| old(self)@.len() <= j < grown.len() ==> grown[j] == 0u8);
        let mut i: usize = 0;
        while i < buf.len()
            invariant
                i <= buf@.len(),
                end == start + buf@.len(),
                end <= self@.len(),
                self@.len() == grown.len(),
                forall|j: int| 0 <= j < i ==> self@[start + j] == buf@[j],
                forall|j: int|
                    0 <= j < self@.len() && !(start <= j < start + i) ==> self@[j] == grown[j],
            decreases buf@.len() - i,
        {
            self.bytes.set(start + i, buf[i]);
            i = i + 1;
        }
        let ghost w = written(old(self)@, offset as nat, buf@);
        assert forall|j: int| 0 <= j < self@.len() implies self@[j] == w[j] by {
            if start <= j < end {
                assert(self@[start + (j - start)] == buf@[j - start]);
            } else {
                assert(self@[j] == grown[j]);
            }
        }
        assert(self@ =~= w);
        buf.len()
    }
}

} // verus!
