//! A regular file node: its contents together with access and modify times.

use vstd::prelude::*;
use crate::content::{FileContent, resized, read_window, filled, written};

verus! {

/// Last-access and last-modify times, in units that the caller chooses.
/// They change only when set.
#[derive(Clone, Copy, Debug, PartialEq, Eq, Structural)]
pub struct Metadata {
    pub atime: usize,
    pub mtime: usize,
}

impl Metadata {
    /// Both times zero.
    pub fn new() -> (r: Metadata)
        ensures
            r.atime == 0,
            r.mtime == 0,
    {
        Metadata { atime: 0, mtime: 0 }
    }

    /// Replaces the access time; the modify time stays.
    pub fn set_atime(&mut self, atime: usize)
        ensures
            final(self).atime == atime,
            final(self).mtime == old(self).mtime,
    {
        self.atime = atime;
    }

    /// Replaces the modify time; the access time stays.
    pub fn set_mtime(&mut self, mtime: usize)
        ensures
            final(self).mtime == mtime,
            final(self).atime == old(self).atime,
    {
        self.mtime = mtime;
    }
}

/// What a node reports of itself: its size, a block count that is always
/// zero, and its two times.
#[derive(Clone, Copy, Debug, PartialEq, Eq, Structural)]
pub struct FileAttr {
    pub size: u64,
    pub blocks: u64,
    pub atime: usize,
    pub mtime: usize,
}

/// The abstract state of a node: its bytes and its two times.
pub ghost struct FileNodeView {
    pub content: Seq<u8>,
    pub atime: usize,
    pub mtime: usize,
}

impl FileNodeView {
    /// The attributes that a node in this state reports.
    pub open spec fn attr(self) -> FileAttr {
        FileAttr { size: self.content.len() as u64, blocks: 0, atime: self.atime, mtime: self.mtime }
    }

    /// This state with its contents brought to `n` bytes.
    pub open spec fn truncated(self, n: nat) -> FileNodeView {
        FileNodeView { content: resized(self.content, n), ..self }
    }

    /// This state after `b` is written at `off`.
    pub open spec fn written_at(self, off: nat, b: Seq<u8>) -> FileNodeView {
        FileNodeView { content: written(self.content, off, b), ..self }
    }

    /// This state with the access time replaced.
    pub open spec fn with_atime(self, t: usize) -> FileNodeView {
        FileNodeView { atime: t, ..self }
    }

    /// This state with the modify time replaced.
    pub open spec fn with_mtime(self, t: usize) -> FileNodeView {
        FileNodeView { mtime: t, ..self }
    }
}

/// After truncation to `n` bytes a node reports size `n`.
pub proof fn lemma_truncate_then_size(v: FileNodeView, n: u64)
    requires
        n <= usize::MAX,
    ensures
        v.truncated(n as nat).attr().size == n,
{
}

/// Setting a time is seen in the attributes, and the other time stays.
pub proof fn lemma_set_times(v: FileNodeView, t: usize)
    ensures
        v.with_atime(t).attr().atime == t,
        v.with_atime(t).attr().mtime == v.mtime,
        v.with_mtime(t).attr().mtime == t,
        v.with_mtime(t).attr().atime == v.atime,
{
}

/// Reads, writes and truncation leave both times as they were.
pub proof fn lemma_times_untouched_by_content(v: FileNodeView, off: nat, b: Seq<u8>, n: nat)
    ensures
        v.written_at(off, b).atime == v.atime,
        v.written_at(off, b).mtime == v.mtime,
        v.truncated(n).atime == v.atime,
        v.truncated(n).mtime == v.mtime,
{
}

/// The file node of an in-memory filesystem: contents whose length is the
/// file's size, and two times that only explicit calls change.
pub struct FileNode {
    content: FileContent,
    metadata: Metadata,
}

impl View for FileNode {
    type V = FileNodeView;

    closed spec fn view(&self) -> FileNodeView {
        FileNodeView {
            content: self.content@,
            atime: self.metadata.atime,
            mtime: self.metadata.mtime,
        }
    }
}

impl FileNode {
    /// An empty file with both times zero.
    pub fn new() -> (r: FileNode)
        ensures
            r@.content == Seq::<u8>::empty(),
            r@.atime == 0,
            r@.mtime == 0,
    {
        FileNode { content: FileContent::new(), metadata: Metadata::new() }
    }

    /// The current size, a zero block count and the two times.
    pub fn get_attr(&self) -> (r: FileAttr)
        ensures
            r == self@.attr(),
            self@.content.len() <= usize::MAX,
    {
        let size = self.content.len() as u64;
        FileAttr { size, blocks: 0, atime: self.metadata.atime, mtime: self.metadata.mtime }
    }

    /// Cuts the file to `size` bytes, or extends it with zero bytes.
    pub fn truncate(&mut self, size: u64)
        requires
            size <= usize::MAX,
        ensures
            final(self)@ == old(self)@.truncated(size as nat),
    {
        self.content.truncate(size);
    }

    /// Copies into the start of `buf` what the file holds of
    /// `[offset, offset + buf.len())` and returns how many bytes that was.
    pub fn read_at(&self, offset: u64, buf: &mut [u8]) -> (r: usize)
        ensures
            r == read_window(self@.content, offset as nat, old(buf)@.len()).len(),
            final(buf)@ == filled(
                old(buf)@,
                read_window(self@.content, offset as nat, old(buf)@.len()),
            ),
    {
        self.content.read_at(offset, buf)
    }

    /// Writes all of `buf` at `offset`, growing the file with zero bytes where
    /// needed, and returns `buf.len()`. An empty `buf` changes nothing.
    pub fn write_at(&mut self, offset: u64, buf: &[u8]) -> (r: usize)
        requires
            offset + buf@.len() <= usize::MAX,
        ensures
            r == buf@.len(),
            final(self)@ == old(self)@.written_at(offset as nat, buf@),
            buf@.len() == 0 ==> final(self)@ == old(self)@,
    {
        let r = self.content.write_at(offset, buf);
        assert(buf@.len() == 0 ==> self@ =~= old(self)@);
        r
    }

    /// Replaces the access time.
    pub fn set_atime(&mut self, atime: usize)
        ensures
            final(self)@ == old(self)@.with_atime(atime),
    {
        self.metadata.set_atime(atime);
    }

    /// Replaces the modify time.
    pub fn set_mtime(&mut self, mtime: usize)
        ensures
            final(self)@ == old(self)@.with_mtime(mtime),
    {
        self.metadata.set_mtime(mtime);
    }
}

} // verus!
