//! The physical backend: nodes that map the File/Directory contracts onto a
//! real directory tree.
//!
//! The operating-system calls themselves (listing, opening, reading, writing,
//! renaming) are not made here. The embedding program performs them and hands
//! their results in as plain values; these nodes keep the model the calls act
//! on — the child cache, the buffer window, the open flag — under exact
//! contracts. The [`crate::store::NodeStore`] owns the nodes and performs the
//! operations that touch more than one of them.

use vstd::prelude::*;
use vstd::math::min;
use vstd::string::StringExecFns;

use crate::cache::{self, ChildCache};
use crate::window::BufWindow;
use crate::{FilesystemObject, FilesystemObjectRaw};

verus! {

/// A directory of the physical backend: a name, a parent handle (absent only
/// for a root), a lazily populated child cache, and the flag that records
/// whether the backend listing has been consulted.
pub struct PhysicalDirectory {
    name: String,
    parent: Option<usize>,
    cache: ChildCache,
    handle: usize,
}

/// A file of the physical backend: a name, a parent handle, the buffer
/// window that emulates buffered reads and writes, and a flag modelling
/// whether the backend file handle is currently held open (the handle itself
/// lives with the embedding program).
pub struct PhysicalFile {
    name: String,
    parent: usize,
    opened: bool,
    io: BufWindow,
    handle: usize,
}

impl PhysicalDirectory {
    /// The cached children, in insertion order: each entry pairs a child
    /// name with the shared reference to the child node.
    pub open spec fn children_seq(&self) -> Seq<(String, FilesystemObject)> {
        self.cache_spec().entries_seq()
    }

    /// True once the backend listing has been consulted; the cache is then
    /// authoritative.
    pub open spec fn scanned_spec(&self) -> bool {
        self.cache_spec().scanned_spec()
    }

    /// The child cache.
    pub closed spec fn cache_spec(&self) -> ChildCache {
        self.cache
    }

    /// Well-formedness: no two cached children share a name.
    pub open spec fn wf(&self) -> bool {
        cache::keys_unique(self.children_seq())
    }

    /// Constructs a directory node to stand at `handle` in the node store,
    /// with an empty, not yet scanned child cache.
    pub fn new(name: &str, parent: Option<usize>, handle: usize) -> (d: Self)
        ensures
            d.wf(),
            d.name_view() == name@,
            d.parent_view() == parent,
            d.self_handle() == handle as int,
            d.children_seq().len() == 0,
            !d.scanned_spec(),
    {
        PhysicalDirectory {
            name: String::from_str(name),
            parent,
            cache: ChildCache::new(),
            handle,
        }
    }

    /// True once the backend listing has been consulted.
    pub fn is_scanned(&self) -> (r: bool)
        ensures
            r == self.scanned_spec(),
    {
        self.cache.is_scanned()
    }

    /// Records that the backend listing has been consulted.
    pub fn set_scanned(&mut self)
        ensures
            final(self).children_seq() == old(self).children_seq(),
            final(self).scanned_spec(),
            final(self).name_view() == old(self).name_view(),
            final(self).parent_view() == old(self).parent_view(),
            final(self).self_handle() == old(self).self_handle(),
    {
        self.cache.set_scanned()
    }

    /// The cached child of this name, if one is.
    pub fn lookup(&self, name: &String) -> (r: Option<FilesystemObject>)
        ensures
            r == cache::lookup_seq(self.children_seq(), name@),
    {
        self.cache.lookup(name)
    }

    /// Whether a child of this name is cached.
    pub fn has_child(&self, name: &String) -> (r: bool)
        ensures
            r == cache::has_key(self.children_seq(), name@),
    {
        self.cache.contains(name)
    }

    /// Files `obj` in the cache under `name`: an entry already carrying that
    /// name is replaced, else a new entry is appended.
    pub fn insert_child(&mut self, name: String, obj: FilesystemObject)
        requires
            old(self).wf(),
        ensures
            final(self).wf(),
            final(self).scanned_spec() == old(self).scanned_spec(),
            if cache::has_key(old(self).children_seq(), name@) {
                exists|j: int|
                    0 <= j < old(self).children_seq().len() && old(self).children_seq()[j].0@
                        == name@ && final(self).children_seq() == old(self).children_seq().update(
                        j,
                        (name, obj),
                    )
            } else {
                final(self).children_seq() == old(self).children_seq().push((name, obj))
            },
            final(self).name_view() == old(self).name_view(),
            final(self).parent_view() == old(self).parent_view(),
            final(self).self_handle() == old(self).self_handle(),
    {
        self.cache.insert(name, obj)
    }

    /// A snapshot of the cached child objects, in cache order.
    pub fn children_objects(&self) -> (out: Vec<FilesystemObject>)
        ensures
            out@.len() == self.children_seq().len(),
            forall|j: int| 0 <= j < out@.len() ==> out@[j] == self.children_seq()[j].1,
    {
        self.cache.objects()
    }
}

impl FilesystemObjectRaw for PhysicalDirectory {
    closed spec fn name_view(&self) -> Seq<char> {
        self.name@
    }

    closed spec fn self_handle(&self) -> int {
        self.handle as int
    }

    closed spec fn parent_view(&self) -> Option<usize> {
        self.parent
    }

    fn get(&self) -> (h: usize) {
        self.handle
    }

    fn name(&self) -> (r: &str) {
        self.name.as_str()
    }

    fn get_parent(&self) -> (p: Option<usize>) {
        self.parent
    }
}

impl PhysicalFile {
    /// The buffer window emulating buffered I/O over the backend file.
    pub closed spec fn io_spec(&self) -> BufWindow {
        self.io
    }

    /// Whether the backend file handle is modelled as held open.
    pub closed spec fn opened_spec(&self) -> bool {
        self.opened
    }

    /// Well-formedness: the buffer window is well formed, and the file has
    /// a parent directory (a file is never a root).
    pub open spec fn wf(&self) -> bool {
        self.io_spec().wf() && self.parent_view() is Some
    }

    /// Constructs a file node to stand at `handle` in the node store, closed,
    /// with a zeroed buffer of `buffer_size` bytes and an empty window.
    pub fn new(name: &str, parent: usize, buffer_size: usize, handle: usize) -> (f: Self)
        ensures
            f.wf(),
            f.name_view() == name@,
            f.parent_view() == Some(parent),
            f.self_handle() == handle as int,
            !f.opened_spec(),
            f.io_spec().buf() == Seq::new(buffer_size as nat, |i: int| 0u8),
            f.io_spec().filled() == 0,
            f.io_spec().pos() == 0,
    {
        PhysicalFile {
            name: String::from_str(name),
            parent,
            opened: false,
            io: BufWindow::new(buffer_size),
            handle,
        }
    }

    /// True when the backend handle is modelled as open. Whether the handle
    /// is still live at the operating system is the embedding program's to
    /// check.
    pub fn is_open(&self) -> (r: bool)
        ensures
            r == self.opened_spec(),
    {
        self.opened
    }

    /// Records that the embedding program opened the backend file. Opening
    /// over a stale handle first closes it, which empties the window; the
    /// buffer's content and allocated length stay.
    pub fn mark_opened(&mut self)
        requires
            old(self).wf(),
        ensures
            final(self).wf(),
            final(self).opened_spec(),
            final(self).io_spec().buf() == old(self).io_spec().buf(),
            old(self).opened_spec() ==> final(self).io_spec().filled() == 0
                && final(self).io_spec().pos() == 0,
            !old(self).opened_spec() ==> final(self).io_spec() == old(self).io_spec(),
            final(self).name_view() == old(self).name_view(),
            final(self).parent_view() == old(self).parent_view(),
            final(self).self_handle() == old(self).self_handle(),
    {
        if self.opened {
            self.io.reset();
        }
        self.opened = true;
    }

    /// Closes the file: the backend handle is released (by the embedding
    /// program), the window is emptied; the buffer's content and allocated
    /// length are untouched.
    pub fn close(&mut self)
        requires
            old(self).wf(),
        ensures
            final(self).wf(),
            !final(self).opened_spec(),
            final(self).io_spec().buf() == old(self).io_spec().buf(),
            final(self).io_spec().filled() == 0,
            final(self).io_spec().pos() == 0,
            final(self).name_view() == old(self).name_view(),
            final(self).parent_view() == old(self).parent_view(),
            final(self).self_handle() == old(self).self_handle(),
    {
        self.opened = false;
        self.io.reset();
    }

    /// True when the window is exhausted, so the next read must fill from
    /// the backend.
    pub fn needs_fill(&self) -> (r: bool)
        ensures
            r == (self.io_spec().pos() >= self.io_spec().filled()),
    {
        self.io.needs_fill()
    }

    /// The allocated buffer length. A zero length means the next fill should
    /// first size the buffer to the backend file's byte length.
    pub fn buffer_len(&self) -> (n: usize)
        ensures
            n == self.io_spec().buf().len(),
    {
        self.io.buffer_len()
    }

    /// Records a backend fill: `data` holds the bytes one backend read call
    /// returned, at most the allocated buffer length many. They become the
    /// new filled region and the cursor returns to the start.
    pub fn apply_fill(&mut self, data: &[u8]) -> (r: crate::FsResult)
        requires
            old(self).wf(),
            data@.len() <= old(self).io_spec().buf().len(),
        ensures
            final(self).wf(),
            r is Ok <==> old(self).opened_spec(),
            old(self).opened_spec() ==> {
                &&& final(self).io_spec().buf() == data@ + old(self).io_spec().buf().skip(
                    data@.len() as int,
                )
                &&& final(self).io_spec().filled() == data@.len()
                &&& final(self).io_spec().pos() == 0
            },
            !old(self).opened_spec() ==> *final(self) == *old(self) && (r matches Err(
                crate::FsError::FileNotOpen(n),
            ) && n@ == old(self).name_view()),
            final(self).opened_spec() == old(self).opened_spec(),
            final(self).name_view() == old(self).name_view(),
            final(self).parent_view() == old(self).parent_view(),
            final(self).self_handle() == old(self).self_handle(),
    {
        if !self.opened {
            return Err(crate::FsError::FileNotOpen(self.name.clone()));
        }
        self.io.apply_fill(data);
        Ok(())
    }

    /// Serves up to `max` bytes out of the window, advancing the cursor.
    /// Serves fewer than `max` only when the window holds fewer; when the
    /// window is exhausted it serves none, and the caller fills first.
    pub fn read(&mut self, max: usize) -> (out: Vec<u8>)
        requires
            old(self).wf(),
        ensures
            final(self).wf(),
            out@.len() == min(
                old(self).io_spec().filled() - old(self).io_spec().pos(),
                max as int,
            ),
            out@ == old(self).io_spec().buf().subrange(
                old(self).io_spec().pos(),
                old(self).io_spec().pos() + out@.len(),
            ),
            final(self).io_spec().pos() == old(self).io_spec().pos() + out@.len(),
            final(self).io_spec().filled() == old(self).io_spec().filled(),
            final(self).io_spec().buf() == old(self).io_spec().buf(),
            final(self).opened_spec() == old(self).opened_spec(),
            final(self).name_view() == old(self).name_view(),
            final(self).parent_view() == old(self).parent_view(),
            final(self).self_handle() == old(self).self_handle(),
    {
        self.io.read_into(max)
    }

    /// A copy of the window — the filled bytes not yet consumed — without
    /// moving the cursor.
    pub fn fill_buf(&self) -> (out: Vec<u8>)
        requires
            self.wf(),
        ensures
            out@ == self.io_spec().window(),
    {
        self.io.window_bytes()
    }

    /// Moves the cursor forward by `amt`, saturating at the end of the
    /// filled region.
    pub fn consume(&mut self, amt: usize)
        requires
            old(self).wf(),
        ensures
            final(self).wf(),
            final(self).io_spec().pos() == min(
                old(self).io_spec().pos() + amt,
                old(self).io_spec().filled(),
            ),
            final(self).io_spec().filled() == old(self).io_spec().filled(),
            final(self).io_spec().buf() == old(self).io_spec().buf(),
            final(self).opened_spec() == old(self).opened_spec(),
            final(self).name_view() == old(self).name_view(),
            final(self).parent_view() == old(self).parent_view(),
            final(self).self_handle() == old(self).self_handle(),
    {
        self.io.consume(amt)
    }

    /// Replaces buffered content with `data`, truncated to the allocated
    /// buffer length: up to `min(buffer length, data length)` bytes are
    /// accepted and that count returned — possibly zero, when the buffer was
    /// allocated no space. The filled region empties, so the next read
    /// refetches from the backend.
    pub fn write(&mut self, data: &[u8]) -> (n: usize)
        requires
            old(self).wf(),
        ensures
            final(self).wf(),
            n == min(old(self).io_spec().buf().len() as int, data@.len() as int),
            final(self).io_spec().buf() == data@.take(n as int) + old(self).io_spec().buf().skip(
                n as int,
            ),
            final(self).io_spec().filled() == 0,
            final(self).io_spec().pos() == 0,
            final(self).opened_spec() == old(self).opened_spec(),
            final(self).name_view() == old(self).name_view(),
            final(self).parent_view() == old(self).parent_view(),
            final(self).self_handle() == old(self).self_handle(),
    {
        self.io.write_replace(data)
    }

    /// The bytes a flush persists: the full allocated buffer, exactly as it
    /// stands. The embedding program writes them to the backend file and
    /// flushes the backend handle.
    pub fn flush_data(&self) -> (out: Vec<u8>)
        ensures
            out@ == self.io_spec().buf(),
    {
        self.io.full_buffer()
    }

    /// Resizes the allocated buffer: a longer buffer keeps its content and
    /// pads with zero bytes, a shorter one keeps its prefix.
    pub fn set_buffer_size(&mut self, size: usize)
        requires
            old(self).wf(),
        ensures
            final(self).wf(),
            final(self).io_spec().buf().len() == size,
            final(self).io_spec().buf() == if size <= old(self).io_spec().buf().len() {
                old(self).io_spec().buf().take(size as int)
            } else {
                (old(self).io_spec().buf() + Seq::new(
                    (size - old(self).io_spec().buf().len()) as nat,
                    |i: int| 0u8,
                ))
            },
            final(self).io_spec().filled() == min(old(self).io_spec().filled(), size as int),
            final(self).io_spec().pos() == min(old(self).io_spec().pos(), size as int),
            final(self).opened_spec() == old(self).opened_spec(),
            final(self).name_view() == old(self).name_view(),
            final(self).parent_view() == old(self).parent_view(),
            final(self).self_handle() == old(self).self_handle(),
    {
        self.io.resize(size)
    }
}

impl FilesystemObjectRaw for PhysicalFile {
    closed spec fn name_view(&self) -> Seq<char> {
        self.name@
    }

    closed spec fn self_handle(&self) -> int {
        self.handle as int
    }

    closed spec fn parent_view(&self) -> Option<usize> {
        Some(self.parent)
    }

    fn get(&self) -> (h: usize) {
        self.handle
    }

    fn name(&self) -> (r: &str) {
        self.name.as_str()
    }

    fn get_parent(&self) -> (p: Option<usize>) {
        Some(self.parent)
    }
}

} // verus!
