//! The archive backend: nodes that map the File/Directory contracts onto the
//! entries of one open, read-only archive container.
//!
//! The container only supports forward/sequential access within an entry, so
//! a file node emulates seeking: it tracks a logical byte offset
//! (`seek_offset`), and a fill re-opens the entry, skips forward to that
//! offset and reads one chunk. Seeking only moves the offset and invalidates
//! the buffer window; the next read re-derives content from the new offset.
//!
//! The archive values themselves live in [`crate::store::ArchiveStore`]; a
//! node refers to its archive by index, and to its entry by the entry's flat
//! index within the archive.

use vstd::prelude::*;
use vstd::math::min;
use vstd::string::StringExecFns;

use crate::cache::{self, ChildCache};
use crate::window::BufWindow;
use crate::{FilesystemObject, FilesystemObjectRaw, FsError, FsResult, SeekFrom};

verus! {

/// The text carried by the error a seek to a negative or unrepresentable
/// offset reports.
pub open spec fn invalid_seek_message() -> Seq<char> {
    "Invalid seek offset"@
}

/// The logical offset a seek aims at: absolute for `Start`, relative to the
/// entry's decompressed size for `End`, relative to the current offset for
/// `Current`.
pub open spec fn seek_target(cur: int, size: int, pos: SeekFrom) -> int {
    match pos {
        SeekFrom::Start(p) => p as int,
        SeekFrom::End(d) => size + d as int,
        SeekFrom::Current(d) => cur + d as int,
    }
}

/// Archive seek law. For an entry of decompressed size `size`, a seek
/// relative to the end with displacement zero aims exactly at `size` — and
/// [`ZipFile::seek`] then returns that offset, since it lies in range. From
/// offset `size`, stepping back `size + 1` bytes aims before the start,
/// which a seek reports as invalid.
pub proof fn lemma_seek_end_of_entry(cur: int, size: int)
    requires
        0 <= size <= i64::MAX,
    ensures
        seek_target(cur, size, SeekFrom::End(0)) == size,
        size + 1 <= i64::MAX ==> seek_target(size, size, SeekFrom::Current((-(size + 1)) as i64))
            < 0,
{
}

/// A directory of the archive backend: a name, the handle of its parent (the
/// physical directory the archive container stands in), a lazily populated
/// child cache, and the index of the shared archive all its children read
/// through.
pub struct ZipDirectory {
    name: String,
    parent: usize,
    cache: ChildCache,
    archive: usize,
    handle: usize,
}

/// A file of the archive backend: one entry of an open archive, identified
/// by its flat index, with the entry's decompressed size recorded at
/// construction from the archive's central directory, a buffer window, and
/// the logical seek offset the forward-only stream is re-derived from.
pub struct ZipFile {
    name: String,
    file_index: usize,
    entry_size: u64,
    parent: usize,
    archive: usize,
    io: BufWindow,
    seek_offset: i64,
    handle: usize,
}

impl ZipDirectory {
    /// The cached children, in insertion order.
    pub open spec fn children_seq(&self) -> Seq<(String, FilesystemObject)> {
        self.cache_spec().entries_seq()
    }

    /// True once the archive's entry listing has been consulted.
    pub open spec fn scanned_spec(&self) -> bool {
        self.cache_spec().scanned_spec()
    }

    /// The child cache.
    pub closed spec fn cache_spec(&self) -> ChildCache {
        self.cache
    }

    /// The index of the archive this directory reads through.
    pub closed spec fn archive_spec(&self) -> int {
        self.archive as int
    }

    /// Well-formedness: no two cached children share a name, and the
    /// directory has a parent (an archive always stands inside a physical
    /// tree).
    pub open spec fn wf(&self) -> bool {
        cache::keys_unique(self.children_seq()) && self.parent_view() is Some
    }

    /// Constructs an archive directory node to stand at `handle` in the node
    /// store, reading through the archive at index `archive`, with an empty,
    /// not yet scanned child cache.
    pub fn new(name: &str, parent: usize, archive: usize, handle: usize) -> (d: Self)
        ensures
            d.wf(),
            d.name_view() == name@,
            d.parent_view() == Some(parent),
            d.self_handle() == handle as int,
            d.archive_spec() == archive as int,
            d.children_seq().len() == 0,
            !d.scanned_spec(),
    {
        ZipDirectory {
            name: String::from_str(name),
            parent,
            cache: ChildCache::new(),
            archive,
            handle,
        }
    }

    /// The index of the shared archive this directory reads through.
    pub fn get_archive(&self) -> (a: usize)
        ensures
            a as int == self.archive_spec(),
    {
        self.archive
    }

    /// True once the archive's entry listing has been consulted.
    pub fn is_scanned(&self) -> (r: bool)
        ensures
            r == self.scanned_spec(),
    {
        self.cache.is_scanned()
    }

    /// Records that the archive's entry listing has been consulted.
    pub fn set_scanned(&mut self)
        ensures
            final(self).children_seq() == old(self).children_seq(),
            final(self).scanned_spec(),
            final(self).name_view() == old(self).name_view(),
            final(self).parent_view() == old(self).parent_view(),
            final(self).self_handle() == old(self).self_handle(),
            final(self).archive_spec() == old(self).archive_spec(),
    {
        self.cache.set_scanned()
    }

    /// The cached child of this name, if one is.
    pub fn lookup(&self, name: &String) -> (r: Option<FilesystemObject>)
        ensures
            r == cache::lookup_seq(self.children_seq(), name@),
    {
        self.cache.lookup(name)
    }

    /// Whether a child of this name is cached.
    pub fn has_child(&self, name: &String) -> (r: bool)
        ensures
            r == cache::has_key(self.children_seq(), name@),
    {
        self.cache.contains(name)
    }

    /// Files `obj` in the cache under `name`: an entry already carrying that
    /// name is replaced, else a new entry is appended.
    pub fn insert_child(&mut self, name: String, obj: FilesystemObject)
        requires
            old(self).wf(),
        ensures
            final(self).wf(),
            final(self).scanned_spec() == old(self).scanned_spec(),
            if cache::has_key(old(self).children_seq(), name@) {
                exists|j: int|
                    0 <= j < old(self).children_seq().len() && old(self).children_seq()[j].0@
                        == name@ && final(self).children_seq() == old(self).children_seq().update(
                        j,
                        (name, obj),
                    )
            } else {
                final(self).children_seq() == old(self).children_seq().push((name, obj))
            },
            final(self).name_view() == old(self).name_view(),
            final(self).parent_view() == old(self).parent_view(),
            final(self).self_handle() == old(self).self_handle(),
            final(self).archive_spec() == old(self).archive_spec(),
    {
        self.cache.insert(name, obj)
    }

    /// A snapshot of the cached child objects, in cache order.
    pub fn children_objects(&self) -> (out: Vec<FilesystemObject>)
        ensures
            out@.len() == self.children_seq().len(),
            forall|j: int| 0 <= j < out@.len() ==> out@[j] == self.children_seq()[j].1,
    {
        self.cache.objects()
    }
}

impl FilesystemObjectRaw for ZipDirectory {
    closed spec fn name_view(&self) -> Seq<char> {
        self.name@
    }

    closed spec fn self_handle(&self) -> int {
        self.handle as int
    }

    closed spec fn parent_view(&self) -> Option<usize> {
        Some(self.parent)
    }

    fn get(&self) -> (h: usize) {
        self.handle
    }

    fn name(&self) -> (r: &str) {
        self.name.as_str()
    }

    fn get_parent(&self) -> (p: Option<usize>) {
        Some(self.parent)
    }
}

impl ZipFile {
    /// The buffer window emulating buffered reads over the entry.
    pub closed spec fn io_spec(&self) -> BufWindow {
        self.io
    }

    /// The entry's flat index within the archive.
    pub closed spec fn file_index_spec(&self) -> int {
        self.file_index as int
    }

    /// The index of the shared archive this entry reads through: the one its
    /// parent directory holds, recorded at construction.
    pub closed spec fn archive_spec(&self) -> int {
        self.archive as int
    }

    /// The index of the shared archive this entry reads through.
    pub fn get_archive(&self) -> (a: usize)
        ensures
            a as int == self.archive_spec(),
    {
        self.archive
    }

    /// The entry's decompressed size, recorded at construction from the
    /// archive's central directory.
    pub closed spec fn entry_size_spec(&self) -> int {
        self.entry_size as int
    }

    /// The logical read offset the next fill re-derives from.
    pub closed spec fn offset_spec(&self) -> int {
        self.seek_offset as int
    }

    /// Well-formedness: the window is well formed, the logical offset is
    /// never negative, and the entry has a parent directory.
    pub open spec fn wf(&self) -> bool {
        self.io_spec().wf() && self.offset_spec() >= 0 && self.parent_view() is Some
    }

    /// The intrinsic fields no operation moves: name, parent, self-handle,
    /// entry index and entry size.
    pub open spec fn same_entry(pre: &Self, post: &Self) -> bool {
        &&& post.name_view() == pre.name_view()
        &&& post.parent_view() == pre.parent_view()
        &&& post.self_handle() == pre.self_handle()
        &&& post.file_index_spec() == pre.file_index_spec()
        &&& post.entry_size_spec() == pre.entry_size_spec()
        &&& post.archive_spec() == pre.archive_spec()
    }

    /// Constructs an archive file node to stand at `handle` in the node
    /// store, for the entry at `file_index` whose decompressed size is
    /// `entry_size`, with a zeroed buffer of `buffer_size` bytes, an empty
    /// window and offset zero.
    pub fn new(
        name: &str,
        parent: usize,
        archive: usize,
        buffer_size: usize,
        file_index: usize,
        entry_size: u64,
        handle: usize,
    ) -> (f: Self)
        ensures
            f.wf(),
            f.name_view() == name@,
            f.parent_view() == Some(parent),
            f.self_handle() == handle as int,
            f.archive_spec() == archive as int,
            f.file_index_spec() == file_index as int,
            f.entry_size_spec() == entry_size as int,
            f.offset_spec() == 0,
            f.io_spec().buf() == Seq::new(buffer_size as nat, |i: int| 0u8),
            f.io_spec().filled() == 0,
            f.io_spec().pos() == 0,
    {
        ZipFile {
            name: String::from_str(name),
            file_index,
            entry_size,
            parent,
            archive,
            io: BufWindow::new(buffer_size),
            seek_offset: 0,
            handle,
        }
    }

    /// The entry's flat index within the archive.
    pub fn file_index(&self) -> (i: usize)
        ensures
            i as int == self.file_index_spec(),
    {
        self.file_index
    }

    /// The logical read offset the next fill re-derives from.
    pub fn offset(&self) -> (o: i64)
        ensures
            o as int == self.offset_spec(),
    {
        self.seek_offset
    }

    /// The entry's decompressed size, as the archive's central directory
    /// records it — independent of any buffered bytes.
    pub fn size(&self) -> (r: u64)
        ensures
            r as int == self.entry_size_spec(),
    {
        self.entry_size
    }

    /// Moves the logical offset without touching the stream: absolute for
    /// `Start`, size-relative for `End`, offset-relative for `Current`. The
    /// window empties either way, so the next read re-derives content. A
    /// target that is negative or too large for the offset to hold is
    /// reported and leaves the offset where it was.
    pub fn seek(&mut self, pos: SeekFrom) -> (r: FsResult<u64>)
        requires
            old(self).wf(),
        ensures
            final(self).wf(),
            Self::same_entry(old(self), final(self)),
            final(self).io_spec().buf() == old(self).io_spec().buf(),
            final(self).io_spec().filled() == 0,
            final(self).io_spec().pos() == 0,
            ({
                let t = seek_target(old(self).offset_spec(), old(self).entry_size_spec(), pos);
                &&& (r is Ok <==> 0 <= t <= i64::MAX)
                &&& (r matches Ok(off) ==> final(self).offset_spec() == t && off as int == t)
                &&& (r matches Err(e) ==> final(self).offset_spec() == old(self).offset_spec() && (
                e matches FsError::Generic(m) && m@ == invalid_seek_message()))
            }),
    {
        self.io.reset();
        let t: i128 = match pos {
            SeekFrom::Start(p) => p as i128,
            SeekFrom::End(d) => self.entry_size as i128 + d as i128,
            SeekFrom::Current(d) => self.seek_offset as i128 + d as i128,
        };
        if t < 0 || t > i64::MAX as i128 {
            return Err(FsError::Generic(String::from_str("Invalid seek offset")));
        }
        self.seek_offset = t as i64;
        Ok(t as u64)
    }

    /// True when the window is exhausted, so the next read must fill.
    pub fn needs_fill(&self) -> (r: bool)
        ensures
            r == (self.io_spec().pos() >= self.io_spec().filled()),
    {
        self.io.needs_fill()
    }

    /// The allocated buffer length: how many bytes one fill reads at most.
    pub fn buffer_len(&self) -> (n: usize)
        ensures
            n == self.io_spec().buf().len(),
    {
        self.io.buffer_len()
    }

    /// How many bytes the next fill should read: a whole buffer, or what
    /// remains of the entry past the current offset, whichever is less.
    pub fn fill_count(&self) -> (n: usize)
        requires
            self.wf(),
        ensures
            n == min(
                self.io_spec().buf().len() as int,
                if self.offset_spec() < self.entry_size_spec() {
                    self.entry_size_spec() - self.offset_spec()
                } else {
                    0
                },
            ),
    {
        let remaining: u64 = if (self.seek_offset as u64) < self.entry_size {
            self.entry_size - (self.seek_offset as u64)
        } else {
            0
        };
        let want = self.io.buffer_len();
        if (want as u64) < remaining {
            want
        } else {
            remaining as usize
        }
    }

    /// Records a fill: `data` holds the bytes read from the entry at the
    /// current offset. They become the new window, and the offset advances
    /// past them, as the forward-only stream does.
    pub fn apply_fill(&mut self, data: &[u8])
        requires
            old(self).wf(),
            data@.len() <= old(self).io_spec().buf().len(),
            old(self).offset_spec() + data@.len() <= i64::MAX,
        ensures
            final(self).wf(),
            Self::same_entry(old(self), final(self)),
            final(self).io_spec().buf() == data@ + old(self).io_spec().buf().skip(
                data@.len() as int,
            ),
            final(self).io_spec().filled() == data@.len(),
            final(self).io_spec().pos() == 0,
            final(self).offset_spec() == old(self).offset_spec() + data@.len(),
    {
        self.io.apply_fill(data);
        self.seek_offset = self.seek_offset + (data.len() as i64);
    }

    /// Serves up to `max` bytes out of the window, advancing the cursor.
    /// When the window is exhausted it serves none, and the caller fills
    /// first.
    pub fn read(&mut self, max: usize) -> (out: Vec<u8>)
        requires
            old(self).wf(),
        ensures
            final(self).wf(),
            Self::same_entry(old(self), final(self)),
            out@.len() == min(
                old(self).io_spec().filled() - old(self).io_spec().pos(),
                max as int,
            ),
            out@ == old(self).io_spec().buf().subrange(
                old(self).io_spec().pos(),
                old(self).io_spec().pos() + out@.len(),
            ),
            final(self).io_spec().pos() == old(self).io_spec().pos() + out@.len(),
            final(self).io_spec().filled() == old(self).io_spec().filled(),
            final(self).io_spec().buf() == old(self).io_spec().buf(),
            final(self).offset_spec() == old(self).offset_spec(),
    {
        self.io.read_into(max)
    }

    /// A copy of the window — the filled bytes not yet consumed — without
    /// moving the cursor.
    pub fn fill_buf(&self) -> (out: Vec<u8>)
        requires
            self.wf(),
        ensures
            out@ == self.io_spec().window(),
    {
        self.io.window_bytes()
    }

    /// Moves the cursor forward by `amt`, saturating at the end of the
    /// filled region.
    pub fn consume(&mut self, amt: usize)
        requires
            old(self).wf(),
        ensures
            final(self).wf(),
            Self::same_entry(old(self), final(self)),
            final(self).io_spec().pos() == min(
                old(self).io_spec().pos() + amt,
                old(self).io_spec().filled(),
            ),
            final(self).io_spec().filled() == old(self).io_spec().filled(),
            final(self).io_spec().buf() == old(self).io_spec().buf(),
            final(self).offset_spec() == old(self).offset_spec(),
    {
        self.io.consume(amt)
    }

    /// Archive entries are read-only: writing is reported as unsupported and
    /// changes nothing.
    pub fn write(&mut self, _data: &[u8]) -> (r: FsResult<usize>)
        ensures
            *final(self) == *old(self),
            (r matches Err(FsError::Generic(m)) && m@ == crate::unsupported_message()),
    {
        Err(FsError::Generic(String::from_str("unsupported operation")))
    }

    /// Archive entries are read-only: flushing is reported as unsupported
    /// and changes nothing.
    pub fn flush(&mut self) -> (r: FsResult)
        ensures
            *final(self) == *old(self),
            (r matches Err(FsError::Generic(m)) && m@ == crate::unsupported_message()),
    {
        Err(FsError::Generic(String::from_str("unsupported operation")))
    }

    /// Archive entries are read-only: renaming is reported as unsupported
    /// and changes nothing.
    pub fn rename(&mut self, _new_name: &str) -> (r: FsResult)
        ensures
            *final(self) == *old(self),
            (r matches Err(FsError::Generic(m)) && m@ == crate::unsupported_message()),
    {
        Err(FsError::Generic(String::from_str("unsupported operation")))
    }

    /// An archive entry needs no opening: the shared archive is already
    /// open, so this succeeds and changes nothing.
    pub fn open(&mut self) -> (r: FsResult)
        ensures
            *final(self) == *old(self),
            r is Ok,
    {
        Ok(())
    }

    /// An archive entry always counts as open.
    pub fn is_open(&self) -> (r: bool)
        ensures
            r == true,
    {
        true
    }

    /// Closing an archive entry changes nothing: the shared archive stays
    /// open for its siblings.
    pub fn close(&mut self)
        ensures
            *final(self) == *old(self),
    {
    }

    /// Resizes the allocated buffer: a longer buffer keeps its content and
    /// pads with zero bytes, a shorter one keeps its prefix.
    pub fn set_buffer_size(&mut self, size: usize)
        requires
            old(self).wf(),
        ensures
            final(self).wf(),
            Self::same_entry(old(self), final(self)),
            final(self).io_spec().buf().len() == size,
            final(self).io_spec().filled() == min(old(self).io_spec().filled(), size as int),
            final(self).io_spec().pos() == min(old(self).io_spec().pos(), size as int),
            final(self).offset_spec() == old(self).offset_spec(),
    {
        self.io.resize(size)
    }
}

impl FilesystemObjectRaw for ZipFile {
    closed spec fn name_view(&self) -> Seq<char> {
        self.name@
    }

    closed spec fn self_handle(&self) -> int {
        self.handle as int
    }

    closed spec fn parent_view(&self) -> Option<usize> {
        Some(self.parent)
    }

    fn get(&self) -> (h: usize) {
        self.handle
    }

    fn name(&self) -> (r: &str) {
        self.name.as_str()
    }

    fn get_parent(&self) -> (p: Option<usize>) {
        Some(self.parent)
    }
}

} // verus!
