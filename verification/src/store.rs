//! The node store: one authoritative arena owning every node, addressed by
//! stable integer handles.
//!
//! A parent directory's cache stores child handles; a child stores its
//! parent's handle; every node records its own handle at construction. All
//! handles are non-owning lookups into this one store, so the parent–child
//! mutual references form no ownership cycle.
//!
//! Well-formedness ([`NodeStore::wf`]) ties the arena together: every node
//! sits at the handle it records, a parent always precedes its children in
//! the arena, and a directory's cache entries name exactly the nodes they
//! point at.

use vstd::prelude::*;
use vstd::string::StringExecFns;

use crate::archive::{ZipDirectory, ZipFile};
use crate::cache;
use crate::path::{join_spec, joined_path};
use crate::physical::{PhysicalDirectory, PhysicalFile};
use crate::window::BufWindow;
use crate::{FilesystemObject, FilesystemObjectRaw};

verus! {

/// One node of the arena: a file or directory of either backend.
pub enum Node {
    PhysicalDirectory(PhysicalDirectory),
    PhysicalFile(PhysicalFile),
    ZipDirectory(ZipDirectory),
    ZipFile(ZipFile),
}

impl Node {
    /// The node's name, one path segment.
    pub open spec fn name_view(&self) -> Seq<char> {
        match self {
            Node::PhysicalDirectory(d) => d.name_view(),
            Node::PhysicalFile(f) => f.name_view(),
            Node::ZipDirectory(d) => d.name_view(),
            Node::ZipFile(f) => f.name_view(),
        }
    }

    /// The handle of the enclosing directory; absent only for a root.
    pub open spec fn parent_view(&self) -> Option<usize> {
        match self {
            Node::PhysicalDirectory(d) => d.parent_view(),
            Node::PhysicalFile(f) => f.parent_view(),
            Node::ZipDirectory(d) => d.parent_view(),
            Node::ZipFile(f) => f.parent_view(),
        }
    }

    /// The handle the node recorded for itself at construction.
    pub open spec fn self_handle(&self) -> int {
        match self {
            Node::PhysicalDirectory(d) => d.self_handle(),
            Node::PhysicalFile(f) => f.self_handle(),
            Node::ZipDirectory(d) => d.self_handle(),
            Node::ZipFile(f) => f.self_handle(),
        }
    }

    /// Whether the node is a directory of either backend.
    pub open spec fn is_directory(&self) -> bool {
        self is PhysicalDirectory || self is ZipDirectory
    }

    /// A directory's cached children; empty for files.
    pub open spec fn children_seq(&self) -> Seq<(String, FilesystemObject)> {
        match self {
            Node::PhysicalDirectory(d) => d.children_seq(),
            Node::ZipDirectory(d) => d.children_seq(),
            Node::PhysicalFile(_) => Seq::empty(),
            Node::ZipFile(_) => Seq::empty(),
        }
    }

    /// Whether a directory's backend listing has been consulted; files count
    /// as never scanned.
    pub open spec fn scanned_spec(&self) -> bool {
        match self {
            Node::PhysicalDirectory(d) => d.scanned_spec(),
            Node::ZipDirectory(d) => d.scanned_spec(),
            Node::PhysicalFile(_) => false,
            Node::ZipFile(_) => false,
        }
    }

    /// The node's own well-formedness: unique child names for a directory, a
    /// well-formed buffer window (and non-negative offset) for a file.
    pub open spec fn wf_local(&self) -> bool {
        match self {
            Node::PhysicalDirectory(d) => d.wf(),
            Node::PhysicalFile(f) => f.wf(),
            Node::ZipDirectory(d) => d.wf(),
            Node::ZipFile(f) => f.wf(),
        }
    }

    /// The node's name.
    pub fn name_str(&self) -> (r: &str)
        ensures
            r@ == self.name_view(),
    {
        match self {
            Node::PhysicalDirectory(d) => d.name(),
            Node::PhysicalFile(f) => f.name(),
            Node::ZipDirectory(d) => d.name(),
            Node::ZipFile(f) => f.name(),
        }
    }

    /// The handle of the enclosing directory; absent only for a root.
    pub fn parent_handle(&self) -> (p: Option<usize>)
        ensures
            p == self.parent_view(),
    {
        match self {
            Node::PhysicalDirectory(d) => d.get_parent(),
            Node::PhysicalFile(f) => f.get_parent(),
            Node::ZipDirectory(d) => d.get_parent(),
            Node::ZipFile(f) => f.get_parent(),
        }
    }

    /// The handle the node recorded for itself at construction.
    pub fn get(&self) -> (h: usize)
        ensures
            h as int == self.self_handle(),
    {
        match self {
            Node::PhysicalDirectory(d) => d.get(),
            Node::PhysicalFile(f) => f.get(),
            Node::ZipDirectory(d) => d.get(),
            Node::ZipFile(f) => f.get(),
        }
    }

    /// Whether the node is a directory of either backend.
    pub fn is_dir(&self) -> (r: bool)
        ensures
            r == self.is_directory(),
    {
        match self {
            Node::PhysicalDirectory(_) => true,
            Node::ZipDirectory(_) => true,
            Node::PhysicalFile(_) => false,
            Node::ZipFile(_) => false,
        }
    }
}

/// The arena of nodes. Handles are indices into it; a node, once created,
/// keeps its handle for its lifetime.
pub struct NodeStore {
    nodes: Vec<Node>,
}

impl NodeStore {
    /// The nodes, by handle.
    pub closed spec fn nodes_seq(&self) -> Seq<Node> {
        self.nodes@
    }

    /// How many nodes the arena holds.
    pub open spec fn node_count(&self) -> int {
        self.nodes_seq().len() as int
    }

    /// Whether `h` addresses a node.
    pub open spec fn valid_handle(&self, h: int) -> bool {
        0 <= h < self.node_count()
    }

    /// The node at handle `h`.
    pub open spec fn node_at(&self, h: int) -> Node {
        self.nodes_seq()[h]
    }

    /// A cache entry of the directory at `i` points at a node of this arena
    /// whose name, parent and kind agree with the entry.
    pub open spec fn child_entry_ok(&self, i: int, entry: (String, FilesystemObject)) -> bool {
        let c = entry.1.handle_spec();
        &&& 0 <= c < self.node_count()
        &&& self.node_at(c).parent_view() == Some(i as usize)
        &&& self.node_at(c).name_view() == entry.0@
        &&& (entry.1 is Directory <==> self.node_at(c).is_directory())
    }

    /// Every cache entry of the directory at `i` points at a node of this
    /// arena whose name, parent and kind agree with the entry.
    pub open spec fn children_ok(&self, i: int) -> bool {
        let ch = self.node_at(i).children_seq();
        forall|j: int| 0 <= j < ch.len() ==> self.child_entry_ok(i, #[trigger] ch[j])
    }

    /// Well-formedness of the node at `i` within the arena: it records the
    /// handle it sits at, its parent precedes it and is a directory, and its
    /// cache entries agree with the nodes they point at.
    pub open spec fn wf_at(&self, i: int) -> bool {
        let n = self.node_at(i);
        &&& n.self_handle() == i
        &&& n.wf_local()
        &&& match n.parent_view() {
            Some(p) => p < i && self.node_at(p as int).is_directory(),
            None => true,
        }
        &&& (n.is_directory() ==> self.children_ok(i))
    }

    /// Well-formedness of the whole arena.
    pub open spec fn wf(&self) -> bool {
        forall|i: int| 0 <= i < self.node_count() ==> #[trigger] self.wf_at(i)
    }

    /// An empty arena.
    pub fn new() -> (s: NodeStore)
        ensures
            s.wf(),
            s.node_count() == 0,
    {
        NodeStore { nodes: Vec::new() }
    }

    /// How many nodes the arena holds.
    pub fn len(&self) -> (n: usize)
        ensures
            n as int == self.node_count(),
    {
        self.nodes.len()
    }

    /// The node at handle `h`.
    pub fn node(&self, h: usize) -> (n: &Node)
        requires
            self.valid_handle(h as int),
        ensures
            *n == self.node_at(h as int),
    {
        &self.nodes[h]
    }

    /// The names along the parent chain of the node at `i`, root first, the
    /// node's own name last.
    pub open spec fn ancestor_names(&self, i: int) -> Seq<Seq<char>>
        decreases i,
    {
        match self.node_at(i).parent_view() {
            None => seq![self.node_at(i).name_view()],
            Some(p) => if 0 <= p < i {
                self.ancestor_names(p as int).push(self.node_at(i).name_view())
            } else {
                seq![]
            },
        }
    }

    /// The full path of the node at `i`: its parent's full path joined with
    /// its own name; a root's name stands alone.
    pub open spec fn full_path_spec(&self, i: int) -> Seq<char>
        decreases i,
    {
        match self.node_at(i).parent_view() {
            None => self.node_at(i).name_view(),
            Some(p) => if 0 <= p < i {
                join_spec(self.full_path_spec(p as int), self.node_at(i).name_view())
            } else {
                Seq::empty()
            },
        }
    }

    /// A node's full path is the ordered join of its ancestors' names
    /// followed by its own, root first.
    pub proof fn lemma_full_path_is_joined_ancestors(&self, i: int)
        requires
            self.wf(),
            self.valid_handle(i),
        ensures
            self.full_path_spec(i) == joined_path(self.ancestor_names(i)),
        decreases i,
    {
        assert(self.wf_at(i));
        match self.node_at(i).parent_view() {
            None => {
                assert(joined_path(seq![self.node_at(i).name_view()]) == self.node_at(
                    i,
                ).name_view());
            },
            Some(p) => {
                self.lemma_full_path_is_joined_ancestors(p as int);
                let names = self.ancestor_names(p as int);
                assert(names.len() > 0) by {
                    self.lemma_ancestor_names_nonempty(p as int);
                }
                let pushed = names.push(self.node_at(i).name_view());
                assert(pushed.drop_last() =~= names);
                assert(pushed.last() == self.node_at(i).name_view());
            },
        }
    }

    /// A valid node has at least its own name in its ancestor chain.
    pub proof fn lemma_ancestor_names_nonempty(&self, i: int)
        requires
            self.wf(),
            self.valid_handle(i),
        ensures
            self.ancestor_names(i).len() >= 1,
            self.ancestor_names(i).last() == self.node_at(i).name_view(),
        decreases i,
    {
        assert(self.wf_at(i));
    }

    /// Resolves the full path of the node at `h` by walking parent handles
    /// up to a root, joining one name per ancestor.
    pub fn get_full_path(&self, h: usize) -> (r: String)
        requires
            self.wf(),
            self.valid_handle(h as int),
        ensures
            r@ == self.full_path_spec(h as int),
        decreases h,
    {
        proof {
            assert(self.wf_at(h as int));
        }
        let node = &self.nodes[h];
        match node.parent_handle() {
            None => String::from_str(node.name_str()),
            Some(p) => {
                let parent_path = self.get_full_path(p);
                crate::path::join(parent_path.as_str(), node.name_str())
            },
        }
    }
}

/// The open archive containers, one per attached archive. Every archive file
/// node under the same attached archive reads through the one shared value
/// here: the container only decodes one entry at a time, so sibling reads
/// serialize through it.
pub struct ArchiveStore {
    archives: Vec<zip::ZipArchive<std::io::Cursor<Vec<u8>>>>,
}

impl ArchiveStore {
    /// The open archives, by index.
    pub closed spec fn archives_seq(&self) -> Seq<zip::ZipArchive<std::io::Cursor<Vec<u8>>>> {
        self.archives@
    }

    /// How many archives are attached.
    pub open spec fn archive_count(&self) -> int {
        self.archives_seq().len() as int
    }

    /// The entries of the archive at `k`.
    pub open spec fn entries_at(&self, k: int) -> Seq<(Seq<char>, Seq<u8>)> {
        crate::zip_api::archive_entries(self.archives_seq()[k])
    }

    /// No archive attached yet.
    pub fn new() -> (s: ArchiveStore)
        ensures
            s.archive_count() == 0,
    {
        ArchiveStore { archives: Vec::new() }
    }

    /// How many archives are attached.
    pub fn len(&self) -> (n: usize)
        ensures
            n as int == self.archive_count(),
    {
        self.archives.len()
    }
}

/// The entry sets of two archive stores agree position for position; reads
/// move only the underlying readers, never an entry set.
pub open spec fn same_archive_entries(pre: ArchiveStore, post: ArchiveStore) -> bool {
    &&& post.archive_count() == pre.archive_count()
    &&& forall|k: int| 0 <= k < pre.archive_count() ==> post.entries_at(k) == pre.entries_at(k)
}

/// A name names a directory-like archive entry: it ends with the entry
/// separator.
pub open spec fn dir_like(name: Seq<char>) -> bool {
    name.len() > 0 && name.last() == '/'
}

/// The text carried by the error reported when an archive node points past
/// the attached archives.
pub open spec fn detached_archive_message() -> Seq<char> {
    "archive is not attached"@
}

/// Whether a name names a directory-like archive entry: a trailing entry
/// separator.
fn name_dir_like(name: &str) -> (r: bool)
    ensures
        r == dir_like(name@),
{
    let n = vstd::string::StrSliceExecFns::unicode_len(name);
    if n == 0 {
        false
    } else {
        vstd::string::StrSliceExecFns::get_char(name, n - 1) == '/'
    }
}

/// A cache entry a scan of an archive directory creates: it points at a
/// fresh archive file node for the entry at `k` of the archive's entry set.
pub open spec fn fresh_zip_entry(
    post: NodeStore,
    d: int,
    first_new: int,
    entries: Seq<(Seq<char>, Seq<u8>)>,
    entry: (String, FilesystemObject),
) -> bool {
    let c = entry.1.handle_spec();
    &&& entry.1 is File
    &&& first_new <= c < post.node_count()
    &&& exists|k: int|
        0 <= k < entries.len() && fresh_zip_file_node(
            post.node_at(c),
            entries,
            k,
            d as usize,
            512,
            c,
        ) && entry.0@ == entries[k].0
}

/// What a refilling read serves from an archive entry: the window is
/// reloaded with one chunk of the entry's content at the file's logical
/// offset — a whole buffer, or what remains of the entry, whichever is less —
/// the offset advances past the chunk, and up to `max` bytes of it are
/// served.
pub open spec fn zip_read_refill(
    f: crate::archive::ZipFile,
    g: crate::archive::ZipFile,
    entries: Seq<(Seq<char>, Seq<u8>)>,
    out: Seq<u8>,
    max: int,
) -> bool {
    let idx = f.file_index_spec();
    let size = entries[idx].1.len() as int;
    let off = f.offset_spec();
    let cnt = vstd::math::min(
        f.io_spec().buf().len() as int,
        if off < size {
            size - off
        } else {
            0
        },
    );
    let served = vstd::math::min(cnt, max);
    &&& 0 <= idx < entries.len()
    &&& out.len() == served
    &&& (cnt > 0 ==> out == entries[idx].1.subrange(off, off + served))
    &&& g.offset_spec() == off + cnt
    &&& g.io_spec().filled() == cnt
    &&& g.io_spec().pos() == served
}

/// Non-interference of archive reads. All entries of one archive read
/// through one shared container value, so reads of sibling entries
/// serialize — yet what a refilling read serves depends only on the entry
/// read: its index, its size and its content. Two reads of distinct entries
/// therefore each return a slice of their own entry's content, never a mix.
pub proof fn lemma_reads_of_distinct_entries_not_interleaved(
    f1: crate::archive::ZipFile,
    g1: crate::archive::ZipFile,
    f2: crate::archive::ZipFile,
    g2: crate::archive::ZipFile,
    entries: Seq<(Seq<char>, Seq<u8>)>,
    out1: Seq<u8>,
    out2: Seq<u8>,
    max1: int,
    max2: int,
)
    requires
        zip_read_refill(f1, g1, entries, out1, max1),
        zip_read_refill(f2, g2, entries, out2, max2),
        f1.file_index_spec() != f2.file_index_spec(),
    ensures
        out1.len() > 0 ==> out1 == entries[f1.file_index_spec()].1.subrange(
            f1.offset_spec(),
            f1.offset_spec() + out1.len(),
        ),
        out2.len() > 0 ==> out2 == entries[f2.file_index_spec()].1.subrange(
            f2.offset_spec(),
            f2.offset_spec() + out2.len(),
        ),
{
}

/// An archive file node as construction leaves it: the entry at `k`, named
/// as the entry, parented, with the entry's decompressed size recorded, a
/// zeroed buffer of `buffer_size` bytes, an empty window and offset zero.
pub open spec fn fresh_zip_file_node(
    n: Node,
    entries: Seq<(Seq<char>, Seq<u8>)>,
    k: int,
    parent: usize,
    buffer_size: int,
    c: int,
) -> bool {
    match n {
        Node::ZipFile(f) => {
            &&& f.name_view() == entries[k].0
            &&& f.parent_view() == Some(parent)
            &&& f.self_handle() == c
            &&& f.file_index_spec() == k
            &&& f.entry_size_spec() == entries[k].1.len()
            &&& f.offset_spec() == 0
            &&& f.io_spec().buf() == Seq::new(buffer_size as nat, |i: int| 0u8)
            &&& f.io_spec().filled() == 0
            &&& f.io_spec().pos() == 0
        },
        _ => false,
    }
}

/// Replacing the node at `h` by one with the same name, parent, handle, kind
/// and children keeps the arena well formed.
pub proof fn lemma_wf_node_replaced(pre: NodeStore, post: NodeStore, h: int)
    requires
        pre.wf(),
        0 <= h < pre.node_count(),
        post.node_count() == pre.node_count(),
        forall|i: int|
            0 <= i < pre.node_count() && i != h ==> post.nodes_seq()[i] == pre.nodes_seq()[i],
        post.node_at(h).wf_local(),
        post.node_at(h).self_handle() == pre.node_at(h).self_handle(),
        post.node_at(h).name_view() == pre.node_at(h).name_view(),
        post.node_at(h).parent_view() == pre.node_at(h).parent_view(),
        post.node_at(h).is_directory() == pre.node_at(h).is_directory(),
        post.node_at(h).children_seq() == pre.node_at(h).children_seq(),
    ensures
        post.wf(),
{
    assert forall|i: int| 0 <= i < post.node_count() implies post.wf_at(i) by {
        assert(pre.wf_at(i));
        if post.node_at(i).is_directory() {
            let ch = post.node_at(i).children_seq();
            assert(ch == pre.node_at(i).children_seq());
            assert forall|j: int| 0 <= j < ch.len() implies post.child_entry_ok(
                i,
                #[trigger] ch[j],
            ) by {
                assert(pre.child_entry_ok(i, ch[j]));
            }
        }
    }
}

/// Appending one node whose recorded handle is its index, whose parent (if
/// any) is an existing directory, and whose own cache is empty keeps the
/// arena well formed.
pub proof fn lemma_wf_append(pre: NodeStore, post: NodeStore)
    requires
        pre.wf(),
        post.node_count() == pre.node_count() + 1,
        forall|i: int| 0 <= i < pre.node_count() ==> post.nodes_seq()[i] == pre.nodes_seq()[i],
        ({
            let n = post.node_at(pre.node_count());
            &&& n.wf_local()
            &&& n.self_handle() == pre.node_count()
            &&& n.children_seq().len() == 0
            &&& match n.parent_view() {
                Some(p) => p < pre.node_count() && pre.node_at(p as int).is_directory(),
                None => true,
            }
        }),
    ensures
        post.wf(),
{
    assert forall|i: int| 0 <= i < post.node_count() implies post.wf_at(i) by {
        if i < pre.node_count() {
            assert(pre.wf_at(i));
            if post.node_at(i).is_directory() {
                let ch = post.node_at(i).children_seq();
                assert forall|j: int| 0 <= j < ch.len() implies post.child_entry_ok(
                    i,
                    #[trigger] ch[j],
                ) by {
                    assert(pre.child_entry_ok(i, ch[j]));
                }
            }
        }
    }
}

/// Re-filing the children of the directory at `d` keeps the arena well
/// formed, as long as every entry of the new cache either stood in the old
/// one or correctly describes the node it points at.
pub proof fn lemma_wf_children_updated(pre: NodeStore, post: NodeStore, d: int)
    requires
        pre.wf(),
        0 <= d < pre.node_count(),
        post.node_count() == pre.node_count(),
        forall|i: int|
            0 <= i < pre.node_count() && i != d ==> post.nodes_seq()[i] == pre.nodes_seq()[i],
        post.node_at(d).wf_local(),
        post.node_at(d).self_handle() == pre.node_at(d).self_handle(),
        post.node_at(d).name_view() == pre.node_at(d).name_view(),
        post.node_at(d).parent_view() == pre.node_at(d).parent_view(),
        post.node_at(d).is_directory() == pre.node_at(d).is_directory(),
        forall|j: int|
            0 <= j < post.node_at(d).children_seq().len() ==> {
                let e = #[trigger] post.node_at(d).children_seq()[j];
                (exists|k: int|
                    0 <= k < pre.node_at(d).children_seq().len() && e == pre.node_at(
                        d,
                    ).children_seq()[k]) || post.child_entry_ok(d, e)
            },
    ensures
        post.wf(),
{
    assert forall|i: int| 0 <= i < post.node_count() implies post.wf_at(i) by {
        assert(pre.wf_at(i));
        if i != d && post.node_at(i).is_directory() {
            let ch = post.node_at(i).children_seq();
            assert(ch == pre.node_at(i).children_seq());
            assert forall|j: int| 0 <= j < ch.len() implies post.child_entry_ok(
                i,
                #[trigger] ch[j],
            ) by {
                assert(pre.child_entry_ok(i, ch[j]));
            }
        }
        if i == d {
            let ch = post.node_at(d).children_seq();
            assert forall|j: int| 0 <= j < ch.len() implies post.child_entry_ok(
                d,
                #[trigger] ch[j],
            ) by {
                if exists|k: int|
                    0 <= k < pre.node_at(d).children_seq().len() && ch[j] == pre.node_at(
                        d,
                    ).children_seq()[k] {
                    let k = choose|k: int|
                        0 <= k < pre.node_at(d).children_seq().len() && ch[j] == pre.node_at(
                            d,
                        ).children_seq()[k];
                    assert(pre.child_entry_ok(d, pre.node_at(d).children_seq()[k]));
                }
            }
        }
    }
}

/// What a read serves out of a buffer window: up to `max` bytes from the
/// window's front, the cursor advancing past them; buffer and filled count
/// stay.
pub open spec fn served_from_window(
    pre: BufWindow,
    post: BufWindow,
    r: crate::FsResult<Vec<u8>>,
    max: int,
) -> bool {
    &&& r is Ok
    &&& {
        let out = r->Ok_0@;
        &&& out.len() == vstd::math::min(pre.filled() - pre.pos(), max)
        &&& out == pre.buf().subrange(pre.pos(), pre.pos() + out.len())
        &&& post.pos() == pre.pos() + out.len()
        &&& post.filled() == pre.filled()
        &&& post.buf() == pre.buf()
    }
}

/// A directory node as construction leaves it: named, parented, with an
/// empty, unscanned cache.
pub open spec fn fresh_dir_node(n: Node, name: Seq<char>, parent: Option<usize>, c: int) -> bool {
    &&& n is PhysicalDirectory
    &&& n.name_view() == name
    &&& n.parent_view() == parent
    &&& n.self_handle() == c
    &&& n.children_seq().len() == 0
    &&& !n.scanned_spec()
}

/// A physical file node as construction leaves it: named, parented, closed,
/// with a zeroed buffer of the asked-for size and an empty window.
pub open spec fn fresh_file_node(
    n: Node,
    name: Seq<char>,
    parent: usize,
    buffer_size: int,
    c: int,
) -> bool {
    match n {
        Node::PhysicalFile(f) => {
            &&& f.name_view() == name
            &&& f.parent_view() == Some(parent)
            &&& f.self_handle() == c
            &&& !f.opened_spec()
            &&& f.io_spec().buf() == Seq::new(buffer_size as nat, |i: int| 0u8)
            &&& f.io_spec().filled() == 0
            &&& f.io_spec().pos() == 0
        },
        _ => false,
    }
}

/// A cache entry created by a scan: it points at a node that scan appended —
/// a directory or file child of `d` (handles from `first_new` up), named as
/// the entry, in the state construction leaves it in. A file child starts
/// with a zero-length buffer: the first fill sizes it to the backend file's
/// byte length.
pub open spec fn fresh_scan_entry(
    post: NodeStore,
    d: int,
    first_new: int,
    entry: (String, FilesystemObject),
) -> bool {
    let c = entry.1.handle_spec();
    &&& first_new <= c < post.node_count()
    &&& if entry.1 is Directory {
        fresh_dir_node(post.node_at(c), entry.0@, Some(d as usize), c)
    } else {
        fresh_file_node(post.node_at(c), entry.0@, d as usize, 0, c)
    }
}

/// How one insertion changes a directory's cache: an entry already carrying
/// the name is replaced in place by `(name, obj)`, else the cache grows by
/// that entry at its end.
pub open spec fn cache_after_insert(
    ch0: Seq<(String, FilesystemObject)>,
    ch1: Seq<(String, FilesystemObject)>,
    name: Seq<char>,
    obj: FilesystemObject,
) -> bool {
    if cache::has_key(ch0, name) {
        exists|j: int|
            0 <= j < ch0.len() && ch0[j].0@ == name && ch1.len() == ch0.len() && (#[trigger] ch1[j]).0@
                == name && ch1[j].1 == obj && (forall|k: int|
                0 <= k < ch0.len() && k != j ==> ch1[k] == ch0[k])
    } else {
        ch1.len() == ch0.len() + 1 && ch1.take(ch0.len() as int) == ch0 && ch1.last().0@ == name
            && ch1.last().1 == obj
    }
}

impl NodeStore {
    /// Creates a root directory node — one with no parent — and returns its
    /// handle.
    pub fn new_root(&mut self, name: &str) -> (h: usize)
        requires
            old(self).wf(),
        ensures
            final(self).wf(),
            h as int == old(self).node_count(),
            final(self).node_count() == old(self).node_count() + 1,
            forall|i: int|
                0 <= i < old(self).node_count() ==> final(self).node_at(i) == old(self).node_at(i),
            fresh_dir_node(final(self).node_at(h as int), name@, None, h as int),
    {
        let h = self.nodes.len();
        let d = PhysicalDirectory::new(name, None, h);
        self.nodes.push(Node::PhysicalDirectory(d));
        proof {
            lemma_wf_append(*old(self), *self);
        }
        h
    }

    /// Creates a new subdirectory under the directory at `h`, registers it
    /// in the cache (replacing an entry of the same name, as the backend
    /// listing would), and returns its shared reference. On a node that is
    /// not a directory nothing changes and the path is reported.
    pub fn new_dir(&mut self, h: usize, name: &str) -> (r: crate::FsResult<FilesystemObject>)
        requires
            old(self).wf(),
            old(self).valid_handle(h as int),
        ensures
            final(self).wf(),
            !old(self).node_at(h as int).is_directory() ==> *final(self) == *old(self) && (
            r matches Err(crate::FsError::NotADirectory(p)) && p@ == old(self).full_path_spec(
                h as int,
            )),
            old(self).node_at(h as int) is ZipDirectory ==> *final(self) == *old(self) && (
            r matches Err(crate::FsError::Generic(m)) && m@ == crate::unsupported_message()),
            old(self).node_at(h as int) is PhysicalDirectory ==> {
                let c = old(self).node_count();
                &&& r == crate::FsResult::<FilesystemObject>::Ok(
                    FilesystemObject::Directory(c as usize),
                )
                &&& final(self).node_count() == c + 1
                &&& forall|i: int|
                    0 <= i < c && i != h as int ==> final(self).node_at(i) == old(self).node_at(i)
                &&& fresh_dir_node(final(self).node_at(c), name@, Some(h), c)
                &&& final(self).node_at(h as int).name_view() == old(self).node_at(
                    h as int,
                ).name_view()
                &&& final(self).node_at(h as int).parent_view() == old(self).node_at(
                    h as int,
                ).parent_view()
                &&& final(self).node_at(h as int).is_directory()
                &&& final(self).node_at(h as int).scanned_spec() == old(self).node_at(
                    h as int,
                ).scanned_spec()
                &&& cache_after_insert(
                    old(self).node_at(h as int).children_seq(),
                    final(self).node_at(h as int).children_seq(),
                    name@,
                    FilesystemObject::Directory(c as usize),
                )
            },
    {
        match self.node(h) {
            Node::PhysicalDirectory(_) => {},
            Node::ZipDirectory(_) => {
                return Err(crate::FsError::Generic(String::from_str("unsupported operation")));
            },
            _ => {
                let fp = self.get_full_path(h);
                return Err(crate::FsError::NotADirectory(fp));
            },
        }
        let c = self.nodes.len();
        let d = PhysicalDirectory::new(name, Some(h), c);
        self.nodes.push(Node::PhysicalDirectory(d));
        proof {
            lemma_wf_append(*old(self), *self);
        }
        let ghost mid = *self;
        proof {
            assert(self.wf_at(h as int));
        }
        let obj = FilesystemObject::Directory(c);
        let key = String::from_str(name);
        match &mut self.nodes[h] {
            Node::PhysicalDirectory(dd) => dd.insert_child(key, obj),
            _ => vstd::pervasive::unreached(),
        }
        proof {
            Self::lemma_insert_entries_ok(mid, *self, h as int, name@, obj);
            lemma_wf_children_updated(mid, *self, h as int);
        }
        Ok(obj)
    }

    /// Creates a new file under the directory at `h` with the given buffer
    /// size, registers it in the cache (replacing an entry of the same
    /// name), and returns its shared reference. On a node that is not a
    /// directory nothing changes and the path is reported.
    pub fn new_file(&mut self, h: usize, name: &str, buffer_size: usize) -> (r: crate::FsResult<
        FilesystemObject,
    >)
        requires
            old(self).wf(),
            old(self).valid_handle(h as int),
        ensures
            final(self).wf(),
            !old(self).node_at(h as int).is_directory() ==> *final(self) == *old(self) && (
            r matches Err(crate::FsError::NotADirectory(p)) && p@ == old(self).full_path_spec(
                h as int,
            )),
            old(self).node_at(h as int) is ZipDirectory ==> *final(self) == *old(self) && (
            r matches Err(crate::FsError::Generic(m)) && m@ == crate::unsupported_message()),
            old(self).node_at(h as int) is PhysicalDirectory ==> {
                let c = old(self).node_count();
                &&& r == crate::FsResult::<FilesystemObject>::Ok(FilesystemObject::File(c as usize))
                &&& final(self).node_count() == c + 1
                &&& forall|i: int|
                    0 <= i < c && i != h as int ==> final(self).node_at(i) == old(self).node_at(i)
                &&& fresh_file_node(final(self).node_at(c), name@, h, buffer_size as int, c)
                &&& final(self).node_at(h as int).name_view() == old(self).node_at(
                    h as int,
                ).name_view()
                &&& final(self).node_at(h as int).parent_view() == old(self).node_at(
                    h as int,
                ).parent_view()
                &&& final(self).node_at(h as int).is_directory()
                &&& final(self).node_at(h as int).scanned_spec() == old(self).node_at(
                    h as int,
                ).scanned_spec()
                &&& cache_after_insert(
                    old(self).node_at(h as int).children_seq(),
                    final(self).node_at(h as int).children_seq(),
                    name@,
                    FilesystemObject::File(c as usize),
                )
            },
    {
        match self.node(h) {
            Node::PhysicalDirectory(_) => {},
            Node::ZipDirectory(_) => {
                return Err(crate::FsError::Generic(String::from_str("unsupported operation")));
            },
            _ => {
                let fp = self.get_full_path(h);
                return Err(crate::FsError::NotADirectory(fp));
            },
        }
        let c = self.nodes.len();
        let f = PhysicalFile::new(name, h, buffer_size, c);
        self.nodes.push(Node::PhysicalFile(f));
        proof {
            lemma_wf_append(*old(self), *self);
        }
        let ghost mid = *self;
        proof {
            assert(self.wf_at(h as int));
        }
        let obj = FilesystemObject::File(c);
        let key = String::from_str(name);
        match &mut self.nodes[h] {
            Node::PhysicalDirectory(dd) => dd.insert_child(key, obj),
            _ => vstd::pervasive::unreached(),
        }
        proof {
            Self::lemma_insert_entries_ok(mid, *self, h as int, name@, obj);
            lemma_wf_children_updated(mid, *self, h as int);
        }
        Ok(obj)
    }

    /// True when the directory at `h` still needs its backend listing: its
    /// cache is not yet authoritative. The embedding program consults the
    /// backend and hands the listing to [`NodeStore::scan_apply`] exactly
    /// when this holds.
    pub fn needs_scan(&self, h: usize) -> (r: crate::FsResult<bool>)
        requires
            self.wf(),
            self.valid_handle(h as int),
        ensures
            self.node_at(h as int).is_directory() ==> r == crate::FsResult::<bool>::Ok(
                !self.node_at(h as int).scanned_spec(),
            ),
            !self.node_at(h as int).is_directory() ==> (r matches Err(
                crate::FsError::NotADirectory(p),
            ) && p@ == self.full_path_spec(h as int)),
    {
        match self.node(h) {
            Node::PhysicalDirectory(d) => Ok(!d.is_scanned()),
            Node::ZipDirectory(d) => Ok(!d.is_scanned()),
            _ => Err(crate::FsError::NotADirectory(self.get_full_path(h))),
        }
    }

    /// A snapshot of the directory's cached children, in cache order. Once
    /// the directory is scanned the cache is authoritative, so this answers
    /// purely from it.
    pub fn get_children(&self, h: usize) -> (r: crate::FsResult<Vec<FilesystemObject>>)
        requires
            self.wf(),
            self.valid_handle(h as int),
        ensures
            self.node_at(h as int).is_directory() ==> (r matches Ok(v) && v@.len() == self.node_at(
                h as int,
            ).children_seq().len() && (forall|j: int|
                0 <= j < v@.len() ==> v@[j] == self.node_at(h as int).children_seq()[j].1)),
            !self.node_at(h as int).is_directory() ==> (r matches Err(
                crate::FsError::NotADirectory(p),
            ) && p@ == self.full_path_spec(h as int)),
    {
        match self.node(h) {
            Node::PhysicalDirectory(d) => Ok(d.children_objects()),
            Node::ZipDirectory(d) => Ok(d.children_objects()),
            _ => Err(crate::FsError::NotADirectory(self.get_full_path(h))),
        }
    }

    /// The cached child of this name under the directory at `h`. A miss is
    /// reported with the directory's full path and the name that was asked
    /// for.
    pub fn get_child(&self, h: usize, name: &str) -> (r: crate::FsResult<FilesystemObject>)
        requires
            self.wf(),
            self.valid_handle(h as int),
        ensures
            self.node_at(h as int).is_directory() ==> match cache::lookup_seq(
                self.node_at(h as int).children_seq(),
                name@,
            ) {
                Some(o) => r == crate::FsResult::<FilesystemObject>::Ok(o),
                None => (r matches Err(crate::FsError::FileNotPresent(p, n)) && p@
                    == self.full_path_spec(h as int) && n@ == name@),
            },
            self.node_at(h as int).is_directory() ==> (r matches Ok(o) ==> o.handle_spec()
                < self.node_count() && self.node_at(o.handle_spec()).name_view() == name@
                && self.node_at(o.handle_spec()).parent_view() == Some(h) && (o is Directory
                <==> self.node_at(o.handle_spec()).is_directory())),
            !self.node_at(h as int).is_directory() ==> (r matches Err(
                crate::FsError::NotADirectory(p),
            ) && p@ == self.full_path_spec(h as int)),
    {
        let key = String::from_str(name);
        let found = match self.node(h) {
            Node::PhysicalDirectory(d) => d.lookup(&key),
            Node::ZipDirectory(d) => d.lookup(&key),
            _ => {
                return Err(crate::FsError::NotADirectory(self.get_full_path(h)));
            },
        };
        match found {
            Some(o) => {
                proof {
                    assert(self.wf_at(h as int));
                    cache::lemma_lookup_is_entry(self.node_at(h as int).children_seq(), name@);
                    let j = choose|j: int|
                        0 <= j < self.node_at(h as int).children_seq().len() && self.node_at(
                            h as int,
                        ).children_seq()[j].0@ == name@ && self.node_at(h as int).children_seq()[j].1
                            == o;
                    assert(self.child_entry_ok(
                        h as int,
                        self.node_at(h as int).children_seq()[j],
                    ));
                }
                Ok(o)
            },
            None => Err(
                crate::FsError::FileNotPresent(self.get_full_path(h), String::from_str(name)),
            ),
        }
    }

    /// Whether the directory at `h` has a cached child of this name.
    pub fn has_child(&self, h: usize, name: &str) -> (r: crate::FsResult<bool>)
        requires
            self.wf(),
            self.valid_handle(h as int),
        ensures
            self.node_at(h as int).is_directory() ==> r == crate::FsResult::<bool>::Ok(
                cache::has_key(self.node_at(h as int).children_seq(), name@),
            ),
            !self.node_at(h as int).is_directory() ==> (r matches Err(
                crate::FsError::NotADirectory(p),
            ) && p@ == self.full_path_spec(h as int)),
    {
        let key = String::from_str(name);
        match self.node(h) {
            Node::PhysicalDirectory(d) => Ok(d.has_child(&key)),
            Node::ZipDirectory(d) => Ok(d.has_child(&key)),
            _ => Err(crate::FsError::NotADirectory(self.get_full_path(h))),
        }
    }

    /// Populates the cache of the physical directory at `h` from a backend
    /// listing of `(name, is_directory)` entries, then marks the cache
    /// authoritative. Idempotent: on an already scanned directory nothing
    /// changes and the listing is ignored, so scanning twice yields the very
    /// cache one scan yields. A name already cached (a child created by hand
    /// before the backend persisted it) keeps its cache entry. An archive
    /// directory populates its own cache from the archive instead, and a
    /// node that is not a directory is reported with its path.
    pub fn scan_apply(&mut self, h: usize, listing: &Vec<(String, bool)>) -> (r: crate::FsResult)
        requires
            old(self).wf(),
            old(self).valid_handle(h as int),
        ensures
            final(self).wf(),
            !old(self).node_at(h as int).is_directory() ==> *final(self) == *old(self) && (
            r matches Err(crate::FsError::NotADirectory(p)) && p@ == old(self).full_path_spec(
                h as int,
            )),
            old(self).node_at(h as int) is ZipDirectory ==> *final(self) == *old(self) && (
            r matches Err(crate::FsError::Generic(m)) && m@ == crate::unsupported_message()),
            old(self).node_at(h as int) is PhysicalDirectory && old(self).node_at(
                h as int,
            ).scanned_spec() ==> *final(self) == *old(self) && r is Ok,
            old(self).node_at(h as int) is PhysicalDirectory && !old(self).node_at(
                h as int,
            ).scanned_spec() ==> {
                let ch0 = old(self).node_at(h as int).children_seq();
                let ch1 = final(self).node_at(h as int).children_seq();
                &&& r is Ok
                &&& final(self).node_at(h as int) is PhysicalDirectory
                &&& final(self).node_at(h as int).scanned_spec()
                &&& final(self).node_at(h as int).name_view() == old(self).node_at(
                    h as int,
                ).name_view()
                &&& final(self).node_at(h as int).parent_view() == old(self).node_at(
                    h as int,
                ).parent_view()
                &&& final(self).node_count() >= old(self).node_count()
                &&& forall|i: int|
                    0 <= i < old(self).node_count() && i != h as int ==> final(self).node_at(i)
                        == old(self).node_at(i)
                &&& ch0.len() <= ch1.len()
                &&& ch1.take(ch0.len() as int) == ch0
                &&& forall|k: int|
                    0 <= k < listing@.len() ==> cache::has_key(ch1, (#[trigger] listing@[k]).0@)
                &&& forall|j: int|
                    ch0.len() <= j < ch1.len() ==> (exists|k: int|
                        0 <= k < listing@.len() && (#[trigger] ch1[j]).0@ == listing@[k].0@ && (
                        ch1[j].1 is Directory <==> listing@[k].1)) && fresh_scan_entry(
                        *final(self),
                        h as int,
                        old(self).node_count(),
                        ch1[j],
                    )
            },
    {
        match self.node(h) {
            Node::PhysicalDirectory(d) => {
                if d.is_scanned() {
                    return Ok(());
                }
            },
            Node::ZipDirectory(_) => {
                return Err(crate::FsError::Generic(String::from_str("unsupported operation")));
            },
            _ => {
                let fp = self.get_full_path(h);
                return Err(crate::FsError::NotADirectory(fp));
            },
        }
        let n = listing.len();
        let ghost ch0 = old(self).node_at(h as int).children_seq();
        let mut t: usize = 0;
        proof {
            assert(self.node_at(h as int).children_seq().take(ch0.len() as int) =~= ch0);
        }
        while t < n
            invariant
                self.wf(),
                n == listing@.len(),
                t <= n,
                (h as int) < old(self).node_count(),
                self.node_count() >= old(self).node_count(),
                self.node_at(h as int) is PhysicalDirectory,
                self.node_at(h as int).name_view() == old(self).node_at(h as int).name_view(),
                self.node_at(h as int).parent_view() == old(self).node_at(h as int).parent_view(),
                self.node_at(h as int).scanned_spec() == old(self).node_at(
                    h as int,
                ).scanned_spec(),
                forall|i: int|
                    0 <= i < old(self).node_count() && i != h as int ==> self.node_at(i) == old(self).node_at(i),
                ch0 == old(self).node_at(h as int).children_seq(),
                ch0.len() <= self.node_at(h as int).children_seq().len(),
                self.node_at(h as int).children_seq().take(ch0.len() as int) == ch0,
                forall|k: int|
                    0 <= k < t ==> cache::has_key(
                        self.node_at(h as int).children_seq(),
                        (#[trigger] listing@[k]).0@,
                    ),
                forall|j: int|
                    ch0.len() <= j < self.node_at(h as int).children_seq().len() ==> (exists|k: int|
                        0 <= k < listing@.len() && (#[trigger] self.node_at(
                            h as int,
                        ).children_seq()[j]).0@ == listing@[k].0@ && (self.node_at(
                            h as int,
                        ).children_seq()[j].1 is Directory <==> listing@[k].1))
                        && fresh_scan_entry(
                        *self,
                        h as int,
                        old(self).node_count(),
                        self.node_at(h as int).children_seq()[j],
                    ),
            decreases n - t,
        {
            let nm = &listing[t].0;
            let is_d = listing[t].1;
            let present = match self.node(h) {
                Node::PhysicalDirectory(d) => d.has_child(nm),
                _ => vstd::pervasive::unreached(),
            };
            if !present {
                let ghost prev = *self;
                let c = self.nodes.len();
                let newnode = if is_d {
                    Node::PhysicalDirectory(PhysicalDirectory::new(nm.as_str(), Some(h), c))
                } else {
                    Node::PhysicalFile(PhysicalFile::new(nm.as_str(), h, 0, c))
                };
                self.nodes.push(newnode);
                proof {
                    lemma_wf_append(prev, *self);
                }
                let ghost mid = *self;
                proof {
                    assert(self.wf_at(h as int));
                }
                let obj = if is_d {
                    FilesystemObject::Directory(c)
                } else {
                    FilesystemObject::File(c)
                };
                let key = nm.clone();
                match &mut self.nodes[h] {
                    Node::PhysicalDirectory(dd) => dd.insert_child(key, obj),
                    _ => vstd::pervasive::unreached(),
                }
                proof {
                    Self::lemma_insert_entries_ok(mid, *self, h as int, listing@[t as int].0@, obj);
                    lemma_wf_children_updated(mid, *self, h as int);
                    let chp = prev.node_at(h as int).children_seq();
                    let chn = self.node_at(h as int).children_seq();
                    assert(chn == chp.push((chn.last().0, obj)));
                    assert(chn.take(ch0.len() as int) =~= chp.take(ch0.len() as int));
                    assert forall|k: int| 0 <= k < t + 1 implies cache::has_key(
                        chn,
                        (#[trigger] listing@[k]).0@,
                    ) by {
                        if k < t {
                            let w = choose|w: int|
                                0 <= w < chp.len() && chp[w].0@ == listing@[k].0@;
                            assert(chn[w].0@ == listing@[k].0@);
                        } else {
                            assert(chn[chn.len() - 1].0@ == listing@[k].0@);
                        }
                    }
                }
            }
            t += 1;
        }
        let ghost before_mark = *self;
        match &mut self.nodes[h] {
            Node::PhysicalDirectory(dd) => dd.set_scanned(),
            _ => vstd::pervasive::unreached(),
        }
        proof {
            assert(before_mark.wf_at(h as int));
            lemma_wf_node_replaced(before_mark, *self, h as int);
        }
        Ok(())
    }

    /// Serves up to `max` bytes out of the file's buffer window, advancing
    /// its cursor; an exhausted window serves nothing, and the caller fills
    /// first ([`PhysicalFile::apply_fill`] with bytes the embedding program
    /// read, or [`NodeStore::read_zip`] for archive entries, which fills by
    /// itself). A directory is reported with its path.
    pub fn read(&mut self, h: usize, max: usize) -> (r: crate::FsResult<Vec<u8>>)
        requires
            old(self).wf(),
            old(self).valid_handle(h as int),
        ensures
            final(self).wf(),
            final(self).node_count() == old(self).node_count(),
            forall|i: int|
                0 <= i < old(self).node_count() && i != h as int ==> final(self).node_at(i) == old(self).node_at(i),
            old(self).node_at(h as int).is_directory() ==> *final(self) == *old(self) && (
            r matches Err(crate::FsError::NotAFile(p)) && p@ == old(self).full_path_spec(h as int)),
            old(self).node_at(h as int) matches Node::PhysicalFile(f) ==> (final(self).node_at(
                h as int,
            ) matches Node::PhysicalFile(g) && served_from_window(
                f.io_spec(),
                g.io_spec(),
                r,
                max as int,
            ) && g.opened_spec() == f.opened_spec() && g.name_view() == f.name_view()
                && g.parent_view() == f.parent_view() && g.self_handle() == f.self_handle()),
            old(self).node_at(h as int) matches Node::ZipFile(f) ==> (final(self).node_at(
                h as int,
            ) matches Node::ZipFile(g) && served_from_window(
                f.io_spec(),
                g.io_spec(),
                r,
                max as int,
            ) && crate::archive::ZipFile::same_entry(&f, &g) && g.offset_spec() == f.offset_spec()),
    {
        match self.node(h) {
            Node::PhysicalDirectory(_) | Node::ZipDirectory(_) => {
                return Err(crate::FsError::NotAFile(self.get_full_path(h)));
            },
            _ => {},
        }
        proof {
            assert(self.wf_at(h as int));
        }
        let ghost pre = *self;
        let out = match &mut self.nodes[h] {
            Node::PhysicalFile(f) => f.read(max),
            Node::ZipFile(f) => f.read(max),
            _ => vstd::pervasive::unreached(),
        };
        proof {
            lemma_wf_node_replaced(pre, *self, h as int);
        }
        Ok(out)
    }

    /// Replaces the file's buffered content with `data`, truncated to the
    /// allocated buffer length, returning how many bytes were accepted —
    /// possibly zero, when the buffer was allocated no space. Archive
    /// entries are read-only and report the operation as unsupported; a
    /// directory is reported with its path.
    pub fn write(&mut self, h: usize, data: &[u8]) -> (r: crate::FsResult<usize>)
        requires
            old(self).wf(),
            old(self).valid_handle(h as int),
        ensures
            final(self).wf(),
            final(self).node_count() == old(self).node_count(),
            forall|i: int|
                0 <= i < old(self).node_count() && i != h as int ==> final(self).node_at(i) == old(self).node_at(i),
            old(self).node_at(h as int).is_directory() ==> *final(self) == *old(self) && (
            r matches Err(crate::FsError::NotAFile(p)) && p@ == old(self).full_path_spec(h as int)),
            old(self).node_at(h as int) is ZipFile ==> *final(self) == *old(self) && (
            r matches Err(crate::FsError::Generic(m)) && m@ == crate::unsupported_message()),
            old(self).node_at(h as int) matches Node::PhysicalFile(f) ==> (final(self).node_at(
                h as int,
            ) matches Node::PhysicalFile(g) && {
                let n = vstd::math::min(f.io_spec().buf().len() as int, data@.len() as int);
                &&& r == crate::FsResult::<usize>::Ok(n as usize)
                &&& g.io_spec().buf() == data@.take(n) + f.io_spec().buf().skip(n)
                &&& g.io_spec().filled() == 0
                &&& g.io_spec().pos() == 0
                &&& g.opened_spec() == f.opened_spec()
                &&& g.name_view() == f.name_view()
                &&& g.parent_view() == f.parent_view()
                &&& g.self_handle() == f.self_handle()
            }),
    {
        match self.node(h) {
            Node::PhysicalDirectory(_) | Node::ZipDirectory(_) => {
                return Err(crate::FsError::NotAFile(self.get_full_path(h)));
            },
            Node::ZipFile(_) => {
                return Err(crate::FsError::Generic(String::from_str("unsupported operation")));
            },
            _ => {},
        }
        proof {
            assert(self.wf_at(h as int));
        }
        let ghost pre = *self;
        let out = match &mut self.nodes[h] {
            Node::PhysicalFile(f) => f.write(data),
            _ => vstd::pervasive::unreached(),
        };
        proof {
            lemma_wf_node_replaced(pre, *self, h as int);
        }
        Ok(out)
    }

    /// A copy of the window — the filled, not yet consumed bytes — without
    /// moving the cursor. A directory is reported with its path.
    pub fn fill_buf(&self, h: usize) -> (r: crate::FsResult<Vec<u8>>)
        requires
            self.wf(),
            self.valid_handle(h as int),
        ensures
            self.node_at(h as int).is_directory() ==> (r matches Err(crate::FsError::NotAFile(p))
                && p@ == self.full_path_spec(h as int)),
            self.node_at(h as int) matches Node::PhysicalFile(f) ==> (r matches Ok(v) && v@
                == f.io_spec().window()),
            self.node_at(h as int) matches Node::ZipFile(f) ==> (r matches Ok(v) && v@
                == f.io_spec().window()),
    {
        proof {
            assert(self.wf_at(h as int));
        }
        match self.node(h) {
            Node::PhysicalDirectory(_) | Node::ZipDirectory(_) => Err(
                crate::FsError::NotAFile(self.get_full_path(h)),
            ),
            Node::PhysicalFile(f) => Ok(f.fill_buf()),
            Node::ZipFile(f) => Ok(f.fill_buf()),
        }
    }

    /// Moves the file's cursor forward by `amt`, saturating at the end of
    /// the filled region. A directory is reported with its path.
    pub fn consume(&mut self, h: usize, amt: usize) -> (r: crate::FsResult)
        requires
            old(self).wf(),
            old(self).valid_handle(h as int),
        ensures
            final(self).wf(),
            final(self).node_count() == old(self).node_count(),
            forall|i: int|
                0 <= i < old(self).node_count() && i != h as int ==> final(self).node_at(i) == old(self).node_at(i),
            old(self).node_at(h as int).is_directory() ==> *final(self) == *old(self) && (
            r matches Err(crate::FsError::NotAFile(p)) && p@ == old(self).full_path_spec(h as int)),
            old(self).node_at(h as int) matches Node::PhysicalFile(f) ==> (final(self).node_at(
                h as int,
            ) matches Node::PhysicalFile(g) && r is Ok && g.io_spec().pos() == vstd::math::min(
                f.io_spec().pos() + amt,
                f.io_spec().filled(),
            ) && g.io_spec().filled() == f.io_spec().filled() && g.io_spec().buf() == f.io_spec().buf()
                && g.opened_spec() == f.opened_spec() && g.name_view() == f.name_view()
                && g.parent_view() == f.parent_view() && g.self_handle() == f.self_handle()),
            old(self).node_at(h as int) matches Node::ZipFile(f) ==> (final(self).node_at(
                h as int,
            ) matches Node::ZipFile(g) && r is Ok && g.io_spec().pos() == vstd::math::min(
                f.io_spec().pos() + amt,
                f.io_spec().filled(),
            ) && g.io_spec().filled() == f.io_spec().filled() && g.io_spec().buf() == f.io_spec().buf()
                && crate::archive::ZipFile::same_entry(&f, &g) && g.offset_spec()
                == f.offset_spec()),
    {
        match self.node(h) {
            Node::PhysicalDirectory(_) | Node::ZipDirectory(_) => {
                return Err(crate::FsError::NotAFile(self.get_full_path(h)));
            },
            _ => {},
        }
        proof {
            assert(self.wf_at(h as int));
        }
        let ghost pre = *self;
        match &mut self.nodes[h] {
            Node::PhysicalFile(f) => f.consume(amt),
            Node::ZipFile(f) => f.consume(amt),
            _ => vstd::pervasive::unreached(),
        }
        proof {
            lemma_wf_node_replaced(pre, *self, h as int);
        }
        Ok(())
    }

    /// Moves the archive file's logical offset; see [`ZipFile::seek`]. A
    /// physical file's seek is a pass-through to the operating-system
    /// handle, which the embedding program performs, so this layer reports
    /// it as unsupported; a directory is reported with its path.
    pub fn seek(&mut self, h: usize, pos: crate::SeekFrom) -> (r: crate::FsResult<u64>)
        requires
            old(self).wf(),
            old(self).valid_handle(h as int),
        ensures
            final(self).wf(),
            final(self).node_count() == old(self).node_count(),
            forall|i: int|
                0 <= i < old(self).node_count() && i != h as int ==> final(self).node_at(i) == old(self).node_at(i),
            old(self).node_at(h as int).is_directory() ==> *final(self) == *old(self) && (
            r matches Err(crate::FsError::NotAFile(p)) && p@ == old(self).full_path_spec(h as int)),
            old(self).node_at(h as int) is PhysicalFile ==> *final(self) == *old(self) && (
            r matches Err(crate::FsError::Generic(m)) && m@ == crate::unsupported_message()),
            old(self).node_at(h as int) matches Node::ZipFile(f) ==> (final(self).node_at(
                h as int,
            ) matches Node::ZipFile(g) && {
                let t = crate::archive::seek_target(f.offset_spec(), f.entry_size_spec(), pos);
                &&& crate::archive::ZipFile::same_entry(&f, &g)
                &&& g.io_spec().buf() == f.io_spec().buf()
                &&& g.io_spec().filled() == 0
                &&& g.io_spec().pos() == 0
                &&& (r is Ok <==> 0 <= t <= i64::MAX)
                &&& (r matches Ok(off) ==> g.offset_spec() == t && off as int == t)
                &&& (r matches Err(e) ==> g.offset_spec() == f.offset_spec() && (
                e matches crate::FsError::Generic(m) && m@ == crate::archive::invalid_seek_message()))
            }),
    {
        match self.node(h) {
            Node::PhysicalDirectory(_) | Node::ZipDirectory(_) => {
                return Err(crate::FsError::NotAFile(self.get_full_path(h)));
            },
            Node::PhysicalFile(_) => {
                return Err(crate::FsError::Generic(String::from_str("unsupported operation")));
            },
            _ => {},
        }
        proof {
            assert(self.wf_at(h as int));
        }
        let ghost pre = *self;
        let out = match &mut self.nodes[h] {
            Node::ZipFile(f) => f.seek(pos),
            _ => vstd::pervasive::unreached(),
        };
        proof {
            lemma_wf_node_replaced(pre, *self, h as int);
        }
        out
    }

    /// Records that the embedding program opened the physical file's backend
    /// handle; opening over a stale handle first closes it, which empties
    /// the window. An archive entry needs no opening and succeeds unchanged.
    /// A directory is reported with its path.
    pub fn open_file(&mut self, h: usize) -> (r: crate::FsResult)
        requires
            old(self).wf(),
            old(self).valid_handle(h as int),
        ensures
            final(self).wf(),
            final(self).node_count() == old(self).node_count(),
            forall|i: int|
                0 <= i < old(self).node_count() && i != h as int ==> final(self).node_at(i) == old(self).node_at(i),
            old(self).node_at(h as int).is_directory() ==> *final(self) == *old(self) && (
            r matches Err(crate::FsError::NotAFile(p)) && p@ == old(self).full_path_spec(h as int)),
            old(self).node_at(h as int) is ZipFile ==> *final(self) == *old(self) && r is Ok,
            old(self).node_at(h as int) matches Node::PhysicalFile(f) ==> (final(self).node_at(
                h as int,
            ) matches Node::PhysicalFile(g) && {
                &&& r is Ok
                &&& g.opened_spec()
                &&& g.io_spec().buf() == f.io_spec().buf()
                &&& (f.opened_spec() ==> g.io_spec().filled() == 0 && g.io_spec().pos() == 0)
                &&& (!f.opened_spec() ==> g.io_spec() == f.io_spec())
                &&& g.name_view() == f.name_view()
                &&& g.parent_view() == f.parent_view()
                &&& g.self_handle() == f.self_handle()
            }),
    {
        match self.node(h) {
            Node::PhysicalDirectory(_) | Node::ZipDirectory(_) => {
                return Err(crate::FsError::NotAFile(self.get_full_path(h)));
            },
            Node::ZipFile(_) => {
                return Ok(());
            },
            _ => {},
        }
        proof {
            assert(self.wf_at(h as int));
        }
        let ghost pre = *self;
        match &mut self.nodes[h] {
            Node::PhysicalFile(f) => f.mark_opened(),
            _ => vstd::pervasive::unreached(),
        }
        proof {
            lemma_wf_node_replaced(pre, *self, h as int);
        }
        Ok(())
    }

    /// Closes a physical file: the backend handle is released by the
    /// embedding program and the window empties; the buffer's content and
    /// allocated length stay. Closing an archive entry changes nothing. A
    /// directory is reported with its path.
    pub fn close_file(&mut self, h: usize) -> (r: crate::FsResult)
        requires
            old(self).wf(),
            old(self).valid_handle(h as int),
        ensures
            final(self).wf(),
            final(self).node_count() == old(self).node_count(),
            forall|i: int|
                0 <= i < old(self).node_count() && i != h as int ==> final(self).node_at(i) == old(self).node_at(i),
            old(self).node_at(h as int).is_directory() ==> *final(self) == *old(self) && (
            r matches Err(crate::FsError::NotAFile(p)) && p@ == old(self).full_path_spec(h as int)),
            old(self).node_at(h as int) is ZipFile ==> *final(self) == *old(self) && r is Ok,
            old(self).node_at(h as int) matches Node::PhysicalFile(f) ==> (final(self).node_at(
                h as int,
            ) matches Node::PhysicalFile(g) && {
                &&& r is Ok
                &&& !g.opened_spec()
                &&& g.io_spec().buf() == f.io_spec().buf()
                &&& g.io_spec().filled() == 0
                &&& g.io_spec().pos() == 0
                &&& g.name_view() == f.name_view()
                &&& g.parent_view() == f.parent_view()
                &&& g.self_handle() == f.self_handle()
            }),
    {
        match self.node(h) {
            Node::PhysicalDirectory(_) | Node::ZipDirectory(_) => {
                return Err(crate::FsError::NotAFile(self.get_full_path(h)));
            },
            Node::ZipFile(_) => {
                return Ok(());
            },
            _ => {},
        }
        proof {
            assert(self.wf_at(h as int));
        }
        let ghost pre = *self;
        match &mut self.nodes[h] {
            Node::PhysicalFile(f) => f.close(),
            _ => vstd::pervasive::unreached(),
        }
        proof {
            lemma_wf_node_replaced(pre, *self, h as int);
        }
        Ok(())
    }

    /// Whether the file is open: an archive entry always counts as open; a
    /// physical file is open when its backend handle is modelled as held. A
    /// directory is reported with its path.
    pub fn is_open(&self, h: usize) -> (r: crate::FsResult<bool>)
        requires
            self.wf(),
            self.valid_handle(h as int),
        ensures
            self.node_at(h as int).is_directory() ==> (r matches Err(crate::FsError::NotAFile(p))
                && p@ == self.full_path_spec(h as int)),
            self.node_at(h as int) matches Node::PhysicalFile(f) ==> r == crate::FsResult::<
                bool,
            >::Ok(f.opened_spec()),
            self.node_at(h as int) is ZipFile ==> r == crate::FsResult::<bool>::Ok(true),
    {
        match self.node(h) {
            Node::PhysicalDirectory(_) | Node::ZipDirectory(_) => Err(
                crate::FsError::NotAFile(self.get_full_path(h)),
            ),
            Node::PhysicalFile(f) => Ok(f.is_open()),
            Node::ZipFile(_) => Ok(true),
        }
    }

    /// Resizes the file's allocated buffer: a longer buffer keeps its
    /// content and pads with zero bytes, a shorter one keeps its prefix. A
    /// directory is reported with its path.
    pub fn set_buffer_size(&mut self, h: usize, size: usize) -> (r: crate::FsResult)
        requires
            old(self).wf(),
            old(self).valid_handle(h as int),
        ensures
            final(self).wf(),
            final(self).node_count() == old(self).node_count(),
            forall|i: int|
                0 <= i < old(self).node_count() && i != h as int ==> final(self).node_at(i) == old(self).node_at(i),
            old(self).node_at(h as int).is_directory() ==> *final(self) == *old(self) && (
            r matches Err(crate::FsError::NotAFile(p)) && p@ == old(self).full_path_spec(h as int)),
            old(self).node_at(h as int) matches Node::PhysicalFile(f) ==> (final(self).node_at(
                h as int,
            ) matches Node::PhysicalFile(g) && r is Ok && g.io_spec().buf().len() == size
                && g.io_spec().buf().take(vstd::math::min(size as int, f.io_spec().buf().len() as int))
                == f.io_spec().buf().take(
                vstd::math::min(size as int, f.io_spec().buf().len() as int),
            ) && g.opened_spec() == f.opened_spec() && g.name_view() == f.name_view()
                && g.parent_view() == f.parent_view() && g.self_handle() == f.self_handle()),
            old(self).node_at(h as int) matches Node::ZipFile(f) ==> (final(self).node_at(
                h as int,
            ) matches Node::ZipFile(g) && r is Ok && g.io_spec().buf().len() == size
                && crate::archive::ZipFile::same_entry(&f, &g) && g.offset_spec()
                == f.offset_spec()),
    {
        match self.node(h) {
            Node::PhysicalDirectory(_) | Node::ZipDirectory(_) => {
                return Err(crate::FsError::NotAFile(self.get_full_path(h)));
            },
            _ => {},
        }
        proof {
            assert(self.wf_at(h as int));
        }
        let ghost pre = *self;
        match &mut self.nodes[h] {
            Node::PhysicalFile(f) => f.set_buffer_size(size),
            Node::ZipFile(f) => f.set_buffer_size(size),
            _ => vstd::pervasive::unreached(),
        }
        proof {
            lemma_wf_node_replaced(pre, *self, h as int);
            match (pre.node_at(h as int), self.node_at(h as int)) {
                (Node::PhysicalFile(ff), Node::PhysicalFile(gg)) => {
                    let m = vstd::math::min(size as int, ff.io_spec().buf().len() as int);
                    assert(gg.io_spec().buf().take(m) =~= ff.io_spec().buf().take(m));
                },
                _ => {},
            }
        }
        Ok(())
    }

    /// The bytes a flush persists for a physical file: the full allocated
    /// buffer, exactly as it stands; the embedding program writes them to
    /// the backend file and flushes the handle. Flushing an archive entry is
    /// unsupported; a directory is reported with its path.
    pub fn flush_data(&self, h: usize) -> (r: crate::FsResult<Vec<u8>>)
        requires
            self.wf(),
            self.valid_handle(h as int),
        ensures
            self.node_at(h as int).is_directory() ==> (r matches Err(crate::FsError::NotAFile(p))
                && p@ == self.full_path_spec(h as int)),
            self.node_at(h as int) is ZipFile ==> (r matches Err(crate::FsError::Generic(m)) && m@
                == crate::unsupported_message()),
            self.node_at(h as int) matches Node::PhysicalFile(f) ==> (r matches Ok(v) && v@
                == f.io_spec().buf()),
    {
        match self.node(h) {
            Node::PhysicalDirectory(_) | Node::ZipDirectory(_) => Err(
                crate::FsError::NotAFile(self.get_full_path(h)),
            ),
            Node::ZipFile(_) => Err(
                crate::FsError::Generic(String::from_str("unsupported operation")),
            ),
            Node::PhysicalFile(f) => Ok(f.flush_data()),
        }
    }

    /// Records a backend fill of a physical file: `data` holds what one
    /// backend read call returned, at most the allocated buffer length many
    /// bytes. The file must be open. Archive entries fill through
    /// [`NodeStore::read_zip`] instead and report this as unsupported; a
    /// directory is reported with its path.
    pub fn apply_fill(&mut self, h: usize, data: &[u8]) -> (r: crate::FsResult)
        requires
            old(self).wf(),
            old(self).valid_handle(h as int),
            (old(self).node_at(h as int) matches Node::PhysicalFile(f) ==> data@.len()
                <= f.io_spec().buf().len()),
        ensures
            final(self).wf(),
            final(self).node_count() == old(self).node_count(),
            forall|i: int|
                0 <= i < old(self).node_count() && i != h as int ==> final(self).node_at(i) == old(self).node_at(i),
            old(self).node_at(h as int).is_directory() ==> *final(self) == *old(self) && (
            r matches Err(crate::FsError::NotAFile(p)) && p@ == old(self).full_path_spec(h as int)),
            old(self).node_at(h as int) is ZipFile ==> *final(self) == *old(self) && (
            r matches Err(crate::FsError::Generic(m)) && m@ == crate::unsupported_message()),
            old(self).node_at(h as int) matches Node::PhysicalFile(f) ==> (final(self).node_at(
                h as int,
            ) matches Node::PhysicalFile(g) && {
                &&& (r is Ok <==> f.opened_spec())
                &&& (f.opened_spec() ==> g.io_spec().buf() == data@ + f.io_spec().buf().skip(
                    data@.len() as int,
                ) && g.io_spec().filled() == data@.len() && g.io_spec().pos() == 0)
                &&& (!f.opened_spec() ==> final(self).node_at(h as int) == old(self).node_at(
                    h as int,
                ) && (r matches Err(crate::FsError::FileNotOpen(n)) && n@ == f.name_view()))
                &&& g.opened_spec() == f.opened_spec()
                &&& g.name_view() == f.name_view()
                &&& g.parent_view() == f.parent_view()
                &&& g.self_handle() == f.self_handle()
            }),
    {
        match self.node(h) {
            Node::PhysicalDirectory(_) | Node::ZipDirectory(_) => {
                return Err(crate::FsError::NotAFile(self.get_full_path(h)));
            },
            Node::ZipFile(_) => {
                return Err(crate::FsError::Generic(String::from_str("unsupported operation")));
            },
            _ => {},
        }
        proof {
            assert(self.wf_at(h as int));
        }
        let ghost pre = *self;
        let out = match &mut self.nodes[h] {
            Node::PhysicalFile(f) => f.apply_fill(data),
            _ => vstd::pervasive::unreached(),
        };
        proof {
            lemma_wf_node_replaced(pre, *self, h as int);
        }
        out
    }

    /// The decompressed size of an archive entry, as the archive's central
    /// directory records it. A physical file's on-disk length is the
    /// embedding program's to query, so this layer reports it as
    /// unsupported; a directory is reported with its path.
    pub fn size(&self, h: usize) -> (r: crate::FsResult<u64>)
        requires
            self.wf(),
            self.valid_handle(h as int),
        ensures
            self.node_at(h as int).is_directory() ==> (r matches Err(crate::FsError::NotAFile(p))
                && p@ == self.full_path_spec(h as int)),
            self.node_at(h as int) is PhysicalFile ==> (r matches Err(crate::FsError::Generic(m))
                && m@ == crate::unsupported_message()),
            self.node_at(h as int) matches Node::ZipFile(f) ==> r == crate::FsResult::<u64>::Ok(
                f.entry_size_spec() as u64,
            ),
    {
        match self.node(h) {
            Node::PhysicalDirectory(_) | Node::ZipDirectory(_) => Err(
                crate::FsError::NotAFile(self.get_full_path(h)),
            ),
            Node::PhysicalFile(_) => Err(
                crate::FsError::Generic(String::from_str("unsupported operation")),
            ),
            Node::ZipFile(f) => Ok(f.size()),
        }
    }

    /// The pair of full paths a rename moves between: the file's current
    /// path and its parent's path joined with the new name. The embedding
    /// program performs the backend rename; the cache entry is not updated —
    /// a documented gap the caller carries. Renaming an archive entry is
    /// unsupported; a directory is reported with its path.
    pub fn rename_paths(&self, h: usize, new_name: &str) -> (r: crate::FsResult<(String, String)>)
        requires
            self.wf(),
            self.valid_handle(h as int),
        ensures
            self.node_at(h as int).is_directory() ==> (r matches Err(crate::FsError::NotAFile(p))
                && p@ == self.full_path_spec(h as int)),
            self.node_at(h as int) is ZipFile ==> (r matches Err(crate::FsError::Generic(m)) && m@
                == crate::unsupported_message()),
            self.node_at(h as int) is PhysicalFile ==> (r matches Ok(pair) && pair.0@
                == self.full_path_spec(h as int) && ({
                let p = self.node_at(h as int).parent_view()->Some_0;
                pair.1@ == join_spec(self.full_path_spec(p as int), new_name@)
            })),
    {
        match self.node(h) {
            Node::PhysicalDirectory(_) | Node::ZipDirectory(_) => Err(
                crate::FsError::NotAFile(self.get_full_path(h)),
            ),
            Node::ZipFile(_) => Err(
                crate::FsError::Generic(String::from_str("unsupported operation")),
            ),
            Node::PhysicalFile(f) => {
                proof {
                    assert(self.wf_at(h as int));
                }
                let p = match f.get_parent() {
                    Some(p) => p,
                    None => vstd::pervasive::unreached(),
                };
                let parent_path = self.get_full_path(p);
                let old_path = crate::path::join(parent_path.as_str(), f.name());
                let new_path = crate::path::join(parent_path.as_str(), new_name);
                Ok((old_path, new_path))
            },
        }
    }

    /// The index of the archive an archive file node reads through: the one
    /// its parent directory holds. `-1` when the node is no archive file or
    /// its parent no archive directory.
    pub open spec fn archive_of(&self, h: int) -> int {
        match self.node_at(h) {
            Node::ZipFile(f) => match f.parent_view() {
                Some(p) => match self.node_at(p as int) {
                    Node::ZipDirectory(d) => d.archive_spec(),
                    _ => -1,
                },
                None => -1,
            },
            _ => -1,
        }
    }

    /// Opens the archive container held in `bytes` and mounts it as a
    /// directory node: the archive takes the physical file's name and
    /// parent, so the container reads as a nested directory. The archive
    /// value joins `archives`, shared by every entry node under this
    /// directory. Mounting succeeds exactly when the bytes parse as a
    /// container; a node that is not a physical file, or a malformed
    /// container, is reported and changes nothing.
    pub fn new_zip_directory(
        &mut self,
        archives: &mut ArchiveStore,
        file_h: usize,
        bytes: Vec<u8>,
    ) -> (r: crate::FsResult<usize>)
        requires
            old(self).wf(),
            old(self).valid_handle(file_h as int),
        ensures
            final(self).wf(),
            !(old(self).node_at(file_h as int) is PhysicalFile) ==> *final(self) == *old(self)
                && *final(archives) == *old(archives) && (r matches Err(
                crate::FsError::NotAFile(p),
            ) && p@ == old(self).full_path_spec(file_h as int)),
            old(self).node_at(file_h as int) is PhysicalFile ==> (r is Ok
                <==> crate::zip_api::parses_as_archive(bytes@)) && match r {
                Ok(h) => {
                    &&& h as int == old(self).node_count()
                    &&& final(self).node_count() == old(self).node_count() + 1
                    &&& forall|i: int|
                        0 <= i < old(self).node_count() ==> final(self).node_at(i) == old(self).node_at(i)
                    &&& final(self).node_at(h as int) matches Node::ZipDirectory(d) && {
                        &&& d.name_view() == old(self).node_at(file_h as int).name_view()
                        &&& Some(d.parent_view()->Some_0) == old(self).node_at(
                            file_h as int,
                        ).parent_view()
                        &&& d.archive_spec() == old(archives).archive_count()
                        &&& d.children_seq().len() == 0
                        &&& !d.scanned_spec()
                    }
                    &&& final(archives).archive_count() == old(archives).archive_count() + 1
                    &&& forall|k: int|
                        0 <= k < old(archives).archive_count() ==> final(archives).archives_seq()[k]
                            == old(archives).archives_seq()[k]
                },
                Err(e) => {
                    &&& *final(self) == *old(self)
                    &&& *final(archives) == *old(archives)
                    &&& e is ZipError
                },
            },
    {
        let (nm, p) = match self.node(file_h) {
            Node::PhysicalFile(f) => {
                proof {
                    assert(self.wf_at(file_h as int));
                }
                let p = match f.get_parent() {
                    Some(p) => p,
                    None => vstd::pervasive::unreached(),
                };
                (String::from_str(f.name()), p)
            },
            _ => {
                return Err(crate::FsError::NotAFile(self.get_full_path(file_h)));
            },
        };
        let a = match crate::zip_api::open_archive(bytes) {
            Ok(a) => a,
            Err(e) => {
                return Err(crate::FsError::ZipError(e));
            },
        };
        let aidx = archives.archives.len();
        archives.archives.push(a);
        let c = self.nodes.len();
        let d = ZipDirectory::new(nm.as_str(), p, aidx, c);
        self.nodes.push(Node::ZipDirectory(d));
        proof {
            lemma_wf_append(*old(self), *self);
        }
        Ok(c)
    }

    /// Populates the cache of the archive directory at `h` from the
    /// archive's own entry listing — one cached child per file-like entry
    /// (one whose name has no trailing separator) — then marks the cache
    /// authoritative. Idempotent: on an already scanned directory nothing
    /// changes. The scan succeeds whenever every file-like entry of the
    /// archive decodes. A physical directory scans from a backend listing
    /// instead ([`NodeStore::scan_apply`]) and reports this as unsupported;
    /// a node that is not a directory is reported with its path.
    pub fn zip_scan(&mut self, archives: &mut ArchiveStore, h: usize) -> (r: crate::FsResult)
        requires
            old(self).wf(),
            old(self).valid_handle(h as int),
        ensures
            final(self).wf(),
            same_archive_entries(*old(archives), *final(archives)),
            !old(self).node_at(h as int).is_directory() ==> *final(self) == *old(self) && *final(archives) == *old(archives) && (r matches Err(crate::FsError::NotADirectory(p)) && p@ == old(self).full_path_spec(h as int)),
            old(self).node_at(h as int) is PhysicalDirectory ==> *final(self) == *old(self)
                && *final(archives) == *old(archives) && (r matches Err(crate::FsError::Generic(m))
                && m@ == crate::unsupported_message()),
            old(self).node_at(h as int) is ZipDirectory && old(self).node_at(
                h as int,
            ).scanned_spec() ==> *final(self) == *old(self) && *final(archives) == *old(archives)
                && r is Ok,
            old(self).node_at(h as int) matches Node::ZipDirectory(d0) ==> !d0.scanned_spec()
                ==> {
                let a = d0.archive_spec();
                &&& (a >= old(archives).archive_count() ==> *final(self) == *old(self) && *final(archives) == *old(archives) && (r matches Err(crate::FsError::Generic(m)) && m@
                    == detached_archive_message()))
                &&& (a < old(archives).archive_count() ==> {
                    let entries = old(archives).entries_at(a);
                    let ch0 = d0.children_seq();
                    let ch1 = final(self).node_at(h as int).children_seq();
                    &&& final(self).node_at(h as int) matches Node::ZipDirectory(d1) && {
                        &&& d1.name_view() == d0.name_view()
                        &&& d1.parent_view() == d0.parent_view()
                        &&& d1.archive_spec() == d0.archive_spec()
                    }
                    &&& final(self).node_count() >= old(self).node_count()
                    &&& forall|i: int|
                        0 <= i < old(self).node_count() && i != h as int ==> final(self).node_at(i)
                            == old(self).node_at(i)
                    &&& ch0.len() <= ch1.len()
                    &&& ch1.take(ch0.len() as int) == ch0
                    &&& forall|j: int|
                        ch0.len() <= j < ch1.len() ==> fresh_zip_entry(
                            *final(self),
                            h as int,
                            old(self).node_count(),
                            entries,
                            #[trigger] ch1[j],
                        )
                    &&& (r is Ok ==> final(self).node_at(h as int).scanned_spec() && (forall|k: int|
                        0 <= k < entries.len() && !dir_like((#[trigger] entries[k]).0)
                            ==> cache::has_key(ch1, entries[k].0)))
                    &&& (forall|k: int|
                        0 <= k < entries.len() && dir_like((#[trigger] entries[k]).0)
                            ==> (cache::has_key(ch1, entries[k].0) ==> cache::has_key(
                            ch0,
                            entries[k].0,
                        )))
                    &&& ((forall|k: int|
                        0 <= k < entries.len() && !dir_like((#[trigger] entries[k]).0)
                            ==> crate::zip_api::entry_decodes(old(archives).archives_seq()[a], k))
                        ==> r is Ok)
                    &&& (r matches Err(e) ==> !final(self).node_at(h as int).scanned_spec() && (
                    e is ZipError))
                })
            },
    {
        let aidx = match self.node(h) {
            Node::ZipDirectory(d) => {
                if d.is_scanned() {
                    return Ok(());
                }
                d.get_archive()
            },
            Node::PhysicalDirectory(_) => {
                return Err(crate::FsError::Generic(String::from_str("unsupported operation")));
            },
            _ => {
                let fp = self.get_full_path(h);
                return Err(crate::FsError::NotADirectory(fp));
            },
        };
        if aidx >= archives.archives.len() {
            return Err(crate::FsError::Generic(String::from_str("archive is not attached")));
        }
        let ghost entries = archives.entries_at(aidx as int);
        let n = crate::zip_api::archive_len(&archives.archives[aidx]);
        let ghost ch0 = old(self).node_at(h as int).children_seq();
        let mut t: usize = 0;
        proof {
            assert(self.node_at(h as int).children_seq().take(ch0.len() as int) =~= ch0);
        }
        while t < n
            invariant
                self.wf(),
                n as int == entries.len(),
                t <= n,
                (h as int) < old(self).node_count(),
                (aidx as int) < archives.archive_count(),
                self.node_count() >= old(self).node_count(),
                archives.entries_at(aidx as int) == entries,
                same_archive_entries(*old(archives), *archives),
                forall|j: int|
                    #[trigger] crate::zip_api::entry_decodes(
                        archives.archives_seq()[aidx as int],
                        j,
                    ) == crate::zip_api::entry_decodes(
                        old(archives).archives_seq()[aidx as int],
                        j,
                    ),
                self.node_at(h as int) is ZipDirectory,
                self.node_at(h as int).name_view() == old(self).node_at(h as int).name_view(),
                self.node_at(h as int).parent_view() == old(self).node_at(h as int).parent_view(),
                (self.node_at(h as int) matches Node::ZipDirectory(d1) ==> d1.archive_spec()
                    == aidx as int),
                !self.node_at(h as int).scanned_spec(),
                old(self).node_at(h as int) is ZipDirectory,
                !old(self).node_at(h as int).scanned_spec(),
                (old(self).node_at(h as int) matches Node::ZipDirectory(d0) ==> d0.archive_spec()
                    == aidx as int),
                forall|i: int|
                    0 <= i < old(self).node_count() && i != h as int ==> self.node_at(i) == old(self).node_at(i),
                ch0 == old(self).node_at(h as int).children_seq(),
                ch0.len() <= self.node_at(h as int).children_seq().len(),
                self.node_at(h as int).children_seq().take(ch0.len() as int) == ch0,
                forall|k: int|
                    0 <= k < t && !dir_like((#[trigger] entries[k]).0) ==> cache::has_key(
                        self.node_at(h as int).children_seq(),
                        entries[k].0,
                    ),
                forall|k: int|
                    0 <= k < entries.len() && dir_like((#[trigger] entries[k]).0) ==> (
                    cache::has_key(self.node_at(h as int).children_seq(), entries[k].0)
                        ==> cache::has_key(ch0, entries[k].0)),
                forall|j: int|
                    ch0.len() <= j < self.node_at(h as int).children_seq().len()
                        ==> fresh_zip_entry(
                        *self,
                        h as int,
                        old(self).node_count(),
                        entries,
                        #[trigger] self.node_at(h as int).children_seq()[j],
                    ),
            decreases n - t,
        {
            let nm = match crate::zip_api::entry_name(&archives.archives[aidx], t) {
                Some(nm) => nm,
                None => vstd::pervasive::unreached(),
            };
            let present = match self.node(h) {
                Node::ZipDirectory(d) => d.has_child(&nm),
                _ => vstd::pervasive::unreached(),
            };
            if !name_dir_like(nm.as_str()) && !present {
                let size = match crate::zip_api::entry_size(&mut archives.archives[aidx], t) {
                    Ok(s) => s,
                    Err(e) => {
                        return Err(crate::FsError::ZipError(e));
                    },
                };
                let ghost prev = *self;
                let c = self.nodes.len();
                let f = ZipFile::new(nm.as_str(), h, aidx, 512, t, size, c);
                self.nodes.push(Node::ZipFile(f));
                proof {
                    lemma_wf_append(prev, *self);
                }
                let ghost mid = *self;
                proof {
                    assert(self.wf_at(h as int));
                }
                let obj = FilesystemObject::File(c);
                match &mut self.nodes[h] {
                    Node::ZipDirectory(dd) => dd.insert_child(nm, obj),
                    _ => vstd::pervasive::unreached(),
                }
                proof {
                    Self::lemma_insert_entries_ok(mid, *self, h as int, entries[t as int].0, obj);
                    lemma_wf_children_updated(mid, *self, h as int);
                    let chp = prev.node_at(h as int).children_seq();
                    let chn = self.node_at(h as int).children_seq();
                    assert(chn.take(ch0.len() as int) =~= chp.take(ch0.len() as int));
                    assert forall|k: int|
                        0 <= k < t + 1 && !dir_like((#[trigger] entries[k]).0) implies cache::has_key(
                        chn,
                        entries[k].0,
                    ) by {
                        if k < t {
                            if cache::has_key(chp, entries[k].0) {
                                let w = choose|w: int|
                                    0 <= w < chp.len() && chp[w].0@ == entries[k].0;
                                assert(chn[w].0@ == entries[k].0);
                            }
                        } else {
                            assert(chn[chn.len() - 1].0@ == entries[k].0);
                        }
                    }
                }
            }
            t += 1;
        }
        let ghost before_mark = *self;
        match &mut self.nodes[h] {
            Node::ZipDirectory(dd) => dd.set_scanned(),
            _ => vstd::pervasive::unreached(),
        }
        proof {
            assert(before_mark.wf_at(h as int));
            lemma_wf_node_replaced(before_mark, *self, h as int);
        }
        Ok(())
    }

    /// A snapshot of the archive directory's children. A scanned directory
    /// answers purely from its cache; one not yet scanned rebuilds the
    /// listing from the archive's entry names, classifying by trailing
    /// separator as the scan does — directory-like names are left out, and
    /// each file-like entry comes back as a fresh archive file node — without
    /// touching the cache, as it will on every call until a scan runs. The
    /// rebuild succeeds whenever every file-like entry decodes; errors of
    /// the archive crate are reported.
    pub fn get_children_zip(&mut self, archives: &mut ArchiveStore, h: usize) -> (r:
        crate::FsResult<Vec<FilesystemObject>>)
        requires
            old(self).wf(),
            old(self).valid_handle(h as int),
        ensures
            final(self).wf(),
            same_archive_entries(*old(archives), *final(archives)),
            final(self).node_count() >= old(self).node_count(),
            forall|i: int|
                0 <= i < old(self).node_count() ==> final(self).node_at(i) == old(self).node_at(i),
            !(old(self).node_at(h as int) is ZipDirectory) ==> *final(self) == *old(self) && *final(archives) == *old(archives) && (r matches Err(crate::FsError::NotADirectory(p)) && p@ == old(self).full_path_spec(h as int)),
            old(self).node_at(h as int) is ZipDirectory && old(self).node_at(
                h as int,
            ).scanned_spec() ==> *final(self) == *old(self) && *final(archives) == *old(archives)
                && (r matches Ok(v) && v@.len() == old(self).node_at(h as int).children_seq().len()
                && (forall|j: int|
                0 <= j < v@.len() ==> v@[j] == old(self).node_at(h as int).children_seq()[j].1)),
            old(self).node_at(h as int) matches Node::ZipDirectory(d0) ==> !d0.scanned_spec()
                ==> {
                let a = d0.archive_spec();
                &&& (a >= old(archives).archive_count() ==> *final(self) == *old(self) && *final(archives) == *old(archives) && (r matches Err(crate::FsError::Generic(m)) && m@
                    == detached_archive_message()))
                &&& (a < old(archives).archive_count() ==> {
                    let entries = old(archives).entries_at(a);
                    &&& ((forall|k: int|
                        0 <= k < entries.len() && !dir_like((#[trigger] entries[k]).0)
                            ==> crate::zip_api::entry_decodes(old(archives).archives_seq()[a], k))
                        ==> r is Ok)
                    &&& (r matches Ok(v) ==> (forall|j: int|
                        0 <= j < v@.len() ==> (#[trigger] v@[j]) is File && old(self).node_count()
                            <= v@[j].handle_spec() < final(self).node_count() && (exists|k: int|
                            0 <= k < entries.len() && !dir_like(entries[k].0)
                                && fresh_zip_file_node(
                                final(self).node_at(v@[j].handle_spec()),
                                entries,
                                k,
                                h,
                                512,
                                v@[j].handle_spec(),
                            ))))
                    &&& (r matches Ok(v) ==> (forall|k: int|
                        0 <= k < entries.len() && !dir_like((#[trigger] entries[k]).0) ==> (exists|
                            j: int,
                        |
                            0 <= j < v@.len() && fresh_zip_file_node(
                                final(self).node_at(v@[j].handle_spec()),
                                entries,
                                k,
                                h,
                                512,
                                v@[j].handle_spec(),
                            ))))
                    &&& (r matches Err(e) ==> e is ZipError)
                })
            },
    {
        let aidx = match self.node(h) {
            Node::ZipDirectory(d) => {
                if d.is_scanned() {
                    return Ok(d.children_objects());
                }
                d.get_archive()
            },
            _ => {
                let fp = self.get_full_path(h);
                return Err(crate::FsError::NotADirectory(fp));
            },
        };
        if aidx >= archives.archives.len() {
            return Err(crate::FsError::Generic(String::from_str("archive is not attached")));
        }
        let ghost entries = archives.entries_at(aidx as int);
        let n = crate::zip_api::archive_len(&archives.archives[aidx]);
        let mut out: Vec<FilesystemObject> = Vec::new();
        let mut t: usize = 0;
        while t < n
            invariant
                self.wf(),
                n as int == entries.len(),
                t <= n,
                (h as int) < old(self).node_count(),
                (aidx as int) < archives.archive_count(),
                self.node_count() >= old(self).node_count(),
                archives.entries_at(aidx as int) == entries,
                same_archive_entries(*old(archives), *archives),
                forall|j: int|
                    #[trigger] crate::zip_api::entry_decodes(
                        archives.archives_seq()[aidx as int],
                        j,
                    ) == crate::zip_api::entry_decodes(
                        old(archives).archives_seq()[aidx as int],
                        j,
                    ),
                self.node_at(h as int).is_directory(),
                old(self).node_at(h as int) is ZipDirectory,
                !old(self).node_at(h as int).scanned_spec(),
                (old(self).node_at(h as int) matches Node::ZipDirectory(d0) ==> d0.archive_spec()
                    == aidx as int),
                forall|i: int|
                    0 <= i < old(self).node_count() ==> self.node_at(i) == old(self).node_at(i),
                forall|j: int|
                    0 <= j < out@.len() ==> (#[trigger] out@[j]) is File && old(self).node_count()
                        <= out@[j].handle_spec() < self.node_count() && (exists|k: int|
                        0 <= k < t && !dir_like(entries[k].0) && fresh_zip_file_node(
                            self.node_at(out@[j].handle_spec()),
                            entries,
                            k,
                            h,
                            512,
                            out@[j].handle_spec(),
                        )),
                forall|k: int|
                    0 <= k < t && !dir_like((#[trigger] entries[k]).0) ==> (exists|j: int|
                        0 <= j < out@.len() && fresh_zip_file_node(
                            self.node_at(out@[j].handle_spec()),
                            entries,
                            k,
                            h,
                            512,
                            out@[j].handle_spec(),
                        )),
            decreases n - t,
        {
            let nm = match crate::zip_api::entry_name(&archives.archives[aidx], t) {
                Some(nm) => nm,
                None => vstd::pervasive::unreached(),
            };
            if !name_dir_like(nm.as_str()) {
                let size = match crate::zip_api::entry_size(&mut archives.archives[aidx], t) {
                    Ok(s) => s,
                    Err(e) => {
                        return Err(crate::FsError::ZipError(e));
                    },
                };
                let ghost prev = *self;
                let ghost out0 = out@;
                let c = self.nodes.len();
                let f = ZipFile::new(nm.as_str(), h, aidx, 512, t, size, c);
                self.nodes.push(Node::ZipFile(f));
                proof {
                    lemma_wf_append(prev, *self);
                }
                out.push(FilesystemObject::File(c));
                proof {
                    assert(fresh_zip_file_node(
                        self.node_at(c as int),
                        entries,
                        t as int,
                        h,
                        512,
                        c as int,
                    ));
                    assert forall|j: int| 0 <= j < out@.len() implies (#[trigger] out@[j]) is File
                        && old(self).node_count() <= out@[j].handle_spec() < self.node_count() && (
                    exists|k: int|
                        0 <= k < t + 1 && !dir_like(entries[k].0) && fresh_zip_file_node(
                            self.node_at(out@[j].handle_spec()),
                            entries,
                            k,
                            h,
                            512,
                            out@[j].handle_spec(),
                        )) by {
                        if j < out0.len() {
                            assert(out@[j] == out0[j]);
                            assert(self.node_at(out@[j].handle_spec()) == prev.node_at(
                                out@[j].handle_spec(),
                            ));
                            let k = choose|k: int|
                                0 <= k < t && !dir_like(entries[k].0) && fresh_zip_file_node(
                                    prev.node_at(out0[j].handle_spec()),
                                    entries,
                                    k,
                                    h,
                                    512,
                                    out0[j].handle_spec(),
                                );
                            assert(fresh_zip_file_node(
                                self.node_at(out@[j].handle_spec()),
                                entries,
                                k,
                                h,
                                512,
                                out@[j].handle_spec(),
                            ));
                        } else {
                            assert(out@[j] == FilesystemObject::File(c));
                        }
                    }
                    assert forall|k: int|
                        0 <= k < t + 1 && !dir_like((#[trigger] entries[k]).0) implies (exists|
                            j: int,
                        |
                            0 <= j < out@.len() && fresh_zip_file_node(
                                self.node_at(out@[j].handle_spec()),
                                entries,
                                k,
                                h,
                                512,
                                out@[j].handle_spec(),
                            )) by {
                        if k < t {
                            let j = choose|j: int|
                                0 <= j < out0.len() && fresh_zip_file_node(
                                    prev.node_at(out0[j].handle_spec()),
                                    entries,
                                    k,
                                    h,
                                    512,
                                    out0[j].handle_spec(),
                                );
                            assert(out@[j] == out0[j]);
                            assert(self.node_at(out@[j].handle_spec()) == prev.node_at(
                                out@[j].handle_spec(),
                            ));
                            assert(fresh_zip_file_node(
                                self.node_at(out@[j].handle_spec()),
                                entries,
                                k,
                                h,
                                512,
                                out@[j].handle_spec(),
                            ));
                        } else {
                            assert(out@[out@.len() - 1] == FilesystemObject::File(c));
                            assert(fresh_zip_file_node(
                                self.node_at(c as int),
                                entries,
                                k,
                                h,
                                512,
                                c as int,
                            ));
                        }
                    }
                }
            }
            t += 1;
        }
        Ok(out)
    }

    /// Reads up to `max` bytes from the archive file at `h`. An exhausted
    /// window is refilled first: the entry's forward-only stream is
    /// re-opened, skipped to the logical offset, and one buffer-sized chunk
    /// is read; the offset advances past the chunk. The bytes served are the
    /// entry's own content at the old offset — a read touches no other
    /// node's state and no archive's entry set, so reads of distinct entries
    /// through the shared archive never interleave their contents. A read
    /// served purely from the window always succeeds; a refill succeeds
    /// whenever the entry decodes and the offsets fit. Archive failures are
    /// reported and leave the node as it was.
    pub fn read_zip(&mut self, archives: &mut ArchiveStore, h: usize, max: usize) -> (r:
        crate::FsResult<Vec<u8>>)
        requires
            old(self).wf(),
            old(self).valid_handle(h as int),
        ensures
            final(self).wf(),
            same_archive_entries(*old(archives), *final(archives)),
            final(self).node_count() == old(self).node_count(),
            forall|i: int|
                0 <= i < old(self).node_count() && i != h as int ==> final(self).node_at(i) == old(self).node_at(i),
            old(self).node_at(h as int).is_directory() ==> *final(self) == *old(self) && *final(archives) == *old(archives) && (r matches Err(crate::FsError::NotAFile(p)) && p@ == old(self).full_path_spec(h as int)),
            old(self).node_at(h as int) is PhysicalFile ==> *final(self) == *old(self) && *final(archives) == *old(archives) && (r matches Err(crate::FsError::Generic(m)) && m@
                == crate::unsupported_message()),
            old(self).node_at(h as int) matches Node::ZipFile(f) ==> (final(self).node_at(
                h as int,
            ) matches Node::ZipFile(g) && crate::archive::ZipFile::same_entry(&f, &g) && (
            f.io_spec().pos() < f.io_spec().filled() ==> r is Ok) && ({
                let a = old(self).archive_of(h as int);
                (f.io_spec().pos() >= f.io_spec().filled() && 0 <= a
                    < old(archives).archive_count() && f.file_index_spec() < old(
                    archives,
                ).entries_at(a).len() && crate::zip_api::entry_decodes(
                    old(archives).archives_seq()[a],
                    f.file_index_spec(),
                ) && f.offset_spec() + f.io_spec().buf().len() <= i64::MAX) ==> r is Ok
            }) && match r {
                Ok(out) => {
                    if f.io_spec().pos() < f.io_spec().filled() {
                        *final(archives) == *old(archives) && served_from_window(
                            f.io_spec(),
                            g.io_spec(),
                            crate::FsResult::<Vec<u8>>::Ok(out),
                            max as int,
                        ) && g.offset_spec() == f.offset_spec()
                    } else {
                        {
                            let a = old(self).archive_of(h as int);
                            &&& 0 <= a < old(archives).archive_count()
                            &&& zip_read_refill(
                                f,
                                g,
                                old(archives).entries_at(a),
                                out@,
                                max as int,
                            )
                        }
                    }
                },
                Err(e) => final(self).node_at(h as int) == old(self).node_at(h as int) && (
                e is ZipError || (e matches crate::FsError::Generic(m) && (m@
                    == detached_archive_message() || m@
                    == crate::archive::invalid_seek_message()))),
            }),
    {
        match self.node(h) {
            Node::PhysicalDirectory(_) | Node::ZipDirectory(_) => {
                return Err(crate::FsError::NotAFile(self.get_full_path(h)));
            },
            Node::PhysicalFile(_) => {
                return Err(crate::FsError::Generic(String::from_str("unsupported operation")));
            },
            Node::ZipFile(_) => {},
        }
        proof {
            assert(self.wf_at(h as int));
        }
        let (needs, p, idx, off, buflen) = match self.node(h) {
            Node::ZipFile(f) => {
                let p = match f.get_parent() {
                    Some(p) => p,
                    None => vstd::pervasive::unreached(),
                };
                (f.needs_fill(), p, f.file_index(), f.offset(), f.buffer_len())
            },
            _ => vstd::pervasive::unreached(),
        };
        if needs {
            let aidx = match self.node(p) {
                Node::ZipDirectory(d) => d.get_archive(),
                _ => {
                    return Err(
                        crate::FsError::Generic(String::from_str("archive is not attached")),
                    );
                },
            };
            if aidx >= archives.archives.len() {
                return Err(crate::FsError::Generic(String::from_str("archive is not attached")));
            }
            let fresh_size = match crate::zip_api::entry_size(&mut archives.archives[aidx], idx) {
                Ok(s) => s,
                Err(e) => {
                    return Err(crate::FsError::ZipError(e));
                },
            };
            let offu = off as u64;
            let remaining: u64 = if offu < fresh_size {
                fresh_size - offu
            } else {
                0
            };
            let cnt: usize = if (buflen as u64) < remaining {
                buflen
            } else {
                remaining as usize
            };
            if i64::MAX as u64 - offu < cnt as u64 {
                return Err(crate::FsError::Generic(String::from_str("Invalid seek offset")));
            }
            let data: Vec<u8> = if cnt == 0 {
                Vec::new()
            } else {
                match crate::zip_api::entry_read_at(&mut archives.archives[aidx], idx, offu, cnt) {
                    Ok(v) => v,
                    Err(e) => {
                        return Err(crate::FsError::ZipError(e));
                    },
                }
            };
            let ghost pre = *self;
            match &mut self.nodes[h] {
                Node::ZipFile(f) => f.apply_fill(data.as_slice()),
                _ => vstd::pervasive::unreached(),
            }
            proof {
                lemma_wf_node_replaced(pre, *self, h as int);
            }
            let ghost mid = *self;
            let out = match &mut self.nodes[h] {
                Node::ZipFile(f) => f.read(max),
                _ => vstd::pervasive::unreached(),
            };
            proof {
                lemma_wf_node_replaced(mid, *self, h as int);
                match (old(self).node_at(h as int), self.node_at(h as int)) {
                    (Node::ZipFile(f), Node::ZipFile(g)) => {
                        let a = old(self).archive_of(h as int);
                        let entries = old(archives).entries_at(a);
                        let i = f.file_index_spec();
                        let size = entries[i].1.len() as int;
                        let off = f.offset_spec();
                        let cnt_s = vstd::math::min(
                            f.io_spec().buf().len() as int,
                            if off < size {
                                size - off
                            } else {
                                0
                            },
                        );
                        let served = vstd::math::min(cnt_s, max as int);
                        assert(cnt as int == cnt_s);
                        if cnt_s > 0 {
                            assert(data@ == entries[i].1.subrange(off, off + cnt_s));
                            assert(out@ =~= (data@ + f.io_spec().buf().skip(cnt_s)).subrange(
                                0,
                                served,
                            ));
                            assert(out@ =~= data@.subrange(0, served));
                            assert(data@.subrange(0, served) =~= entries[i].1.subrange(
                                off,
                                off + served,
                            ));
                        }
                    },
                    _ => {},
                }
            }
            return Ok(out);
        }
        let ghost pre2 = *self;
        let out = match &mut self.nodes[h] {
            Node::ZipFile(f) => f.read(max),
            _ => vstd::pervasive::unreached(),
        };
        proof {
            lemma_wf_node_replaced(pre2, *self, h as int);
        }
        Ok(out)
    }

    /// After a cache insertion whose new entry correctly describes the node
    /// it points at, every entry of the directory's cache is an old entry or
    /// a correct one — and the insertion takes the shape
    /// [`cache_after_insert`].
    proof fn lemma_insert_entries_ok(
        mid: NodeStore,
        post: NodeStore,
        d: int,
        name: Seq<char>,
        obj: FilesystemObject,
    )
        requires
            0 <= d < mid.node_count(),
            post.node_count() == mid.node_count(),
            forall|i: int|
                0 <= i < mid.node_count() && i != d ==> post.nodes_seq()[i] == mid.nodes_seq()[i],
            cache::keys_unique(mid.node_at(d).children_seq()),
            ({
                let ch0 = mid.node_at(d).children_seq();
                let ch1 = post.node_at(d).children_seq();
                if cache::has_key(ch0, name) {
                    exists|j: int|
                        0 <= j < ch0.len() && ch0[j].0@ == name && ch1 == ch0.update(
                            j,
                            (ch1[j].0, obj),
                        ) && ch1[j].0@ == name
                } else {
                    ch1 == ch0.push((ch1.last().0, obj)) && ch1.last().0@ == name
                }
            }),
        ensures
            forall|j: int|
                0 <= j < post.node_at(d).children_seq().len() ==> {
                    let e = #[trigger] post.node_at(d).children_seq()[j];
                    (exists|k: int|
                        0 <= k < mid.node_at(d).children_seq().len() && e == mid.node_at(
                            d,
                        ).children_seq()[k]) || (e.0@ == name && e.1 == obj)
                },
            cache_after_insert(
                mid.node_at(d).children_seq(),
                post.node_at(d).children_seq(),
                name,
                obj,
            ),
    {
        let ch0 = mid.node_at(d).children_seq();
        let ch1 = post.node_at(d).children_seq();
        if cache::has_key(ch0, name) {
            let j = choose|j: int|
                0 <= j < ch0.len() && ch0[j].0@ == name && ch1 == ch0.update(j, (ch1[j].0, obj))
                    && ch1[j].0@ == name;
            assert forall|i: int| 0 <= i < ch1.len() implies {
                let e = #[trigger] ch1[i];
                (exists|k: int| 0 <= k < ch0.len() && e == ch0[k]) || (e.0@ == name && e.1 == obj)
            } by {
                if i != j {
                    assert(ch1[i] == ch0[i]);
                }
            }
        } else {
            assert(ch1.take(ch0.len() as int) =~= ch0);
            assert forall|i: int| 0 <= i < ch1.len() implies {
                let e = #[trigger] ch1[i];
                (exists|k: int| 0 <= k < ch0.len() && e == ch0[k]) || (e.0@ == name && e.1 == obj)
            } by {
                if i < ch0.len() {
                    assert(ch1[i] == ch0[i]);
                }
            }
        }
    }
}

} // verus!
