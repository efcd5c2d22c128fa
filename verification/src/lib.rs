//! A virtual-filesystem abstraction: a uniform File/Directory interface over
//! heterogeneous storage backends (a physical directory tree, a read-only
//! archive container), sharing one node model, one buffered-I/O emulation
//! layer and one error taxonomy.
//!
//! Nodes live in a [`store::NodeStore`] arena and refer to each other by
//! stable integer handles: a parent stores child handles, a child stores a
//! parent handle, and every node records its own handle (the self-handle) at
//! construction, so no reference cycle arises.
//!
//! Calls into the operating system (listing a directory, opening, reading,
//! writing, renaming a physical file) are not made here: the embedding
//! program performs them and hands the results in as plain values, which the
//! functions of this crate consume under exact contracts.

pub mod archive;
pub mod cache;
pub mod error;
pub mod names;
pub mod path;
pub mod physical;
pub mod store;
pub mod window;
pub mod zip_api;

use vstd::prelude::*;
use vstd::string::StringExecFns;

verus! {

pub use crate::error::FsError;

/// Result type used throughout the crate, wrapping `FsError`.
pub type FsResult<T = ()> = Result<T, FsError>;

/// A shared reference to a node: its handle in the node store, tagged with
/// what the node is. Used wherever a child or a result could be either a
/// file or a directory.
#[derive(Clone, Copy, PartialEq, Eq, Structural, Debug)]
pub enum FilesystemObject {
    File(usize),
    Directory(usize),
}

impl FilesystemObject {
    /// The handle of the node referred to, whichever kind it is.
    pub open spec fn handle_spec(&self) -> int {
        match self {
            FilesystemObject::File(h) => *h as int,
            FilesystemObject::Directory(h) => *h as int,
        }
    }

    /// The handle of the node referred to.
    pub fn handle(&self) -> (h: usize)
        ensures
            h as int == self.handle_spec(),
    {
        match self {
            FilesystemObject::File(h) => *h,
            FilesystemObject::Directory(h) => *h,
        }
    }

    /// Whether this refers to a directory node.
    pub fn is_directory(&self) -> (r: bool)
        ensures
            r == (self is Directory),
    {
        match self {
            FilesystemObject::File(_) => false,
            FilesystemObject::Directory(_) => true,
        }
    }
}

/// Where a seek starts from: the start of the content, its end, or the
/// current position.
#[derive(Clone, Copy, PartialEq, Eq, Structural, Debug)]
pub enum SeekFrom {
    Start(u64),
    End(i64),
    Current(i64),
}

/// What every filesystem node offers independently of its backend and of the
/// node store: its name (one path segment, never a full path), the handle it
/// recorded for itself at construction, its parent's handle, and the
/// stem/extension split of its name. Operations a backend does not support
/// report an error rather than aborting. The operations that touch the
/// arena — navigation, creation, buffered I/O — live on
/// [`store::NodeStore`], dispatched by node kind.
pub trait FilesystemObjectRaw: Sized {
    /// The node's name, one path segment.
    spec fn name_view(&self) -> Seq<char>;

    /// The handle this node recorded for itself at construction.
    spec fn self_handle(&self) -> int;

    /// The handle of the enclosing directory; absent only for a root.
    spec fn parent_view(&self) -> Option<usize>;

    /// Returns a fresh shared handle to this node: the self-handle recorded
    /// at construction.
    fn get(&self) -> (h: usize)
        ensures
            h as int == self.self_handle(),
    ;

    /// Returns the name of the object.
    fn name(&self) -> (r: &str)
        ensures
            r@ == self.name_view(),
    ;

    /// Returns the handle of the parent object, absent only for a root.
    fn get_parent(&self) -> (p: Option<usize>)
        ensures
            p == self.parent_view(),
    ;

    /// Returns the stem (name without extension) of the object.
    fn stem(&self) -> (r: String)
        ensures
            r@ == crate::names::stem_spec(self.name_view()),
    {
        crate::names::name_stem(self.name())
    }

    /// Returns the name's extension, if any.
    fn ext(&self) -> (r: Option<String>)
        ensures
            match r {
                Some(e) => crate::names::ext_spec(self.name_view()) == Some(e@),
                None => crate::names::ext_spec(self.name_view()) is None,
            },
    {
        crate::names::name_ext(self.name())
    }

    /// Scans the backend to populate the child cache. Backends that need no
    /// cache, and nodes that are not directories, report the operation as
    /// unsupported.
    fn scan(&mut self) -> (r: FsResult)
        ensures
            *final(self) == *old(self),
            (r matches Err(FsError::Generic(m)) && m@ == unsupported_message()),
    {
        Err(FsError::Generic(String::from_str("unsupported operation")))
    }

    /// Deletes the object. No backend of this crate supports deletion while
    /// shared handles to the node may be outstanding, so this reports the
    /// operation as unsupported.
    fn delete(&mut self) -> (r: FsResult)
        ensures
            *final(self) == *old(self),
            (r matches Err(FsError::Generic(m)) && m@ == unsupported_message()),
    {
        Err(FsError::Generic(String::from_str("unsupported operation")))
    }
}

/// The text carried by every unsupported-operation error.
pub open spec fn unsupported_message() -> Seq<char> {
    "unsupported operation"@
}

} // verus!
