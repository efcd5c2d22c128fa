//! A directory's child cache: a mapping from child name to the shared
//! reference of the child node, populated lazily, together with the flag
//! that records whether the backend listing has been consulted.

use vstd::prelude::*;

use crate::FilesystemObject;

verus! {

/// Whether some entry of `s` carries the key `name`.
pub open spec fn has_key(s: Seq<(String, FilesystemObject)>, name: Seq<char>) -> bool {
    exists|j: int| 0 <= j < s.len() && s[j].0@ == name
}

/// The object filed under `name`: the first entry carrying that key.
pub open spec fn lookup_seq(s: Seq<(String, FilesystemObject)>, name: Seq<char>) -> Option<
    FilesystemObject,
>
    decreases s.len(),
{
    if s.len() == 0 {
        None
    } else if s[0].0@ == name {
        Some(s[0].1)
    } else {
        lookup_seq(s.drop_first(), name)
    }
}

/// No two entries carry the same key.
pub open spec fn keys_unique(s: Seq<(String, FilesystemObject)>) -> bool {
    forall|j: int, k: int| 0 <= j < k < s.len() ==> s[j].0@ != s[k].0@
}

/// A lookup finds an entry exactly when one carries the key.
pub proof fn lemma_lookup_some(s: Seq<(String, FilesystemObject)>, name: Seq<char>)
    ensures
        (lookup_seq(s, name) is Some) <==> has_key(s, name),
    decreases s.len(),
{
    if s.len() > 0 {
        if s[0].0@ == name {
        } else {
            lemma_lookup_some(s.drop_first(), name);
            assert(has_key(s.drop_first(), name) ==> has_key(s, name)) by {
                if has_key(s.drop_first(), name) {
                    let j = choose|j: int|
                        0 <= j < s.drop_first().len() && s.drop_first()[j].0@ == name;
                    assert(s[j + 1].0@ == name);
                }
            }
            assert(has_key(s, name) ==> has_key(s.drop_first(), name)) by {
                if has_key(s, name) {
                    let j = choose|j: int| 0 <= j < s.len() && s[j].0@ == name;
                    assert(j != 0);
                    assert(s.drop_first()[j - 1].0@ == name);
                }
            }
        }
    }
}

/// What a lookup finds, an entry of `s`.
pub proof fn lemma_lookup_is_entry(s: Seq<(String, FilesystemObject)>, name: Seq<char>)
    requires
        lookup_seq(s, name) is Some,
    ensures
        exists|j: int|
            0 <= j < s.len() && s[j].0@ == name && s[j].1 == lookup_seq(s, name).unwrap(),
    decreases s.len(),
{
    if s.len() > 0 {
        if s[0].0@ == name {
        } else {
            lemma_lookup_is_entry(s.drop_first(), name);
            let j = choose|j: int|
                0 <= j < s.drop_first().len() && s.drop_first()[j].0@ == name
                    && s.drop_first()[j].1 == lookup_seq(s.drop_first(), name).unwrap();
            assert(s[j + 1].0@ == name && s[j + 1].1 == lookup_seq(s, name).unwrap());
        }
    }
}

/// The child cache of one directory node.
pub struct ChildCache {
    entries: Vec<(String, FilesystemObject)>,
    scanned: bool,
}

impl ChildCache {
    /// The cached entries, in insertion order.
    pub closed spec fn entries_seq(&self) -> Seq<(String, FilesystemObject)> {
        self.entries@
    }

    /// True once the backend listing has been consulted; the cache is then
    /// authoritative.
    pub closed spec fn scanned_spec(&self) -> bool {
        self.scanned
    }

    /// Well-formedness: no two entries carry the same name.
    pub open spec fn wf(&self) -> bool {
        keys_unique(self.entries_seq())
    }

    /// An empty, not yet scanned cache.
    pub fn new() -> (c: ChildCache)
        ensures
            c.wf(),
            c.entries_seq().len() == 0,
            !c.scanned_spec(),
    {
        ChildCache { entries: Vec::new(), scanned: false }
    }

    /// True once the backend listing has been consulted.
    pub fn is_scanned(&self) -> (r: bool)
        ensures
            r == self.scanned_spec(),
    {
        self.scanned
    }

    /// Records that the backend listing has been consulted: the cache is
    /// authoritative from here on.
    pub fn set_scanned(&mut self)
        ensures
            final(self).entries_seq() == old(self).entries_seq(),
            final(self).scanned_spec(),
    {
        self.scanned = true;
    }

    /// How many children are cached.
    pub fn len(&self) -> (n: usize)
        ensures
            n == self.entries_seq().len(),
    {
        self.entries.len()
    }

    /// The object filed under `name`, if one is.
    pub fn lookup(&self, name: &String) -> (r: Option<FilesystemObject>)
        ensures
            r == lookup_seq(self.entries_seq(), name@),
    {
        let n = self.entries.len();
        let mut i: usize = 0;
        proof {
            assert(self.entries@.skip(0) =~= self.entries@);
        }
        while i < n
            invariant
                i <= n,
                n == self.entries@.len(),
                lookup_seq(self.entries@, name@) == lookup_seq(self.entries@.skip(i as int), name@),
            decreases n - i,
        {
            proof {
                assert(self.entries@.skip(i as int)[0] == self.entries@[i as int]);
                assert(self.entries@.skip(i as int).drop_first() =~= self.entries@.skip(i + 1));
            }
            if self.entries[i].0 == *name {
                return Some(self.entries[i].1);
            }
            i += 1;
        }
        None
    }

    /// Whether a child of this name is cached.
    pub fn contains(&self, name: &String) -> (r: bool)
        ensures
            r == has_key(self.entries_seq(), name@),
    {
        let r = self.lookup(name);
        proof {
            lemma_lookup_some(self.entries_seq(), name@);
        }
        r.is_some()
    }

    /// Files `obj` under `name`: an entry already carrying that name is
    /// replaced, else a new entry is appended.
    pub fn insert(&mut self, name: String, obj: FilesystemObject)
        requires
            old(self).wf(),
        ensures
            final(self).wf(),
            final(self).scanned_spec() == old(self).scanned_spec(),
            if has_key(old(self).entries_seq(), name@) {
                exists|j: int|
                    0 <= j < old(self).entries_seq().len() && old(self).entries_seq()[j].0@ == name@
                        && final(self).entries_seq() == old(self).entries_seq().update(
                        j,
                        (name, obj),
                    )
            } else {
                final(self).entries_seq() == old(self).entries_seq().push((name, obj))
            },
    {
        let n = self.entries.len();
        let mut i: usize = 0;
        while i < n
            invariant
                i <= n,
                n == self.entries@.len(),
                self.entries@ == old(self).entries_seq(),
                self.scanned == old(self).scanned_spec(),
                keys_unique(old(self).entries_seq()),
                forall|j: int| 0 <= j < i ==> self.entries@[j].0@ != name@,
            decreases n - i,
        {
            if self.entries[i].0 == name {
                proof {
                    let s = old(self).entries_seq();
                    assert(s[i as int].0@ == name@);
                    assert forall|j: int, k: int|
                        0 <= j < k < s.len() implies s.update(i as int, (name, obj))[j].0@
                        != s.update(i as int, (name, obj))[k].0@ by {
                        assert(keys_unique(s));
                        assert(s[j].0@ != s[k].0@);
                    }
                }
                self.entries.set(i, (name, obj));
                return ;
            }
            i += 1;
        }
        proof {
            let s = old(self).entries_seq();
            let t = s.push((name, obj));
            assert forall|j: int, k: int| 0 <= j < k < t.len() implies t[j].0@ != t[k].0@ by {
                if k < s.len() {
                    assert(keys_unique(s));
                    assert(s[j].0@ != s[k].0@);
                } else {
                    assert(t[k] == (name, obj));
                    assert(s[j].0@ != name@);
                }
            }
        }
        self.entries.push((name, obj));
    }

    /// A snapshot of the cached child objects, in cache order.
    pub fn objects(&self) -> (out: Vec<FilesystemObject>)
        ensures
            out@.len() == self.entries_seq().len(),
            forall|j: int| 0 <= j < out@.len() ==> out@[j] == self.entries_seq()[j].1,
    {
        let n = self.entries.len();
        let mut out: Vec<FilesystemObject> = Vec::new();
        let mut i: usize = 0;
        while i < n
            invariant
                i <= n,
                n == self.entries@.len(),
                out@.len() == i as int,
                forall|j: int| 0 <= j < i ==> out@[j] == self.entries@[j].1,
            decreases n - i,
        {
            out.push(self.entries[i].1);
            i += 1;
        }
        out
    }
}

} // verus!
