//! Path arithmetic: a node's full path is derived, never stored, by joining
//! the names of its ancestors with the path separator.

use vstd::prelude::*;
use vstd::string::StringExecFns;

verus! {

/// The separator placed between path segments.
pub open spec fn separator() -> Seq<char> {
    "/"@
}

/// The path obtained by appending the segment `name` under `parent`.
pub open spec fn join_spec(parent: Seq<char>, name: Seq<char>) -> Seq<char> {
    parent + separator() + name
}

/// The path obtained by joining a whole chain of segment names in order: the
/// first segment stands alone, each later one is appended with a separator.
pub open spec fn joined_path(names: Seq<Seq<char>>) -> Seq<char>
    decreases names.len(),
{
    if names.len() == 0 {
        Seq::<char>::empty()
    } else if names.len() == 1 {
        names[0]
    } else {
        join_spec(joined_path(names.drop_last()), names.last())
    }
}

/// Appends the segment `name` under the path `parent`.
pub fn join(parent: &str, name: &str) -> (r: String)
    ensures
        r@ == join_spec(parent@, name@),
{
    String::from_str(parent).concat("/").concat(name)
}

} // verus!
