//! Splitting a node's name (one path segment) into stem and extension.
//!
//! The extension is what follows the last `.`; a leading `.` alone marks a
//! hidden name, not an extension boundary, so a name whose only `.` is its
//! first character has no extension and is its own stem.

use vstd::prelude::*;
use vstd::string::{StrSliceExecFns, StringExecFns};

verus! {

/// The largest index in `[1, upto)` holding a `.`, or `-1` when there is
/// none. Index 0 never counts: a dot there marks a hidden name.
pub open spec fn last_dot_before(s: Seq<char>, upto: int) -> int
    decreases upto,
{
    if upto <= 1 {
        -1
    } else if s[upto - 1] == '.' {
        upto - 1
    } else {
        last_dot_before(s, upto - 1)
    }
}

/// The position of the dot that separates stem from extension, or `-1`.
pub open spec fn last_dot(s: Seq<char>) -> int {
    last_dot_before(s, s.len() as int)
}

/// The portion of the name before the final `.`, or the whole name when no
/// dot separates an extension.
pub open spec fn stem_spec(s: Seq<char>) -> Seq<char> {
    if last_dot(s) < 0 {
        s
    } else {
        s.take(last_dot(s))
    }
}

/// The portion of the name after the final `.`, when one separates an
/// extension.
pub open spec fn ext_spec(s: Seq<char>) -> Option<Seq<char>> {
    if last_dot(s) < 0 {
        None
    } else {
        Some(s.skip(last_dot(s) + 1))
    }
}

/// Finds the dot that separates the name's extension, scanning from the end;
/// index 0 is never a separator.
fn find_last_dot(name: &str) -> (r: Option<usize>)
    ensures
        match r {
            Some(i) => last_dot(name@) == i as int && i < name@.len(),
            None => last_dot(name@) == -1,
        },
{
    let n = name.unicode_len();
    let mut upto = n;
    while upto > 1
        invariant
            upto <= n,
            n == name@.len(),
            last_dot_before(name@, n as int) == last_dot_before(name@, upto as int),
        decreases upto,
    {
        if name.get_char(upto - 1) == '.' {
            return Some(upto - 1);
        }
        upto = upto - 1;
    }
    None
}

/// The name's stem: everything before the final `.`, or the whole name when
/// no dot separates an extension.
pub fn name_stem(name: &str) -> (r: String)
    ensures
        r@ == stem_spec(name@),
{
    match find_last_dot(name) {
        Some(i) => {
            let sub = name.substring_char(0, i);
            proof {
                assert(sub@ =~= stem_spec(name@));
            }
            String::from_str(sub)
        },
        None => String::from_str(name),
    }
}

/// The name's extension: everything after the final `.`, when one separates
/// an extension.
pub fn name_ext(name: &str) -> (r: Option<String>)
    ensures
        match r {
            Some(e) => ext_spec(name@) == Some(e@),
            None => ext_spec(name@) is None,
        },
{
    match find_last_dot(name) {
        Some(i) => {
            let n = name.unicode_len();
            let sub = name.substring_char(i + 1, n);
            proof {
                assert(sub@ =~= name@.skip(i as int + 1));
            }
            Some(String::from_str(sub))
        },
        None => None,
    }
}

} // verus!
