//! File-system paths as texts, joined as Unix joins them.

use crate::text::{chars_of, string_of};
use vstd::prelude::*;

verus! {

/// `name` below `base`: an absolute `name` stands for itself; otherwise a
/// slash separates the two unless `base` is empty or ends in one.
pub open spec fn path_join(base: Seq<char>, name: Seq<char>) -> Seq<char> {
    if name.len() > 0 && name[0] == '/' {
        name
    } else if base.len() == 0 {
        name
    } else if base.last() == '/' {
        base + name
    } else {
        base + seq!['/'] + name
    }
}

/// The path begins at the root.
pub open spec fn is_absolute(path: Seq<char>) -> bool {
    path.len() > 0 && path[0] == '/'
}

/// `name` below `base`.
pub fn join_path(base: &str, name: &str) -> (r: String)
    ensures
        r@ == path_join(base@, name@),
{
    let n = chars_of(name);
    if n.len() > 0 && n[0] == '/' {
        return string_of(&n);
    }
    let mut b = chars_of(base);
    if b.len() == 0 {
        return string_of(&n);
    }
    if b[b.len() - 1] != '/' {
        b.push('/');
        assert(b@ == base@ + seq!['/']);
    }
    crate::text::extend(&mut b, &n);
    string_of(&b)
}

/// Whether the path begins at the root.
pub fn absolute(path: &str) -> (r: bool)
    ensures
        r == is_absolute(path@),
{
    let p = chars_of(path);
    p.len() > 0 && p[0] == '/'
}

} // verus!
