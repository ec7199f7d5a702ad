//! Paths as text, with `/` between their segments.

use vstd::prelude::*;

use crate::text::chars::to_chars;

verus! {

/// `path` seen from `base`: itself where it is absolute, else below `base`.
pub open spec fn joined_path(base: Seq<char>, path: Seq<char>) -> Seq<char> {
    if path.len() > 0 && path[0] == '/' {
        path
    } else if base.len() == 0 || base.last() == '/' {
        base + path
    } else {
        base + seq!['/'] + path
    }
}

/// `path` seen from `base`.
pub fn join_path(base: &str, path: &str) -> (joined: String)
    ensures
        joined@ == joined_path(base@, path@),
{
    let start = to_chars(base);
    let rest = to_chars(path);
    if rest.len() > 0 && rest[0] == '/' {
        return path.to_owned();
    }
    let mut joined = base.to_owned();
    if start.len() > 0 && start[start.len() - 1] != '/' {
        joined.push('/');
        assert(joined@ =~= base@ + seq!['/']);
    }
    joined.append(path);
    joined
}

/// An absolute path stands where it is; any other stands below its base, with
/// one slash between them.
pub proof fn a_path_stands_below_its_base(base: Seq<char>, path: Seq<char>)
    ensures
        path.len() > 0 && path[0] == '/' ==> joined_path(base, path) == path,
        base.len() > 0 && base.last() != '/' && (path.len() == 0 || path[0] != '/') ==> joined_path(
            base,
            path,
        ) == base + "/"@ + path,
        base.len() > 0 && base.last() == '/' && (path.len() == 0 || path[0] != '/') ==> joined_path(
            base,
            path,
        ) == base + path,
        base.len() == 0 ==> joined_path(base, path) == path,
{
    reveal_strlit("/");
    assert(seq!['/'] =~= "/"@);
    assert(Seq::<char>::empty() + path =~= path);
    if base.len() == 0 {
        assert(base + path =~= path);
    }
}

} // verus!
