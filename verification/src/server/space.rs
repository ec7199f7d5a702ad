//! The space a directory stands for.
//!
//! The space served when nothing names one is the enclosing git project, else
//! the directory itself, else `default`. It is derived in the session process,
//! so the daemon handshake carries a per-project space even under one global
//! registration.

use vstd::prelude::*;
use vstd::slice::slice_subrange;

use crate::domain::model::{slug_char, space_name, SpaceName};
use crate::text::case::{ascii_lower, to_ascii_lower};
use crate::text::chars::{to_chars, to_text};
use crate::text::path::{join_path, joined_path};
use crate::text::search::{same, stands_at, starts_with};
use crate::text::strip::{
    strip, stripped, stripping_keeps_characters, stripping_takes_only_that_character,
};
use crate::text::words::{trim, trimmed};

verus! {

/// Where the last segment of a path starts: behind its last slash.
pub open spec fn last_segment(path: Seq<char>) -> int
    decreases path.len(),
{
    if path.len() == 0 || path.last() == '/' {
        path.len() as int
    } else {
        last_segment(path.drop_last())
    }
}

pub proof fn lemma_last_segment(path: Seq<char>)
    ensures
        0 <= last_segment(path) <= path.len(),
        last_segment(path) > 0 ==> path[last_segment(path) - 1] == '/',
    decreases path.len(),
{
    if path.len() > 0 && path.last() != '/' {
        lemma_last_segment(path.drop_last());
    }
}

/// The name of a directory: its last segment, past trailing slashes and `.`s.
/// The root and a path that ends in `..` have none.
pub open spec fn dir_name(path: Seq<char>) -> Option<Seq<char>>
    decreases path.len(),
{
    let start = last_segment(path);
    let name = path.skip(start);
    if name.len() > 0 && name != "."@ {
        if name == ".."@ {
            None
        } else {
            Some(name)
        }
    } else if start > 0 {
        proof {
            lemma_last_segment(path);
        }
        dir_name(path.take(start - 1))
    } else {
        None
    }
}

/// The name of a directory, if it has one.
pub fn name_of_dir(path: &str) -> (name: Option<String>)
    ensures
        match name {
            Some(name) => dir_name(path@) == Some(name@),
            None => dir_name(path@) is None,
        },
{
    let chars = to_chars(path);
    let mut end: usize = chars.len();
    assert(path@.take(end as int) =~= path@);
    loop
        invariant
            end <= chars@.len(),
            chars@ == path@,
            dir_name(path@) == dir_name(path@.take(end as int)),
        decreases end,
    {
        let mut start: usize = end;
        while start > 0 && chars[start - 1] != '/'
            invariant
                start <= end <= chars@.len(),
                chars@ == path@,
                last_segment(path@.take(end as int)) == last_segment(path@.take(start as int)),
            decreases start,
        {
            assert(path@.take(start as int).drop_last() =~= path@.take(start - 1));
            start -= 1;
        }
        assert(last_segment(path@.take(end as int)) == start);
        let name = to_text(slice_subrange(chars.as_slice(), start, end));
        assert(path@.take(end as int).skip(start as int) =~= path@.subrange(
            start as int,
            end as int,
        ));
        if start < end && !same(name.as_str(), ".") {
            if same(name.as_str(), "..") {
                return None;
            }
            return Some(name);
        }
        if start == 0 {
            return None;
        }
        assert(path@.take(end as int).take(start - 1) =~= path@.take(start - 1));
        end = start - 1;
    }
}

/// A character of a directory's name, as a space name takes it.
pub open spec fn slugged(c: char) -> char {
    if 'a' <= c <= 'z' || 'A' <= c <= 'Z' || '0' <= c <= '9' {
        ascii_lower(c)
    } else if c == '-' || c == '_' {
        c
    } else {
        '-'
    }
}

/// The start of a text, `n` characters at most.
pub open spec fn at_most(s: Seq<char>, n: int) -> Seq<char> {
    if s.len() > n {
        s.take(n)
    } else {
        s
    }
}

/// A directory's name as a slug: lowercased, anything outside `[a-z0-9-_]`
/// replaced by `-`, capped, without dashes at its ends.
pub open spec fn project_slug(name: Seq<char>) -> Seq<char> {
    stripped(at_most(name.map_values(|c: char| slugged(c)), SpaceName::MAX_LEN as int), '-')
}

/// The space a directory names, if anything usable is left of its name. Never
/// the reserved `user` space: a project that happens to be called `user` must
/// not absorb cross-project personal memory.
pub open spec fn space_of_dir(dir: Seq<char>) -> Option<Seq<char>> {
    match dir_name(dir) {
        Some(name) => if project_slug(name).len() == 0 || project_slug(name) == "user"@ {
            None
        } else {
            Some(project_slug(name))
        },
        None => None,
    }
}

/// A character of a directory's name, as a space name takes it.
fn to_slug_char(c: char) -> (slug: char)
    ensures
        slug == slugged(c),
        slug_char(slug),
{
    if ('a' <= c && c <= 'z') || ('A' <= c && c <= 'Z') || ('0' <= c && c <= '9') {
        to_ascii_lower(c)
    } else if c == '-' || c == '_' {
        c
    } else {
        '-'
    }
}

/// `dir`'s name as a space: lowercased, anything outside `[a-z0-9-_]` becomes
/// `-`, capped at [`SpaceName::MAX_LEN`]. `None` when nothing survives, and
/// for the reserved `user` space.
pub fn space_from_dir_name(dir: &str) -> (space: Option<SpaceName>)
    ensures
        match space {
            Some(space) => space_of_dir(dir@) == Some(space@),
            None => space_of_dir(dir@) is None,
        },
{
    let name = match name_of_dir(dir) {
        Some(name) => name,
        None => {
            return None;
        },
    };
    let chars = to_chars(name.as_str());
    let mut mapped: Vec<char> = Vec::new();
    let mut i: usize = 0;
    let ghost whole = name@.map_values(|c: char| slugged(c));
    while i < chars.len() && i < SpaceName::MAX_LEN
        invariant
            i <= chars@.len(),
            i <= SpaceName::MAX_LEN,
            chars@ == name@,
            whole == name@.map_values(|c: char| slugged(c)),
            mapped@ == whole.take(i as int),
            forall|j: int| 0 <= j < i ==> slug_char(#[trigger] mapped@[j]),
        decreases chars@.len() - i,
    {
        mapped.push(to_slug_char(chars[i]));
        i += 1;
        assert(mapped@ =~= whole.take(i as int));
    }
    assert(mapped@ =~= at_most(whole, SpaceName::MAX_LEN as int));
    let slug = to_text(strip(mapped.as_slice(), '-'));
    if slug.as_str().is_empty() || same(slug.as_str(), "user") {
        return None;
    }
    proof {
        stripping_keeps_characters(mapped@, '-');
        assert(space_name(slug@)) by {
            assert forall|j: int| 0 <= j < slug@.len() implies slug_char(#[trigger] slug@[j]) by {
                assert(mapped@.contains(stripped(mapped@, '-')[j]));
                assert(slug_char(mapped@[mapped@.index_of(slug@[j])]));
            }
        }
    }
    match SpaceName::new(slug.as_str()) {
        Ok(space) => Some(space),
        Err(_) => None,
    }
}

/// The space served from `cwd`, inside the project at `project` if it is in
/// one.
pub open spec fn served_space(cwd: Seq<char>, project: Option<Seq<char>>) -> Seq<char> {
    let named = match project {
        Some(dir) => space_of_dir(dir),
        None => None,
    };
    match named {
        Some(space) => space,
        None => match space_of_dir(cwd) {
            Some(space) => space,
            None => "default"@,
        },
    }
}

/// The space served when nothing names one: the enclosing project, else the
/// directory itself, else [`fallback_space`].
pub fn derived_space(cwd: &str, project: Option<&str>) -> (space: SpaceName)
    ensures
        space@ == served_space(
            cwd@,
            match project {
                Some(dir) => Some(dir@),
                None => None,
            },
        ),
{
    if let Some(dir) = project {
        if let Some(space) = space_from_dir_name(dir) {
            return space;
        }
    }
    match space_from_dir_name(cwd) {
        Some(space) => space,
        None => fallback_space(),
    }
}

/// The space of last resort, kept as the literal `default` so stores written
/// before derivation existed keep resolving to the same place.
pub fn fallback_space() -> (space: SpaceName)
    ensures
        space@ == "default"@,
{
    proof {
        reveal_strlit("default");
        assert(space_name("default"@));
    }
    match SpaceName::new("default") {
        Ok(space) => space,
        Err(_) => SpaceName::user(),
    }
}

/// The reserved `user` space is never derived.
pub proof fn the_user_space_is_never_derived(cwd: Seq<char>, project: Option<Seq<char>>)
    ensures
        served_space(cwd, project) != "user"@,
{
    reveal_strlit("default");
    reveal_strlit("user");
    assert("default"@.len() == 7 && "user"@.len() == 4);
}

/// The private git directory a worktree's `.git` file names, seen from the
/// directory that holds the file: one line, `gitdir: <its private dir>`.
pub fn git_dir_named(dir: &str, contents: &str) -> (found: Option<String>)
    ensures
        match found {
            Some(path) => starts_with(contents@, "gitdir:"@) && path@ == joined_path(
                dir@,
                trimmed(contents@.skip(7)),
            ),
            None => !starts_with(contents@, "gitdir:"@),
        },
{
    proof {
        reveal_strlit("gitdir:");
    }
    let chars = to_chars(contents);
    let mark = to_chars("gitdir:");
    if !stands_at(chars.as_slice(), mark.as_slice(), 0) {
        return None;
    }
    assert(chars@.subrange(7, chars@.len() as int) =~= contents@.skip(7));
    let target = to_text(trim(slice_subrange(chars.as_slice(), 7, chars.len())));
    Some(join_path(dir, target.as_str()))
}

/// The git directory all worktrees share: what `commondir` names, seen from
/// the private one; a primary checkout has no such file.
pub fn common_dir(git_dir: &str, commondir: Option<&str>) -> (path: String)
    ensures
        path@ == match commondir {
            Some(shared) => joined_path(git_dir@, trimmed(shared@)),
            None => git_dir@,
        },
{
    match commondir {
        Some(shared) => {
            let chars = to_chars(shared);
            join_path(git_dir, to_text(trim(chars.as_slice())).as_str())
        },
        None => git_dir.to_owned(),
    }
}

proof fn lemma_last_segment_at(path: Seq<char>, start: int)
    requires
        0 <= start <= path.len(),
        start == 0 || path[start - 1] == '/',
        forall|i: int| start <= i < path.len() ==> #[trigger] path[i] != '/',
    ensures
        last_segment(path) == start,
    decreases path.len(),
{
    if path.len() > start {
        lemma_last_segment_at(path.drop_last(), start);
    }
}

/// The last segment of a path is the directory's name, whatever stands before
/// it; a slash or `/.` behind it changes nothing, and behind `/..` there is
/// none.
pub proof fn a_directory_is_named_by_its_last_segment(parent: Seq<char>, name: Seq<char>)
    requires
        name.len() > 0,
        forall|i: int| 0 <= i < name.len() ==> #[trigger] name[i] != '/',
        name != "."@,
        name != ".."@,
    ensures
        dir_name(name) == Some(name),
        dir_name(parent + "/"@ + name) == Some(name),
        dir_name(parent + "/"@ + name + "/"@) == Some(name),
        dir_name(parent + "/"@ + name + "/."@) == Some(name),
        dir_name(parent + "/.."@) is None,
{
    reveal_strlit("/");
    reveal_strlit(".");
    reveal_strlit("..");
    reveal_strlit("/.");
    reveal_strlit("/..");
    assert(name.skip(0) =~= name);
    lemma_last_segment_at(name, 0);
    let path = parent + "/"@ + name;
    lemma_last_segment_at(path, (parent.len() + 1) as int);
    assert(path.skip((parent.len() + 1) as int) =~= name);
    let slashed = path + "/"@;
    lemma_last_segment_at(slashed, slashed.len() as int);
    assert(slashed.skip(slashed.len() as int) =~= Seq::empty());
    assert(slashed.take(slashed.len() - 1) =~= path);
    assert(dir_name(slashed) == dir_name(path));
    let dotted = path + "/."@;
    lemma_last_segment_at(dotted, dotted.len() - 1);
    assert(dotted.skip(dotted.len() - 1) =~= "."@);
    assert(dotted.take(dotted.len() - 2) =~= path);
    assert(dir_name(dotted) == dir_name(path));
    let up = parent + "/.."@;
    lemma_last_segment_at(up, up.len() - 2);
    assert(up.skip(up.len() - 2) =~= ".."@);
    assert("."@.len() == 1 && ".."@.len() == 2);
}

/// A character of a space name stands for itself, a capital for its small
/// letter, and anything else for a dash.
pub proof fn a_name_is_lowered_and_dashed(c: char)
    ensures
        slug_char(c) ==> slugged(c) == c,
        'A' <= c <= 'Z' ==> slugged(c) as int == c as int + 32,
        !slug_char(c) && !('A' <= c <= 'Z') ==> slugged(c) == '-',
        slug_char(slugged(c)),
        'a' <= c <= 'z' || '0' <= c <= '9' ==> slugged(c) == c,
{
}

proof fn lemma_slug_of_a_name(name: Seq<char>)
    requires
        space_name(name),
        name[0] != '-',
        name.last() != '-',
    ensures
        project_slug(name) == name,
{
    assert(slug_char(name[0]) && slug_char(name[name.len() - 1]));
    a_name_is_lowered_and_dashed(name[0]);
    a_name_is_lowered_and_dashed(name.last());
    a_slug_keeps_its_place(name);
    assert forall|i: int| 0 <= i < name.len() implies project_slug(name)[i] == name[i] by {
        assert(slug_char(name[i]));
        a_name_is_lowered_and_dashed(name[i]);
    }
    assert(project_slug(name) =~= name);
}

/// A directory whose name is a space name already is served under that name:
/// projects with different names have different spaces.
pub proof fn a_usable_directory_name_is_its_space(
    parent: Seq<char>,
    name: Seq<char>,
    cwd: Seq<char>,
)
    requires
        space_name(name),
        name[0] != '-',
        name.last() != '-',
        name != "user"@,
    ensures
        space_of_dir(parent + "/"@ + name) == Some(name),
        space_of_dir(name) == Some(name),
        served_space(cwd, Some(parent + "/"@ + name)) == name,
        served_space(parent + "/"@ + name, None) == name,
{
    reveal_strlit(".");
    reveal_strlit("..");
    assert("."@[0] == '.' && ".."@[0] == '.');
    assert forall|i: int| 0 <= i < name.len() implies #[trigger] name[i] != '/' by {
        assert(slug_char(name[i]));
    }
    assert(slug_char(name[0]));
    a_directory_is_named_by_its_last_segment(parent, name);
    lemma_slug_of_a_name(name);
}

/// Only the first characters of a long name count, as many as a space name may
/// have, and no dash is left at the ends.
pub proof fn a_long_name_is_cut(name: Seq<char>)
    ensures
        name.len() > 64 ==> project_slug(name) == project_slug(name.take(64)),
        project_slug(name).len() <= 64,
        project_slug(name).len() > 0 ==> project_slug(name)[0] != '-' && project_slug(name).last()
            != '-',
{
    let mapped = name.map_values(|c: char| slugged(c));
    stripping_takes_only_that_character(at_most(mapped, 64), '-');
    if name.len() > 64 {
        assert(name.take(64).map_values(|c: char| slugged(c)) =~= mapped.take(64));
    }
}

/// A name that neither starts nor ends in a dash, once slugged, keeps its
/// length: each of its characters stands for one of the slug, in its place.
pub proof fn a_slug_keeps_its_place(name: Seq<char>)
    requires
        0 < name.len() <= 64,
        slugged(name[0]) != '-',
        slugged(name.last()) != '-',
    ensures
        project_slug(name).len() == name.len(),
        forall|i: int| 0 <= i < name.len() ==> project_slug(name)[i] == slugged(#[trigger] name[i]),
{
    let mapped = name.map_values(|c: char| slugged(c));
    assert(mapped[0] == slugged(name[0]));
    assert(mapped.last() == slugged(name.last()));
    stripping_takes_only_that_character(mapped, '-');
    let (from, to) = choose|from: int, to: int|
        0 <= from <= to <= mapped.len() && stripped(mapped, '-') == #[trigger] mapped.subrange(
            from,
            to,
        ) && (forall|i: int|
            0 <= i < from || to <= i < mapped.len() ==> #[trigger] mapped[i] == '-');
    assert(from == 0) by {
        if from > 0 {
            assert(mapped[0] == '-');
        }
    }
    assert(to == mapped.len()) by {
        if to < mapped.len() {
            assert(mapped[mapped.len() - 1] == '-');
        }
    }
}

/// The project decides; the directory itself is asked only where there is no
/// project or nothing usable is left of its name.
pub proof fn the_project_decides_before_the_directory(
    cwd: Seq<char>,
    other: Seq<char>,
    project: Seq<char>,
)
    ensures
        space_of_dir(project) is Some ==> served_space(cwd, Some(project)) == served_space(
            other,
            Some(project),
        ) && Some(served_space(cwd, Some(project))) == space_of_dir(project),
        space_of_dir(project) is None ==> served_space(cwd, Some(project)) == served_space(
            cwd,
            None,
        ),
        space_of_dir(cwd) is Some ==> Some(served_space(cwd, None)) == space_of_dir(cwd),
        space_of_dir(cwd) is None ==> served_space(cwd, None) == "default"@,
{
}

} // verus!
