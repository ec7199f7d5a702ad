//! The per-session log: which claims a session recalled and which it wrote.
//!
//! One file per session under the data dir, one entry per line, pruned when a
//! session starts.

use vstd::prelude::*;

use crate::domain::json::Json;
use crate::text::chars::{texts, to_chars};
use crate::text::path::{join_path, joined_path};
use crate::text::search::same;

verus! {

/// Days a session log outlives its last write before a session's start removes
/// it. A week covers a resumed session.
pub const LOG_RETENTION_DAYS: u64 = 7;

/// One line of the session log.
#[derive(Debug, PartialEq, Eq)]
pub struct Entry {
    /// When it happened.
    pub at: String,
    /// `recall`, `write`, or `nudge`.
    pub kind: String,
    /// The tool (for `recall` and `write`) or the nudge id (for `nudge`).
    pub name: String,
    /// Ids returned (`recall`) or created (`write`).
    pub ids: Vec<String>,
    /// Ids cited in `derived_from`.
    pub cites: Vec<String>,
}

/// A character that stays in a file name.
pub open spec fn plain_char(c: char) -> bool {
    'a' <= c <= 'z' || 'A' <= c <= 'Z' || '0' <= c <= '9' || c == '.' || c == '_' || c == '-'
}

/// Whether a character stays in a file name.
pub fn is_plain(c: char) -> (result: bool)
    ensures
        result == plain_char(c),
{
    ('a' <= c && c <= 'z') || ('A' <= c && c <= 'Z') || ('0' <= c && c <= '9') || c == '.' || c
        == '_' || c == '-'
}

/// A text with everything else replaced by a dash.
pub open spec fn plainly(s: Seq<char>) -> Seq<char> {
    s.map_values(
        |c: char|
            if plain_char(c) {
                c
            } else {
                '-'
            },
    )
}

/// The first `n` characters, or all of them.
pub open spec fn first_chars(s: Seq<char>, n: int) -> Seq<char> {
    if s.len() > n {
        s.take(n)
    } else {
        s
    }
}

/// Nothing but dots.
pub open spec fn dots(s: Seq<char>) -> bool {
    forall|i: int| 0 <= i < s.len() ==> #[trigger] s[i] == '.'
}

/// A session id reduced to a file name.
pub open spec fn file_name_of(id: Seq<char>) -> Seq<char> {
    let name = first_chars(plainly(id), 80);
    if dots(name) {
        "nosession"@
    } else {
        name
    }
}

/// A session id reduced to a file name: anything outside `[A-Za-z0-9._-]`
/// becomes `-`, so that an id cannot name a path.
pub fn safe_name(id: &str) -> (name: String)
    ensures
        name@ == file_name_of(id@),
{
    let chars = to_chars(id);
    let mut name = String::new();
    let mut only_dots = true;
    let mut i: usize = 0;
    let ghost whole = plainly(id@);
    while i < chars.len() && i < 80
        invariant
            i <= chars@.len(),
            i <= 80,
            chars@ == id@,
            whole == plainly(id@),
            name@ == whole.take(i as int),
            only_dots == dots(name@),
        decreases chars@.len() - i,
    {
        let c: char = if is_plain(chars[i]) {
            chars[i]
        } else {
            '-'
        };
        let ghost before = name@;
        name.push(c);
        if c != '.' {
            assert(name@[i as int] != '.');
            only_dots = false;
        } else {
            assert(forall|j: int| 0 <= j < before.len() ==> name@[j] == before[j]);
            assert(only_dots == dots(name@)) by {
                if !only_dots {
                    let j = choose|j: int| 0 <= j < before.len() && #[trigger] before[j] != '.';
                    assert(name@[j] != '.');
                }
            }
        }
        i += 1;
        assert(name@ =~= whole.take(i as int));
    }
    assert(name@ =~= first_chars(whole, 80));
    if only_dots {
        return "nosession".to_owned();
    }
    name
}

/// A session id cannot name a path: no slash is left in it, and it is neither
/// empty nor made of dots alone.
pub proof fn a_session_id_cannot_name_a_path(id: Seq<char>)
    ensures
        forall|i: int|
            0 <= i < file_name_of(id).len() ==> #[trigger] file_name_of(id)[i] != '/'
                && file_name_of(id)[i] != '\\',
        file_name_of(id).len() > 0,
        !dots(file_name_of(id)),
        file_name_of(id).len() <= 80,
{
    reveal_strlit("nosession");
    assert("nosession"@[0] == 'n' && "nosession"@.len() == 9);
    assert forall|i: int| 0 <= i < "nosession"@.len() implies #[trigger] "nosession"@[i] != '/'
        && "nosession"@[i] != '\\' by {}
    let name = first_chars(plainly(id), 80);
    assert(name.len() == 0 ==> dots(name));
}

/// Where a session's log lives: the directory, and the file in it.
#[derive(Debug, PartialEq, Eq)]
pub struct SessionLog {
    pub dir: String,
    pub file: String,
}

/// The session a payload names.
pub open spec fn session_of(payload: Json) -> Seq<char> {
    match payload.field_text("session_id"@) {
        Some(id) => if id.len() == 0 {
            "nosession"@
        } else {
            id
        },
        None => "nosession"@,
    }
}

/// Where the log of the payload's session lives.
pub fn session_log(data_dir: &str, payload: &Json) -> (log: SessionLog)
    ensures
        log.dir@ == joined_path(data_dir@, "hooks"@),
        log.file@ == joined_path(log.dir@, file_name_of(session_of(*payload)) + ".jsonl"@),
{
    let id = match payload.get_str("session_id") {
        Some(id) => if id.is_empty() {
            "nosession"
        } else {
            id
        },
        None => "nosession",
    };
    let dir = join_path(data_dir, "hooks");
    let file = join_path(dir.as_str(), safe_name(id).concat(".jsonl").as_str());
    SessionLog { dir, file }
}

/// A log last written at `modified` is stale at `now`, both in nanoseconds.
pub fn is_stale(modified: i64, now: i64) -> (stale: bool)
    ensures
        stale == (modified < now - LOG_RETENTION_DAYS * 86400000000000),
        stale == (now - modified > 604800000000000),
{
    (modified as i128) < now as i128 - LOG_RETENTION_DAYS as i128 * 86400000000000
}

/// The nudge was given in this session.
pub open spec fn nudged(entries: Seq<Entry>, id: Seq<char>) -> bool {
    exists|i: int|
        0 <= i < entries.len() && (#[trigger] entries[i]).kind@ == "nudge"@ && entries[i].name@
            == id
}

/// Whether this is the first time `id` is asked about in this session.
pub fn first_time(entries: &[Entry], id: &str) -> (first: bool)
    ensures
        first == !nudged(entries@, id@),
{
    let mut i: usize = 0;
    while i < entries.len()
        invariant
            i <= entries@.len(),
            forall|j: int|
                0 <= j < i ==> !((#[trigger] entries@[j]).kind@ == "nudge"@ && entries@[j].name@
                    == id@),
        decreases entries@.len() - i,
    {
        if same(entries[i].kind.as_str(), "nudge") && same(entries[i].name.as_str(), id) {
            assert(entries@[i as int].kind@ == "nudge"@);
            return false;
        }
        i += 1;
    }
    true
}

/// Something was written in this session.
pub open spec fn written(entries: Seq<Entry>) -> bool {
    exists|i: int| 0 <= i < entries.len() && (#[trigger] entries[i]).kind@ == "write"@
}

/// Whether something was written in this session.
pub fn wrote(entries: &[Entry]) -> (result: bool)
    ensures
        result == written(entries@),
{
    let mut i: usize = 0;
    while i < entries.len()
        invariant
            i <= entries@.len(),
            forall|j: int| 0 <= j < i ==> (#[trigger] entries@[j]).kind@ != "write"@,
        decreases entries@.len() - i,
    {
        if same(entries[i].kind.as_str(), "write") {
            assert(entries@[i as int].kind@ == "write"@);
            return true;
        }
        i += 1;
    }
    false
}

/// The texts that are not among those seen, each once, in order.
pub open spec fn distinct(seen: Seq<Seq<char>>, ids: Seq<Seq<char>>) -> Seq<Seq<char>>
    decreases ids.len(),
{
    if ids.len() == 0 {
        seen
    } else if seen.contains(ids[0]) {
        distinct(seen, ids.skip(1))
    } else {
        distinct(seen.push(ids[0]), ids.skip(1))
    }
}

/// The ids recalled in the first `n` entries, newest entry first, each once.
pub open spec fn recalled_before(
    seen: Seq<Seq<char>>,
    entries: Seq<Entry>,
    n: int,
) -> Seq<Seq<char>>
    decreases n,
{
    if n <= 0 {
        seen
    } else if entries[n - 1].kind@ == "recall"@ {
        recalled_before(distinct(seen, texts(entries[n - 1].ids@)), entries, n - 1)
    } else {
        recalled_before(seen, entries, n - 1)
    }
}

/// Distinct recalled ids, newest first.
pub open spec fn recalled_ids(entries: Seq<Entry>) -> Seq<Seq<char>> {
    recalled_before(Seq::empty(), entries, entries.len() as int)
}

/// Whether a text is among some.
fn is_among(seen: &Vec<String>, id: &str) -> (result: bool)
    ensures
        result == texts(seen@).contains(id@),
{
    let mut i: usize = 0;
    while i < seen.len()
        invariant
            i <= seen@.len(),
            forall|j: int| 0 <= j < i ==> (#[trigger] seen@[j])@ != id@,
        decreases seen@.len() - i,
    {
        if same(seen[i].as_str(), id) {
            assert(texts(seen@)[i as int] == id@);
            return true;
        }
        i += 1;
    }
    assert forall|j: int| 0 <= j < texts(seen@).len() implies texts(seen@)[j] != id@ by {
        assert(texts(seen@)[j] == seen@[j]@);
    }
    false
}

/// Add what is not there yet.
fn add_distinct(seen: &mut Vec<String>, ids: &Vec<String>)
    ensures
        texts(final(seen)@) == distinct(texts(old(seen)@), texts(ids@)),
{
    let mut i: usize = 0;
    let ghost all = texts(ids@);
    assert(all.skip(0) =~= all);
    while i < ids.len()
        invariant
            i <= ids@.len(),
            all == texts(ids@),
            distinct(texts(seen@), all.skip(i as int)) == distinct(texts(old(seen)@), all),
        decreases ids@.len() - i,
    {
        let ghost before = texts(seen@);
        assert(all.skip(i as int)[0] == ids@[i as int]@);
        assert(all.skip(i as int).skip(1) =~= all.skip(i + 1));
        if !is_among(seen, ids[i].as_str()) {
            seen.push(ids[i].clone());
            assert(texts(seen@) =~= before.push(ids@[i as int]@));
        }
        i += 1;
    }
}

/// Distinct recalled ids, newest first.
pub fn recalled(entries: &[Entry]) -> (ids: Vec<String>)
    ensures
        texts(ids@) == recalled_ids(entries@),
{
    let mut ids: Vec<String> = Vec::new();
    let mut n: usize = entries.len();
    assert(texts(ids@) =~= Seq::empty());
    while n > 0
        invariant
            n <= entries@.len(),
            recalled_before(texts(ids@), entries@, n as int) == recalled_ids(entries@),
        decreases n,
    {
        n -= 1;
        if same(entries[n].kind.as_str(), "recall") {
            add_distinct(&mut ids, &entries[n].ids);
        }
    }
    ids
}

/// No recalled id is listed twice.
pub proof fn recalled_ids_are_distinct(entries: Seq<Entry>)
    ensures
        recalled_ids(entries).no_duplicates(),
{
    lemma_recalled_distinct(Seq::empty(), entries, entries.len() as int);
}

proof fn lemma_distinct(seen: Seq<Seq<char>>, ids: Seq<Seq<char>>)
    requires
        seen.no_duplicates(),
    ensures
        distinct(seen, ids).no_duplicates(),
    decreases ids.len(),
{
    if ids.len() > 0 {
        if seen.contains(ids[0]) {
            lemma_distinct(seen, ids.skip(1));
        } else {
            let more = seen.push(ids[0]);
            assert forall|i: int, j: int|
                0 <= i < more.len() && 0 <= j < more.len() && i != j implies more[i] != more[j] by {
                if i == seen.len() {
                    assert(seen.contains(seen[j]));
                }
                if j == seen.len() {
                    assert(seen.contains(seen[i]));
                }
            }
            lemma_distinct(more, ids.skip(1));
        }
    }
}

proof fn lemma_recalled_distinct(seen: Seq<Seq<char>>, entries: Seq<Entry>, n: int)
    requires
        seen.no_duplicates(),
    ensures
        recalled_before(seen, entries, n).no_duplicates(),
    decreases n,
{
    if n > 0 {
        if entries[n - 1].kind@ == "recall"@ {
            lemma_distinct(seen, texts(entries[n - 1].ids@));
            lemma_recalled_distinct(distinct(seen, texts(entries[n - 1].ids@)), entries, n - 1);
        } else {
            lemma_recalled_distinct(seen, entries, n - 1);
        }
    }
}

proof fn lemma_recalled_frame(seen: Seq<Seq<char>>, entries: Seq<Entry>, entry: Entry, n: int)
    requires
        n <= entries.len(),
    ensures
        recalled_before(seen, entries.push(entry), n) == recalled_before(seen, entries, n),
    decreases n,
{
    if n > 0 {
        assert(entries.push(entry)[n - 1] == entries[n - 1]);
        if entries[n - 1].kind@ == "recall"@ {
            lemma_recalled_frame(
                distinct(seen, texts(entries[n - 1].ids@)),
                entries,
                entry,
                n - 1,
            );
        } else {
            lemma_recalled_frame(seen, entries, entry, n - 1);
        }
    }
}

proof fn lemma_distinct_holds(seen: Seq<Seq<char>>, ids: Seq<Seq<char>>, id: Seq<char>)
    ensures
        distinct(seen, ids).contains(id) <==> seen.contains(id) || ids.contains(id),
        distinct(seen, ids).len() >= seen.len(),
        distinct(seen, ids).take(seen.len() as int) == seen,
    decreases ids.len(),
{
    if ids.len() == 0 {
        assert(seen.take(seen.len() as int) =~= seen);
    } else {
        let rest = ids.skip(1);
        assert(ids.contains(id) <==> ids[0] == id || rest.contains(id)) by {
            if ids.contains(id) {
                let i = ids.index_of(id);
                if i > 0 {
                    assert(rest[i - 1] == id);
                }
            }
            if rest.contains(id) {
                assert(ids[rest.index_of(id) + 1] == id);
            }
        }
        if seen.contains(ids[0]) {
            lemma_distinct_holds(seen, rest, id);
        } else {
            let more = seen.push(ids[0]);
            lemma_distinct_holds(more, rest, id);
            assert(more.contains(id) <==> seen.contains(id) || ids[0] == id) by {
                if seen.contains(id) {
                    assert(more[seen.index_of(id)] == id);
                }
                assert(more[seen.len() as int] == ids[0]);
                if more.contains(id) {
                    let i = more.index_of(id);
                    if i < seen.len() {
                        assert(seen[i] == id);
                    }
                }
            }
            let all = distinct(more, rest);
            assert(all.take(seen.len() as int) =~= all.take(more.len() as int).take(
                seen.len() as int,
            ));
            assert(more.take(seen.len() as int) =~= seen);
        }
    }
}

proof fn lemma_distinct_all(seen: Seq<Seq<char>>, ids: Seq<Seq<char>>)
    requires
        (seen + ids).no_duplicates(),
    ensures
        distinct(seen, ids) == seen + ids,
    decreases ids.len(),
{
    if ids.len() == 0 {
        assert(seen + ids =~= seen);
    } else {
        if seen.contains(ids[0]) {
            let i = seen.index_of(ids[0]);
            assert((seen + ids)[i] == (seen + ids)[seen.len() as int]);
        }
        assert(seen.push(ids[0]) + ids.skip(1) =~= seen + ids);
        lemma_distinct_all(seen.push(ids[0]), ids.skip(1));
    }
}

proof fn lemma_recalled_holds(seen: Seq<Seq<char>>, entries: Seq<Entry>, n: int, id: Seq<char>)
    requires
        n <= entries.len(),
    ensures
        recalled_before(seen, entries, n).contains(id) <==> seen.contains(id) || exists|i: int|
            0 <= i < n && recalls(#[trigger] entries[i], id),
        recalled_before(seen, entries, n).len() >= seen.len(),
        recalled_before(seen, entries, n).take(seen.len() as int) == seen,
    decreases n,
{
    if n <= 0 {
        assert(seen.take(seen.len() as int) =~= seen);
    } else {
        let last = entries[n - 1];
        let ids = texts(last.ids@);
        if last.kind@ == "recall"@ {
            let more = distinct(seen, ids);
            lemma_distinct_holds(seen, ids, id);
            lemma_recalled_holds(more, entries, n - 1, id);
            let all = recalled_before(more, entries, n - 1);
            assert(all.take(seen.len() as int) =~= all.take(more.len() as int).take(
                seen.len() as int,
            ));
        } else {
            lemma_recalled_holds(seen, entries, n - 1, id);
        }
        if ids.contains(id) && last.kind@ == "recall"@ {
            assert(recalls(entries[n - 1], id));
        }
        if exists|i: int| 0 <= i < n && recalls(#[trigger] entries[i], id) {
            let i = choose|i: int| 0 <= i < n && recalls(#[trigger] entries[i], id);
            if i == n - 1 {
                assert(ids.contains(id));
            } else {
                assert(0 <= i < n - 1 && recalls(entries[i], id));
            }
        }
    }
}

/// The entry says that `id` was recalled.
pub open spec fn recalls(entry: Entry, id: Seq<char>) -> bool {
    entry.kind@ == "recall"@ && texts(entry.ids@).contains(id)
}

/// The recalled ids are exactly those that some recall in the log returned.
pub proof fn every_recalled_id_is_listed(entries: Seq<Entry>, id: Seq<char>)
    ensures
        recalled_ids(entries).contains(id) <==> exists|i: int|
            0 <= i < entries.len() && recalls(#[trigger] entries[i], id),
{
    lemma_recalled_holds(Seq::empty(), entries, entries.len() as int, id);
}

/// The newest recall comes first, with its ids in the order it returned them;
/// an entry of another kind changes nothing.
pub proof fn the_newest_recall_comes_first(entries: Seq<Entry>, entry: Entry)
    ensures
        entry.kind@ == "recall"@ && texts(entry.ids@).no_duplicates() ==> recalled_ids(
            entries.push(entry),
        ).len() >= entry.ids@.len() && recalled_ids(entries.push(entry)).take(
            entry.ids@.len() as int,
        ) == texts(entry.ids@),
        entry.kind@ != "recall"@ ==> recalled_ids(entries.push(entry)) == recalled_ids(entries),
{
    let ids = texts(entry.ids@);
    let all = entries.push(entry);
    let n = entries.len() as int;
    assert(all[n] == entry);
    if entry.kind@ == "recall"@ {
        let more = distinct(Seq::empty(), ids);
        lemma_recalled_frame(more, entries, entry, n);
        if ids.no_duplicates() {
            assert(Seq::<Seq<char>>::empty() + ids =~= ids);
            lemma_distinct_all(Seq::empty(), ids);
            lemma_recalled_holds(ids, entries, n, Seq::empty());
        }
    } else {
        lemma_recalled_frame(Seq::empty(), entries, entry, n);
    }
}

/// What the log says it says for good, and of one entry only what that entry
/// says: a nudge is known once its entry is there, a write once one is.
pub proof fn the_log_says_what_its_entries_say(entries: Seq<Entry>, entry: Entry, id: Seq<char>)
    ensures
        !nudged(Seq::empty(), id),
        !written(Seq::empty()),
        nudged(entries.push(entry), id) <==> nudged(entries, id) || (entry.kind@ == "nudge"@
            && entry.name@ == id),
        written(entries.push(entry)) <==> written(entries) || entry.kind@ == "write"@,
{
    let all = entries.push(entry);
    assert(all[entries.len() as int] == entry);
    if nudged(entries, id) {
        let i = choose|i: int|
            0 <= i < entries.len() && (#[trigger] entries[i]).kind@ == "nudge"@ && entries[i].name@
                == id;
        assert(all[i] == entries[i]);
    }
    if nudged(all, id) {
        let i = choose|i: int|
            0 <= i < all.len() && (#[trigger] all[i]).kind@ == "nudge"@ && all[i].name@ == id;
        if i < entries.len() {
            assert(entries[i] == all[i]);
        }
    }
    if written(entries) {
        let i = choose|i: int| 0 <= i < entries.len() && (#[trigger] entries[i]).kind@ == "write"@;
        assert(all[i] == entries[i]);
    }
    if written(all) {
        let i = choose|i: int| 0 <= i < all.len() && (#[trigger] all[i]).kind@ == "write"@;
        if i < entries.len() {
            assert(entries[i] == all[i]);
        }
    }
}

/// A session id of letters, digits, dots, dashes and underscores keeps its own
/// log: it is its own file name, unless it is too long or only dots.
pub proof fn a_plain_session_id_is_its_file_name(id: Seq<char>)
    requires
        0 < id.len() <= 80,
        id[0] != '.',
        forall|i: int|
            0 <= i < id.len() ==> ('a' <= #[trigger] id[i] <= 'z' || 'A' <= id[i] <= 'Z' || '0'
                <= id[i] <= '9' || id[i] == '.' || id[i] == '_' || id[i] == '-'),
    ensures
        file_name_of(id) == id,
{
    assert(plainly(id) =~= id);
}

/// A file name has a character for each of the first 80 of the id, the same
/// one where a file name may hold it and a dash where not.
pub proof fn a_file_name_follows_the_session_id(id: Seq<char>, i: int)
    requires
        file_name_of(id) != "nosession"@,
        0 <= i < id.len(),
        i < 80,
    ensures
        file_name_of(id).len() == if id.len() < 80 {
            id.len() as int
        } else {
            80
        },
        file_name_of(id)[i] == if plain_char(id[i]) {
            id[i]
        } else {
            '-'
        },
        plain_char(id[i]) <==> ('a' <= id[i] <= 'z' || 'A' <= id[i] <= 'Z' || '0' <= id[i] <= '9'
            || id[i] == '.' || id[i] == '_' || id[i] == '-'),
{
}

/// A session keeps the log of the id its client gives it, and the one without
/// an id has one too.
pub proof fn a_session_is_known_by_its_id(payload: Json, id: Seq<char>)
    ensures
        payload.field_text("session_id"@) == Some(id) && id.len() > 0 ==> session_of(payload) == id,
        payload.field_text("session_id"@) == Some(id) && id.len() == 0 ==> session_of(payload)
            == "nosession"@,
        payload.field_text("session_id"@) is None ==> session_of(payload) == "nosession"@,
        dots(id) ==> file_name_of(id) == "nosession"@,
{
    if dots(id) {
        let name = first_chars(plainly(id), 80);
        assert forall|i: int| 0 <= i < name.len() implies #[trigger] name[i] == '.' by {
            assert(id[i] == '.');
        }
    }
}

/// Of a long text the first characters are kept, as many as asked for, and of a
/// short one all.
pub proof fn the_first_characters_are_kept(s: Seq<char>, n: int, i: int)
    requires
        n >= 0,
    ensures
        s.len() <= n ==> first_chars(s, n) == s,
        s.len() > n ==> first_chars(s, n).len() == n,
        0 <= i < first_chars(s, n).len() ==> first_chars(s, n)[i] == s[i],
{
}

} // verus!
