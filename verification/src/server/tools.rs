//! The tools by name, and what a deployment says they are for.

use vstd::prelude::*;

use crate::text::case::{ascii_lowered, to_ascii_lower};
use crate::text::chars::{blank, is_blank, str_texts, to_chars};
use crate::text::order::{comes_before, precedes, precedes_is_total, precedes_is_transitive};
use crate::text::search::{has_prefix, same, starts_with};
use crate::text::words::{join_strs, joined};

verus! {

/// Prefix of the environment variables that override a tool description.
pub const TOOL_DESC_PREFIX: &'static str = "AGMEM_TOOL_DESC_";

/// The tools, by name.
pub open spec fn tool_names() -> Seq<Seq<char>> {
    seq![
        "remember"@,
        "recall"@,
        "context"@,
        "forget"@,
        "inspect"@,
        "consolidate"@,
        "reflect"@,
    ]
}

/// The tools, by name.
pub fn names() -> (names: Vec<&'static str>)
    ensures
        str_texts(names@) == tool_names(),
{
    let mut names: Vec<&'static str> = Vec::new();
    names.push("remember");
    names.push("recall");
    names.push("context");
    names.push("forget");
    names.push("inspect");
    names.push("consolidate");
    names.push("reflect");
    assert(str_texts(names@) =~= tool_names());
    names
}

/// Whether `name` is the name of a tool.
pub fn is_tool(name: &str) -> (result: bool)
    ensures
        result == tool_names().contains(name@),
        result == (name@ == "remember"@ || name@ == "recall"@ || name@ == "context"@ || name@
            == "forget"@ || name@ == "inspect"@ || name@ == "consolidate"@ || name@ == "reflect"@),
{
    proof {
        the_seven_tools_are_known(name@);
    }
    let all = names();
    let mut i: usize = 0;
    while i < all.len()
        invariant
            i <= all@.len(),
            str_texts(all@) == tool_names(),
            forall|j: int| 0 <= j < i ==> (#[trigger] all@[j])@ != name@,
        decreases all@.len() - i,
    {
        if same(all[i], name) {
            proof {
                assert(tool_names()[i as int] == name@);
                the_seven_tools_are_known(name@);
            }
            return true;
        }
        i += 1;
    }
    assert forall|j: int| 0 <= j < tool_names().len() implies tool_names()[j] != name@ by {
        assert(tool_names()[j] == all@[j]@);
    }
    false
}

/// Per-tool description overrides, keyed by tool name.
///
/// A tool description is the whole product surface: it is what decides
/// whether an agent reaches for memory at all, and it is the one part of agmem
/// a deployment has a reason to reword without waiting for a release.
/// `AGMEM_TOOL_DESC_REMEMBER=...` replaces `remember`'s text outright; anything
/// not named keeps the built-in. There is no partial form on purpose.
#[derive(Debug, PartialEq, Eq)]
pub struct ToolDescriptions {
    /// Ascending by name, no name twice.
    entries: Vec<(String, String)>,
}

/// The names stand in ascending order, so none occurs twice.
spec fn ascending(entries: Seq<(String, String)>) -> bool {
    forall|i: int, j: int|
        0 <= i < j < entries.len() ==> precedes(#[trigger] entries[i].0@, #[trigger] entries[j].0@)
}

/// The map some entries stand for.
spec fn map_of(entries: Seq<(String, String)>) -> Map<Seq<char>, Seq<char>>
    decreases entries.len(),
{
    if entries.len() == 0 {
        Map::empty()
    } else {
        map_of(entries.drop_last()).insert(entries.last().0@, entries.last().1@)
    }
}

impl View for ToolDescriptions {
    type V = Map<Seq<char>, Seq<char>>;

    closed spec fn view(&self) -> Map<Seq<char>, Seq<char>> {
        map_of(self.entries@)
    }
}

proof fn lemma_map_of(entries: Seq<(String, String)>)
    requires
        ascending(entries),
    ensures
        forall|i: int|
            0 <= i < entries.len() ==> #[trigger] map_of(entries).contains_key(entries[i].0@)
                && map_of(entries)[entries[i].0@] == entries[i].1@,
        forall|key: Seq<char>| #[trigger]
            map_of(entries).contains_key(key) ==> exists|i: int|
                0 <= i < entries.len() && (#[trigger] entries[i]).0@ == key,
    decreases entries.len(),
{
    if entries.len() > 0 {
        let front = entries.drop_last();
        assert(ascending(front));
        lemma_map_of(front);
        assert forall|i: int| 0 <= i < entries.len() implies #[trigger] map_of(
            entries,
        ).contains_key(entries[i].0@) && map_of(entries)[entries[i].0@] == entries[i].1@ by {
            if i < entries.len() - 1 {
                assert(front[i] == entries[i]);
                assert(map_of(front).contains_key(front[i].0@));
                assert(precedes(entries[i].0@, entries.last().0@));
                precedes_is_total(entries[i].0@, entries[i].0@);
            }
        }
        assert forall|key: Seq<char>| #[trigger] map_of(entries).contains_key(key) implies exists|
            i: int,
        |
            0 <= i < entries.len() && (#[trigger] entries[i]).0@ == key by {
            if key == entries.last().0@ {
                assert(entries[entries.len() - 1].0@ == key);
            } else {
                assert(map_of(front).contains_key(key));
                let i = choose|i: int| 0 <= i < front.len() && (#[trigger] front[i]).0@ == key;
                assert(entries[i].0@ == key);
            }
        }
    }
}

/// The overrides that (name, value) pairs come to, later ones winning.
pub open spec fn overridden(
    so_far: Map<Seq<char>, Seq<char>>,
    pairs: Seq<(Seq<char>, Seq<char>)>,
) -> Map<Seq<char>, Seq<char>>
    decreases pairs.len(),
{
    if pairs.len() == 0 {
        so_far
    } else {
        overridden(so_far.insert(pairs[0].0, pairs[0].1), pairs.skip(1))
    }
}

/// What the environment's variables come to, from `so_far` on: the overrides,
/// or what is wrong with the first variable that makes no sense.
pub open spec fn collected(
    so_far: Map<Seq<char>, Seq<char>>,
    vars: Seq<(Seq<char>, Seq<char>)>,
) -> Result<Map<Seq<char>, Seq<char>>, Seq<char>>
    decreases vars.len(),
{
    if vars.len() == 0 {
        Ok(so_far)
    } else {
        let (key, value) = vars[0];
        if !starts_with(key, TOOL_DESC_PREFIX@) {
            collected(so_far, vars.skip(1))
        } else {
            let tool = ascii_lowered(key.skip(TOOL_DESC_PREFIX@.len() as int));
            if !tool_names().contains(tool) {
                Err(
                    key + " names no agmem tool. The seven are: "@ + joined(tool_names(), ", "@)
                        + "."@,
                )
            } else if blank(value) {
                Err(
                    key
                        + " is empty. A tool with no description is one no agent knows when to call; unset the variable to keep agmem's own wording."@,
                )
            } else {
                collected(so_far.insert(tool, value), vars.skip(1))
            }
        }
    }
}

/// The texts of some pairs of strings.
pub open spec fn pair_texts(pairs: Seq<(String, String)>) -> Seq<(Seq<char>, Seq<char>)> {
    pairs.map_values(|pair: (String, String)| (pair.0@, pair.1@))
}

impl ToolDescriptions {
    #[verifier::type_invariant]
    spec fn valid(self) -> bool {
        ascending(self.entries@)
    }

    /// No overrides: the built-in wording.
    pub fn new() -> (made: Self)
        ensures
            made@ == Map::<Seq<char>, Seq<char>>::empty(),
    {
        ToolDescriptions { entries: Vec::new() }
    }

    /// The description to serve for `tool`, if this deployment replaced it.
    pub fn get(&self, tool: &str) -> (text: Option<&str>)
        ensures
            match text {
                Some(text) => self@.contains_key(tool@) && self@[tool@] == text@,
                None => !self@.contains_key(tool@),
            },
    {
        proof {
            use_type_invariant(self);
            lemma_map_of(self.entries@);
        }
        let mut i: usize = 0;
        while i < self.entries.len()
            invariant
                i <= self.entries@.len(),
                forall|j: int| 0 <= j < i ==> (#[trigger] self.entries@[j]).0@ != tool@,
                forall|i: int|
                    0 <= i < self.entries@.len() ==> #[trigger] map_of(
                        self.entries@,
                    ).contains_key(self.entries@[i].0@) && map_of(
                        self.entries@,
                    )[self.entries@[i].0@] == self.entries@[i].1@,
            decreases self.entries@.len() - i,
        {
            if same(self.entries[i].0.as_str(), tool) {
                assert(map_of(self.entries@).contains_key(self.entries@[i as int].0@));
                return Some(self.entries[i].1.as_str());
            }
            i += 1;
        }
        None
    }

    /// The tools this deployment reworded, in name order.
    pub closed spec fn in_order(self) -> Seq<Seq<char>> {
        self.entries@.map_values(|entry: (String, String)| entry.0@)
    }

    /// The tools this deployment reworded, in name order.
    pub fn tools(&self) -> (names: Vec<&str>)
        ensures
            str_texts(names@) == self.in_order(),
            forall|i: int, j: int|
                0 <= i < j < names@.len() ==> precedes(
                    #[trigger] names@[i]@,
                    #[trigger] names@[j]@,
                ),
            forall|i: int| 0 <= i < names@.len() ==> self@.contains_key(#[trigger] names@[i]@),
            forall|tool: Seq<char>| #[trigger]
                self@.contains_key(tool) ==> exists|i: int|
                    0 <= i < names@.len() && #[trigger] names@[i]@ == tool,
    {
        proof {
            use_type_invariant(self);
            lemma_map_of(self.entries@);
        }
        let mut names: Vec<&str> = Vec::new();
        let mut i: usize = 0;
        while i < self.entries.len()
            invariant
                i <= self.entries@.len(),
                names@.len() == i,
                forall|j: int| 0 <= j < i ==> #[trigger] names@[j]@ == self.entries@[j].0@,
            decreases self.entries@.len() - i,
        {
            names.push(self.entries[i].0.as_str());
            i += 1;
        }
        assert forall|i: int| 0 <= i < names@.len() implies self@.contains_key(
            #[trigger] names@[i]@,
        ) by {
            assert(map_of(self.entries@).contains_key(self.entries@[i].0@));
        }
        assert forall|tool: Seq<char>| #[trigger] self@.contains_key(tool) implies exists|i: int|
            0 <= i < names@.len() && #[trigger] names@[i]@ == tool by {
            let i = choose|i: int|
                0 <= i < self.entries@.len() && (#[trigger] self.entries@[i]).0@ == tool;
            assert(names@[i]@ == tool);
        }
        assert(str_texts(names@) =~= self.in_order());
        names
    }

    /// Whether the built-in descriptions are being served unchanged.
    pub fn is_empty(&self) -> (empty: bool)
        ensures
            empty == (self@ == Map::<Seq<char>, Seq<char>>::empty()),
    {
        proof {
            if self.entries@.len() > 0 {
                assert(self@.contains_key(self.entries@.last().0@));
            }
        }
        self.entries.len() == 0
    }

    /// Serve `text` for `tool`.
    fn put(&mut self, tool: String, text: String)
        ensures
            final(self)@ == old(self)@.insert(tool@, text@),
    {
        proof {
            use_type_invariant(&*self);
        }
        let ghost before = self.entries@;
        let mut entries: Vec<(String, String)> = Vec::new();
        std::mem::swap(&mut entries, &mut self.entries);
        let mut i: usize = 0;
        while i < entries.len() && comes_before(entries[i].0.as_str(), tool.as_str())
            invariant
                i <= before.len(),
                entries@ == before,
                forall|j: int| 0 <= j < i ==> precedes(#[trigger] before[j].0@, tool@),
            decreases before.len() - i,
        {
            i += 1;
        }
        if i < entries.len() && same(entries[i].0.as_str(), tool.as_str()) {
            proof {
                lemma_replace(before, i as int, tool, text);
            }
            entries.set(i, (tool, text));
        } else {
            proof {
                lemma_insert(before, i as int, tool, text);
            }
            entries.insert(i, (tool, text));
        }
        self.entries = entries;
    }

    /// The overrides a set of variables comes to.
    ///
    /// # Errors
    /// When a variable names something that is not a tool, or carries only
    /// whitespace. Both are typos with no safe reading: an unknown name would
    /// override nothing and a blank description would hand every agent an
    /// unlabelled tool.
    pub fn collect(vars: Vec<(String, String)>) -> (result: Result<Self, String>)
        ensures
            match result {
                Ok(made) => collected(Map::empty(), pair_texts(vars@)) == Ok::<
                    Map<Seq<char>, Seq<char>>,
                    Seq<char>,
                >(made@),
                Err(message) => collected(Map::empty(), pair_texts(vars@)) == Err::<
                    Map<Seq<char>, Seq<char>>,
                    Seq<char>,
                >(message@),
            },
    {
        let mut made = ToolDescriptions::new();
        let mut i: usize = 0;
        let ghost all = pair_texts(vars@);
        assert(all.skip(0) =~= all);
        while i < vars.len()
            invariant
                i <= vars@.len(),
                all == pair_texts(vars@),
                collected(made@, all.skip(i as int)) == collected(Map::empty(), all),
            decreases vars@.len() - i,
        {
            let key = vars[i].0.as_str();
            assert(all.skip(i as int)[0] == (vars@[i as int].0@, vars@[i as int].1@));
            assert(all.skip(i as int).skip(1) =~= all.skip(i + 1));
            if has_prefix(key, TOOL_DESC_PREFIX) {
                let tool = tool_of(key);
                if !is_tool(tool.as_str()) {
                    return Err(unknown_tool(key));
                }
                if is_blank(vars[i].1.as_str()) {
                    return Err(
                        key.to_owned().concat(
                            " is empty. A tool with no description is one no agent knows when to call; unset the variable to keep agmem's own wording.",
                        ),
                    );
                }
                made.put(tool, vars[i].1.clone());
            }
            i += 1;
        }
        Ok(made)
    }

    /// Build a set directly, later pairs winning. Unlike
    /// [`ToolDescriptions::collect`] this validates nothing: the caller wrote
    /// the names in source, where a typo is visible.
    pub fn from_pairs(pairs: Vec<(String, String)>) -> (made: Self)
        ensures
            made@ == overridden(Map::empty(), pair_texts(pairs@)),
    {
        let mut made = ToolDescriptions::new();
        let mut i: usize = 0;
        let ghost all = pair_texts(pairs@);
        assert(all.skip(0) =~= all);
        while i < pairs.len()
            invariant
                i <= pairs@.len(),
                all == pair_texts(pairs@),
                overridden(made@, all.skip(i as int)) == overridden(Map::empty(), all),
            decreases pairs@.len() - i,
        {
            assert(all.skip(i as int)[0] == (pairs@[i as int].0@, pairs@[i as int].1@));
            assert(all.skip(i as int).skip(1) =~= all.skip(i + 1));
            made.put(pairs[i].0.clone(), pairs[i].1.clone());
            i += 1;
        }
        made
    }
}

impl Clone for ToolDescriptions {
    fn clone(&self) -> (result: Self)
        ensures
            result@ == self@,
    {
        proof {
            use_type_invariant(self);
        }
        let mut entries: Vec<(String, String)> = Vec::new();
        let mut i: usize = 0;
        while i < self.entries.len()
            invariant
                i <= self.entries@.len(),
                entries@ == self.entries@.take(i as int),
            decreases self.entries@.len() - i,
        {
            entries.push((self.entries[i].0.clone(), self.entries[i].1.clone()));
            i += 1;
            assert(entries@ =~= self.entries@.take(i as int));
        }
        assert(entries@ =~= self.entries@);
        ToolDescriptions { entries }
    }
}

/// The tool a variable names: what stands behind the prefix, in lower case.
fn tool_of(key: &str) -> (tool: String)
    requires
        starts_with(key@, TOOL_DESC_PREFIX@),
    ensures
        tool@ == ascii_lowered(key@.skip(TOOL_DESC_PREFIX@.len() as int)),
{
    let chars = to_chars(key);
    let skip: usize = to_chars(TOOL_DESC_PREFIX).len();
    let mut tool = String::new();
    let mut i: usize = skip;
    let ghost whole = ascii_lowered(key@.skip(skip as int));
    assert(tool@ =~= whole.take(0));
    while i < chars.len()
        invariant
            skip <= i <= chars@.len(),
            chars@ == key@,
            whole == ascii_lowered(key@.skip(skip as int)),
            tool@ == whole.take(i - skip),
        decreases chars@.len() - i,
    {
        tool.push(to_ascii_lower(chars[i]));
        i += 1;
        assert(tool@ =~= whole.take(i - skip));
    }
    assert(whole.take(i - skip) =~= whole);
    tool
}

/// What is wrong with a variable that names no tool.
fn unknown_tool(key: &str) -> (message: String)
    ensures
        message@ == key@ + " names no agmem tool. The seven are: "@ + joined(tool_names(), ", "@)
            + "."@,
{
    let listed = join_strs(names().as_slice(), ", ");
    key.to_owned().concat(" names no agmem tool. The seven are: ").concat(listed.as_str()).concat(
        ".",
    )
}

proof fn lemma_replace(before: Seq<(String, String)>, i: int, tool: String, text: String)
    requires
        ascending(before),
        0 <= i < before.len(),
        before[i].0@ == tool@,
    ensures
        ascending(before.update(i, (tool, text))),
        map_of(before.update(i, (tool, text))) == map_of(before).insert(tool@, text@),
{
    let after = before.update(i, (tool, text));
    assert(ascending(after)) by {
        assert forall|a: int, b: int| 0 <= a < b < after.len() implies precedes(
            #[trigger] after[a].0@,
            #[trigger] after[b].0@,
        ) by {
            assert(precedes(before[a].0@, before[b].0@));
        }
    }
    assert forall|pair: (String, String)| pair.0@ != tool@ implies (#[trigger] before.contains(pair)
        <==> after.contains(pair)) by {
        if before.contains(pair) {
            assert(after[before.index_of(pair)] == pair);
        }
        if after.contains(pair) {
            assert(before[after.index_of(pair)] == pair);
        }
    }
    lemma_same_map(before, after, i, tool, text);
}

proof fn lemma_insert(before: Seq<(String, String)>, i: int, tool: String, text: String)
    requires
        ascending(before),
        0 <= i <= before.len(),
        forall|j: int| 0 <= j < i ==> precedes(#[trigger] before[j].0@, tool@),
        i < before.len() ==> before[i].0@ != tool@ && !precedes(before[i].0@, tool@),
    ensures
        ascending(before.insert(i, (tool, text))),
        map_of(before.insert(i, (tool, text))) == map_of(before).insert(tool@, text@),
{
    let after = before.insert(i, (tool, text));
    if i < before.len() {
        precedes_is_total(before[i].0@, tool@);
    }
    assert(ascending(after)) by {
        assert forall|a: int, b: int| 0 <= a < b < after.len() implies precedes(
            #[trigger] after[a].0@,
            #[trigger] after[b].0@,
        ) by {
            let oa = if a < i {
                a
            } else {
                a - 1
            };
            let ob = if b < i {
                b
            } else {
                b - 1
            };
            if a != i {
                assert(after[a] == before[oa]);
            }
            if b != i {
                assert(after[b] == before[ob]);
            }
            if a == i {
                if ob > i {
                    assert(precedes(before[i].0@, before[ob].0@));
                    precedes_is_transitive(tool@, before[i].0@, before[ob].0@);
                }
            } else if b != i {
                assert(precedes(before[oa].0@, before[ob].0@));
            }
        }
    }
    assert forall|pair: (String, String)| pair.0@ != tool@ implies (#[trigger] before.contains(pair)
        <==> after.contains(pair)) by {
        if before.contains(pair) {
            let j = before.index_of(pair);
            let k = if j < i {
                j
            } else {
                j + 1
            };
            assert(after[k] == pair);
        }
        if after.contains(pair) {
            let k = after.index_of(pair);
            let j = if k < i {
                k
            } else {
                k - 1
            };
            assert(before[j] == pair);
        }
    }
    lemma_same_map(before, after, i, tool, text);
}

/// Entries that agree but for one name stand for maps that do.
proof fn lemma_same_map(
    before: Seq<(String, String)>,
    after: Seq<(String, String)>,
    i: int,
    tool: String,
    text: String,
)
    requires
        ascending(before),
        ascending(after),
        0 <= i < after.len(),
        after[i] == (tool, text),
        forall|pair: (String, String)|
            pair.0@ != tool@ ==> (#[trigger] before.contains(pair) <==> after.contains(pair)),
    ensures
        map_of(after) == map_of(before).insert(tool@, text@),
{
    let m = map_of(after);
    let w = map_of(before).insert(tool@, text@);
    lemma_entry(after, i);
    assert forall|key: Seq<char>| m.contains_key(key) <==> w.contains_key(key) by {
        if m.contains_key(key) && key != tool@ {
            let k = lemma_key(after, key);
            assert(before.contains(after[k]));
            lemma_entry(before, before.index_of(after[k]));
        }
        if w.contains_key(key) && key != tool@ {
            let j = lemma_key(before, key);
            assert(before.contains(before[j]));
            assert(after.contains(before[j]));
            lemma_entry(after, after.index_of(before[j]));
        }
    }
    assert forall|key: Seq<char>| m.contains_key(key) implies #[trigger] m[key] == w[key] by {
        if key != tool@ {
            let k = lemma_key(after, key);
            assert(before.contains(after[k]));
            lemma_entry(after, k);
            lemma_entry(before, before.index_of(after[k]));
        }
    }
    assert(m =~= w);
}

proof fn lemma_entry(entries: Seq<(String, String)>, i: int)
    requires
        ascending(entries),
        0 <= i < entries.len(),
    ensures
        map_of(entries).contains_key(entries[i].0@),
        map_of(entries)[entries[i].0@] == entries[i].1@,
{
    lemma_map_of(entries);
    assert(map_of(entries).contains_key(entries[i].0@));
}

proof fn lemma_key(entries: Seq<(String, String)>, key: Seq<char>) -> (i: int)
    requires
        ascending(entries),
        map_of(entries).contains_key(key),
    ensures
        0 <= i < entries.len(),
        entries[i].0@ == key,
{
    lemma_map_of(entries);
    choose|i: int| 0 <= i < entries.len() && (#[trigger] entries[i]).0@ == key
}

/// Variables are read in order: what the first ones come to is where the later
/// ones start, and the first that is wrong ends the reading.
pub proof fn variables_are_read_in_order(
    so_far: Map<Seq<char>, Seq<char>>,
    vars: Seq<(Seq<char>, Seq<char>)>,
    more: Seq<(Seq<char>, Seq<char>)>,
)
    ensures
        collected(so_far, Seq::empty()) == Ok::<Map<Seq<char>, Seq<char>>, Seq<char>>(so_far),
        collected(so_far, vars + more) == match collected(so_far, vars) {
            Ok(found) => collected(found, more),
            Err(message) => Err(message),
        },
    decreases vars.len(),
{
    if vars.len() == 0 {
        assert(vars + more =~= more);
    } else {
        assert((vars + more)[0] == vars[0]);
        assert((vars + more).skip(1) =~= vars.skip(1) + more);
        let (key, value) = vars[0];
        let tool = ascii_lowered(key.skip(TOOL_DESC_PREFIX@.len() as int));
        variables_are_read_in_order(so_far, vars.skip(1), more);
        variables_are_read_in_order(so_far.insert(tool, value), vars.skip(1), more);
    }
}

/// One variable overrides the tool its name ends in, in capitals or not, with
/// the text it holds. One that names no tool, or holds nothing, is an error
/// that names it; any other variable is passed over.
pub proof fn a_variable_overrides_the_tool_it_names(
    so_far: Map<Seq<char>, Seq<char>>,
    name: Seq<char>,
    key: Seq<char>,
    value: Seq<char>,
)
    ensures
        tool_names().contains(ascii_lowered(name)) && !blank(value) ==> collected(
            so_far,
            seq![("AGMEM_TOOL_DESC_"@ + name, value)],
        ) == Ok::<Map<Seq<char>, Seq<char>>, Seq<char>>(so_far.insert(ascii_lowered(name), value)),
        !tool_names().contains(ascii_lowered(name)) ==> (collected(
            so_far,
            seq![("AGMEM_TOOL_DESC_"@ + name, value)],
        ) matches Err(message) && starts_with(message, "AGMEM_TOOL_DESC_"@ + name)),
        tool_names().contains(ascii_lowered(name)) && blank(value) ==> (collected(
            so_far,
            seq![("AGMEM_TOOL_DESC_"@ + name, value)],
        ) matches Err(message) && starts_with(message, "AGMEM_TOOL_DESC_"@ + name)),
        !starts_with(key, "AGMEM_TOOL_DESC_"@) ==> collected(so_far, seq![(key, value)]) == Ok::<
            Map<Seq<char>, Seq<char>>,
            Seq<char>,
        >(so_far),
{
    reveal_with_fuel(collected, 2);
    assert(TOOL_DESC_PREFIX@ == "AGMEM_TOOL_DESC_"@);
    let long = TOOL_DESC_PREFIX@ + name;
    assert(long.subrange(0, TOOL_DESC_PREFIX@.len() as int) =~= TOOL_DESC_PREFIX@);
    assert(long.skip(TOOL_DESC_PREFIX@.len() as int) =~= name);
    assert(seq![(long, value)].skip(1) =~= Seq::empty());
    assert(seq![(key, value)].skip(1) =~= Seq::empty());
    let unknown = long + " names no agmem tool. The seven are: "@ + joined(tool_names(), ", "@)
        + "."@;
    assert(unknown.subrange(0, long.len() as int) =~= long);
    let empty = long
        + " is empty. A tool with no description is one no agent knows when to call; unset the variable to keep agmem's own wording."@;
    assert(empty.subrange(0, long.len() as int) =~= long);
}

/// Every pair overrides its tool, and of two for one tool the later one wins.
pub proof fn the_later_pair_wins(
    so_far: Map<Seq<char>, Seq<char>>,
    pairs: Seq<(Seq<char>, Seq<char>)>,
    pair: (Seq<char>, Seq<char>),
)
    ensures
        overridden(so_far, Seq::empty()) == so_far,
        overridden(so_far, pairs.push(pair)) == overridden(so_far, pairs).insert(pair.0, pair.1),
    decreases pairs.len(),
{
    let all = pairs.push(pair);
    if pairs.len() == 0 {
        assert(all.skip(1) =~= Seq::empty());
        assert(overridden(so_far.insert(pair.0, pair.1), all.skip(1)) == so_far.insert(
            pair.0,
            pair.1,
        ));
    } else {
        assert(all.skip(1) =~= pairs.skip(1).push(pair));
        the_later_pair_wins(so_far.insert(pairs[0].0, pairs[0].1), pairs.skip(1), pair);
    }
}

/// There are seven tools, under these names and no others.
pub proof fn the_seven_tools_are_known(name: Seq<char>)
    ensures
        tool_names().len() == 7,
        tool_names().contains(name) <==> name == "remember"@ || name == "recall"@ || name
            == "context"@ || name == "forget"@ || name == "inspect"@ || name == "consolidate"@
            || name == "reflect"@,
{
    let all = tool_names();
    assert(all[0] == "remember"@ && all[1] == "recall"@ && all[2] == "context"@);
    assert(all[3] == "forget"@ && all[4] == "inspect"@ && all[5] == "consolidate"@);
    assert(all[6] == "reflect"@);
}

} // verus!
