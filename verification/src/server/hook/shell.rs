//! What a shell command and a git branch say.

use vstd::prelude::*;
use vstd::slice::slice_subrange;

use crate::server::hook::log::{first_chars, is_plain, plain_char};
use crate::text::chars::{range_to_string, to_chars, to_text, views};
use crate::text::search::{ends_with, has_suffix, same};
use crate::text::strip::{
    strip, stripped, stripping_keeps_characters, stripping_takes_only_that_character,
};
use crate::text::words::{split_words, trim, trimmed, words};

verus! {

/// The characters of `s` outside quotes, where `quote` is the quote that is
/// open at its start.
pub open spec fn unquoted_from(quote: Option<char>, s: Seq<char>) -> Seq<char>
    decreases s.len(),
{
    if s.len() == 0 {
        Seq::empty()
    } else {
        match quote {
            Some(open) => unquoted_from(
                if s[0] == open {
                    None
                } else {
                    quote
                },
                s.skip(1),
            ),
            None => if s[0] == '"' || s[0] == '\'' {
                unquoted_from(Some(s[0]), s.skip(1))
            } else {
                seq![s[0]] + unquoted_from(None, s.skip(1))
            },
        }
    }
}

/// A command without what it quotes.
pub open spec fn unquoted(command: Seq<char>) -> Seq<char> {
    unquoted_from(None, command)
}

/// A command without what it quotes.
pub fn strip_quoted(command: &str) -> (bare: String)
    ensures
        bare@ == unquoted(command@),
{
    let chars = to_chars(command);
    let mut bare = String::new();
    let mut quote: Option<char> = None;
    let mut i: usize = 0;
    assert(command@.skip(0) =~= command@);
    assert(bare@ + unquoted(command@) =~= unquoted(command@));
    while i < chars.len()
        invariant
            i <= chars@.len(),
            chars@ == command@,
            bare@ + unquoted_from(quote, command@.skip(i as int)) == unquoted(command@),
        decreases chars@.len() - i,
    {
        let c = chars[i];
        let ghost rest = command@.skip(i as int);
        assert(rest.skip(1) =~= command@.skip(i + 1));
        match quote {
            Some(open) => {
                if c == open {
                    quote = None;
                }
            },
            None => {
                if c == '"' || c == '\'' {
                    quote = Some(c);
                } else {
                    assert(bare@ + (seq![c] + unquoted_from(None, rest.skip(1))) =~= bare@.push(c)
                        + unquoted_from(None, rest.skip(1)));
                    bare.push(c);
                }
            },
        }
        i += 1;
    }
    assert(bare@ + Seq::empty() =~= bare@);
    bare
}

/// A character between two commands.
pub open spec fn separates(c: char) -> bool {
    c == '|' || c == ';' || c == '&' || c == '\n'
}

/// The word is git, by name or by path.
pub open spec fn is_git(word: Seq<char>) -> bool {
    word == "git"@ || ends_with(word, "/git"@)
}

/// The first of the words that is not a global option is `push`. `-C` and `-c`
/// take a value, the rest are flags.
pub open spec fn subcommand_pushes(words: Seq<Seq<char>>) -> bool
    decreases words.len(),
{
    if words.len() == 0 {
        false
    } else if words[0] == "-C"@ || words[0] == "-c"@ {
        words.len() > 1 && subcommand_pushes(words.skip(2))
    } else if words[0].len() > 0 && words[0][0] == '-' {
        subcommand_pushes(words.skip(1))
    } else {
        words[0] == "push"@
    }
}

/// The words are a `git push`, past opening parentheses.
pub open spec fn words_push(words: Seq<Seq<char>>) -> bool
    decreases words.len(),
{
    if words.len() == 0 {
        false
    } else if words[0] == "("@ {
        words_push(words.skip(1))
    } else {
        is_git(words[0]) && subcommand_pushes(words.skip(1))
    }
}

/// One of the commands in `command + s` is a push, where `command` is the start
/// of the first.
pub open spec fn pushes_from(command: Seq<char>, s: Seq<char>) -> bool
    decreases s.len(),
{
    if s.len() == 0 {
        words_push(words(command))
    } else if separates(s[0]) {
        words_push(words(command)) || pushes_from(Seq::empty(), s.skip(1))
    } else {
        pushes_from(command.push(s[0]), s.skip(1))
    }
}

/// A real `git push`, not the word inside a commit message or an echo.
pub open spec fn pushes(command: Seq<char>) -> bool {
    pushes_from(Seq::empty(), unquoted(command))
}

/// Whether the first of the words from `from` on that is not a global option
/// is `push`.
fn subcommand_is_push(parts: &[&[char]], from: usize) -> (result: bool)
    requires
        from <= parts@.len(),
    ensures
        result == subcommand_pushes(views(parts@).skip(from as int)),
{
    let ghost all = views(parts@);
    let mut i: usize = from;
    while i < parts.len()
        invariant
            from <= i <= parts@.len(),
            all == views(parts@),
            subcommand_pushes(all.skip(from as int)) == subcommand_pushes(all.skip(i as int)),
        decreases parts@.len() - i,
    {
        let word = to_text(parts[i]);
        let ghost rest = all.skip(i as int);
        assert(rest[0] == word@);
        assert(rest.skip(1) =~= all.skip(i + 1));
        if same(word.as_str(), "-C") || same(word.as_str(), "-c") {
            if parts.len() - i < 2 {
                return false;
            }
            assert(rest.skip(2) =~= all.skip(i + 2));
            i += 2;
        } else if parts[i].len() > 0 && parts[i][0] == '-' {
            proof {
                reveal_strlit("-C");
                reveal_strlit("-c");
            }
            i += 1;
        } else {
            return same(word.as_str(), "push");
        }
    }
    false
}

/// Whether the words are a `git push`.
fn is_push_words(parts: &[&[char]]) -> (result: bool)
    ensures
        result == words_push(views(parts@)),
{
    let ghost all = views(parts@);
    let mut i: usize = 0;
    assert(all.skip(0) =~= all);
    while i < parts.len()
        invariant
            i <= parts@.len(),
            all == views(parts@),
            words_push(all) == words_push(all.skip(i as int)),
        decreases parts@.len() - i,
    {
        let word = to_text(parts[i]);
        assert(all.skip(i as int)[0] == word@);
        assert(all.skip(i as int).skip(1) =~= all.skip(i + 1));
        if same(word.as_str(), "(") {
            i += 1;
        } else {
            let path = to_chars("/git");
            let git = same(word.as_str(), "git") || has_suffix(parts[i], path.as_slice());
            return git && subcommand_is_push(parts, i + 1);
        }
    }
    false
}

/// Whether a command holds a real `git push`.
pub fn is_push(command: &str) -> (result: bool)
    ensures
        result == pushes(command@),
{
    let bare = strip_quoted(command);
    let chars = to_chars(bare.as_str());
    let mut from: usize = 0;
    let mut i: usize = 0;
    assert(bare@.skip(0) =~= bare@);
    assert(bare@.subrange(0, 0) =~= Seq::empty());
    while i < chars.len()
        invariant
            from <= i <= chars@.len(),
            chars@ == bare@,
            bare@ == unquoted(command@),
            pushes(command@) == pushes_from(
                bare@.subrange(from as int, i as int),
                bare@.skip(i as int),
            ),
        decreases chars@.len() - i,
    {
        let c = chars[i];
        assert(bare@.skip(i as int).skip(1) =~= bare@.skip(i + 1));
        if c == '|' || c == ';' || c == '&' || c == '\n' {
            let parts = split_words(slice_subrange(chars.as_slice(), from, i));
            if is_push_words(parts.as_slice()) {
                return true;
            }
            from = i + 1;
            assert(bare@.subrange(from as int, i + 1) =~= Seq::empty());
        } else {
            assert(bare@.subrange(from as int, i as int).push(c) =~= bare@.subrange(
                from as int,
                i + 1,
            ));
        }
        i += 1;
    }
    let parts = split_words(slice_subrange(chars.as_slice(), from, i));
    is_push_words(parts.as_slice())
}

/// The characters of a branch name that its tag keeps; a run of others becomes
/// one dash. `dash` says whether one was just written for such a run.
pub open spec fn dashed_from(dash: bool, s: Seq<char>) -> Seq<char>
    decreases s.len(),
{
    if s.len() == 0 {
        Seq::empty()
    } else if plain_char(s[0]) {
        seq![s[0]] + dashed_from(false, s.skip(1))
    } else if dash {
        dashed_from(true, s.skip(1))
    } else {
        seq!['-'] + dashed_from(true, s.skip(1))
    }
}

/// A branch name as its tag carries it.
pub open spec fn branch_slug(branch: Seq<char>) -> Seq<char> {
    let short = first_chars(stripped(dashed_from(false, branch), '-'), 80);
    if short.len() == 0 {
        "detached"@
    } else {
        short
    }
}

/// A branch name as its tag carries it: runs of anything outside
/// `[A-Za-z0-9._-]` become one dash, without dashes at the ends, 80 characters
/// at most.
pub fn slug(branch: &str) -> (slug: String)
    ensures
        slug@ == branch_slug(branch@),
{
    let chars = to_chars(branch);
    let mut out: Vec<char> = Vec::new();
    let mut dash = false;
    let mut i: usize = 0;
    assert(branch@.skip(0) =~= branch@);
    assert(out@ + dashed_from(false, branch@) =~= dashed_from(false, branch@));
    while i < chars.len()
        invariant
            i <= chars@.len(),
            chars@ == branch@,
            out@ + dashed_from(dash, branch@.skip(i as int)) == dashed_from(false, branch@),
        decreases chars@.len() - i,
    {
        let c = chars[i];
        let ghost rest = branch@.skip(i as int);
        assert(rest.skip(1) =~= branch@.skip(i + 1));
        if is_plain(c) {
            assert(out@ + (seq![c] + dashed_from(false, rest.skip(1))) =~= out@.push(c)
                + dashed_from(false, rest.skip(1)));
            out.push(c);
            dash = false;
        } else if !dash {
            assert(out@ + (seq!['-'] + dashed_from(true, rest.skip(1))) =~= out@.push('-')
                + dashed_from(true, rest.skip(1)));
            out.push('-');
            dash = true;
        }
        i += 1;
    }
    assert(out@ + Seq::empty() =~= out@);
    let kept = strip(out.as_slice(), '-');
    if kept.len() == 0 {
        return "detached".to_owned();
    }
    if kept.len() > 80 {
        assert(kept@.subrange(0, 80) =~= kept@.take(80));
        return range_to_string(kept, 0, 80);
    }
    to_text(kept)
}

/// The current branch, from whether git answered and what it wrote: `None`
/// when detached, unborn, or outside a repo.
pub fn branch_of(answered: bool, output: &str) -> (branch: Option<String>)
    ensures
        match branch {
            Some(branch) => answered && branch@ == trimmed(output@) && branch@.len() > 0 && branch@
                != "HEAD"@,
            None => !answered || trimmed(output@).len() == 0 || trimmed(output@) == "HEAD"@,
        },
{
    if !answered {
        return None;
    }
    let chars = to_chars(output);
    let branch = to_text(trim(chars.as_slice()));
    if branch.as_str().is_empty() || same(branch.as_str(), "HEAD") {
        None
    } else {
        Some(branch)
    }
}

/// What stands in quotes does not make a push: a command is judged by what it
/// says outside them.
pub proof fn quoted_words_do_not_push(a: Seq<char>, b: Seq<char>)
    requires
        unquoted(a) == unquoted(b),
    ensures
        pushes(a) == pushes(b),
{
}

/// Without a quote.
pub open spec fn quoteless(s: Seq<char>) -> bool {
    forall|i: int| 0 <= i < s.len() ==> #[trigger] s[i] != '"' && s[i] != '\''
}

proof fn lemma_unquoted_bare(a: Seq<char>, b: Seq<char>)
    requires
        quoteless(a),
    ensures
        unquoted_from(None, a + b) == a + unquoted_from(None, b),
    decreases a.len(),
{
    if a.len() == 0 {
        assert(a + b =~= b);
        assert(a + unquoted_from(None, b) =~= unquoted_from(None, b));
    } else {
        let rest = a.skip(1);
        assert((a + b)[0] == a[0]);
        assert((a + b).skip(1) =~= rest + b);
        assert forall|i: int| 0 <= i < rest.len() implies #[trigger] rest[i] != '"' && rest[i]
            != '\'' by {
            assert(rest[i] == a[i + 1]);
        }
        lemma_unquoted_bare(rest, b);
        assert(seq![a[0]] + (rest + unquoted_from(None, b)) =~= a + unquoted_from(None, b));
    }
}

proof fn lemma_unquoted_inside(quote: char, inner: Seq<char>, after: Seq<char>)
    requires
        forall|i: int| 0 <= i < inner.len() ==> #[trigger] inner[i] != quote,
    ensures
        unquoted_from(Some(quote), inner + seq![quote] + after) == unquoted_from(None, after),
    decreases inner.len(),
{
    let all = inner + seq![quote] + after;
    if inner.len() == 0 {
        assert(all[0] == quote);
        assert(all.skip(1) =~= after);
    } else {
        let rest = inner.skip(1);
        assert(all[0] == inner[0]);
        assert(all.skip(1) =~= rest + seq![quote] + after);
        assert forall|i: int| 0 <= i < rest.len() implies #[trigger] rest[i] != quote by {
            assert(rest[i] == inner[i + 1]);
        }
        lemma_unquoted_inside(quote, rest, after);
    }
}

/// Quotes hide what they hold, themselves included, and nothing else: what
/// stands before and behind them is kept as it is.
pub proof fn quotes_hide_what_they_hold(
    before: Seq<char>,
    quote: char,
    inner: Seq<char>,
    after: Seq<char>,
)
    requires
        quoteless(before),
        quote == '"' || quote == '\'',
        forall|i: int| 0 <= i < inner.len() ==> #[trigger] inner[i] != quote,
    ensures
        unquoted(before + seq![quote] + inner + seq![quote] + after) == before + unquoted(after),
        unquoted(before) == before,
{
    let none = Seq::<char>::empty();
    lemma_unquoted_bare(before, none);
    assert(before + none =~= before);
    assert(unquoted_from(None, none) =~= none);
    let rest = seq![quote] + inner + seq![quote] + after;
    assert(before + seq![quote] + inner + seq![quote] + after =~= before + rest);
    lemma_unquoted_bare(before, rest);
    assert(rest[0] == quote);
    assert(rest.skip(1) =~= inner + seq![quote] + after);
    lemma_unquoted_inside(quote, inner, after);
}

proof fn lemma_pushes_split(command: Seq<char>, a: Seq<char>, separator: char, b: Seq<char>)
    requires
        separates(separator),
    ensures
        pushes_from(command, a + seq![separator] + b) <==> pushes_from(command, a) || pushes_from(
            Seq::empty(),
            b,
        ),
    decreases a.len(),
{
    let all = a + seq![separator] + b;
    if a.len() == 0 {
        assert(all[0] == separator);
        assert(all.skip(1) =~= b);
    } else {
        assert(all[0] == a[0]);
        assert(all.skip(1) =~= a.skip(1) + seq![separator] + b);
        if separates(a[0]) {
            lemma_pushes_split(Seq::empty(), a.skip(1), separator, b);
        } else {
            lemma_pushes_split(command.push(a[0]), a.skip(1), separator, b);
        }
    }
}

/// A command line pushes where one of its commands does: `|`, `;`, `&` and a
/// line feed part it, and each side is judged by itself.
pub proof fn a_command_line_pushes_where_a_command_does(
    a: Seq<char>,
    separator: char,
    b: Seq<char>,
)
    requires
        quoteless(a),
        separator == '|' || separator == ';' || separator == '&' || separator == '\n',
    ensures
        pushes(a + seq![separator] + b) <==> pushes(a) || pushes(b),
{
    let none = Seq::<char>::empty();
    lemma_unquoted_bare(a, none);
    assert(a + none =~= a);
    assert(unquoted_from(None, none) =~= none);
    let start = a + seq![separator];
    lemma_unquoted_bare(start, b);
    lemma_pushes_split(none, a, separator, unquoted(b));
}

proof fn lemma_pushes_one(command: Seq<char>, s: Seq<char>)
    requires
        forall|i: int| 0 <= i < s.len() ==> !separates(#[trigger] s[i]),
    ensures
        pushes_from(command, s) <==> words_push(words(command + s)),
    decreases s.len(),
{
    if s.len() == 0 {
        assert(command + s =~= command);
    } else {
        let rest = s.skip(1);
        assert forall|i: int| 0 <= i < rest.len() implies !separates(#[trigger] rest[i]) by {
            assert(rest[i] == s[i + 1]);
        }
        lemma_pushes_one(command.push(s[0]), rest);
        assert(command.push(s[0]) + rest =~= command + s);
    }
}

/// One command is judged by its words.
pub proof fn one_command_is_judged_by_its_words(command: Seq<char>)
    requires
        quoteless(command),
        forall|i: int|
            0 <= i < command.len() ==> #[trigger] command[i] != '|' && command[i] != ';'
                && command[i] != '&' && command[i] != '\n',
    ensures
        pushes(command) <==> words_push(words(command)),
{
    let none = Seq::<char>::empty();
    lemma_unquoted_bare(command, none);
    assert(command + none =~= command);
    assert(unquoted_from(None, none) =~= none);
    lemma_pushes_one(none, command);
    assert(none + command =~= command);
}

proof fn lemma_flags_are_passed_over(flags: Seq<Seq<char>>, rest: Seq<Seq<char>>)
    requires
        forall|i: int|
            0 <= i < flags.len() ==> (#[trigger] flags[i]).len() > 0 && flags[i][0] == '-'
                && flags[i] != "-C"@ && flags[i] != "-c"@,
    ensures
        subcommand_pushes(flags + rest) == subcommand_pushes(rest),
    decreases flags.len(),
{
    if flags.len() == 0 {
        assert(flags + rest =~= rest);
    } else {
        let others = flags.skip(1);
        assert((flags + rest)[0] == flags[0]);
        assert((flags + rest).skip(1) =~= others + rest);
        assert forall|i: int| 0 <= i < others.len() implies (#[trigger] others[i]).len() > 0
            && others[i][0] == '-' && others[i] != "-C"@ && others[i] != "-c"@ by {
            assert(others[i] == flags[i + 1]);
        }
        lemma_flags_are_passed_over(others, rest);
    }
}

/// `git push` is known by its words: git by name or by path, any flags, then
/// `push`, whatever follows. `-C` and `-c` take the word behind them along, an
/// opening parenthesis is passed over, and any other program or subcommand is
/// no push.
pub proof fn a_push_is_known_by_its_words(
    git: Seq<char>,
    flags: Seq<Seq<char>>,
    value: Seq<char>,
    word: Seq<char>,
    rest: Seq<Seq<char>>,
)
    requires
        git == "git"@ || ends_with(git, "/git"@),
        forall|i: int|
            0 <= i < flags.len() ==> (#[trigger] flags[i]).len() > 0 && flags[i][0] == '-'
                && flags[i] != "-C"@ && flags[i] != "-c"@,
    ensures
        git != "("@,
        words_push(seq![git] + flags + seq!["push"@] + rest),
        words_push(seq![git, "-C"@, value] + rest) == words_push(seq![git] + rest),
        words_push(seq![git, "-c"@, value] + rest) == words_push(seq![git] + rest),
        words_push(seq!["("@] + rest) == words_push(rest),
        word != "push"@ && (word.len() == 0 || word[0] != '-') ==> !words_push(
            seq![git] + flags + seq![word] + rest,
        ),
        word != "("@ && word != "git"@ && !ends_with(word, "/git"@) ==> !words_push(
            seq![word] + rest,
        ),
        !words_push(seq![git]),
{
    reveal_strlit("git");
    reveal_strlit("/git");
    reveal_strlit("(");
    reveal_strlit("push");
    reveal_strlit("-C");
    reveal_strlit("-c");
    assert("push"@[0] == 'p' && "-C"@[0] == '-' && "-c"@[0] == '-');
    assert(git != "("@) by {
        if git == "git"@ {
            assert("git"@.len() == 3 && "("@.len() == 1);
        } else {
            assert("/git"@.len() == 4 && "("@.len() == 1);
            assert(git.len() >= 4);
        }
    }
    let tail = seq!["push"@] + rest;
    let all = seq![git] + flags + seq!["push"@] + rest;
    assert(all.skip(1) =~= flags + tail);
    lemma_flags_are_passed_over(flags, tail);
    assert(tail[0] == "push"@);
    let other = seq![word] + rest;
    let whole = seq![git] + flags + seq![word] + rest;
    assert(whole.skip(1) =~= flags + other);
    lemma_flags_are_passed_over(flags, other);
    assert(other[0] == word);
    let plain = seq![git] + rest;
    assert(plain.skip(1) =~= rest);
    let upper = seq![git, "-C"@, value] + rest;
    assert(upper.skip(1)[0] == "-C"@ && upper.skip(1).skip(2) =~= rest);
    let lower = seq![git, "-c"@, value] + rest;
    assert(lower.skip(1)[0] == "-c"@ && lower.skip(1).skip(2) =~= rest);
    let open = seq!["("@] + rest;
    assert(open[0] == "("@ && open.skip(1) =~= rest);
    assert(seq![git].skip(1) =~= Seq::empty());
}

/// Characters that a branch's tag keeps.
pub open spec fn plain_run(s: Seq<char>) -> bool {
    forall|i: int|
        0 <= i < s.len() ==> ('a' <= #[trigger] s[i] <= 'z' || 'A' <= s[i] <= 'Z' || '0' <= s[i]
            <= '9' || s[i] == '.' || s[i] == '_' || s[i] == '-')
}

proof fn lemma_dashed_plain(dash: bool, a: Seq<char>, s: Seq<char>)
    requires
        plain_run(a),
        a.len() > 0,
    ensures
        dashed_from(dash, a + s) == a + dashed_from(false, s),
    decreases a.len(),
{
    let rest = a.skip(1);
    assert(plain_char(a[0]));
    assert((a + s)[0] == a[0]);
    assert((a + s).skip(1) =~= rest + s);
    if rest.len() == 0 {
        assert(rest + s =~= s);
        assert(seq![a[0]] + dashed_from(false, s) =~= a + dashed_from(false, s));
    } else {
        assert forall|i: int| 0 <= i < rest.len() implies ('a' <= #[trigger] rest[i] <= 'z' || 'A'
            <= rest[i] <= 'Z' || '0' <= rest[i] <= '9' || rest[i] == '.' || rest[i] == '_'
            || rest[i] == '-') by {
            assert(rest[i] == a[i + 1]);
        }
        lemma_dashed_plain(false, rest, s);
        assert(seq![a[0]] + (rest + dashed_from(false, s)) =~= a + dashed_from(false, s));
    }
}

proof fn lemma_dashed_others(dash: bool, x: Seq<char>, s: Seq<char>)
    requires
        forall|i: int| 0 <= i < x.len() ==> !plain_char(#[trigger] x[i]),
        x.len() > 0,
    ensures
        dashed_from(dash, x + s) == if dash {
            dashed_from(true, s)
        } else {
            seq!['-'] + dashed_from(true, s)
        },
    decreases x.len(),
{
    let rest = x.skip(1);
    assert(!plain_char(x[0]));
    assert((x + s)[0] == x[0]);
    assert((x + s).skip(1) =~= rest + s);
    if rest.len() == 0 {
        assert(rest + s =~= s);
    } else {
        assert forall|i: int| 0 <= i < rest.len() implies !plain_char(#[trigger] rest[i]) by {
            assert(rest[i] == x[i + 1]);
        }
        lemma_dashed_others(true, rest, s);
    }
}

proof fn lemma_stripped_nothing(s: Seq<char>)
    requires
        s.len() > 0,
        s[0] != '-',
        s.last() != '-',
    ensures
        stripped(s, '-') == s,
{
}

/// A branch name of letters, digits, dots, dashes and underscores is its own
/// tag.
pub proof fn a_plain_branch_is_its_tag(branch: Seq<char>)
    requires
        0 < branch.len() <= 80,
        plain_run(branch),
        branch[0] != '-',
        branch.last() != '-',
    ensures
        branch_slug(branch) == branch,
{
    let none = Seq::<char>::empty();
    lemma_dashed_plain(false, branch, none);
    assert(branch + none =~= branch);
    assert(branch + dashed_from(false, none) =~= branch);
    lemma_stripped_nothing(branch);
}

/// A run of other characters becomes one dash, and what stands on its sides is
/// kept.
pub proof fn a_run_of_other_characters_is_one_dash(a: Seq<char>, x: Seq<char>, b: Seq<char>)
    requires
        a.len() > 0,
        b.len() > 0,
        x.len() > 0,
        a.len() + 1 + b.len() <= 80,
        plain_run(a),
        plain_run(b),
        forall|i: int| 0 <= i < x.len() ==> !plain_char(#[trigger] x[i]),
        a[0] != '-',
        b.last() != '-',
    ensures
        branch_slug(a + x + b) == a + seq!['-'] + b,
{
    let none = Seq::<char>::empty();
    assert(a + x + b =~= a + (x + b));
    lemma_dashed_plain(false, a, x + b);
    lemma_dashed_others(false, x, b);
    lemma_dashed_plain(true, b, none);
    assert(b + none =~= b);
    assert(b + dashed_from(false, none) =~= b);
    let tag = a + seq!['-'] + b;
    assert(a + (seq!['-'] + b) =~= tag);
    lemma_stripped_nothing(tag);
}

proof fn lemma_dashed_is_plain(dash: bool, s: Seq<char>)
    ensures
        plain_run(dashed_from(dash, s)),
    decreases s.len(),
{
    if s.len() > 0 {
        lemma_dashed_is_plain(false, s.skip(1));
        lemma_dashed_is_plain(true, s.skip(1));
        assert forall|i: int| 0 <= i < dashed_from(dash, s).len() implies ('a' <= #[trigger]
        dashed_from(dash, s)[i] <= 'z' || 'A' <= dashed_from(dash, s)[i] <= 'Z' || '0'
            <= dashed_from(dash, s)[i] <= '9' || dashed_from(dash, s)[i] == '.' || dashed_from(
            dash,
            s,
        )[i] == '_' || dashed_from(dash, s)[i] == '-') by {
            if plain_char(s[0]) {
                if i > 0 {
                    assert(dashed_from(dash, s)[i] == dashed_from(false, s.skip(1))[i - 1]);
                }
            } else if dash {
                assert(dashed_from(dash, s)[i] == dashed_from(true, s.skip(1))[i]);
            } else {
                if i > 0 {
                    assert(dashed_from(dash, s)[i] == dashed_from(true, s.skip(1))[i - 1]);
                }
            }
        }
    }
}

/// Every tag is made of characters a tag may hold, holds some, 80 at most, and
/// does not start with a dash.
pub proof fn every_tag_is_plain(branch: Seq<char>)
    ensures
        plain_run(branch_slug(branch)),
        0 < branch_slug(branch).len() <= 80,
        branch_slug(branch)[0] != '-',
{
    reveal_strlit("detached");
    assert("detached"@.len() == 8 && "detached"@[0] == 'd');
    assert(plain_run("detached"@)) by {
        assert forall|i: int| 0 <= i < "detached"@.len() implies ('a' <= #[trigger] "detached"@[i]
            <= 'z') by {}
    }
    let all = dashed_from(false, branch);
    lemma_dashed_is_plain(false, branch);
    stripping_takes_only_that_character(all, '-');
    stripping_keeps_characters(all, '-');
    let short = first_chars(stripped(all, '-'), 80);
    if short.len() > 0 {
        assert forall|i: int| 0 <= i < short.len() implies ('a' <= #[trigger] short[i] <= 'z' || 'A'
            <= short[i] <= 'Z' || '0' <= short[i] <= '9' || short[i] == '.' || short[i] == '_'
            || short[i] == '-') by {
            assert(short[i] == stripped(all, '-')[i]);
            assert(all.contains(stripped(all, '-')[i]));
            assert(all[all.index_of(short[i])] == short[i]);
        }
    }
}

/// A long branch name keeps its first 80 characters.
pub proof fn a_long_branch_keeps_its_start(branch: Seq<char>)
    requires
        branch.len() > 80,
        plain_run(branch),
        branch[0] != '-',
        branch.last() != '-',
    ensures
        branch_slug(branch) == branch.take(80),
{
    let none = Seq::<char>::empty();
    lemma_dashed_plain(false, branch, none);
    assert(branch + none =~= branch);
    assert(branch + dashed_from(false, none) =~= branch);
    lemma_stripped_nothing(branch);
}

/// A branch name that leaves nothing for a tag is tagged as detached.
pub proof fn a_branch_without_a_tag_is_detached(branch: Seq<char>)
    requires
        forall|i: int| 0 <= i < branch.len() ==> #[trigger] branch[i] == '-' || !plain_char(
            branch[i],
        ),
    ensures
        branch_slug(branch) == "detached"@,
{
    lemma_only_dashes(false, branch);
    let all = dashed_from(false, branch);
    stripping_takes_only_that_character(all, '-');
    if stripped(all, '-').len() > 0 {
        stripping_keeps_characters(all, '-');
        assert(all.contains(stripped(all, '-')[0]));
        assert(all[all.index_of(stripped(all, '-')[0])] == '-');
    }
}

proof fn lemma_only_dashes(dash: bool, s: Seq<char>)
    requires
        forall|i: int| 0 <= i < s.len() ==> #[trigger] s[i] == '-' || !plain_char(s[i]),
    ensures
        forall|i: int| 0 <= i < dashed_from(dash, s).len() ==> #[trigger] dashed_from(dash, s)[i]
            == '-',
    decreases s.len(),
{
    if s.len() > 0 {
        let rest = s.skip(1);
        assert forall|i: int| 0 <= i < rest.len() implies #[trigger] rest[i] == '-' || !plain_char(
            rest[i],
        ) by {
            assert(rest[i] == s[i + 1]);
        }
        lemma_only_dashes(false, rest);
        lemma_only_dashes(true, rest);
        assert(s[0] == '-' || !plain_char(s[0]));
        let all = dashed_from(dash, s);
        assert forall|i: int| 0 <= i < all.len() implies #[trigger] all[i] == '-' by {
            if plain_char(s[0]) {
                if i > 0 {
                    assert(all[i] == dashed_from(false, rest)[i - 1]);
                }
            } else if dash {
                assert(all[i] == dashed_from(true, rest)[i]);
            } else if i > 0 {
                assert(all[i] == dashed_from(true, rest)[i - 1]);
            }
        }
    }
}

} // verus!
