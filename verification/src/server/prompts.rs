//! The rituals: what agmem asks an agent to do, as opposed to what it offers
//! an agent to call.
//!
//! A prompt arrives as a turn in the conversation because somebody asked for
//! it, so what it says is the instruction in front of the model rather than
//! one candidate among several. That is why these two carry the parts of the
//! contract a tool description cannot make stick: look before you correct, a
//! conclusion cites what it came from, and the block is read as fact.

use vstd::prelude::*;

use crate::text::chars::{to_chars, to_text};
use crate::text::search::{ends_with, occurs, starts_with, what_is_put_between_occurs};
use crate::text::words::{trim, trimmed};

verus! {

/// The session-start ritual.
pub const RECALL_FIRST: &'static str = "recall_first";

/// The end-of-session ritual.
pub const CHECKPOINT: &'static str = "checkpoint";

/// The rituals, by name.
pub const NAMES: [&'static str; 2] = [RECALL_FIRST, CHECKPOINT];

/// What the session-start ritual says before its aim.
pub const RECALL_FIRST_OPENING: &'static str = "Before anything else in this session, call the `context` tool";

/// What the session-start ritual says behind its aim.
pub const RECALL_FIRST_REST: &'static str = ".\n\nRead the block it returns as established fact about this project and this person. It is what earlier sessions were told and chose to write down, not something agmem inferred — treat a line in it the way you would treat something the user just said to you. Where a claim matters enough to check rather than take, every line ends with its memory id, and `inspect` turns that id into where the claim came from and what it used to say.\n\nThen start the work, keeping two things going as you do:\n\n- If you need something the block does not cover, `recall` it in words before assuming it or asking for it. The block is a briefing under a character budget, not everything the store holds, and the verbatim text behind a claim is never in it.\n- If something in the block turns out to be wrong, correct it — `remember` with `supersedes` set to that line's id — rather than working around it. A wrong claim nobody corrects is one every later session inherits.";

/// What the end-of-session ritual says before its scope.
pub const CHECKPOINT_OPENING: &'static str = "Checkpoint this session into memory";

/// What the end-of-session ritual says behind its scope.
pub const CHECKPOINT_REST: &'static str = ".\n\n1. **Review the conversation and pick out what is durable.** A candidate is something a *future* session would otherwise have to work out again: a preference or a standing instruction, a decision and the reason behind it, a convention, a constraint, a lesson from something that failed. Leave out whatever the code, the tests or the ticket already record, and whatever only mattered to this turn.\n\n2. **`recall` each candidate before you write it**, in the words you would store it in. You are looking for two things: a live claim that already says this, in which case there is nothing to store; and a live claim that says something *different*, in which case this is a correction and you need its id. Do this even when you are sure the store is empty — that id is the only way a correction can be written, and there is no way to add one afterwards.\n\n3. **Call `remember` once, with every candidate in one batch.** One atomic, self-contained claim per entry, in the third person, understandable with no conversation around it — \"the user prefers Rust over Python for CLI tools\", not \"he said he likes it better\". Set `supersedes` to the id from step 2 on each entry that replaces an existing claim, and leave it unset on genuinely new ones.\n\n4. **A conclusion you worked out goes through `reflect` instead.** If one of your candidates is something you concluded *from* what step 2 returned — the cause behind three separate failures, what a preference and a constraint mean taken together — store that one with `reflect`: the insight, and `derived_from` set to the ids you drew it from. Same write, with the evidence attached, so a later session can check the conclusion rather than take it on faith. Something you were simply told is not this; it belongs in the batch above.\n\n5. **Read the answer back.** `created` is what is now stored. `duplicates` is what was already there, each with how close a match it was — decide per entry whether that means a no-op or a correction you missed in step 2. `superseded` is what you closed.\n\n6. **Tell me, in one short list**: what was saved, what was corrected, and what you deliberately left out.\n\nSaving nothing is a correct outcome for a session that produced nothing durable. Saving this session's scratch work is not.";

/// What a ritual is being pointed at, if anything.
///
/// One optional string rather than a set of knobs: a client renders a prompt
/// argument as free text, and a ritual that needs configuring is one nobody
/// runs.
#[derive(Debug)]
pub struct Focus {
    /// What to aim this at: a task, a topic, a file. Omit it for the whole
    /// session.
    pub focus: Option<String>,
}

impl Default for Focus {
    fn default() -> (focus: Self)
        ensures
            focus.focus is None,
    {
        Focus { focus: None }
    }
}

impl Focus {
    /// The focus with surrounding whitespace gone, if there is one worth
    /// having.
    pub open spec fn aim(self) -> Option<Seq<char>> {
        match self.focus {
            Some(focus) => if trimmed(focus@).len() > 0 {
                Some(trimmed(focus@))
            } else {
                None
            },
            None => None,
        }
    }

    /// The focus with surrounding whitespace gone, if there is one worth
    /// having. A client that sends an empty focus for an argument the user left
    /// blank means "no focus", not "focus on nothing".
    pub fn named(&self) -> (named: Option<String>)
        ensures
            match named {
                Some(named) => self.aim() == Some(named@),
                None => self.aim() is None,
            },
    {
        match &self.focus {
            Some(focus) => {
                let chars = to_chars(focus.as_str());
                let kept = trim(chars.as_slice());
                if kept.len() > 0 {
                    Some(to_text(kept))
                } else {
                    None
                }
            },
            None => None,
        }
    }
}

/// A text with its double quotes made single.
pub open spec fn unquotable(focus: Seq<char>) -> Seq<char> {
    focus.map_values(
        |c: char|
            if c == '"' {
                '\''
            } else {
                c
            },
    )
}

/// A focus as it appears inside the instruction.
pub open spec fn in_quotes(focus: Seq<char>) -> Seq<char> {
    seq!['"'] + unquotable(focus) + seq!['"']
}

/// A focus string as it should appear inside the instruction.
///
/// The value is whatever the user typed, and it lands in a sentence telling
/// the model what to do, so a quote in it must not be able to close the one
/// around it and start a new instruction.
pub fn quoted(focus: &str) -> (text: String)
    ensures
        text@ == in_quotes(focus@),
{
    let chars = to_chars(focus);
    let mut text = String::new();
    text.push('"');
    let mut i: usize = 0;
    let ghost whole = unquotable(focus@);
    assert(text@ =~= seq!['"'] + whole.take(0));
    while i < chars.len()
        invariant
            i <= chars@.len(),
            chars@ == focus@,
            whole == unquotable(focus@),
            text@ == seq!['"'] + whole.take(i as int),
        decreases chars@.len() - i,
    {
        let c = chars[i];
        text.push(
            if c == '"' {
                '\''
            } else {
                c
            },
        );
        i += 1;
        assert(text@ =~= seq!['"'] + whole.take(i as int));
    }
    assert(whole.take(i as int) =~= whole);
    text.push('"');
    assert(text@ =~= in_quotes(focus@));
    text
}

/// The session-start ritual, aimed or not.
pub open spec fn recall_first_text(aim: Option<Seq<char>>) -> Seq<char> {
    let aimed = match aim {
        Some(focus) => ", passing `query: "@ + in_quotes(focus)
            + "` so the Relevant section is aimed at what you are about to do"@,
        None => Seq::empty(),
    };
    RECALL_FIRST_OPENING@ + aimed + RECALL_FIRST_REST@
}

/// The end-of-session ritual, scoped or not.
pub open spec fn checkpoint_text(aim: Option<Seq<char>>) -> Seq<char> {
    let scoped = match aim {
        Some(focus) => ", limited to what relates to "@ + in_quotes(focus),
        None => Seq::empty(),
    };
    CHECKPOINT_OPENING@ + scoped + CHECKPOINT_REST@
}

/// Read memory before the first move.
///
/// The `context` tool already assembles the block; this says what to do with
/// it, because that is the half a tool cannot state about itself.
pub fn recall_first(focus: &Focus) -> (text: String)
    ensures
        text@ == recall_first_text(focus.aim()),
{
    let aimed = match focus.named() {
        Some(focus) => ", passing `query: ".to_owned().concat(quoted(focus.as_str()).as_str()).concat(
            "` so the Relevant section is aimed at what you are about to do",
        ),
        None => String::new(),
    };
    RECALL_FIRST_OPENING.to_owned().concat(aimed.as_str()).concat(RECALL_FIRST_REST)
}

/// Distil the session and write down what survives it.
///
/// Step 2 is the whole reason this is a prompt: a description that asks for a
/// `recall` before a correction is skipped.
pub fn checkpoint(focus: &Focus) -> (text: String)
    ensures
        text@ == checkpoint_text(focus.aim()),
{
    let scoped = match focus.named() {
        Some(focus) => ", limited to what relates to ".to_owned().concat(
            quoted(focus.as_str()).as_str(),
        ),
        None => String::new(),
    };
    CHECKPOINT_OPENING.to_owned().concat(scoped.as_str()).concat(CHECKPOINT_REST)
}

/// How often a double quote stands in a text.
pub open spec fn quotes(s: Seq<char>) -> nat
    decreases s.len(),
{
    if s.len() == 0 {
        0
    } else {
        quotes(s.drop_last()) + (if s.last() == '"' {
            1nat
        } else {
            0
        })
    }
}

proof fn lemma_quotes_add(a: Seq<char>, b: Seq<char>)
    ensures
        quotes(a + b) == quotes(a) + quotes(b),
    decreases b.len(),
{
    if b.len() == 0 {
        assert(a + b =~= a);
    } else {
        assert((a + b).drop_last() =~= a + b.drop_last());
        lemma_quotes_add(a, b.drop_last());
    }
}

proof fn lemma_no_quotes(s: Seq<char>)
    ensures
        quotes(unquotable(s)) == 0,
    decreases s.len(),
{
    if s.len() > 0 {
        assert(unquotable(s).drop_last() =~= unquotable(s.drop_last()));
        lemma_no_quotes(s.drop_last());
    }
}

proof fn lemma_quotes_in_focus(focus: Seq<char>)
    ensures
        quotes(in_quotes(focus)) == 2,
{
    let mark = seq!['"'];
    lemma_no_quotes(focus);
    lemma_quotes_add(mark, unquotable(focus));
    lemma_quotes_add(mark + unquotable(focus), mark);
    assert(mark.drop_last() =~= Seq::empty());
    assert(quotes(mark.drop_last()) == 0);
    assert(quotes(mark) == 1);
}

/// A quote in the focus cannot close the one around it: whatever the focus
/// holds, the instruction holds as many quotes as it does for any other focus.
pub proof fn a_focus_cannot_close_its_quotes(a: Seq<char>, b: Seq<char>)
    ensures
        quotes(checkpoint_text(Some(a))) == quotes(checkpoint_text(Some(b))),
        quotes(recall_first_text(Some(a))) == quotes(recall_first_text(Some(b))),
{
    lemma_quotes_of_texts(a);
    lemma_quotes_of_texts(b);
}

proof fn lemma_quotes_of_texts(focus: Seq<char>)
    ensures
        quotes(checkpoint_text(Some(focus))) == quotes(CHECKPOINT_OPENING@) + quotes(
            ", limited to what relates to "@,
        ) + 2 + quotes(CHECKPOINT_REST@),
        quotes(recall_first_text(Some(focus))) == quotes(RECALL_FIRST_OPENING@) + quotes(
            ", passing `query: "@,
        ) + 2 + quotes("` so the Relevant section is aimed at what you are about to do"@) + quotes(
            RECALL_FIRST_REST@,
        ),
{
    let held = in_quotes(focus);
    lemma_quotes_in_focus(focus);
    let limited = ", limited to what relates to "@;
    lemma_quotes_add(limited, held);
    lemma_quotes_add(CHECKPOINT_OPENING@, limited + held);
    lemma_quotes_add(CHECKPOINT_OPENING@ + (limited + held), CHECKPOINT_REST@);
    let passing = ", passing `query: "@;
    let aimed = "` so the Relevant section is aimed at what you are about to do"@;
    lemma_quotes_add(passing, held);
    lemma_quotes_add(passing + held, aimed);
    lemma_quotes_add(RECALL_FIRST_OPENING@, passing + held + aimed);
    lemma_quotes_add(RECALL_FIRST_OPENING@ + (passing + held + aimed), RECALL_FIRST_REST@);
}

/// An empty focus is no focus.
pub proof fn an_empty_focus_is_no_focus(focus: Focus)
    requires
        focus.focus matches Some(text) && trimmed(text@).len() == 0,
    ensures
        recall_first_text(focus.aim()) == recall_first_text(None),
        checkpoint_text(focus.aim()) == checkpoint_text(None),
{
}

/// A focus is handed over in quotes, in the middle of the text and whole: only
/// a double quote in it is changed, into a single one.
pub proof fn a_focus_is_handed_over_whole(focus: Seq<char>, i: int)
    ensures
        occurs(recall_first_text(Some(focus)), seq!['"'] + unquotable(focus) + seq!['"']),
        occurs(checkpoint_text(Some(focus)), seq!['"'] + unquotable(focus) + seq!['"']),
        unquotable(focus).len() == focus.len(),
        0 <= i < focus.len() ==> unquotable(focus)[i] == if focus[i] == '"' {
            '\''
        } else {
            focus[i]
        },
{
    let quoted = in_quotes(focus);
    assert(occurs(recall_first_text(Some(focus)), quoted)) by {
        let before = RECALL_FIRST_OPENING@ + ", passing `query: "@;
        let after = "` so the Relevant section is aimed at what you are about to do"@
            + RECALL_FIRST_REST@;
        assert(recall_first_text(Some(focus)) =~= before + quoted + after);
        what_is_put_between_occurs(before, quoted, after);
    }
    assert(occurs(checkpoint_text(Some(focus)), quoted)) by {
        let before = CHECKPOINT_OPENING@ + ", limited to what relates to "@;
        assert(checkpoint_text(Some(focus)) =~= before + quoted + CHECKPOINT_REST@);
        what_is_put_between_occurs(before, quoted, CHECKPOINT_REST@);
    }
}

/// The ritual itself is the same with a focus and without: the text opens and
/// ends alike, and a focus only adds to it.
pub proof fn a_focus_only_adds(aim: Option<Seq<char>>)
    ensures
        starts_with(recall_first_text(aim), RECALL_FIRST_OPENING@),
        ends_with(recall_first_text(aim), RECALL_FIRST_REST@),
        starts_with(checkpoint_text(aim), CHECKPOINT_OPENING@),
        ends_with(checkpoint_text(aim), CHECKPOINT_REST@),
        recall_first_text(None) == RECALL_FIRST_OPENING@ + RECALL_FIRST_REST@,
        checkpoint_text(None) == CHECKPOINT_OPENING@ + CHECKPOINT_REST@,
{
    let none = Seq::<char>::empty();
    assert(RECALL_FIRST_OPENING@ + none =~= RECALL_FIRST_OPENING@);
    assert(CHECKPOINT_OPENING@ + none =~= CHECKPOINT_OPENING@);
    let aimed = match aim {
        Some(focus) => ", passing `query: "@ + in_quotes(focus)
            + "` so the Relevant section is aimed at what you are about to do"@,
        None => none,
    };
    lemma_ends(RECALL_FIRST_OPENING@, aimed, RECALL_FIRST_REST@);
    let scoped = match aim {
        Some(focus) => ", limited to what relates to "@ + in_quotes(focus),
        None => none,
    };
    lemma_ends(CHECKPOINT_OPENING@, scoped, CHECKPOINT_REST@);
}

proof fn lemma_ends(a: Seq<char>, b: Seq<char>, c: Seq<char>)
    ensures
        starts_with(a + b + c, a),
        ends_with(a + b + c, c),
{
    let whole = a + b + c;
    assert(whole.subrange(0, a.len() as int) =~= a);
    assert(whole.subrange(whole.len() - c.len(), whole.len() as int) =~= c);
}

/// A focus is what was given, without the whitespace around it, and none where
/// that leaves nothing.
pub proof fn a_focus_is_what_was_given(focus: Focus)
    ensures
        focus.focus is None ==> focus.aim() is None,
        focus.focus matches Some(text) ==> (focus.aim() is None <==> trimmed(text@).len() == 0) && (
        trimmed(text@).len() > 0 ==> focus.aim() == Some(trimmed(text@))),
{
}

} // verus!
