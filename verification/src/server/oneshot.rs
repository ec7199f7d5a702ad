//! One answer on stdout, and exit.
//!
//! A one-shot asks the tool a session would have asked: through the shared
//! daemon where a session would share it, else over a store opened here. What
//! goes into the call and what is printed is here.

use vstd::prelude::*;

use crate::domain::json::Json;
use crate::server::args::ContextArgs;
use crate::text::chars::texts;
use crate::text::words::{join_texts, joined};

verus! {

/// One block of a tool's answer.
#[derive(Debug, PartialEq, Eq)]
pub enum Block {
    Text(String),
    /// Anything that is not text.
    Other,
}

/// The texts among some blocks.
pub open spec fn texts_in(blocks: Seq<Block>) -> Seq<Seq<char>>
    decreases blocks.len(),
{
    if blocks.len() == 0 {
        Seq::empty()
    } else {
        match blocks.last() {
            Block::Text(text) => texts_in(blocks.drop_last()).push(text@),
            Block::Other => texts_in(blocks.drop_last()),
        }
    }
}

/// The context block out of the tool's answer.
///
/// `context` answers with one text block and nothing else, so anything
/// different here is a changed contract.
///
/// # Errors
/// When the answer is an error, or holds no text.
pub fn markdown(blocks: &[Block], is_error: Option<bool>) -> (result: Result<String, String>)
    ensures
        ({
            let words = texts_in(blocks@);
            match result {
                Ok(text) => is_error != Some(true) && words.len() > 0 && text@ == joined(
                    words,
                    "\n"@,
                ),
                Err(message) => if is_error == Some(true) {
                    message@ == "the context tool answered with an error: "@ + joined(words, "\n"@)
                } else {
                    words.len() == 0 && message@
                        == "the context tool answered with no text; agmem versions disagree?"@
                },
            }
        }),
{
    let mut words: Vec<String> = Vec::new();
    let mut i: usize = 0;
    assert(texts(words@) =~= Seq::<Seq<char>>::empty());
    while i < blocks.len()
        invariant
            i <= blocks@.len(),
            texts(words@) == texts_in(blocks@.take(i as int)),
        decreases blocks@.len() - i,
    {
        assert(blocks@.take(i + 1).drop_last() =~= blocks@.take(i as int));
        let ghost before = words@;
        match &blocks[i] {
            Block::Text(text) => {
                words.push(text.clone());
                assert(texts(words@) =~= texts(before).push(text@));
            },
            Block::Other => {},
        }
        i += 1;
    }
    assert(blocks@.take(blocks@.len() as int) =~= blocks@);
    assert(texts(words@).len() == words@.len());
    let text = join_texts(words.as_slice(), "\n");
    let failed = match is_error {
        Some(failed) => failed,
        None => false,
    };
    if failed {
        return Err("the context tool answered with an error: ".to_owned().concat(text.as_str()));
    }
    if words.len() == 0 {
        return Err(
            "the context tool answered with no text; agmem versions disagree?".to_owned(),
        );
    }
    Ok(text)
}

/// What to say when the tool refused the call.
pub fn refused(error: &str) -> (message: String)
    ensures
        message@ == "the context tool refused: "@ + error@,
{
    "the context tool refused: ".to_owned().concat(error)
}

/// A field that is there only where it has a value.
pub open spec fn given(name: Seq<char>, value: Option<Json>) -> Seq<(Seq<char>, Json)> {
    match value {
        Some(value) => seq![(name, value)],
        None => Seq::empty(),
    }
}

/// What the one-shot hands to `context`: what was given on the command line,
/// and nothing else.
pub open spec fn context_fields(args: ContextArgs) -> Seq<(Seq<char>, Json)> {
    given(
        "query"@,
        match args.query {
            Some(query) => Some(Json::Text(query)),
            None => None,
        },
    ) + given(
        "space"@,
        match args.space {
            Some(space) => Some(Json::Text(space)),
            None => None,
        },
    ) + given(
        "budget_chars"@,
        match args.budget_chars {
            Some(budget) => Some(Json::Number(Some(budget as i128))),
            None => None,
        },
    )
}

/// The fields of an object by the text of their names.
pub open spec fn named_fields(fields: Seq<(String, Json)>) -> Seq<(Seq<char>, Json)> {
    fields.map_values(|field: (String, Json)| (field.0@, field.1))
}

/// What the one-shot hands to `context`.
pub fn context_arguments(args: ContextArgs) -> (arguments: Vec<(String, Json)>)
    ensures
        named_fields(arguments@) == context_fields(args),
{
    let mut arguments: Vec<(String, Json)> = Vec::new();
    match args.query {
        Some(query) => arguments.push(("query".to_owned(), Json::Text(query))),
        None => {},
    }
    match args.space {
        Some(space) => arguments.push(("space".to_owned(), Json::Text(space))),
        None => {},
    }
    match args.budget_chars {
        Some(budget) => arguments.push(
            ("budget_chars".to_owned(), Json::Number(Some(budget as i128))),
        ),
        None => {},
    }
    assert(named_fields(arguments@) =~= context_fields(args));
    arguments
}

/// Every text block counts, in order, and no other does.
pub proof fn every_text_block_counts(blocks: Seq<Block>, block: Block)
    ensures
        texts_in(Seq::empty()) == Seq::<Seq<char>>::empty(),
        block matches Block::Text(text) ==> texts_in(blocks.push(block)) == texts_in(blocks).push(
            text@,
        ),
        block is Other ==> texts_in(blocks.push(block)) == texts_in(blocks),
{
    assert(blocks.push(block).drop_last() =~= blocks);
}

/// What was given is asked for, each under its own name, and what was not
/// given is not.
pub proof fn only_what_was_given_is_asked_for(args: ContextArgs, value: Json)
    ensures
        args.query matches Some(query) ==> context_fields(args).contains(
            ("query"@, Json::Text(query)),
        ),
        args.space matches Some(space) ==> context_fields(args).contains(
            ("space"@, Json::Text(space)),
        ),
        args.budget_chars matches Some(budget) ==> context_fields(args).contains(
            ("budget_chars"@, Json::Number(Some(budget as i128))),
        ),
        context_fields(args).contains(("query"@, value)) ==> args.query is Some,
        context_fields(args).contains(("space"@, value)) ==> args.space is Some,
        context_fields(args).contains(("budget_chars"@, value)) ==> args.budget_chars is Some,
        context_fields(args).len() == (if args.query is Some {
            1int
        } else {
            0
        }) + (if args.space is Some {
            1int
        } else {
            0
        }) + (if args.budget_chars is Some {
            1int
        } else {
            0
        }),
{
    reveal_strlit("query");
    reveal_strlit("space");
    reveal_strlit("budget_chars");
    assert("query"@[0] == 'q' && "space"@[0] == 's' && "budget_chars"@[0] == 'b');
    let all = context_fields(args);
    let first: int = if args.query is Some {
        1
    } else {
        0
    };
    let second: int = first + if args.space is Some {
        1int
    } else {
        0
    };
    if let Some(query) = args.query {
        assert(all[0] == ("query"@, Json::Text(query)));
    }
    if let Some(space) = args.space {
        assert(all[first] == ("space"@, Json::Text(space)));
    }
    if let Some(budget) = args.budget_chars {
        assert(all[second] == ("budget_chars"@, Json::Number(Some(budget as i128))));
    }
}

} // verus!
