//! The embedding candidates under measurement, each with its own prefixes and
//! pooling.
//!
//! Measurement surface only: nothing in the server constructs these. Every
//! candidate runs through ONNX Runtime, so the vectors measured are the
//! vectors a store would get. Two families are in fastembed's built-in list;
//! arctic-embed-m-v2.0 is a user-defined fastembed model read from the model
//! cache. Qwen3-Embedding is driven through a session of its own: its export
//! takes inputs fastembed never feeds and wants last-token pooling, so this
//! module plans the session, lays the tokens out and finds the pooled position.

use vstd::prelude::*;

use crate::domain::json::{parse, parsed, Json};
use crate::text::chars::{str_texts, texts};
use crate::text::number::{decimal, to_decimal};
use crate::text::path::{join_path, joined_path};
use crate::text::search::{a_sum_starts_and_ends_with_its_parts, ends_with, same, starts_with};

verus! {

/// The environment variable that names the candidate a test run measures.
pub const CANDIDATE_ENV: &'static str = "AGMEM_CANDIDATE";

/// Longest input, in tokens, for the models this module tokenises itself.
pub const MAX_TOKENS: usize = 512;

/// The models under measurement.
#[derive(Debug, Clone, Copy, PartialEq, Eq, Structural)]
pub enum Candidate {
    /// The control: what ships today.
    BgeSmallQ,
    /// EmbeddingGemma-300M, 8-bit dynamic quantisation, pooled in-graph.
    Gemma300MQ,
    /// snowflake-arctic-embed-m-v2.0, int8, CLS pooled.
    ArcticMV2Int8,
    /// Qwen3-Embedding-0.6B, int8, last-token pooled.
    Qwen3Embedding06BInt8,
    /// The control's fp32 export.
    BgeSmallF32,
    /// EmbeddingGemma-300M, fp32.
    Gemma300MF32,
    /// snowflake-arctic-embed-m-v2.0, fp32, CLS pooled.
    ArcticMV2F32,
}

/// What runs a candidate.
#[derive(Debug, Clone, Copy, PartialEq, Eq, Structural)]
pub enum Engine {
    /// A model of fastembed's own list.
    BuiltIn,
    /// A user-defined fastembed model, CLS pooled; quantized statically or not.
    UserDefined { quantized: bool },
    /// A session driven here, for an export fastembed cannot feed.
    Direct,
}

/// Token files the user-defined loaders read from the model cache.
pub open spec fn tokenizer_files() -> Seq<Seq<char>> {
    seq!["tokenizer.json"@, "config.json"@, "special_tokens_map.json"@, "tokenizer_config.json"@]
}

impl Candidate {
    /// The id a recording and a latency row spell.
    pub open spec fn spelled(self) -> Seq<char> {
        match self {
            Candidate::BgeSmallQ => "bge-small-en-v1.5-q"@,
            Candidate::Gemma300MQ => "embeddinggemma-300m-q"@,
            Candidate::ArcticMV2Int8 => "arctic-embed-m-v2.0-int8"@,
            Candidate::Qwen3Embedding06BInt8 => "qwen3-embedding-0.6b-int8"@,
            Candidate::BgeSmallF32 => "bge-small-en-v1.5"@,
            Candidate::Gemma300MF32 => "embeddinggemma-300m"@,
            Candidate::ArcticMV2F32 => "arctic-embed-m-v2.0"@,
        }
    }

    /// What stored text is marked with, per the model's card.
    pub open spec fn passage_mark(self) -> Seq<char> {
        match self {
            Candidate::BgeSmallQ => "passage: "@,
            Candidate::Gemma300MQ => "title: none | text: "@,
            Candidate::ArcticMV2Int8 => ""@,
            Candidate::Qwen3Embedding06BInt8 => ""@,
            Candidate::BgeSmallF32 => "passage: "@,
            Candidate::Gemma300MF32 => "title: none | text: "@,
            Candidate::ArcticMV2F32 => ""@,
        }
    }

    /// What the search side is marked with, per the model's card.
    pub open spec fn query_mark(self) -> Seq<char> {
        match self {
            Candidate::BgeSmallQ => "query: "@,
            Candidate::Gemma300MQ => "task: search result | query: "@,
            Candidate::ArcticMV2Int8 => "query: "@,
            Candidate::Qwen3Embedding06BInt8 => "Instruct: Given a web search query, retrieve relevant passages that answer the query\nQuery: "@,
            Candidate::BgeSmallF32 => "query: "@,
            Candidate::Gemma300MF32 => "task: search result | query: "@,
            Candidate::ArcticMV2F32 => "query: "@,
        }
    }

    /// The repo and the ONNX file of a user-defined candidate.
    pub open spec fn origin(self) -> Option<(Seq<char>, Seq<char>)> {
        match self {
            Candidate::BgeSmallQ => None,
            Candidate::Gemma300MQ => None,
            Candidate::ArcticMV2Int8 => Some(("Snowflake/snowflake-arctic-embed-m-v2.0"@, "onnx/model_int8.onnx"@)),
            Candidate::Qwen3Embedding06BInt8 => Some(("onnx-community/Qwen3-Embedding-0.6B-ONNX"@, "onnx/model_int8.onnx"@)),
            Candidate::BgeSmallF32 => None,
            Candidate::Gemma300MF32 => None,
            Candidate::ArcticMV2F32 => Some(("Snowflake/snowflake-arctic-embed-m-v2.0"@, "onnx/model.onnx"@)),
        }
    }

    /// Every candidate, control first.
    pub const ALL: [Self; 7] = [
        Candidate::BgeSmallQ,
        Candidate::Gemma300MQ,
        Candidate::ArcticMV2Int8,
        Candidate::Qwen3Embedding06BInt8,
        Candidate::BgeSmallF32,
        Candidate::Gemma300MF32,
        Candidate::ArcticMV2F32,
    ];

    /// The id a recording, a latency row and `AGMEM_CANDIDATE` spell.
    #[must_use]
    pub fn id(self) -> (text: &'static str)
        ensures
            text@ == self.spelled(),
            self == Candidate::BgeSmallQ ==> text@ == "bge-small-en-v1.5-q"@,
            self == Candidate::Gemma300MQ ==> text@ == "embeddinggemma-300m-q"@,
            self == Candidate::ArcticMV2Int8 ==> text@ == "arctic-embed-m-v2.0-int8"@,
            self == Candidate::Qwen3Embedding06BInt8 ==> text@ == "qwen3-embedding-0.6b-int8"@,
            self == Candidate::BgeSmallF32 ==> text@ == "bge-small-en-v1.5"@,
            self == Candidate::Gemma300MF32 ==> text@ == "embeddinggemma-300m"@,
            self == Candidate::ArcticMV2F32 ==> text@ == "arctic-embed-m-v2.0"@,
    {
        match self {
            Candidate::BgeSmallQ => "bge-small-en-v1.5-q",
            Candidate::Gemma300MQ => "embeddinggemma-300m-q",
            Candidate::ArcticMV2Int8 => "arctic-embed-m-v2.0-int8",
            Candidate::Qwen3Embedding06BInt8 => "qwen3-embedding-0.6b-int8",
            Candidate::BgeSmallF32 => "bge-small-en-v1.5",
            Candidate::Gemma300MF32 => "embeddinggemma-300m",
            Candidate::ArcticMV2F32 => "arctic-embed-m-v2.0",
        }
    }

    /// The candidate an id names.
    #[must_use]
    pub fn parse(id: &str) -> (found: Option<Self>)
        ensures
            match found {
                Some(candidate) => candidate.spelled() == id@,
                None => forall|other: Candidate| #[trigger] other.spelled() != id@,
            },
    {
        if same(id, Candidate::BgeSmallQ.id()) {
            return Some(Candidate::BgeSmallQ);
        }
        if same(id, Candidate::Gemma300MQ.id()) {
            return Some(Candidate::Gemma300MQ);
        }
        if same(id, Candidate::ArcticMV2Int8.id()) {
            return Some(Candidate::ArcticMV2Int8);
        }
        if same(id, Candidate::Qwen3Embedding06BInt8.id()) {
            return Some(Candidate::Qwen3Embedding06BInt8);
        }
        if same(id, Candidate::BgeSmallF32.id()) {
            return Some(Candidate::BgeSmallF32);
        }
        if same(id, Candidate::Gemma300MF32.id()) {
            return Some(Candidate::Gemma300MF32);
        }
        if same(id, Candidate::ArcticMV2F32.id()) {
            return Some(Candidate::ArcticMV2F32);
        }
        None
    }

    /// Full vector width, before any MRL truncation.
    #[must_use]
    pub fn dim(self) -> (dim: usize)
        ensures
            dim == match self {
                Candidate::BgeSmallQ => 384usize,
                Candidate::Gemma300MQ => 768,
                Candidate::ArcticMV2Int8 => 768,
                Candidate::Qwen3Embedding06BInt8 => 1024,
                Candidate::BgeSmallF32 => 384,
                Candidate::Gemma300MF32 => 768,
                Candidate::ArcticMV2F32 => 768,
            },
    {
        match self {
            Candidate::BgeSmallQ => 384,
            Candidate::Gemma300MQ => 768,
            Candidate::ArcticMV2Int8 => 768,
            Candidate::Qwen3Embedding06BInt8 => 1024,
            Candidate::BgeSmallF32 => 384,
            Candidate::Gemma300MF32 => 768,
            Candidate::ArcticMV2F32 => 768,
        }
    }

    /// What stored text is marked with, per the model's card.
    #[must_use]
    pub fn passage_prefix(self) -> (text: &'static str)
        ensures
            text@ == self.passage_mark(),
            self == Candidate::BgeSmallQ ==> text@ == "passage: "@,
            self == Candidate::Gemma300MQ ==> text@ == "title: none | text: "@,
            self == Candidate::ArcticMV2Int8 ==> text@ == ""@,
            self == Candidate::Qwen3Embedding06BInt8 ==> text@ == ""@,
            self == Candidate::BgeSmallF32 ==> text@ == "passage: "@,
            self == Candidate::Gemma300MF32 ==> text@ == "title: none | text: "@,
            self == Candidate::ArcticMV2F32 ==> text@ == ""@,
    {
        match self {
            Candidate::BgeSmallQ => "passage: ",
            Candidate::Gemma300MQ => "title: none | text: ",
            Candidate::ArcticMV2Int8 => "",
            Candidate::Qwen3Embedding06BInt8 => "",
            Candidate::BgeSmallF32 => "passage: ",
            Candidate::Gemma300MF32 => "title: none | text: ",
            Candidate::ArcticMV2F32 => "",
        }
    }

    /// What the search side is marked with, per the model's card.
    #[must_use]
    pub fn query_prefix(self) -> (text: &'static str)
        ensures
            text@ == self.query_mark(),
            self == Candidate::BgeSmallQ ==> text@ == "query: "@,
            self == Candidate::Gemma300MQ ==> text@ == "task: search result | query: "@,
            self == Candidate::ArcticMV2Int8 ==> text@ == "query: "@,
            self == Candidate::Qwen3Embedding06BInt8 ==> text@ == "Instruct: Given a web search query, retrieve relevant passages that answer the query\nQuery: "@,
            self == Candidate::BgeSmallF32 ==> text@ == "query: "@,
            self == Candidate::Gemma300MF32 ==> text@ == "task: search result | query: "@,
            self == Candidate::ArcticMV2F32 ==> text@ == "query: "@,
    {
        match self {
            Candidate::BgeSmallQ => "query: ",
            Candidate::Gemma300MQ => "task: search result | query: ",
            Candidate::ArcticMV2Int8 => "query: ",
            Candidate::Qwen3Embedding06BInt8 => "Instruct: Given a web search query, retrieve relevant passages that answer the query\nQuery: ",
            Candidate::BgeSmallF32 => "query: ",
            Candidate::Gemma300MF32 => "task: search result | query: ",
            Candidate::ArcticMV2F32 => "query: ",
        }
    }

    /// The Hugging Face repo a user-defined candidate's files come from, and
    /// the ONNX file inside it; `None` for fastembed's built-ins.
    #[must_use]
    pub fn user_defined(self) -> (found: Option<(&'static str, &'static str)>)
        ensures
            match found {
                Some((repo, file)) => self.origin() == Some((repo@, file@)),
                None => self.origin() is None,
            },
            self == Candidate::ArcticMV2Int8 ==> (found matches Some((repo, file)) && repo@
                == "Snowflake/snowflake-arctic-embed-m-v2.0"@ && file@ == "onnx/model_int8.onnx"@),
            self == Candidate::ArcticMV2F32 ==> (found matches Some((repo, file)) && repo@
                == "Snowflake/snowflake-arctic-embed-m-v2.0"@ && file@ == "onnx/model.onnx"@),
            self == Candidate::Qwen3Embedding06BInt8 ==> (found matches Some((repo, file)) && repo@
                == "onnx-community/Qwen3-Embedding-0.6B-ONNX"@ && file@ == "onnx/model_int8.onnx"@),
            found is Some ==> self == Candidate::ArcticMV2Int8 || self == Candidate::ArcticMV2F32
                || self == Candidate::Qwen3Embedding06BInt8,
    {
        match self {
            Candidate::BgeSmallQ => None,
            Candidate::Gemma300MQ => None,
            Candidate::ArcticMV2Int8 => Some(("Snowflake/snowflake-arctic-embed-m-v2.0", "onnx/model_int8.onnx")),
            Candidate::Qwen3Embedding06BInt8 => Some(("onnx-community/Qwen3-Embedding-0.6B-ONNX", "onnx/model_int8.onnx")),
            Candidate::BgeSmallF32 => None,
            Candidate::Gemma300MF32 => None,
            Candidate::ArcticMV2F32 => Some(("Snowflake/snowflake-arctic-embed-m-v2.0", "onnx/model.onnx")),
        }
    }

    /// Every file a user-defined candidate needs, relative to its repo.
    #[must_use]
    pub fn files(self) -> (files: Vec<&'static str>)
        ensures
            str_texts(files@) == match self.origin() {
                Some((_, onnx)) => seq![onnx] + tokenizer_files(),
                None => Seq::empty(),
            },
            self.origin() matches Some((_, onnx)) ==> str_texts(files@) == seq![
                onnx,
                "tokenizer.json"@,
                "config.json"@,
                "special_tokens_map.json"@,
                "tokenizer_config.json"@,
            ],
    {
        let mut files: Vec<&'static str> = Vec::new();
        if let Some((_, onnx)) = self.user_defined() {
            files.push(onnx);
            files.push("tokenizer.json");
            files.push("config.json");
            files.push("special_tokens_map.json");
            files.push("tokenizer_config.json");
            assert(str_texts(files@) =~= seq![onnx@] + tokenizer_files());
        } else {
            assert(str_texts(files@) =~= Seq::empty());
        }
        files
    }

    /// Where a user-defined candidate's files live under the model cache.
    #[must_use]
    pub fn dir(self, cache_dir: &str) -> (dir: Option<String>)
        ensures
            match dir {
                Some(dir) => self.origin() matches Some((repo, _)) && dir@ == joined_path(
                    joined_path(cache_dir@, "candidates"@),
                    repo,
                ),
                None => self.origin() is None,
            },
    {
        match self.user_defined() {
            Some((repo, _)) => Some(
                join_path(join_path(cache_dir, "candidates").as_str(), repo),
            ),
            None => None,
        }
    }

    /// What runs this candidate.
    #[must_use]
    pub fn engine(self) -> (engine: Engine)
        ensures
            engine == match self {
                Candidate::BgeSmallQ => Engine::BuiltIn,
                Candidate::Gemma300MQ => Engine::BuiltIn,
                Candidate::ArcticMV2Int8 => Engine::UserDefined { quantized: true },
                Candidate::Qwen3Embedding06BInt8 => Engine::Direct,
                Candidate::BgeSmallF32 => Engine::BuiltIn,
                Candidate::Gemma300MF32 => Engine::BuiltIn,
                Candidate::ArcticMV2F32 => Engine::UserDefined { quantized: false },
            },
            engine == Engine::BuiltIn <==> self.origin() is None,
    {
        match self {
            Candidate::BgeSmallQ => Engine::BuiltIn,
            Candidate::Gemma300MQ => Engine::BuiltIn,
            Candidate::ArcticMV2Int8 => Engine::UserDefined { quantized: true },
            Candidate::Qwen3Embedding06BInt8 => Engine::Direct,
            Candidate::BgeSmallF32 => Engine::BuiltIn,
            Candidate::Gemma300MF32 => Engine::BuiltIn,
            Candidate::ArcticMV2F32 => Engine::UserDefined { quantized: false },
        }
    }
}

/// An id names one candidate, so that parsing undoes spelling.
pub proof fn candidate_ids_are_distinct(a: Candidate, b: Candidate)
    requires
        a.spelled() == b.spelled(),
    ensures
        a == b,
{
    reveal_strlit("bge-small-en-v1.5-q");
    reveal_strlit("embeddinggemma-300m-q");
    reveal_strlit("arctic-embed-m-v2.0-int8");
    reveal_strlit("qwen3-embedding-0.6b-int8");
    reveal_strlit("bge-small-en-v1.5");
    reveal_strlit("embeddinggemma-300m");
    reveal_strlit("arctic-embed-m-v2.0");
    assert("bge-small-en-v1.5-q"@.len() == 19 && "embeddinggemma-300m-q"@.len() == 21);
    assert("arctic-embed-m-v2.0-int8"@.len() == 24 && "qwen3-embedding-0.6b-int8"@.len() == 25);
    assert("bge-small-en-v1.5"@.len() == 17 && "embeddinggemma-300m"@.len() == 19);
    assert("arctic-embed-m-v2.0"@.len() == 19);
    assert("bge-small-en-v1.5-q"@[0] == 'b' && "embeddinggemma-300m"@[0] == 'e');
    assert("arctic-embed-m-v2.0"@[0] == 'a');
}

/// Texts with a mark in front of each.
pub open spec fn marked(mark: Seq<char>, passages: Seq<Seq<char>>) -> Seq<Seq<char>> {
    passages.map_values(|passage: Seq<char>| mark + passage)
}

/// Mark stored texts the way a model wants them.
pub fn mark_all(prefix: &str, passages: &[String]) -> (result: Vec<String>)
    ensures
        texts(result@) == marked(prefix@, texts(passages@)),
{
    let mut result: Vec<String> = Vec::new();
    let mut i: usize = 0;
    while i < passages.len()
        invariant
            i <= passages@.len(),
            result@.len() == i,
            forall|j: int| 0 <= j < i ==> (#[trigger] result@[j])@ == prefix@ + passages@[j]@,
        decreases passages@.len() - i,
    {
        result.push(prefix.to_owned().concat(passages[i].as_str()));
        i += 1;
    }
    assert(texts(result@) =~= marked(prefix@, texts(passages@)));
    result
}

/// The first width that is not the expected one.
pub open spec fn first_wrong(widths: Seq<usize>, dim: usize) -> Option<usize>
    decreases widths.len(),
{
    if widths.len() == 0 {
        None
    } else if widths[0] != dim {
        Some(widths[0])
    } else {
        first_wrong(widths.skip(1), dim)
    }
}

/// Check that every vector has the width the store depends on.
///
/// # Errors
/// What to say of the first vector that has another width.
pub fn check_widths(widths: &[usize], dim: usize) -> (result: Result<(), String>)
    ensures
        match result {
            Ok(_) => first_wrong(widths@, dim) is None,
            Err(message) => first_wrong(widths@, dim) matches Some(wrong) && message@
                == "model returned "@ + decimal(wrong as nat) + "-dimensional vectors, expected "@
                + decimal(dim as nat),
        },
{
    let mut i: usize = 0;
    assert(widths@.skip(0) =~= widths@);
    while i < widths.len()
        invariant
            i <= widths@.len(),
            first_wrong(widths@, dim) == first_wrong(widths@.skip(i as int), dim),
        decreases widths@.len() - i,
    {
        assert(widths@.skip(i as int).skip(1) =~= widths@.skip(i + 1));
        if widths[i] != dim {
            return Err(
                "model returned ".to_owned().concat(to_decimal(widths[i] as u64).as_str()).concat(
                    "-dimensional vectors, expected ",
                ).concat(to_decimal(dim as u64).as_str()),
            );
        }
        i += 1;
    }
    Ok(())
}

/// All widths agree exactly where none is wrong.
pub proof fn no_wrong_width_means_all_agree(widths: Seq<usize>, dim: usize)
    ensures
        first_wrong(widths, dim) is None <==> (forall|i: int|
            0 <= i < widths.len() ==> #[trigger] widths[i] == dim),
    decreases widths.len(),
{
    if widths.len() > 0 {
        no_wrong_width_means_all_agree(widths.skip(1), dim);
        if first_wrong(widths, dim) is None {
            assert forall|i: int| 0 <= i < widths.len() implies #[trigger] widths[i] == dim by {
                if i > 0 {
                    assert(widths.skip(1)[i - 1] == dim);
                }
            }
        }
        if forall|i: int| 0 <= i < widths.len() ==> #[trigger] widths[i] == dim {
            assert forall|i: int| 0 <= i < widths.skip(1).len() implies #[trigger] widths.skip(1)[i]
                == dim by {
                assert(widths[i + 1] == dim);
            }
        }
    }
}

/// The token stands somewhere in the value, as a string of its own.
pub open spec fn mentions(value: Json, token: Seq<char>) -> bool
    decreases value,
{
    match value {
        Json::Text(text) => text@ == token,
        Json::Array(items) => item_mentions(items@, token),
        Json::Object(fields) => field_mentions(fields@, token),
        _ => false,
    }
}

/// The token stands in one of the items.
pub open spec fn item_mentions(items: Seq<Json>, token: Seq<char>) -> bool
    decreases items,
{
    items.len() > 0 && (mentions(items[0], token) || item_mentions(
        items.subrange(1, items.len() as int),
        token,
    ))
}

/// The token stands in the value of one of the fields.
pub open spec fn field_mentions(fields: Seq<(String, Json)>, token: Seq<char>) -> bool
    decreases fields,
{
    fields.len() > 0 && (mentions(fields[0].1, token) || field_mentions(
        fields.subrange(1, fields.len() as int),
        token,
    ))
}

/// Whether the token stands somewhere in the value.
fn mentions_token(value: &Json, token: &str) -> (result: bool)
    ensures
        result == mentions(*value, token@),
    decreases value,
{
    match value {
        Json::Text(text) => same(text.as_str(), token),
        Json::Array(items) => {
            let n: usize = items.len();
            let mut i: usize = 0;
            assert(items@.subrange(0, n as int) =~= items@);
            while i < n
                invariant
                    i <= n == items@.len(),
                    *value == Json::Array(*items),
                    item_mentions(items@, token@) == item_mentions(
                        items@.subrange(i as int, n as int),
                        token@,
                    ),
                decreases n - i,
            {
                let ghost rest = items@.subrange(i as int, n as int);
                assert(rest.subrange(1, rest.len() as int) =~= items@.subrange(i + 1, n as int));
                assert(decreases_to!(*value => value->Array_0));
                assert(decreases_to!(value->Array_0@ => value->Array_0@[i as int]));
                if mentions_token(&items[i], token) {
                    return true;
                }
                i += 1;
            }
            false
        },
        Json::Object(fields) => {
            let n: usize = fields.len();
            let mut i: usize = 0;
            assert(fields@.subrange(0, n as int) =~= fields@);
            while i < n
                invariant
                    i <= n == fields@.len(),
                    *value == Json::Object(*fields),
                    field_mentions(fields@, token@) == field_mentions(
                        fields@.subrange(i as int, n as int),
                        token@,
                    ),
                decreases n - i,
            {
                let ghost rest = fields@.subrange(i as int, n as int);
                assert(rest.subrange(1, rest.len() as int) =~= fields@.subrange(i + 1, n as int));
                assert(decreases_to!(*value => value->Object_0));
                assert(decreases_to!(value->Object_0@ => value->Object_0@[i as int]));
                assert(decreases_to!(
                    value->Object_0@[i as int] => value->Object_0@[i as int].1
                ));
                if mentions_token(&fields[i].1, token) {
                    return true;
                }
                i += 1;
            }
            false
        },
        _ => false,
    }
}

/// The post-processor of a tokenizer document already appends the token.
pub open spec fn appends(document: Result<Json, Seq<char>>, token: Seq<char>) -> bool {
    match document {
        Ok(document) => match document.field("post_processor"@) {
            Some(post) => mentions(post, token),
            None => false,
        },
        Err(_) => false,
    }
}

/// Whether a read tokenizer document's post-processor appends `token`.
pub fn document_appends(document: &Json, token: &str) -> (result: bool)
    ensures
        result == appends(Ok(*document), token@),
{
    match document.get("post_processor") {
        Some(post) => mentions_token(post, token),
        None => false,
    }
}

/// Whether a `tokenizer.json` post-processor already appends `token` to every
/// sequence, read off the file rather than assumed: appending it twice would
/// pool the wrong position as surely as leaving it off.
pub fn tokenizer_appends(tokenizer_json: &str, token: &str) -> (result: bool)
    ensures
        result == appends(parsed(tokenizer_json@), token@),
{
    match parse(tokenizer_json) {
        Ok(document) => document_appends(&document, token),
        Err(_) => false,
    }
}

/// The width that is reported is the first that differs from the model's.
pub proof fn the_first_wrong_width_is_reported(
    right: Seq<usize>,
    wrong: usize,
    rest: Seq<usize>,
    dim: usize,
)
    requires
        forall|i: int| 0 <= i < right.len() ==> #[trigger] right[i] == dim,
        wrong != dim,
    ensures
        first_wrong(right + seq![wrong] + rest, dim) == Some(wrong),
    decreases right.len(),
{
    let all = right + seq![wrong] + rest;
    if right.len() == 0 {
        assert(all[0] == wrong);
    } else {
        let tail = right.skip(1);
        assert forall|i: int| 0 <= i < tail.len() implies #[trigger] tail[i] == dim by {
            assert(tail[i] == right[i + 1]);
        }
        assert(all[0] == right[0]);
        assert(all.skip(1) =~= tail + seq![wrong] + rest);
        the_first_wrong_width_is_reported(tail, wrong, rest, dim);
    }
}

/// Every passage is marked, in its place, and keeps its text.
pub proof fn every_passage_is_marked(mark: Seq<char>, passages: Seq<Seq<char>>, i: int)
    requires
        0 <= i < passages.len(),
    ensures
        marked(mark, passages).len() == passages.len(),
        starts_with(marked(mark, passages)[i], mark),
        ends_with(marked(mark, passages)[i], passages[i]),
        marked(mark, passages)[i].len() == mark.len() + passages[i].len(),
{
    a_sum_starts_and_ends_with_its_parts(mark, passages[i]);
}

/// A value mentions a token where one of its texts is the token, however deep:
/// in an item of a list, or in a field of an object.
pub proof fn a_mention_is_found_at_any_depth(value: Json, token: Seq<char>)
    ensures
        value matches Json::Text(text) ==> (mentions(value, token) <==> text@ == token),
        value is Null || value is Bool || value is Number ==> !mentions(value, token),
        value matches Json::Array(items) ==> (mentions(value, token) <==> exists|k: int|
            0 <= k < items@.len() && mentions(#[trigger] items@[k], token)),
        value matches Json::Object(fields) ==> (mentions(value, token) <==> exists|k: int|
            0 <= k < fields@.len() && mentions((#[trigger] fields@[k]).1, token)),
{
    match value {
        Json::Array(items) => {
            lemma_item_mentions(items@, token);
        },
        Json::Object(fields) => {
            lemma_field_mentions(fields@, token);
        },
        _ => {},
    }
}

proof fn lemma_item_mentions(items: Seq<Json>, token: Seq<char>)
    ensures
        item_mentions(items, token) <==> exists|k: int|
            0 <= k < items.len() && mentions(#[trigger] items[k], token),
    decreases items.len(),
{
    if items.len() > 0 {
        let rest = items.subrange(1, items.len() as int);
        lemma_item_mentions(rest, token);
        if item_mentions(rest, token) {
            let k = choose|k: int| 0 <= k < rest.len() && mentions(#[trigger] rest[k], token);
            assert(items[k + 1] == rest[k]);
        }
        if exists|k: int| 0 <= k < items.len() && mentions(#[trigger] items[k], token) {
            let k = choose|k: int| 0 <= k < items.len() && mentions(#[trigger] items[k], token);
            if k > 0 {
                assert(rest[k - 1] == items[k]);
            }
        }
    }
}

proof fn lemma_field_mentions(fields: Seq<(String, Json)>, token: Seq<char>)
    ensures
        field_mentions(fields, token) <==> exists|k: int|
            0 <= k < fields.len() && mentions((#[trigger] fields[k]).1, token),
    decreases fields.len(),
{
    if fields.len() > 0 {
        let rest = fields.subrange(1, fields.len() as int);
        lemma_field_mentions(rest, token);
        if field_mentions(rest, token) {
            let k = choose|k: int| 0 <= k < rest.len() && mentions((#[trigger] rest[k]).1, token);
            assert(fields[k + 1] == rest[k]);
        }
        if exists|k: int| 0 <= k < fields.len() && mentions((#[trigger] fields[k]).1, token) {
            let k = choose|k: int|
                0 <= k < fields.len() && mentions((#[trigger] fields[k]).1, token);
            if k > 0 {
                assert(rest[k - 1] == fields[k]);
            }
        }
    }
}

/// A tokenizer appends a token where its post-processor mentions it; what else
/// it mentions does not count, nor does a file that cannot be read.
pub proof fn only_the_post_processor_appends(document: Json, token: Seq<char>, error: Seq<char>)
    ensures
        document.field("post_processor"@) matches Some(post) ==> (appends(Ok(document), token)
            <==> mentions(post, token)),
        document.field("post_processor"@) is None ==> !appends(Ok(document), token),
        !appends(Err(error), token),
{
}

} // verus!
