//! The models agmem can embed with, and everything that is true of a model
//! rather than of the runtime that loads it.
//!
//! A [`ModelSpec`] is the whole identity of a vector space: the id the store
//! records, the width, how the model marks passages and queries, how its token
//! states pool, the cosine bands its vectors are read against, and where its
//! weights come from. The API backend stands outside this table on purpose:
//! its model is a name the user types and its width is learnt from the first
//! answer.

use vstd::prelude::*;

use crate::domain::dedup::Bands;
use crate::text::chars::text_of;
use crate::text::path::{join_path, joined_path};
use crate::text::search::{ends_with, same, starts_with};

verus! {

/// Where a model's weights come from.
#[derive(Debug, Clone, Copy)]
pub enum Source {
    /// One GGUF file in a Hugging Face repo, fetched once into the model dir
    /// and run on llama.cpp.
    Gguf {
        /// The repo, `owner/name`.
        repo: &'static str,
        /// The file inside it.
        file: &'static str,
        /// The repo commit the file is fetched at. Pinned so that the weights
        /// behind an id are one set of bytes: a store records this beside the
        /// id, and a release that moves the pin is then a vector-space change
        /// the store can see.
        revision: &'static str,
    },
}

/// How a model pools its token states into one vector.
#[derive(Debug, Clone, Copy, PartialEq, Eq, Structural)]
pub enum Pooling {
    /// The first token (`[CLS]`): bge.
    Cls,
    /// The attention-masked mean: EmbeddingGemma.
    Mean,
}

/// Everything true of a model regardless of what runs it.
#[derive(Debug, Clone, Copy)]
pub struct ModelSpec {
    /// What the store records in `meta.embedder_model`. Names the weights and
    /// their quantisation. The prefixes and the pooling are properties of the
    /// id too: a change to either is a new id, not a new field.
    pub id: &'static str,
    /// Vector width; what the store defines its HNSW indexes with.
    pub dim: usize,
    /// How token states become one vector.
    pub pooling: Pooling,
    /// Prepended to every stored text, per the model's training.
    pub passage_prefix: &'static str,
    /// Prepended to every query.
    pub query_prefix: &'static str,
    /// The cosine bands this model's vectors are read against.
    pub thresholds: Bands,
    /// Where the weights come from.
    pub source: Source,
}

impl ModelSpec {
    /// The exact weights behind the id: the source's pinned revision.
    /// Recorded in `meta.embedder_revision` next to the id and the width.
    #[must_use]
    pub fn revision(&self) -> (text: &'static str)
        ensures
            self.source matches Source::Gguf { revision, .. } && text@ == revision@,
    {
        let Source::Gguf { revision, .. } = self.source;
        revision
    }
}

/// The models `--model` can name.
#[derive(Debug, Clone, Copy, PartialEq, Eq, Structural)]
pub enum Model {
    /// EmbeddingGemma-300M, Q8_0: the default. 768 dimensions, ~314 MB.
    Gemma300M,
    /// bge-small-en-v1.5, Q8_0: the light option. 384 dimensions, ~36 MB, a
    /// fifth of Gemma's CPU latency.
    BgeSmall,
}

impl Default for Model {
    fn default() -> (model: Self)
        ensures
            model == Model::Gemma300M,
    {
        Model::Gemma300M
    }
}

impl Model {
    /// The spelling `--model` takes.
    pub open spec fn spelling(self) -> Seq<char> {
        match self {
            Model::Gemma300M => "embeddinggemma-300m"@,
            Model::BgeSmall => "bge-small-en-v1.5"@,
        }
    }

    /// Everything true of this model.
    pub open spec fn described(self) -> ModelSpec {
        match self {
            Model::Gemma300M => ModelSpec {
                id: "embeddinggemma-300m-q8_0",
                dim: 768,
                pooling: Pooling::Mean,
                passage_prefix: "title: none | text: ",
                query_prefix: "task: search result | query: ",
                thresholds: Bands::of_gemma_300m(),
                source: Source::Gguf {
                    repo: "ggml-org/embeddinggemma-300M-GGUF",
                    file: "embeddinggemma-300M-Q8_0.gguf",
                    revision: "0f741b5a6585bd53aeb15cd1372c56f2a0f65e12",
                },
            },
            Model::BgeSmall => ModelSpec {
                id: "bge-small-en-v1.5-q8_0",
                dim: 384,
                pooling: Pooling::Cls,
                passage_prefix: "passage: ",
                query_prefix: "query: ",
                thresholds: Bands::of_bge_small(),
                source: Source::Gguf {
                    repo: "CompendiumLabs/bge-small-en-v1.5-gguf",
                    file: "bge-small-en-v1.5-q8_0.gguf",
                    revision: "d32f8c040ea3b516330eeb75b72bcc2d3a780ab7",
                },
            },
        }
    }

    /// The spelling `--model` takes: the model family, without the
    /// quantisation, which is agmem's choice rather than the user's.
    #[must_use]
    pub fn as_str(self) -> (text: &'static str)
        ensures
            text@ == self.spelling(),
            self == Model::Gemma300M ==> text@ == "embeddinggemma-300m"@,
            self == Model::BgeSmall ==> text@ == "bge-small-en-v1.5"@,
    {
        match self {
            Model::Gemma300M => "embeddinggemma-300m",
            Model::BgeSmall => "bge-small-en-v1.5",
        }
    }

    /// The model a spelling names.
    #[must_use]
    pub fn parse(spelling: &str) -> (found: Option<Self>)
        ensures
            match found {
                Some(model) => model.spelling() == spelling@,
                None => forall|other: Model| #[trigger] other.spelling() != spelling@,
            },
    {
        if same(spelling, "embeddinggemma-300m") {
            Some(Model::Gemma300M)
        } else if same(spelling, "bge-small-en-v1.5") {
            Some(Model::BgeSmall)
        } else {
            None
        }
    }

    /// The model whose spec carries `id`: what a store's
    /// `meta.embedder_model` names, if this binary can still run it. `None`
    /// for a retired id such as `bge-small-en-v1.5-q`.
    #[must_use]
    pub fn from_id(id: &str) -> (found: Option<Self>)
        ensures
            match found {
                Some(model) => model.described().id@ == id@,
                None => forall|other: Model| #[trigger] other.described().id@ != id@,
            },
    {
        if same(id, Model::Gemma300M.spec().id) {
            Some(Model::Gemma300M)
        } else if same(id, Model::BgeSmall.spec().id) {
            Some(Model::BgeSmall)
        } else {
            None
        }
    }

    /// Everything true of this model.
    #[must_use]
    pub fn spec(self) -> (spec: ModelSpec)
        ensures
            spec == self.described(),
            self == Model::Gemma300M ==> spec.id@ == "embeddinggemma-300m-q8_0"@ && spec.dim == 768
                && spec.pooling == Pooling::Mean && spec.passage_prefix@ == "title: none | text: "@
                && spec.query_prefix@ == "task: search result | query: "@
                && spec.thresholds.near_dup == 95 && spec.thresholds.correction_floor == 70
                && spec.thresholds.cluster == 90 && spec.thresholds.abstention == 14,
            self == Model::Gemma300M ==> (spec.source matches Source::Gguf { repo, file, revision }
                && repo@ == "ggml-org/embeddinggemma-300M-GGUF"@ && file@
                == "embeddinggemma-300M-Q8_0.gguf"@ && revision@
                == "0f741b5a6585bd53aeb15cd1372c56f2a0f65e12"@),
            self == Model::BgeSmall ==> (spec.source matches Source::Gguf { repo, file, revision }
                && repo@ == "CompendiumLabs/bge-small-en-v1.5-gguf"@ && file@
                == "bge-small-en-v1.5-q8_0.gguf"@ && revision@
                == "d32f8c040ea3b516330eeb75b72bcc2d3a780ab7"@),
            self == Model::BgeSmall ==> spec.id@ == "bge-small-en-v1.5-q8_0"@ && spec.dim == 384
                && spec.pooling == Pooling::Cls && spec.passage_prefix@ == "passage: "@
                && spec.query_prefix@ == "query: "@ && spec.thresholds.near_dup == 95
                && spec.thresholds.correction_floor == 75 && spec.thresholds.cluster == 90
                && spec.thresholds.abstention == 62,
    {
        match self {
            Model::Gemma300M => ModelSpec {
                id: "embeddinggemma-300m-q8_0",
                dim: 768,
                pooling: Pooling::Mean,
                // The document and retrieval prompts from the model card; a
                // title-less document is spelled `title: none`.
                passage_prefix: "title: none | text: ",
                query_prefix: "task: search result | query: ",
                thresholds: Bands::gemma_300m(),
                // The one hub GGUF that carries the dense projections and mean
                // pooling.
                source: Source::Gguf {
                    repo: "ggml-org/embeddinggemma-300M-GGUF",
                    file: "embeddinggemma-300M-Q8_0.gguf",
                    revision: "0f741b5a6585bd53aeb15cd1372c56f2a0f65e12",
                },
            },
            Model::BgeSmall => ModelSpec {
                id: "bge-small-en-v1.5-q8_0",
                dim: 384,
                pooling: Pooling::Cls,
                passage_prefix: "passage: ",
                query_prefix: "query: ",
                thresholds: Bands::bge_small(),
                source: Source::Gguf {
                    repo: "CompendiumLabs/bge-small-en-v1.5-gguf",
                    file: "bge-small-en-v1.5-q8_0.gguf",
                    revision: "d32f8c040ea3b516330eeb75b72bcc2d3a780ab7",
                },
            },
        }
    }
}

/// The environment variable naming the model directory, which wins over
/// whatever the caller passes.
pub const MODEL_DIR_ENV: &'static str = "AGMEM_MODEL_DIR";

/// The platform's data directory below `home`.
pub open spec fn platform_data_dir(home: Seq<char>, macos: bool) -> Seq<char> {
    joined_path(
        home,
        if macos {
            "Library/Application Support/dev.agmem.agmem"@
        } else {
            ".local/share/agmem"@
        },
    )
}

/// The model directory in force: what the environment names, else
/// `fallback`, else the platform data dir's `models`.
pub open spec fn model_dir_in_force(
    named: Option<Seq<char>>,
    fallback: Option<Seq<char>>,
    home: Option<Seq<char>>,
    macos: bool,
) -> Seq<char> {
    match (named, fallback) {
        (Some(dir), _) => dir,
        (None, Some(dir)) => dir,
        (None, None) => joined_path(
            platform_data_dir(
                match home {
                    Some(home) => home,
                    None => Seq::empty(),
                },
                macos,
            ),
            "models"@,
        ),
    }
}

/// The model directory in force, given what [`MODEL_DIR_ENV`] and `HOME` hold.
#[must_use]
pub fn model_dir(
    named: Option<String>,
    fallback: Option<String>,
    home: Option<String>,
    macos: bool,
) -> (dir: String)
    ensures
        dir@ == model_dir_in_force(text_of(named), text_of(fallback), text_of(home), macos),
{
    if let Some(dir) = named {
        return dir;
    }
    if let Some(dir) = fallback {
        return dir;
    }
    let home = match home {
        Some(home) => home,
        None => String::new(),
    };
    let base = if macos {
        join_path(home.as_str(), "Library/Application Support/dev.agmem.agmem")
    } else {
        join_path(home.as_str(), ".local/share/agmem")
    };
    join_path(base.as_str(), "models")
}

/// Spellings and ids each name one model, so that parsing undoes spelling and
/// an id leads back to its model.
pub proof fn model_names_are_distinct(a: Model, b: Model)
    ensures
        a.spelling() == b.spelling() ==> a == b,
        a.described().id@ == b.described().id@ ==> a == b,
{
    reveal_strlit("embeddinggemma-300m");
    reveal_strlit("bge-small-en-v1.5");
    reveal_strlit("embeddinggemma-300m-q8_0");
    reveal_strlit("bge-small-en-v1.5-q8_0");
    assert("embeddinggemma-300m"@[0] == 'e' && "bge-small-en-v1.5"@[0] == 'b');
    assert("embeddinggemma-300m-q8_0"@[0] == 'e' && "bge-small-en-v1.5-q8_0"@[0] == 'b');
}

/// A character of a commit hash.
pub open spec fn commit_char(c: char) -> bool {
    '0' <= c <= '9' || 'a' <= c <= 'f'
}

/// Every spec agrees with itself: the id extends the spelling, the width is
/// positive, the prefixes end in a space, the weights are one GGUF file pinned
/// at a full commit hash, and the bands are in order.
pub proof fn every_spec_is_self_consistent(model: Model)
    ensures
        starts_with(model.described().id@, model.spelling()),
        model.described().dim > 0,
        model.described().passage_prefix@.last() == ' ',
        model.described().query_prefix@.last() == ' ',
        model.described().thresholds.ordered(),
        model.described().source matches Source::Gguf { file, revision, .. } && ends_with(
            file@,
            ".gguf"@,
        ) && revision@.len() == 40 && (forall|i: int|
            0 <= i < 40 ==> commit_char(#[trigger] revision@[i])),
{
    reveal_strlit("embeddinggemma-300m");
    reveal_strlit("bge-small-en-v1.5");
    reveal_strlit("embeddinggemma-300m-q8_0");
    reveal_strlit("bge-small-en-v1.5-q8_0");
    reveal_strlit("title: none | text: ");
    reveal_strlit("task: search result | query: ");
    reveal_strlit("passage: ");
    reveal_strlit("query: ");
    reveal_strlit(".gguf");
    reveal_strlit("embeddinggemma-300M-Q8_0.gguf");
    reveal_strlit("bge-small-en-v1.5-q8_0.gguf");
    reveal_strlit("0f741b5a6585bd53aeb15cd1372c56f2a0f65e12");
    reveal_strlit("d32f8c040ea3b516330eeb75b72bcc2d3a780ab7");
    assert("embeddinggemma-300m-q8_0"@.subrange(0, 19) =~= "embeddinggemma-300m"@);
    assert("bge-small-en-v1.5-q8_0"@.subrange(0, 17) =~= "bge-small-en-v1.5"@);
    assert("embeddinggemma-300M-Q8_0.gguf"@.subrange(24, 29) =~= ".gguf"@);
    assert("bge-small-en-v1.5-q8_0.gguf"@.subrange(22, 27) =~= ".gguf"@);
}

/// A directory that is named wins over one that is offered, and that over the
/// platform's own.
pub proof fn a_named_model_dir_wins(
    named: Seq<char>,
    offered: Seq<char>,
    fallback: Option<Seq<char>>,
    home: Seq<char>,
    macos: bool,
)
    ensures
        model_dir_in_force(Some(named), fallback, Some(home), macos) == named,
        model_dir_in_force(None, Some(offered), Some(home), macos) == offered,
        model_dir_in_force(None, None, Some(home), macos) == joined_path(
            platform_data_dir(home, macos),
            "models"@,
        ),
        home.len() > 0 && home.last() != '/' ==> starts_with(
            platform_data_dir(home, macos),
            home + "/"@,
        ),
        home.len() > 0 && home.last() != '/' && macos ==> platform_data_dir(home, macos) == home
            + "/Library/Application Support/dev.agmem.agmem"@,
        home.len() > 0 && home.last() != '/' && !macos ==> platform_data_dir(home, macos) == home
            + "/.local/share/agmem"@,
{
    reveal_strlit("/");
    reveal_strlit(".local/share/agmem");
    reveal_strlit("/.local/share/agmem");
    reveal_strlit("Library/Application Support/dev.agmem.agmem");
    assert(".local/share/agmem"@[0] == '.');
    assert("Library/Application Support/dev.agmem.agmem"@[0] == 'L');
    let dir = platform_data_dir(home, macos);
    if home.len() > 0 && home.last() != '/' {
        assert(dir.subrange(0, home.len() as int + 1) =~= home + "/"@);
        if macos {
            reveal_strlit("/Library/Application Support/dev.agmem.agmem");
            assert(seq!['/'] + "Library/Application Support/dev.agmem.agmem"@
                =~= "/Library/Application Support/dev.agmem.agmem"@);
            assert(dir =~= home + "/Library/Application Support/dev.agmem.agmem"@);
        }
        if !macos {
            assert(seq!['/'] + ".local/share/agmem"@ =~= "/.local/share/agmem"@);
            assert(dir =~= home + "/.local/share/agmem"@);
        }
    }
}

} // verus!
