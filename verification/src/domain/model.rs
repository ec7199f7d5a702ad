//! Domain types: the vocabulary everything else speaks.
//!
//! These mirror the store's tables field for field. Timestamps are
//! nanoseconds, and a floating-point value is carried as its bits: nothing
//! here computes with one.

use vstd::prelude::*;

use crate::domain::error::CoreError;
use crate::text::chars::to_chars;

verus! {

/// A character a space name may hold.
pub open spec fn slug_char(c: char) -> bool {
    'a' <= c <= 'z' || '0' <= c <= '9' || c == '-' || c == '_'
}

/// The slug rules of a space name: `[a-z0-9-_]`, 1 to 64 characters.
pub open spec fn space_name(s: Seq<char>) -> bool {
    &&& 1 <= s.len() <= 64
    &&& forall|i: int| 0 <= i < s.len() ==> slug_char(#[trigger] s[i])
}

/// Whether a space name may hold `c`.
pub fn is_slug_char(c: char) -> (result: bool)
    ensures
        result == slug_char(c),
{
    ('a' <= c && c <= 'z') || ('0' <= c && c <= '9') || c == '-' || c == '_'
}

/// Whether `name` keeps to the slug rules.
pub fn is_space_name(name: &str) -> (result: bool)
    ensures
        result == space_name(name@),
{
    let chars = to_chars(name);
    if chars.len() == 0 || chars.len() > SpaceName::MAX_LEN {
        return false;
    }
    let mut i: usize = 0;
    while i < chars.len()
        invariant
            i <= chars@.len(),
            chars@ == name@,
            forall|j: int| 0 <= j < i ==> slug_char(#[trigger] chars@[j]),
        decreases chars@.len() - i,
    {
        if !is_slug_char(chars[i]) {
            return false;
        }
        i += 1;
    }
    true
}

/// A validated space (project scope) name.
///
/// Slug rules: `[a-z0-9-_]`, 1 to 64 chars. Spaces isolate projects inside one
/// store; the reserved [`SpaceName::user`] space holds cross-project personal
/// memory.
#[derive(Debug, PartialEq, Eq, Hash, PartialOrd, Ord)]
pub struct SpaceName(String);

impl View for SpaceName {
    type V = Seq<char>;

    closed spec fn view(&self) -> Seq<char> {
        self.0@
    }
}

impl SpaceName {
    /// Maximum length of a space name in bytes.
    pub const MAX_LEN: usize = 64;

    #[verifier::type_invariant]
    spec fn valid(self) -> bool {
        space_name(self.0@)
    }

    /// Create a validated space name.
    ///
    /// # Errors
    /// [`CoreError::InvalidSpaceName`] when the slug rules are violated.
    pub fn new(name: &str) -> (result: Result<Self, CoreError>)
        ensures
            match result {
                Ok(made) => space_name(name@) && made@ == name@,
                Err(CoreError::InvalidSpaceName(held)) => !space_name(name@) && held@ == name@,
                Err(_) => false,
            },
    {
        if is_space_name(name) {
            Ok(SpaceName(name.to_owned()))
        } else {
            Err(CoreError::InvalidSpaceName(name.to_owned()))
        }
    }

    /// The reserved global space for cross-project personal memory.
    pub fn user() -> (space: Self)
        ensures
            space@ == "user"@,
    {
        proof {
            reveal_strlit("user");
        }
        SpaceName("user".to_owned())
    }

    /// The name as a string slice.
    pub fn as_str(&self) -> (text: &str)
        ensures
            text@ == self@,
            space_name(text@),
    {
        proof {
            use_type_invariant(self);
        }
        self.0.as_str()
    }
}

impl Clone for SpaceName {
    fn clone(&self) -> (result: Self)
        ensures
            result == *self,
    {
        proof {
            use_type_invariant(self);
        }
        SpaceName(self.0.clone())
    }
}

/// Length of a ULID in its canonical text form.
pub const ULID_LEN: usize = 26;

/// A digit of uppercase Crockford base32, which has no `I`, `L`, `O` or `U`.
pub open spec fn ulid_char(c: char) -> bool {
    '0' <= c <= '9' || ('A' <= c <= 'Z' && c != 'I' && c != 'L' && c != 'O' && c != 'U')
}

/// ULIDs are 26 characters of uppercase Crockford base32.
pub open spec fn ulid(s: Seq<char>) -> bool {
    &&& s.len() == ULID_LEN
    &&& forall|i: int| 0 <= i < s.len() ==> ulid_char(#[trigger] s[i])
}

/// Whether `candidate` is a ULID.
pub fn is_ulid(candidate: &str) -> (result: bool)
    ensures
        result == ulid(candidate@),
{
    let chars = to_chars(candidate);
    if chars.len() != ULID_LEN {
        return false;
    }
    let mut i: usize = 0;
    while i < chars.len()
        invariant
            i <= chars@.len(),
            chars@ == candidate@,
            forall|j: int| 0 <= j < i ==> ulid_char(#[trigger] chars@[j]),
        decreases chars@.len() - i,
    {
        let c = chars[i];
        if !(('0' <= c && c <= '9') || ('A' <= c && c <= 'Z' && c != 'I' && c != 'L' && c != 'O' && c
            != 'U')) {
            return false;
        }
        i += 1;
    }
    true
}

/// Id of a [`MemoryRecord`].
///
/// Holds the 26-character ULID half of the record id, without the table
/// prefix. Validated on construction.
#[derive(Debug, PartialEq, Eq, Hash, PartialOrd, Ord)]
pub struct MemoryId(String);

impl View for MemoryId {
    type V = Seq<char>;

    closed spec fn view(&self) -> Seq<char> {
        self.0@
    }
}

impl MemoryId {
    #[verifier::type_invariant]
    spec fn valid(self) -> bool {
        ulid(self.0@)
    }

    /// Create a validated id.
    ///
    /// # Errors
    /// [`CoreError::InvalidRecordId`] unless `id` is a ULID.
    pub fn new(id: &str) -> (result: Result<Self, CoreError>)
        ensures
            match result {
                Ok(made) => ulid(id@) && made@ == id@,
                Err(CoreError::InvalidRecordId(held)) => !ulid(id@) && held@ == id@,
                Err(_) => false,
            },
    {
        if is_ulid(id) {
            Ok(MemoryId(id.to_owned()))
        } else {
            Err(CoreError::InvalidRecordId(id.to_owned()))
        }
    }

    /// The ULID as a string slice.
    pub fn as_str(&self) -> (text: &str)
        ensures
            text@ == self@,
            ulid(text@),
    {
        proof {
            use_type_invariant(self);
        }
        self.0.as_str()
    }
}

impl Clone for MemoryId {
    fn clone(&self) -> (result: Self)
        ensures
            result == *self,
    {
        proof {
            use_type_invariant(self);
        }
        MemoryId(self.0.clone())
    }
}

/// Id of an [`Episode`].
///
/// Holds the 26-character ULID half of the record id, without the table
/// prefix. Validated on construction.
#[derive(Debug, PartialEq, Eq, Hash, PartialOrd, Ord)]
pub struct EpisodeId(String);

impl View for EpisodeId {
    type V = Seq<char>;

    closed spec fn view(&self) -> Seq<char> {
        self.0@
    }
}

impl EpisodeId {
    #[verifier::type_invariant]
    spec fn valid(self) -> bool {
        ulid(self.0@)
    }

    /// Create a validated id.
    ///
    /// # Errors
    /// [`CoreError::InvalidRecordId`] unless `id` is a ULID.
    pub fn new(id: &str) -> (result: Result<Self, CoreError>)
        ensures
            match result {
                Ok(made) => ulid(id@) && made@ == id@,
                Err(CoreError::InvalidRecordId(held)) => !ulid(id@) && held@ == id@,
                Err(_) => false,
            },
    {
        if is_ulid(id) {
            Ok(EpisodeId(id.to_owned()))
        } else {
            Err(CoreError::InvalidRecordId(id.to_owned()))
        }
    }

    /// The ULID as a string slice.
    pub fn as_str(&self) -> (text: &str)
        ensures
            text@ == self@,
            ulid(text@),
    {
        proof {
            use_type_invariant(self);
        }
        self.0.as_str()
    }
}

impl Clone for EpisodeId {
    fn clone(&self) -> (result: Self)
        ensures
            result == *self,
    {
        proof {
            use_type_invariant(self);
        }
        EpisodeId(self.0.clone())
    }
}

/// Id of an [`EpisodeChunk`].
///
/// Holds the 26-character ULID half of the record id, without the table
/// prefix. Validated on construction.
#[derive(Debug, PartialEq, Eq, Hash, PartialOrd, Ord)]
pub struct ChunkId(String);

impl View for ChunkId {
    type V = Seq<char>;

    closed spec fn view(&self) -> Seq<char> {
        self.0@
    }
}

impl ChunkId {
    #[verifier::type_invariant]
    spec fn valid(self) -> bool {
        ulid(self.0@)
    }

    /// Create a validated id.
    ///
    /// # Errors
    /// [`CoreError::InvalidRecordId`] unless `id` is a ULID.
    pub fn new(id: &str) -> (result: Result<Self, CoreError>)
        ensures
            match result {
                Ok(made) => ulid(id@) && made@ == id@,
                Err(CoreError::InvalidRecordId(held)) => !ulid(id@) && held@ == id@,
                Err(_) => false,
            },
    {
        if is_ulid(id) {
            Ok(ChunkId(id.to_owned()))
        } else {
            Err(CoreError::InvalidRecordId(id.to_owned()))
        }
    }

    /// The ULID as a string slice.
    pub fn as_str(&self) -> (text: &str)
        ensures
            text@ == self@,
            ulid(text@),
    {
        proof {
            use_type_invariant(self);
        }
        self.0.as_str()
    }
}

impl Clone for ChunkId {
    fn clone(&self) -> (result: Self)
        ensures
            result == *self,
    {
        proof {
            use_type_invariant(self);
        }
        ChunkId(self.0.clone())
    }
}

/// What a memory is, which decides how it is used and how fast it fades.
#[derive(Debug, Clone, Copy, PartialEq, Eq, Hash, Structural)]
pub enum Kind {
    /// A distilled statement about the world, the user, or the project.
    Fact,
    /// A procedural insight: "X fails when Y; do Z".
    Lesson,
    /// A standing behavioral rule, always part of assembled context.
    Instruction,
    /// A digest that stands in for the claims it cites.
    Summary,
}

impl Kind {
    /// The wire and row spelling.
    pub open spec fn spelling(self) -> Seq<char> {
        match self {
            Kind::Fact => "fact"@,
            Kind::Lesson => "lesson"@,
            Kind::Instruction => "instruction"@,
            Kind::Summary => "summary"@,
        }
    }

    /// The wire and row spelling.
    pub fn as_str(self) -> (text: &'static str)
        ensures
            text@ == self.spelling(),
            self == Kind::Fact ==> text@ == "fact"@,
            self == Kind::Lesson ==> text@ == "lesson"@,
            self == Kind::Instruction ==> text@ == "instruction"@,
            self == Kind::Summary ==> text@ == "summary"@,
    {
        match self {
            Kind::Fact => "fact",
            Kind::Lesson => "lesson",
            Kind::Instruction => "instruction",
            Kind::Summary => "summary",
        }
    }

    /// The decay class a memory of this kind gets unless told otherwise:
    /// instructions stand until superseded, lessons are meant to be few and
    /// long-lived, everything else fades at the normal rate.
    pub open spec fn default_class(self) -> DecayClass {
        match self {
            Kind::Fact => DecayClass::Normal,
            Kind::Lesson => DecayClass::Slow,
            Kind::Instruction => DecayClass::Pinned,
            Kind::Summary => DecayClass::Normal,
        }
    }

    /// The decay class a memory of this kind gets unless told otherwise.
    pub fn default_decay_class(self) -> (class: DecayClass)
        ensures
            class == self.default_class(),
            class == match self {
                Kind::Fact => DecayClass::Normal,
                Kind::Lesson => DecayClass::Slow,
                Kind::Instruction => DecayClass::Pinned,
                Kind::Summary => DecayClass::Normal,
            },
    {
        match self {
            Kind::Fact => DecayClass::Normal,
            Kind::Lesson => DecayClass::Slow,
            Kind::Instruction => DecayClass::Pinned,
            Kind::Summary => DecayClass::Normal,
        }
    }
}

/// How fast a memory's retention falls off between accesses.
///
/// The rates themselves live with the scoring functions; this is the label
/// stored on the row.
#[derive(Debug, Clone, Copy, PartialEq, Eq, Hash, Structural)]
pub enum DecayClass {
    /// Never decays.
    Pinned,
    /// Fades over months.
    Slow,
    /// The default: fades over weeks.
    Normal,
    /// Working context: fades over days, then gets pruned at startup.
    Fast,
}

impl DecayClass {
    /// The wire and row spelling.
    pub open spec fn spelling(self) -> Seq<char> {
        match self {
            DecayClass::Pinned => "pinned"@,
            DecayClass::Slow => "slow"@,
            DecayClass::Normal => "normal"@,
            DecayClass::Fast => "fast"@,
        }
    }

    /// The wire and row spelling.
    pub fn as_str(self) -> (text: &'static str)
        ensures
            text@ == self.spelling(),
            self == DecayClass::Pinned ==> text@ == "pinned"@,
            self == DecayClass::Slow ==> text@ == "slow"@,
            self == DecayClass::Normal ==> text@ == "normal"@,
            self == DecayClass::Fast ==> text@ == "fast"@,
    {
        match self {
            DecayClass::Pinned => "pinned",
            DecayClass::Slow => "slow",
            DecayClass::Normal => "normal",
            DecayClass::Fast => "fast",
        }
    }
}

impl Default for DecayClass {
    fn default() -> (class: Self)
        ensures
            class == DecayClass::Normal,
    {
        DecayClass::Normal
    }
}

/// Why a memory stopped being live. Memories are closed, never deleted, so
/// the reason is part of the history the agent can walk.
#[derive(Debug, Clone, Copy, PartialEq, Eq, Hash, Structural)]
pub enum InvalidReason {
    /// A newer memory replaced it; `superseded_by` points at the successor.
    Superseded,
    /// The agent or user asked for it to be forgotten.
    Forgotten,
    /// A `fast` memory decayed past the pruning threshold.
    Expired,
}

impl InvalidReason {
    /// The wire and row spelling.
    pub open spec fn spelling(self) -> Seq<char> {
        match self {
            InvalidReason::Superseded => "superseded"@,
            InvalidReason::Forgotten => "forgotten"@,
            InvalidReason::Expired => "expired"@,
        }
    }

    /// The wire and row spelling.
    pub fn as_str(self) -> (text: &'static str)
        ensures
            text@ == self.spelling(),
            self == InvalidReason::Superseded ==> text@ == "superseded"@,
            self == InvalidReason::Forgotten ==> text@ == "forgotten"@,
            self == InvalidReason::Expired ==> text@ == "expired"@,
    {
        match self {
            InvalidReason::Superseded => "superseded",
            InvalidReason::Forgotten => "forgotten",
            InvalidReason::Expired => "expired",
        }
    }
}

/// Where a memory came from: provenance, so a distilled claim can always be
/// traced back to the verbatim text it was distilled from.
#[derive(Debug, PartialEq, Eq, Hash)]
pub enum Source {
    /// Distilled from an episode stored here.
    Episode {
        /// The episode this was distilled from.
        episode: EpisodeId,
    },
    /// Asserted by the calling agent with no stored episode behind it.
    Agent,
    /// Imported from outside: a URL, a file, a ticket.
    External {
        /// Free-form origin identifier.
        origin: String,
    },
}

/// A point in time: nanoseconds since the Unix epoch.
#[derive(Debug, Clone, Copy, PartialEq, Eq, Hash, Structural)]
pub struct Timestamp {
    pub nanos: i128,
}

/// A distilled, supersedable memory as stored.
///
/// Ranking combines `strength`, `last_accessed` and `decay_class` at read
/// time; nothing here is maintained by a background job.
#[derive(Debug)]
pub struct MemoryRecord {
    /// Record id.
    pub id: MemoryId,
    /// Scope this memory belongs to.
    pub space: SpaceName,
    /// What the memory is.
    pub kind: Kind,
    /// The distilled statement itself.
    pub content: String,
    /// blake3 of the normalized content; the exact-duplicate gate.
    pub content_hash: String,
    /// Denormalized subjects, for direct lookup and filtering.
    pub entities: Vec<String>,
    /// Agent-chosen labels.
    pub tags: Vec<String>,
    /// The bits of each component of the embedding. Absent in BM25-only mode,
    /// or until the embedder catches up.
    pub embedding: Option<Vec<u32>>,
    /// How fast this one fades.
    pub decay_class: DecayClass,
    /// The bits of the Ebbinghaus stability: raised by every recall that
    /// returns this memory.
    pub strength: u64,
    /// When recall last returned this memory.
    pub last_accessed: Timestamp,
    /// How often recall has returned it.
    pub access_count: u32,
    /// When the claim started being true.
    pub valid_from: Timestamp,
    /// When it stopped being live; `None` means live.
    pub invalid_at: Option<Timestamp>,
    /// Why it stopped being live.
    pub invalid_reason: Option<InvalidReason>,
    /// The memories this one replaced.
    pub supersedes: Vec<MemoryId>,
    /// The memory that replaced this one.
    pub superseded_by: Option<MemoryId>,
    /// Provenance.
    pub source: Source,
    /// The memories this one was drawn from.
    pub derived_from: Vec<MemoryId>,
    /// When the row was written.
    pub created_at: Timestamp,
}

impl MemoryRecord {
    /// Whether this memory is still live (not superseded, forgotten, expired).
    pub fn is_live(&self) -> (live: bool)
        ensures
            live == (self.invalid_at is None),
    {
        self.invalid_at.is_none()
    }
}

/// Verbatim ground truth: what was actually said or written, unedited.
///
/// Episodes are append-only and never superseded: distillation is lossy, so
/// the original stays retrievable.
#[derive(Debug)]
pub struct Episode {
    /// Record id.
    pub id: EpisodeId,
    /// Scope this episode belongs to.
    pub space: SpaceName,
    /// The verbatim text.
    pub content: String,
    /// blake3 of the normalized content; the exact-duplicate gate.
    pub content_hash: String,
    /// When the events described happened (defaults to write time).
    pub occurred_at: Timestamp,
    /// Optional grouping key for one conversation or working session.
    pub session: Option<String>,
    /// When the row was written.
    pub created_at: Timestamp,
}

/// A retrieval-sized slice of an [`Episode`]: what search actually matches.
#[derive(Debug)]
pub struct EpisodeChunk {
    /// Record id.
    pub id: ChunkId,
    /// The episode this slice came from.
    pub episode: EpisodeId,
    /// Scope, denormalized from the episode so search filters on one table.
    pub space: SpaceName,
    /// The slice.
    pub text: String,
    /// Zero-based position within the episode.
    pub position: u32,
    /// The bits of each component of the embedding. Absent in BM25-only mode,
    /// or until the embedder catches up.
    pub embedding: Option<Vec<u32>>,
}

/// A spelling names one kind, one decay class, one reason.
pub proof fn spellings_are_distinct(
    kinds: (Kind, Kind),
    classes: (DecayClass, DecayClass),
    reasons: (InvalidReason, InvalidReason),
)
    ensures
        kinds.0.spelling() == kinds.1.spelling() ==> kinds.0 == kinds.1,
        classes.0.spelling() == classes.1.spelling() ==> classes.0 == classes.1,
        reasons.0.spelling() == reasons.1.spelling() ==> reasons.0 == reasons.1,
{
    reveal_strlit("fact");
    reveal_strlit("lesson");
    reveal_strlit("instruction");
    reveal_strlit("summary");
    reveal_strlit("pinned");
    reveal_strlit("slow");
    reveal_strlit("normal");
    reveal_strlit("fast");
    reveal_strlit("superseded");
    reveal_strlit("forgotten");
    reveal_strlit("expired");
    assert("fact"@[0] == 'f' && "lesson"@[0] == 'l' && "instruction"@[0] == 'i' && "summary"@[0]
        == 's');
    assert("pinned"@[0] == 'p' && "slow"@[0] == 's' && "normal"@[0] == 'n' && "fast"@[0] == 'f');
    assert("superseded"@[0] == 's' && "forgotten"@[0] == 'f' && "expired"@[0] == 'e');
}

/// A space name is one to 64 small letters, digits, dashes and underscores.
pub proof fn what_a_space_name_holds(s: Seq<char>, i: int)
    ensures
        space_name(s) && 0 <= i < s.len() ==> ('a' <= s[i] <= 'z' || '0' <= s[i] <= '9' || s[i]
            == '-' || s[i] == '_'),
        space_name(s) ==> 0 < s.len() <= 64,
        0 < s.len() <= 64 && (forall|k: int|
            0 <= k < s.len() ==> ('a' <= #[trigger] s[k] <= 'z' || '0' <= s[k] <= '9' || s[k] == '-'
                || s[k] == '_')) ==> space_name(s),
{
    if 0 <= i < s.len() && space_name(s) {
        assert(slug_char(s[i]));
    }
}

/// A part of a space name that is not empty is a space name, and so are two put
/// together where they are short enough.
pub proof fn space_names_can_be_cut_and_joined(a: Seq<char>, b: Seq<char>)
    ensures
        space_name(a) && space_name(b) && a.len() + b.len() <= 64 ==> space_name(a + b),
        space_name(a + b) && a.len() > 0 ==> space_name(a),
        space_name(a + b) && b.len() > 0 ==> space_name(b),
{
    let whole = a + b;
    if space_name(whole) {
        assert forall|i: int| 0 <= i < a.len() implies slug_char(#[trigger] a[i]) by {
            assert(whole[i] == a[i]);
        }
        assert forall|i: int| 0 <= i < b.len() implies slug_char(#[trigger] b[i]) by {
            assert(whole[a.len() + i] == b[i]);
        }
    }
}

/// An id is 26 digits and capitals, without the four that look like others.
pub proof fn what_an_id_holds(s: Seq<char>, i: int)
    ensures
        ulid(s) && 0 <= i < s.len() ==> ('0' <= s[i] <= '9' || 'A' <= s[i] <= 'Z') && s[i] != 'I'
            && s[i] != 'L' && s[i] != 'O' && s[i] != 'U',
        ulid(s) ==> s.len() == 26,
        s.len() == 26 && (forall|k: int|
            0 <= k < s.len() ==> ('0' <= #[trigger] s[k] <= '9' || 'A' <= s[k] <= 'Z') && s[k]
                != 'I' && s[k] != 'L' && s[k] != 'O' && s[k] != 'U') ==> ulid(s),
{
    if 0 <= i < s.len() && ulid(s) {
        assert(ulid_char(s[i]));
    }
    if s.len() == 26 && (forall|k: int|
        0 <= k < s.len() ==> ('0' <= #[trigger] s[k] <= '9' || 'A' <= s[k] <= 'Z') && s[k] != 'I'
            && s[k] != 'L' && s[k] != 'O' && s[k] != 'U') {
        assert forall|k: int| 0 <= k < s.len() implies ulid_char(#[trigger] s[k]) by {}
    }
}

} // verus!
