//! `memory://` resources: addressable memory, for clients that ask.
//!
//! The grammar is two forms deep and stops there: `memory://<space>` is the
//! index of a space, `memory://<space>/<id>` the full answer for an id, and
//! `memory://<space>/doc/<id>` a document's text as stored.

use vstd::prelude::*;
use vstd::slice::slice_subrange;

use crate::domain::model::{slug_char, space_name, ulid, ulid_char, EpisodeId, Kind, SpaceName};
use crate::text::chars::{text_of, texts, to_chars, to_text};
use crate::text::number::{decimal, to_decimal};
use crate::text::search::{
    a_part_of_a_part_occurs, occurs, same, stands_at, starts_with, what_is_put_between_occurs,
};
use crate::text::words::{every_joined_text_occurs, join_texts, joined};

verus! {

/// The scheme, with the `//` that makes the space an authority.
pub const SCHEME: &'static str = "memory://";

/// The path segment that tells the document form from the record form.
pub const DOC_SEGMENT: &'static str = "doc/";

/// What everything but a document reads as.
pub const MIME: &'static str = "application/json";

/// What a document reads as when it was stored without a media type.
pub const DOC_MIME: &'static str = "text/plain";

/// How many documents per space a listing shows: the newest, for a picker.
pub const LISTED_DOCUMENTS: usize = 10;

/// What a listed space is described as.
pub const SPACE_DESCRIPTION: &'static str = "The space's live claims, strongest first, with the URI that reads each one's history and source text.";

/// The address of a record, as a template.
pub const RECORD_TEMPLATE: &'static str = "memory://{space}/{id}";

/// What the record template is described as.
pub const RECORD_DESCRIPTION: &'static str = "A claim with its correction history and the verbatim text it was distilled from. Any id another call handed out works — memory, episode, or chunk.";

/// The address of a document, as a template.
pub const DOCUMENT_TEMPLATE: &'static str = "memory://{space}/doc/{id}";

/// What the document template is described as.
pub const DOCUMENT_DESCRIPTION: &'static str = "A named, typed document's text as stored, under its own media type — the address `agmem doc put` prints, and where a `recall` hit from a document links to. Its JSON form, with versions and what cites it, is the record form of the same id.";

/// The address of a document.
pub open spec fn document_address(space: Seq<char>, id: Seq<char>) -> Seq<char> {
    SCHEME@ + space + "/"@ + DOC_SEGMENT@ + id
}

/// The address of a record.
pub open spec fn record_address(space: Seq<char>, id: Seq<char>) -> Seq<char> {
    SCHEME@ + space + "/"@ + id
}

/// The `memory://<space>/doc/<id>` form of a document: what storing one prints
/// and what a recall hit links to.
pub fn document_uri(space: &str, id: &str) -> (uri: String)
    ensures
        uri@ == document_address(space@, id@),
{
    SCHEME.to_owned().concat(space).concat("/").concat(DOC_SEGMENT).concat(id)
}

/// The `memory://<space>/<id>` form of a record.
pub fn record_uri(space: &str, id: &str) -> (uri: String)
    ensures
        uri@ == record_address(space@, id@),
{
    SCHEME.to_owned().concat(space).concat("/").concat(id)
}

/// The `memory://<space>` form of a space.
pub fn space_uri(space: &str) -> (uri: String)
    ensures
        uri@ == SCHEME@ + space@,
{
    SCHEME.to_owned().concat(space)
}

/// What a URI asks for.
#[derive(Debug, PartialEq, Eq)]
pub enum Address {
    /// The index of a space.
    Index { space: String },
    /// A record, by any id.
    Record { space: String, id: String },
    /// A document's text.
    Document { space: String, id: String },
}

/// Where the first slash stands, if anywhere.
pub open spec fn first_slash(path: Seq<char>) -> Option<int>
    decreases path.len(),
{
    if path.len() == 0 {
        None
    } else if path[0] == '/' {
        Some(0)
    } else {
        match first_slash(path.skip(1)) {
            Some(i) => Some(i + 1),
            None => None,
        }
    }
}

/// The path of a URI asks for this.
pub open spec fn reads_as(path: Seq<char>, address: Address) -> bool {
    match first_slash(path) {
        None => address matches Address::Index { space } && space@ == path,
        Some(at) => {
            let space_part = path.take(at);
            let rest = path.skip(at + 1);
            if starts_with(rest, DOC_SEGMENT@) {
                address matches Address::Document { space, id } && space@ == space_part && id@
                    == rest.skip(4)
            } else {
                address matches Address::Record { space, id } && space@ == space_part && id@ == rest
            }
        },
    }
}

/// Read a URI.
///
/// # Errors
/// When it is outside the grammar, what to say.
pub fn read_uri(uri: &str) -> (result: Result<Address, String>)
    ensures
        match result {
            Ok(address) => starts_with(uri@, SCHEME@) && reads_as(uri@.skip(9), address),
            Err(message) => !starts_with(uri@, SCHEME@) && message@ == "no such resource: "@ + uri@
                + " — this server serves memory://<space>, memory://<space>/<id> and memory://<space>/doc/<id>"@,
        },
{
    proof {
        reveal_strlit("memory://");
        reveal_strlit("doc/");
    }
    let chars = to_chars(uri);
    let scheme = to_chars(SCHEME);
    if !stands_at(chars.as_slice(), scheme.as_slice(), 0) {
        return Err(
            "no such resource: ".to_owned().concat(uri).concat(
                " — this server serves memory://<space>, memory://<space>/<id> and memory://<space>/doc/<id>",
            ),
        );
    }
    let path = slice_subrange(chars.as_slice(), 9, chars.len());
    assert(path@ =~= uri@.skip(9));
    let mut at: usize = 0;
    assert(path@.skip(0) =~= path@);
    while at < path.len() && path[at] != '/'
        invariant
            at <= path@.len(),
            first_slash(path@) == match first_slash(path@.skip(at as int)) {
                Some(i) => Some(i + at),
                None => None,
            },
        decreases path@.len() - at,
    {
        assert(path@.skip(at as int).skip(1) =~= path@.skip(at + 1));
        at += 1;
    }
    if at == path.len() {
        assert(first_slash(path@) is None);
        return Ok(Address::Index { space: to_text(path) });
    }
    assert(path@.skip(at as int)[0] == '/');
    assert(first_slash(path@.skip(at as int)) == Some(0int));
    let space = to_text(slice_subrange(path, 0, at));
    assert(path@.subrange(0, at as int) =~= path@.take(at as int));
    let rest = slice_subrange(path, at + 1, path.len());
    assert(rest@ =~= path@.skip(at + 1));
    let segment = to_chars(DOC_SEGMENT);
    if stands_at(rest, segment.as_slice(), 0) {
        let id = to_text(slice_subrange(rest, 4, rest.len()));
        assert(rest@.subrange(4, rest@.len() as int) =~= rest@.skip(4));
        return Ok(Address::Document { space, id });
    }
    Ok(Address::Record { space, id: to_text(rest) })
}

/// What a space without that name is answered.
pub fn unknown_space(name: &str) -> (message: String)
    ensures
        message@ == "no such space: "@ + name@ + " — resources/list names the registered ones"@,
{
    "no such space: ".to_owned().concat(name).concat(
        " — resources/list names the registered ones",
    )
}

/// What a page of an index says it leaves out: nothing where it is complete.
pub open spec fn page_note(space: Seq<char>, listed: nat, live: nat) -> Option<Seq<char>> {
    if live > listed {
        Some(
            "The strongest "@ + decimal(listed) + " of "@ + decimal(live)
                + " live claims — a page, not the whole space. `recall` reaches the rest, and every claim still answers at its own memory://"@
                + space + "/<id>."@,
        )
    } else {
        None
    }
}

/// What a page of an index says it leaves out. Absent means the index really
/// is complete.
pub fn truncated_note(space: &str, listed: usize, live: u64) -> (note: Option<String>)
    ensures
        match note {
            Some(note) => page_note(space@, listed as nat, live as nat) == Some(note@),
            None => page_note(space@, listed as nat, live as nat) is None,
        },
{
    if live > listed as u64 {
        Some(
            "The strongest ".to_owned().concat(to_decimal(listed as u64).as_str()).concat(
                " of ",
            ).concat(to_decimal(live).as_str()).concat(
                " live claims — a page, not the whole space. `recall` reaches the rest, and every claim still answers at its own memory://",
            ).concat(space).concat("/<id>."),
        )
    } else {
        None
    }
}

/// The space an index is asked of, among the registered ones.
///
/// # Errors
/// When the name is no space name or names no registered space: a resource
/// that does not exist, not an empty index.
pub fn index_space(name: &str, known: &[SpaceName]) -> (result: Result<SpaceName, String>)
    ensures
        match result {
            Ok(space) => space@ == name@ && exists|i: int|
                0 <= i < known@.len() && (#[trigger] known@[i])@ == name@,
            Err(message) => message@ == "no such space: "@ + name@
                + " — resources/list names the registered ones"@ && (!space_name(name@) || forall|
                i: int,
            |
                0 <= i < known@.len() ==> (#[trigger] known@[i])@ != name@),
        },
{
    match SpaceName::new(name) {
        Ok(space) => {
            let mut i: usize = 0;
            while i < known.len()
                invariant
                    i <= known@.len(),
                    space@ == name@,
                    forall|j: int| 0 <= j < i ==> (#[trigger] known@[j])@ != name@,
                decreases known@.len() - i,
            {
                if same(known[i].as_str(), name) {
                    assert(known@[i as int]@ == name@);
                    return Ok(space);
                }
                i += 1;
            }
            Err(unknown_space(name))
        },
        Err(_) => Err(unknown_space(name)),
    }
}

/// What a document URI names, and what is said where it names none.
///
/// # Errors
/// When the space or the id is none.
pub fn document_target(space: &str, id: &str, uri: &str) -> (result: Result<
    (SpaceName, EpisodeId),
    String,
>)
    ensures
        match result {
            Ok((name, episode)) => name@ == space@ && episode@ == id@,
            Err(message) => if !space_name(space@) {
                message@ == "no such space: "@ + space@
                    + " — resources/list names the registered ones"@
            } else {
                !ulid(id@) && message@ == uri@ + ": `"@ + id@ + "` is not a document id"@
            },
        },
{
    match SpaceName::new(space) {
        Ok(name) => match EpisodeId::new(id) {
            Ok(episode) => Ok((name, episode)),
            Err(_) => Err(
                uri.to_owned().concat(": `").concat(id).concat("` is not a document id"),
            ),
        },
        Err(_) => Err(unknown_space(space)),
    }
}

/// What a document that is not in its space is answered.
pub fn no_such_document(space: &str, uri: &str) -> (message: String)
    ensures
        message@ == uri@ + ": no document with that id in `"@ + space@ + "`"@,
{
    uri.to_owned().concat(": no document with that id in `").concat(space).concat("`")
}

/// What anonymous text is answered, which is no document: where it does read.
pub fn not_a_document(space: &str, id: &str, uri: &str) -> (message: String)
    ensures
        message@ == uri@ + ": that is anonymous text, not a document; it reads at "@
            + record_address(space@, id@),
{
    uri.to_owned().concat(": that is anonymous text, not a document; it reads at ").concat(
        record_uri(space, id).as_str(),
    )
}

/// What a listed document is described as: its kind and space, and its tags.
pub open spec fn described_as(kind: Seq<char>, space: Seq<char>, tags: Seq<Seq<char>>) -> Seq<char> {
    if tags.len() == 0 {
        "A "@ + kind + " in `"@ + space + "`"@
    } else {
        "A "@ + kind + " in `"@ + space + "`"@ + ", tagged "@ + joined(
            tags,
            ", "@,
        )
    }
}

/// What a listed document is described as.
pub fn document_description(kind: Option<&str>, space: &str, tags: &Vec<String>) -> (text: String)
    ensures
        text@ == described_as(
            match kind {
                Some(kind) => kind@,
                None => "document"@,
            },
            space@,
            texts(tags@),
        ),
{
    let kind = match kind {
        Some(kind) => kind,
        None => "document",
    };
    let mut text = "A ".to_owned().concat(kind).concat(" in `").concat(space).concat("`");
    assert(texts(tags@).len() == tags@.len());
    if tags.len() > 0 {
        text = text.concat(", tagged ").concat(
            join_texts(tags.as_slice(), ", ").as_str(),
        );
    }
    text
}

/// One entry of a listing.
#[derive(Debug, PartialEq, Eq)]
pub struct Listed {
    pub uri: String,
    pub name: String,
    pub title: String,
    pub description: String,
    pub mime: String,
    /// The size in bytes, where it is known.
    pub size: Option<u64>,
}

/// A space as a listed resource.
pub fn space_resource(space: &SpaceName) -> (entry: Listed)
    ensures
        entry.uri@ == "memory://"@ + space@,
        entry.name@ == space@,
        entry.title@ == "Memory space `"@ + space@ + "`"@,
        entry.description@ == SPACE_DESCRIPTION@,
        entry.mime@ == MIME@,
        entry.size is None,
{
    let name = space.as_str();
    Listed {
        uri: space_uri(name),
        name: name.to_owned(),
        title: "Memory space `".to_owned().concat(name).concat("`"),
        description: SPACE_DESCRIPTION.to_owned(),
        mime: MIME.to_owned(),
        size: None,
    }
}

/// A stored document, as far as a listing tells of it.
#[derive(Debug, PartialEq, Eq)]
pub struct DocumentFacts {
    pub id: String,
    pub title: Option<String>,
    pub kind: Option<String>,
    pub tags: Vec<String>,
    pub mime: Option<String>,
    /// The size of its text in bytes.
    pub size: u64,
}

/// A document as a listed resource: named by its title, sized, typed.
pub fn document_resource(space: &SpaceName, document: &DocumentFacts) -> (entry: Listed)
    ensures
        entry.uri@ == document_address(space@, document.id@),
        entry.name@ == (match document.title {
            Some(title) => title@,
            None => Seq::empty(),
        }),
        entry.title@ == entry.name@,
        entry.description@ == described_as(
            match document.kind {
                Some(kind) => kind@,
                None => "document"@,
            },
            space@,
            texts(document.tags@),
        ),
        entry.mime@ == (match document.mime {
            Some(mime) => mime@,
            None => DOC_MIME@,
        }),
        entry.size == Some(document.size),
{
    let title = match &document.title {
        Some(title) => title.clone(),
        None => String::new(),
    };
    let mime = match &document.mime {
        Some(mime) => mime.clone(),
        None => DOC_MIME.to_owned(),
    };
    let kind: Option<&str> = match &document.kind {
        Some(kind) => Some(kind.as_str()),
        None => None,
    };
    Listed {
        uri: document_uri(space.as_str(), document.id.as_str()),
        name: title.clone(),
        title,
        description: document_description(kind, space.as_str(), &document.tags),
        mime,
        size: Some(document.size),
    }
}

/// The spaces whose documents a session lists: its own, and the shared `user`
/// space.
pub open spec fn attached_spaces(own: Seq<char>) -> Seq<Seq<char>> {
    if own == "user"@ {
        seq![own]
    } else {
        seq![own, "user"@]
    }
}

/// The spaces whose documents a session lists.
pub fn attached(own: &SpaceName) -> (spaces: Vec<SpaceName>)
    ensures
        spaces@.map_values(|space: SpaceName| space@) == attached_spaces(own@),
{
    let mut spaces: Vec<SpaceName> = Vec::new();
    spaces.push(own.clone());
    if !same(own.as_str(), "user") {
        spaces.push(SpaceName::user());
    }
    assert(spaces@.map_values(|space: SpaceName| space@) =~= attached_spaces(own@));
    spaces
}

/// A claim as an index lists it.
#[derive(Debug, PartialEq, Eq)]
pub struct Claim {
    pub id: String,
    pub kind: Kind,
    pub content: String,
}

/// One line of the index: enough to recognise a claim, and the URI to read it.
#[derive(Debug, PartialEq, Eq)]
pub struct IndexEntry {
    /// The record's own address.
    pub uri: String,
    pub id: String,
    pub kind: Kind,
    pub content: String,
}

/// The index of a space.
#[derive(Debug, PartialEq, Eq)]
pub struct Index {
    pub space: String,
    /// How many live claims the space holds, counted independently of the
    /// listing, so that the number stays honest when the listing is a page.
    pub live: u64,
    /// The live claims, strongest first.
    pub memories: Vec<IndexEntry>,
    /// What the listing leaves out, where it is a page.
    pub truncated: Option<String>,
}

/// An entry lists a claim of a space.
pub open spec fn lists(entry: IndexEntry, space: Seq<char>, claim: Claim) -> bool {
    &&& entry.uri@ == record_address(space, claim.id@)
    &&& entry.id == claim.id
    &&& entry.kind == claim.kind
    &&& entry.content == claim.content
}

/// The index of a space that holds `live` live claims, of which `claims` were
/// looked up.
pub fn build_index(space: &SpaceName, live: u64, claims: &[Claim]) -> (index: Index)
    ensures
        index.space@ == space@,
        index.live == live,
        index.memories@.len() == claims@.len(),
        forall|i: int|
            0 <= i < claims@.len() ==> lists(#[trigger] index.memories@[i], space@, claims@[i]),
        text_of(index.truncated) == page_note(space@, claims@.len(), live as nat),
{
    let mut memories: Vec<IndexEntry> = Vec::new();
    let mut i: usize = 0;
    while i < claims.len()
        invariant
            i <= claims@.len(),
            memories@.len() == i,
            forall|j: int|
                0 <= j < i ==> lists(#[trigger] memories@[j], space@, claims@[j]),
        decreases claims@.len() - i,
    {
        let entry = IndexEntry {
            uri: record_uri(space.as_str(), claims[i].id.as_str()),
            id: claims[i].id.clone(),
            kind: claims[i].kind,
            content: claims[i].content.clone(),
        };
        memories.push(entry);
        i += 1;
    }
    let truncated = truncated_note(space.as_str(), claims.len(), live);
    Index { space: space.as_str().to_owned(), live, memories, truncated }
}

/// What a record that is not there is answered, with what the lookup said.
pub fn no_such_record(space: &str, id: &str, said: &str) -> (message: String)
    ensures
        message@ == record_address(space@, id@) + ": "@ + said@,
{
    record_uri(space, id).concat(": ").concat(said)
}

/// An index that says nothing of a cut is complete, and one that is cut says
/// so.
pub proof fn an_index_is_honest(space: Seq<char>, listed: nat, live: nat)
    ensures
        page_note(space, listed, live) is None <==> live <= listed,
{
}

proof fn lemma_first_slash(space: Seq<char>, rest: Seq<char>)
    requires
        forall|i: int| 0 <= i < space.len() ==> #[trigger] space[i] != '/',
    ensures
        first_slash(space + seq!['/'] + rest) == Some(space.len() as int),
    decreases space.len(),
{
    let path = space + seq!['/'] + rest;
    if space.len() > 0 {
        assert(path.skip(1) =~= space.skip(1) + seq!['/'] + rest);
        assert forall|i: int| 0 <= i < space.skip(1).len() implies #[trigger] space.skip(1)[i]
            != '/' by {
            assert(space[i + 1] != '/');
        }
        lemma_first_slash(space.skip(1), rest);
        assert(path[0] == space[0]);
    } else {
        assert(path[0] == '/');
    }
}

/// An address leads back to what it was made of: a document's to the document,
/// a record's to the record.
pub proof fn addresses_read_back(space: Seq<char>, id: Seq<char>, address: Address)
    requires
        space_name(space),
        ulid(id),
    ensures
        starts_with(document_address(space, id), SCHEME@),
        reads_as(document_address(space, id).skip(9), address) ==> (address
            matches Address::Document { space: s, id: i } && s@ == space && i@ == id),
        starts_with(record_address(space, id), SCHEME@),
        reads_as(record_address(space, id).skip(9), address) ==> (address
            matches Address::Record { space: s, id: i } && s@ == space && i@ == id),
{
    reveal_strlit("memory://");
    reveal_strlit("/");
    reveal_strlit("doc/");
    let slash = seq!['/'];
    assert("/"@ =~= slash);
    assert forall|i: int| 0 <= i < space.len() implies #[trigger] space[i] != '/' by {
        assert(slug_char(space[i]));
    }
    let doc_path = space + slash + ("doc/"@ + id);
    assert(document_address(space, id).skip(9) =~= doc_path);
    assert(document_address(space, id).subrange(0, 9) =~= SCHEME@);
    lemma_first_slash(space, "doc/"@ + id);
    assert(doc_path.take(space.len() as int) =~= space);
    assert(doc_path.skip(space.len() + 1int) =~= "doc/"@ + id);
    assert(("doc/"@ + id).subrange(0, 4) =~= "doc/"@);
    assert(("doc/"@ + id).skip(4) =~= id);
    let path = space + slash + id;
    assert(record_address(space, id).skip(9) =~= path);
    assert(record_address(space, id).subrange(0, 9) =~= SCHEME@);
    lemma_first_slash(space, id);
    assert(path.take(space.len() as int) =~= space);
    assert(path.skip(space.len() + 1int) =~= id);
    assert(!starts_with(id, "doc/"@)) by {
        assert(ulid_char(id[0]));
        if starts_with(id, "doc/"@) {
            assert(id.subrange(0, 4)[0] == id[0]);
            assert("doc/"@[0] == 'd');
        }
    }
}

/// Whatever stands behind a space and a slash is read as it was written: a
/// document behind `doc/`, a record otherwise, and the index where there is no
/// slash at all.
pub proof fn every_address_is_read_as_written(space: Seq<char>, rest: Seq<char>, address: Address)
    requires
        forall|i: int| 0 <= i < space.len() ==> #[trigger] space[i] != '/',
    ensures
        reads_as(space, address) <==> (address matches Address::Index { space: s } && s@ == space),
        reads_as(space + "/doc/"@ + rest, address) <==> (address matches Address::Document {
            space: s,
            id,
        } && s@ == space && id@ == rest),
        !starts_with(rest, "doc/"@) ==> (reads_as(space + "/"@ + rest, address) <==> (address
            matches Address::Record { space: s, id } && s@ == space && id@ == rest)),
{
    reveal_strlit("/doc/");
    reveal_strlit("doc/");
    reveal_strlit("/");
    assert(DOC_SEGMENT@ == "doc/"@);
    lemma_no_slash(space);
    let tail = "doc/"@ + rest;
    lemma_first_slash(space, tail);
    let whole = space + seq!['/'] + tail;
    assert(space + "/doc/"@ + rest =~= whole);
    assert(whole.take(space.len() as int) =~= space);
    assert(whole.skip(space.len() as int + 1) =~= tail);
    assert(tail.subrange(0, 4) =~= "doc/"@);
    assert(tail.skip(4) =~= rest);
    lemma_first_slash(space, rest);
    let plain = space + seq!['/'] + rest;
    assert(space + "/"@ + rest =~= plain);
    assert(plain.take(space.len() as int) =~= space);
    assert(plain.skip(space.len() as int + 1) =~= rest);
}

proof fn lemma_no_slash(path: Seq<char>)
    requires
        forall|i: int| 0 <= i < path.len() ==> #[trigger] path[i] != '/',
    ensures
        first_slash(path) is None,
    decreases path.len(),
{
    if path.len() > 0 {
        let rest = path.skip(1);
        assert forall|i: int| 0 <= i < rest.len() implies #[trigger] rest[i] != '/' by {
            assert(rest[i] == path[i + 1]);
        }
        lemma_no_slash(rest);
    }
}

/// Addresses are `memory://` addresses, and name one thing each: two records
/// have one address only where they are one record of one space, and two
/// documents likewise.
pub proof fn an_address_names_one_thing(
    space: Seq<char>,
    id: Seq<char>,
    other_space: Seq<char>,
    other_id: Seq<char>,
)
    requires
        forall|i: int| 0 <= i < space.len() ==> #[trigger] space[i] != '/',
        forall|i: int| 0 <= i < other_space.len() ==> #[trigger] other_space[i] != '/',
    ensures
        record_address(space, id) == "memory://"@ + space + "/"@ + id,
        document_address(space, id) == "memory://"@ + space + "/doc/"@ + id,
        record_address(space, id) == record_address(other_space, other_id) ==> space == other_space
            && id == other_id,
        document_address(space, id) == document_address(other_space, other_id) ==> space
            == other_space && id == other_id,
{
    reveal_strlit("/doc/");
    reveal_strlit("doc/");
    reveal_strlit("/");
    assert(SCHEME@ == "memory://"@ && DOC_SEGMENT@ == "doc/"@);
    assert("/"@ + "doc/"@ =~= "/doc/"@);
    assert(document_address(space, id) =~= "memory://"@ + space + "/doc/"@ + id);
    lemma_address_parts(space, id, other_space, other_id);
    let inner = "doc/"@ + id;
    let other_inner = "doc/"@ + other_id;
    lemma_address_parts(space, inner, other_space, other_inner);
    assert(document_address(space, id) =~= record_address(space, inner));
    assert(document_address(other_space, other_id) =~= record_address(other_space, other_inner));
    assert(inner.skip(4) =~= id && other_inner.skip(4) =~= other_id);
}

proof fn lemma_address_parts(
    space: Seq<char>,
    id: Seq<char>,
    other_space: Seq<char>,
    other_id: Seq<char>,
)
    requires
        forall|i: int| 0 <= i < space.len() ==> #[trigger] space[i] != '/',
        forall|i: int| 0 <= i < other_space.len() ==> #[trigger] other_space[i] != '/',
    ensures
        record_address(space, id) == record_address(other_space, other_id) ==> space == other_space
            && id == other_id,
{
    reveal_strlit("/");
    let a = record_address(space, id);
    let b = record_address(other_space, other_id);
    let n = SCHEME@.len();
    let x = space + seq!['/'] + id;
    let y = other_space + seq!['/'] + other_id;
    assert(a.skip(n as int) =~= x);
    assert(b.skip(n as int) =~= y);
    lemma_first_slash(space, id);
    lemma_first_slash(other_space, other_id);
    if a == b {
        assert(x.take(space.len() as int) =~= space);
        assert(y.take(other_space.len() as int) =~= other_space);
        assert(x.skip(space.len() as int + 1) =~= id);
        assert(y.skip(other_space.len() as int + 1) =~= other_id);
    }
}

/// A cut index says how much it lists and of how much, and where the rest is.
pub proof fn a_cut_index_counts_both(space: Seq<char>, listed: nat, live: nat)
    requires
        live > listed,
    ensures
        page_note(space, listed, live) matches Some(note) && occurs(
            note,
            decimal(listed) + " of "@ + decimal(live),
        ) && occurs(note, space + "/<id>."@),
{
    let lead = "The strongest "@;
    let mid = " live claims — a page, not the whole space. `recall` reaches the rest, and every claim still answers at its own memory://"@;
    lemma_note_parts(lead, decimal(listed), decimal(live), mid, space, "/<id>."@);
}

proof fn lemma_note_parts(
    lead: Seq<char>,
    listed: Seq<char>,
    live: Seq<char>,
    mid: Seq<char>,
    space: Seq<char>,
    end: Seq<char>,
)
    ensures
        occurs(lead + listed + " of "@ + live + mid + space + end, listed + " of "@ + live),
        occurs(lead + listed + " of "@ + live + mid + space + end, space + end),
{
    let whole = lead + listed + " of "@ + live + mid + space + end;
    let count = listed + " of "@ + live;
    let head = lead + listed + " of "@ + live;
    assert(head =~= lead + count);
    lemma_two_parts(lead, count, mid, space + end);
    lemma_regroup(head + mid, space, end);
}

proof fn lemma_regroup(a: Seq<char>, b: Seq<char>, c: Seq<char>)
    ensures
        a + b + c == a + (b + c),
{
    assert(a + b + c =~= a + (b + c));
}

proof fn lemma_two_parts(a: Seq<char>, first: Seq<char>, b: Seq<char>, second: Seq<char>)
    ensures
        occurs(a + first + b + second, first),
        occurs(a + first + b + second, second),
{
    let none = Seq::<char>::empty();
    let whole = a + first + b + second;
    assert(whole =~= a + first + (b + second));
    what_is_put_between_occurs(a, first, b + second);
    assert(whole =~= (a + first + b) + second + none);
    what_is_put_between_occurs(a + first + b, second, none);
}

/// A document is described by its kind, its space and every one of its tags.
pub proof fn a_description_names_kind_space_and_tags(
    kind: Seq<char>,
    space: Seq<char>,
    tags: Seq<Seq<char>>,
    i: int,
)
    ensures
        occurs(described_as(kind, space, tags), kind),
        occurs(described_as(kind, space, tags), space),
        0 <= i < tags.len() ==> occurs(described_as(kind, space, tags), tags[i]),
{
    let whole = described_as(kind, space, tags);
    let list = joined(tags, ", "@);
    let none = Seq::<char>::empty();
    if tags.len() == 0 {
        lemma_three_parts("A "@, kind, " in `"@, space, "`"@, none);
        assert(whole =~= "A "@ + kind + " in `"@ + space + "`"@ + none);
    } else {
        lemma_three_parts("A "@, kind, " in `"@, space, "`"@ + ", tagged "@, list);
        assert(whole =~= "A "@ + kind + " in `"@ + space + ("`"@ + ", tagged "@) + list);
        if 0 <= i < tags.len() {
            every_joined_text_occurs(tags, ", "@, i);
            a_part_of_a_part_occurs(whole, list, tags[i]);
        }
    }
}

proof fn lemma_three_parts(
    a: Seq<char>,
    first: Seq<char>,
    b: Seq<char>,
    second: Seq<char>,
    c: Seq<char>,
    third: Seq<char>,
)
    ensures
        occurs(a + first + b + second + c + third, first),
        occurs(a + first + b + second + c + third, second),
        occurs(a + first + b + second + c + third, third),
{
    let none = Seq::<char>::empty();
    let whole = a + first + b + second + c + third;
    assert(whole =~= a + first + (b + second + c + third));
    what_is_put_between_occurs(a, first, b + second + c + third);
    assert(whole =~= (a + first + b) + second + (c + third));
    what_is_put_between_occurs(a + first + b, second, c + third);
    assert(whole =~= (a + first + b + second + c) + third + none);
    what_is_put_between_occurs(a + first + b + second + c, third, none);
}

/// A session has its own space and the user's, its own first, each once.
pub proof fn a_session_has_its_own_space_and_the_users(own: Seq<char>, space: Seq<char>)
    ensures
        attached_spaces(own)[0] == own,
        attached_spaces(own).contains(space) <==> space == own || space == "user"@,
        attached_spaces(own).no_duplicates(),
{
    let all = attached_spaces(own);
    if own != "user"@ {
        assert(all[1] == "user"@);
    }
    assert(all[0] == own);
}

/// An index entry is its claim, word for word, at the claim's own address.
pub proof fn an_index_entry_is_its_claim(entry: IndexEntry, space: Seq<char>, claim: Claim)
    requires
        lists(entry, space, claim),
    ensures
        entry.uri@ == "memory://"@ + space + "/"@ + claim.id@,
        entry.id@ == claim.id@,
        entry.content@ == claim.content@,
        entry.kind == claim.kind,
{
}

} // verus!
