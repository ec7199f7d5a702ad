//! The MCP surface of one session: what it is told, and which tools it lists.

use vstd::prelude::*;

use crate::server::config::ToolGroup;
use crate::server::tools::{tool_names, ToolDescriptions};
use crate::text::chars::text_of;
use crate::text::number::{
    decimal, decimal_digits, decimal_is_injective, signed_decimal, to_decimal, to_signed_decimal,
};
use crate::text::search::same;

verus! {

/// What the agent is told agmem is for, at `initialize`.
///
/// The client puts this in front of the model once per session, so it says
/// what no tool description can: that agmem is worth reaching for at all, and
/// that distillation is the caller's job.
pub const INSTRUCTIONS: &'static str = "Persistent memory across sessions. Recall before assuming; remember what you learned that a future session would have to rediscover.\n\nYou do the distilling: agmem stores what you give it and never rewrites it. Write one atomic, self-contained claim per memory, in the third person, so it still makes sense with no conversation around it. When something you stored turns out to be wrong, correct it with `supersedes` rather than storing a contradiction — the old claim stays readable and dated, and only one claim is live at a time.";

/// The write verb: the extraction contract on the wire.
pub const REMEMBER: &'static str = "Store what this session learned — distilled claims, optionally with the verbatim text they came from — so the next session starts with it instead of working it out again.\n\nCall it as soon as something durable is said, unprompted: a preference or a standing instruction, a decision and the reason behind it, a convention, a constraint, a lesson from a failure. Nothing you say persists — an answer that ends \"noted\" without this call is a promise the next session cannot keep.\n\nDistil before you call: one atomic, self-contained claim per entry, in the third person, understandable with no conversation around it. Do not store what the code or the ticket already records, or what only matters to this turn.\n\nNothing here is rewritten. When a stored claim turns out to be wrong, send the correction with `supersedes` set to its id rather than storing a contradiction: the old claim stays readable and dated, and only one is live.\n\nReturns a diff, not an acknowledgement: `created`, `duplicates` (**not** written) and `related`, the last two with the id and text of a claim already stored. Read both before you answer: a correction reads much like the claim it corrects, so it lands there rather than in `created`, and reporting it as remembered would leave the old, wrong claim live. When one of them contradicts yours, send yours again with `supersedes` set to its id.";

/// The read verb.
pub const RECALL: &'static str = "Search everything past sessions stored — distilled claims and the verbatim text behind them — before assuming, guessing, or asking something the user may already have said.\n\nCall it at the start of a session, when a new topic comes up, and before any answer that depends on what the user prefers or decided earlier. Ask in words: the wording is matched literally and the meaning semantically, so a question works better than keywords. Drop `query` to list what `entities`, `tags` or `kinds` select on their own.\n\nHits are ranked by match, by how well they have held up since last used, and by stated importance — each visible in `signals`. Every hit carries the `source` it was distilled from, which `inspect` takes as it stands. A corrected claim is absent unless you ask with `as_of` or `include_invalidated`.";

/// The session-start verb.
pub const CONTEXT: &'static str = "Read this before your first move in a session: the standing instructions, who the user is, what is relevant right now, and the lessons earlier sessions paid for — as one markdown block.\n\nCall it once at the start of a session, and again when the topic shifts enough that a different set of memories matters. Pass `query` to aim the Relevant section at what you are about to do; leave it out for a general orientation. The other sections do not change with it.\n\nThe block is capped at `budget_chars` (6000 by default) and fills its sections in priority order, dropping whole entries rather than cutting one in half — so it is a briefing, not an inventory. Use `recall` for anything it left out, including the verbatim text, which never appears here.\n\nEvery line ends with its memory id. Hand that to `inspect` to see where the claim came from, or to `remember`'s `supersedes` the moment you learn it is wrong.";

/// The destructive verb: most of its words talk the caller out of the call.
pub const FORGET: &'static str = "Remove memories the store should no longer act on — by id when you know which, or by query when you do not.\n\nReach for `remember` with `supersedes` first: a claim that turned out to be wrong is a correction, and a correction stays readable and dated. Forget is for what should not have been stored at all — something private, something that only made sense inside one session, notes on a project that no longer exists.\n\nBy default a forgotten memory is closed, not deleted: it stops surfacing in `recall` and `context`, and stays visible to `inspect` with `forgotten` as the reason, so a mistaken forget is recoverable and an audit still adds up. `purge: true` deletes outright — the claim, its whole correction history, and for an episode its verbatim text and slices. That is unrecoverable, and it is the only way to remove something that must not stay on disk. Purging anonymous text does not purge the claims distilled from it; purging a document (an episode with a title and kind) is refused while live claims cite it, unless `cascade: true` purges those claims with it.\n\nForgetting by `query` is refused until the identical call has been made with `dry_run: true`, and a query matches on the words you write, not on their meaning — the opposite of `recall`, deliberately, so a deletion never reaches something that merely resembles what you asked for.";

/// The audit verb.
pub const INSPECT: &'static str = "Look behind a stored memory: where it came from, what it used to say, and what the store actually holds.\n\nUse it when a recalled claim matters enough to check, when two claims disagree, or when you need to quote the original wording rather than the distilled version. `ref` takes one of: a memory id (bare, or `memory:<id>`) for the claim, its full correction history oldest-first, and the verbatim text it was distilled from; `episode:<id>` for that text with every claim drawn from it; `entity:<name>` for everything ever said about a subject, corrected claims included; `doc:<space>/<title>` for the newest document under a title, with its earlier versions listed; `docs` or `docs:<space>` to list documents and how many claims cite each; or `stats` for per-space counts. A document comes back one chunk at a time — `offset` and `limit` page through it.\n\nNothing is ever deleted here, so a claim that was corrected is still readable and still dated — which is what lets you tell a belief that changed from a belief that was always wrong.";

/// The maintenance verb.
pub const CONSOLIDATE: &'static str = "Find what stored memory needs tidying up, and get back everything needed to do it. This decides nothing and changes nothing.\n\nCall it when memory has started to feel noisy: recall keeps returning the same claim in different words, two stored claims look like they disagree, or you are picking up a project that has accumulated a lot. It is a maintenance verb, not a search one — to find a particular claim, use `recall`.\n\nFive lists come back, every claim in each with its full text so you can judge it here:\n\n- `near_duplicates` — groups of live claims saying the same thing; merge a group with one `remember` whose `supersedes` lists every other member. `min_similarity` is the weakest pair anywhere in the group, so a low number means it chained through a middle claim.\n- `contradictions` — pairs about one subject that are close without being the same; nothing here has judged that they disagree. Read both and decide.\n- `stale_contexts` — short-lived claims recall has kept alive past their class; store a durable one again with a slower `decay_class`, `forget` scaffolding.\n- `over_full_tags` — tags carrying more live lessons than a briefing shows for one; merge as a duplicate group merges.\n- `orphan_documents` — documents no live claim cites; distil and cite one, or `forget` it with `purge: true`.\n\nEvery list can be empty, and usually some are — an empty answer means there is nothing worth your attention, not that the call failed. `scanned` says what was actually compared.\n\nThis looks in the current space only, unlike every other read here: a tidy-up should not reach the shared user space unless you name it with `space`.";

/// The insight verb.
pub const REFLECT: &'static str = "Store something you worked out from what memory already holds, together with the ids it was drawn from.\n\nCall it when reading several memories together tells you something none of them says on its own: a pattern across failures, what a preference and a constraint mean taken together, the reason behind a decision. This is the verb for a conclusion you reached; `remember` is for something you were told, and an insight with nothing behind it is a `remember` call. The cited ids are shown by `inspect`, so a later session can check the evidence still stands.\n\nStored as a `lesson` unless you say otherwise. `kind: \"summary\"` is a digest of the cited claims: `context` shows it in their place under budget pressure and `inspect` expands them, so compressing a finished session this way costs no detail.\n\nReturns the id. `created: false` means an equivalent insight was already there — read its `content`, and if yours differs, send it again with `supersedes` set to that id. `related` carries nearby live claims with their text, for the same decision.";

/// The title of the `recall_first` ritual.
pub const RECALL_FIRST_TITLE: &'static str = "Recall first";

/// What the `recall_first` ritual is for.
pub const RECALL_FIRST_PURPOSE: &'static str = "Session-start ritual: read the memory block, treat it as established fact, and correct it rather than working around it.";

/// The title of the `checkpoint` ritual.
pub const CHECKPOINT_TITLE: &'static str = "Checkpoint";

/// What the `checkpoint` ritual is for.
pub const CHECKPOINT_PURPOSE: &'static str = "End-of-session ritual: distil what is durable, recall each claim before writing it, then remember the batch with supersedes on the corrections.";

/// One tool of the surface.
#[derive(Debug, PartialEq, Eq)]
pub struct Route {
    pub name: String,
    /// What the agent reads before it decides to call the tool.
    pub description: Option<String>,
}

/// A tool by name, and what the agent reads of it.
pub type Offer = (Seq<char>, Option<Seq<char>>);

impl View for Route {
    type V = Offer;

    open spec fn view(&self) -> Offer {
        (self.name@, text_of(self.description))
    }
}

/// What some routes offer.
pub open spec fn offers(routes: Seq<Route>) -> Seq<Offer> {
    routes.map_values(|route: Route| route@)
}

/// Every tool, in agmem's own words.
pub open spec fn built_in_offers() -> Seq<Offer> {
    seq![
        ("remember"@, Some(REMEMBER@)),
        ("recall"@, Some(RECALL@)),
        ("context"@, Some(CONTEXT@)),
        ("forget"@, Some(FORGET@)),
        ("inspect"@, Some(INSPECT@)),
        ("consolidate"@, Some(CONSOLIDATE@)),
        ("reflect"@, Some(REFLECT@)),
    ]
}

/// A tool in agmem's own words.
fn route(name: &str, description: &str) -> (route: Route)
    ensures
        route@ == (name@, Some(description@)),
{
    Route { name: name.to_owned(), description: Some(description.to_owned()) }
}

/// Every tool, in agmem's own words.
pub fn built_in() -> (routes: Vec<Route>)
    ensures
        offers(routes@) == built_in_offers(),
        offers(routes@).contains(("remember"@, Some(REMEMBER@))),
        offers(routes@).contains(("recall"@, Some(RECALL@))),
        offers(routes@).contains(("context"@, Some(CONTEXT@))),
        offers(routes@).contains(("forget"@, Some(FORGET@))),
        offers(routes@).contains(("inspect"@, Some(INSPECT@))),
        offers(routes@).contains(("consolidate"@, Some(CONSOLIDATE@))),
        offers(routes@).contains(("reflect"@, Some(REFLECT@))),
{
    let mut routes: Vec<Route> = Vec::new();
    routes.push(route("remember", REMEMBER));
    routes.push(route("recall", RECALL));
    routes.push(route("context", CONTEXT));
    routes.push(route("forget", FORGET));
    routes.push(route("inspect", INSPECT));
    routes.push(route("consolidate", CONSOLIDATE));
    routes.push(route("reflect", REFLECT));
    assert(offers(routes@) =~= built_in_offers());
    proof {
        assert(built_in_offers()[0] == ("remember"@, Some(REMEMBER@)));
        assert(built_in_offers()[1] == ("recall"@, Some(RECALL@)));
        assert(built_in_offers()[2] == ("context"@, Some(CONTEXT@)));
        assert(built_in_offers()[3] == ("forget"@, Some(FORGET@)));
        assert(built_in_offers()[4] == ("inspect"@, Some(INSPECT@)));
        assert(built_in_offers()[5] == ("consolidate"@, Some(CONSOLIDATE@)));
        assert(built_in_offers()[6] == ("reflect"@, Some(REFLECT@)));
    }
    routes
}

/// A tool under a deployment's wording.
pub open spec fn reworded(offer: Offer, overrides: Map<Seq<char>, Seq<char>>) -> Offer {
    if overrides.contains_key(offer.0) {
        (offer.0, Some(overrides[offer.0]))
    } else {
        offer
    }
}

/// Some tools under a deployment's wording.
pub open spec fn all_reworded(
    offers: Seq<Offer>,
    overrides: Map<Seq<char>, Seq<char>>,
) -> Seq<Offer> {
    offers.map_values(|offer: Offer| reworded(offer, overrides))
}

/// Serve this deployment's wording instead of agmem's, where it has any: an
/// override replaces a description whole, and a tool it does not name keeps
/// its own.
pub fn described(routes: Vec<Route>, overrides: &ToolDescriptions) -> (result: Vec<Route>)
    ensures
        offers(result@) == all_reworded(offers(routes@), overrides@),
{
    let ghost before = offers(routes@);
    let mut result: Vec<Route> = Vec::new();
    let mut i: usize = 0;
    while i < routes.len()
        invariant
            i <= routes@.len(),
            before == offers(routes@),
            offers(result@) == all_reworded(before, overrides@).take(i as int),
        decreases routes@.len() - i,
    {
        let ghost done = offers(result@);
        let name = routes[i].name.clone();
        let description = match overrides.get(name.as_str()) {
            Some(text) => Some(text.to_owned()),
            None => match &routes[i].description {
                Some(text) => Some(text.clone()),
                None => None,
            },
        };
        let made = Route { name, description };
        assert(made@ == reworded(before[i as int], overrides@));
        result.push(made);
        i += 1;
        assert(offers(result@) =~= done.push(made@));
        assert(offers(result@) =~= all_reworded(before, overrides@).take(i as int));
    }
    assert(all_reworded(before, overrides@).take(i as int) =~= all_reworded(before, overrides@));
    result
}

/// The tools the core list leaves out: the shell serves them.
pub open spec fn gated_names() -> Seq<Seq<char>> {
    seq!["consolidate"@, "forget"@]
}

/// The tools a session lists.
pub open spec fn listed(offers: Seq<Offer>, group: ToolGroup) -> Seq<Offer> {
    match group {
        ToolGroup::Core => offers.filter(|offer: Offer| !gated_names().contains(offer.0)),
        ToolGroup::All => offers,
    }
}

/// Whether the core list leaves a tool out.
fn is_gated(name: &str) -> (gated: bool)
    ensures
        gated == gated_names().contains(name@),
{
    let gated = same(name, "consolidate") || same(name, "forget");
    proof {
        if gated {
            assert(gated_names()[0] == name@ || gated_names()[1] == name@);
        }
    }
    gated
}

/// Serve the default list, or everything.
///
/// It comes after the wording on purpose: an override may name a tool that the
/// core list leaves out, and is then accepted and has no route to be read
/// from. A route that is left out is neither listed nor callable.
pub fn gated(routes: Vec<Route>, group: ToolGroup) -> (result: Vec<Route>)
    ensures
        offers(result@) == listed(offers(routes@), group),
{
    match group {
        ToolGroup::All => routes,
        ToolGroup::Core => {
            let ghost all = offers(routes@);
            let ghost kept = |offer: Offer| !gated_names().contains(offer.0);
            let mut rest = routes;
            let mut result: Vec<Route> = Vec::new();
            let mut i: usize = 0;
            let ghost whole = rest@;
            let count: usize = rest.len();
            assert(all.take(0) =~= Seq::empty());
            assert(offers(result@) =~= all.take(0).filter(kept)) by {
                reveal(Seq::filter);
            }
            while i < count
                invariant
                    i <= count == whole.len(),
                    all == offers(whole),
                    kept == (|offer: Offer| !gated_names().contains(offer.0)),
                    rest@ == whole.skip(i as int),
                    offers(result@) == all.take(i as int).filter(kept),
                decreases count - i,
            {
                let ghost done = offers(result@);
                let route = rest.remove(0);
                assert(rest@ =~= whole.skip(i + 1));
                assert(route@ == all[i as int]);
                assert(all.take(i + 1).drop_last() =~= all.take(i as int));
                assert(all.take(i + 1).filter(kept) == if kept(all[i as int]) {
                    done.push(all[i as int])
                } else {
                    done
                }) by {
                    reveal(Seq::filter);
                }
                if !is_gated(route.name.as_str()) {
                    let ghost made = route@;
                    result.push(route);
                    assert(offers(result@) =~= done.push(made));
                }
                i += 1;
            }
            assert(all.take(i as int) =~= all);
            result
        },
    }
}

/// The id that a connection's writes are attributed to: the process, and when
/// the connection came up.
pub open spec fn session_name(pid: nat, nanos: int) -> Seq<char> {
    decimal(pid) + seq!['-'] + signed_decimal(nanos)
}

/// The id of a session that comes up in process `pid`, `nanos` nanoseconds
/// after the epoch. It sorts by start time within a process.
pub fn session_id(pid: u32, nanos: i128) -> (id: String)
    ensures
        id@ == session_name(pid as nat, nanos as int),
{
    let mut id = to_decimal(pid as u64);
    id.push('-');
    assert(id@ =~= decimal(pid as nat) + seq!['-']);
    let start = to_signed_decimal(nanos);
    id.append(start.as_str());
    id
}

/// Two sessions have two ids, unless they came up in one process at one
/// instant.
pub proof fn session_ids_are_distinct(pid: nat, nanos: int, other_pid: nat, other_nanos: int)
    requires
        session_name(pid, nanos) == session_name(other_pid, other_nanos),
    ensures
        pid == other_pid,
        nanos == other_nanos,
{
    let id = session_name(pid, nanos);
    let other = session_name(other_pid, other_nanos);
    let a = decimal(pid);
    let b = decimal(other_pid);
    decimal_digits(pid);
    decimal_digits(other_pid);
    assert(id[a.len() as int] == '-');
    assert(other[b.len() as int] == '-');
    if a.len() < b.len() {
        assert(other[a.len() as int] == b[a.len() as int]);
    } else if b.len() < a.len() {
        assert(id[b.len() as int] == a[b.len() as int]);
    }
    assert(a =~= id.take(a.len() as int));
    assert(b =~= other.take(a.len() as int));
    decimal_is_injective(pid, other_pid);
    let x = signed_decimal(nanos);
    let y = signed_decimal(other_nanos);
    assert(x =~= id.skip(a.len() + 1int));
    assert(y =~= other.skip(a.len() + 1int));
    let m = (if nanos < 0 {
        -nanos
    } else {
        nanos
    }) as nat;
    let n = (if other_nanos < 0 {
        -other_nanos
    } else {
        other_nanos
    }) as nat;
    decimal_digits(m);
    decimal_digits(n);
    assert(nanos < 0 <==> x[0] == '-');
    assert(other_nanos < 0 <==> y[0] == '-');
    if nanos < 0 {
        assert(decimal(m) =~= x.skip(1));
        assert(decimal(n) =~= y.skip(1));
    }
    decimal_is_injective(m, n);
}

/// The tools on the surface are the tools there are, in their order.
pub proof fn the_surface_is_every_tool()
    ensures
        built_in_offers().map_values(|offer: Offer| offer.0) == tool_names(),
{
    assert(built_in_offers().map_values(|offer: Offer| offer.0) =~= tool_names());
}

/// No overrides change nothing.
pub proof fn no_overrides_change_nothing(offers: Seq<Offer>)
    ensures
        all_reworded(offers, Map::empty()) == offers,
{
    assert(all_reworded(offers, Map::empty()) =~= offers);
}

proof fn lemma_filtered(offers: Seq<Offer>, kept: spec_fn(Offer) -> bool, offer: Offer)
    requires
        offers.filter(kept).contains(offer),
    ensures
        offers.contains(offer),
        kept(offer),
    decreases offers.len(),
{
    reveal(Seq::filter);
    let list = offers.filter(kept);
    let front = offers.drop_last();
    let i = choose|i: int| 0 <= i < list.len() && list[i] == offer;
    if kept(offers.last()) && i == list.len() - 1 {
        assert(offers[offers.len() - 1] == offer);
    } else {
        assert(front.filter(kept)[i] == offer);
        lemma_filtered(front, kept, offer);
        let j = choose|j: int| 0 <= j < front.len() && front[j] == offer;
        assert(offers[j] == offer);
    }
}

/// The core list is every tool but the gated ones, and gating changes nobody's
/// words: what it lists is on the full list, as it stands there.
pub proof fn gating_only_removes(offers: Seq<Offer>, offer: Offer)
    ensures
        listed(offers, ToolGroup::Core).contains(offer) <==> offers.contains(offer)
            && !gated_names().contains(offer.0),
        listed(offers, ToolGroup::All) == offers,
{
    let kept = |offer: Offer| !gated_names().contains(offer.0);
    if listed(offers, ToolGroup::Core).contains(offer) {
        lemma_filtered(offers, kept, offer);
    }
    if offers.contains(offer) && kept(offer) {
        let i = choose|i: int| 0 <= i < offers.len() && offers[i] == offer;
        offers.lemma_filter_contains(kept, i);
    }
}

/// An override survives gating where its tool is listed, and has nowhere to
/// land where it is not.
pub proof fn an_override_survives_gating(
    offers: Seq<Offer>,
    overrides: Map<Seq<char>, Seq<char>>,
    offer: Offer,
)
    requires
        offers.contains(offer),
        overrides.contains_key(offer.0),
    ensures
        !gated_names().contains(offer.0) ==> listed(
            all_reworded(offers, overrides),
            ToolGroup::Core,
        ).contains((offer.0, Some(overrides[offer.0]))),
        gated_names().contains(offer.0) ==> forall|text: Option<Seq<char>>|
            !#[trigger] listed(all_reworded(offers, overrides), ToolGroup::Core).contains(
                (offer.0, text),
            ),
{
    let all = all_reworded(offers, overrides);
    let i = choose|i: int| 0 <= i < offers.len() && offers[i] == offer;
    assert(all[i] == reworded(offer, overrides));
    gating_only_removes(all, (offer.0, Some(overrides[offer.0])));
    assert forall|text: Option<Seq<char>>| gated_names().contains(offer.0) implies !#[trigger] listed(
        all,
        ToolGroup::Core,
    ).contains((offer.0, text)) by {
        gating_only_removes(all, (offer.0, text));
    }
}

/// An override changes a tool's wording and nothing else: every tool stays in
/// its place under its name, and one without an override keeps its own words.
pub proof fn an_override_changes_only_the_wording(
    offers: Seq<Offer>,
    overrides: Map<Seq<char>, Seq<char>>,
    i: int,
)
    requires
        0 <= i < offers.len(),
    ensures
        all_reworded(offers, overrides).len() == offers.len(),
        all_reworded(offers, overrides)[i].0 == offers[i].0,
        overrides.contains_key(offers[i].0) ==> all_reworded(offers, overrides)[i].1 == Some(
            overrides[offers[i].0],
        ),
        !overrides.contains_key(offers[i].0) ==> all_reworded(offers, overrides)[i] == offers[i],
{
}

/// Only the two tools that take things away or look the store over are held
/// back from the core group.
pub proof fn only_forget_and_consolidate_are_held_back(offers: Seq<Offer>, offer: Offer)
    requires
        offers.contains(offer),
    ensures
        listed(offers, ToolGroup::Core).contains(offer) <==> offer.0 != "forget"@ && offer.0
            != "consolidate"@,
{
    gating_only_removes(offers, offer);
    let held = gated_names();
    assert(held[0] == "consolidate"@ && held[1] == "forget"@);
    assert(held.contains(offer.0) <==> offer.0 == "forget"@ || offer.0 == "consolidate"@);
}

/// Gating keeps the order: a tool more at the end is listed at the end, unless
/// it is held back.
pub proof fn gating_keeps_the_order(offers: Seq<Offer>, offer: Offer)
    ensures
        listed(Seq::empty(), ToolGroup::Core) == Seq::<Offer>::empty(),
        offer.0 != "forget"@ && offer.0 != "consolidate"@ ==> listed(
            offers.push(offer),
            ToolGroup::Core,
        ) == listed(offers, ToolGroup::Core).push(offer),
        offer.0 == "forget"@ || offer.0 == "consolidate"@ ==> listed(
            offers.push(offer),
            ToolGroup::Core,
        ) == listed(offers, ToolGroup::Core),
{
    reveal(Seq::filter);
    let held = gated_names();
    assert(held[0] == "consolidate"@ && held[1] == "forget"@);
    assert(held.contains(offer.0) <==> offer.0 == "forget"@ || offer.0 == "consolidate"@);
    assert(offers.push(offer).drop_last() =~= offers);
}

/// A session is named by its process and the instant it started, the process
/// first.
pub proof fn a_session_is_named_by_process_and_start(pid: nat, nanos: nat)
    ensures
        session_name(pid, nanos as int) == decimal(pid) + "-"@ + decimal(nanos),
{
    reveal_strlit("-");
    assert(seq!['-'] =~= "-"@);
}

} // verus!
