//! Looks knowledge up while a question is still being spoken.
//!
//! The pipeline decides what to search for, gathers what was found for the
//! current question, and picks the passages that go along with it. Sending
//! searches, waiting for their results and reading the clock are left to the
//! caller.
use vstd::prelude::*;

use crate::config::assistant::KnowledgeConfig;
use crate::events::{
    KnowledgeContext, KnowledgeContextModel, KnowledgeSnippet, KnowledgeSnippetModel,
};
use crate::knowledge::types::{
    KnowledgeSearchRequest, KnowledgeSearchRequestModel, KnowledgeSearchResult,
    KnowledgeSearchResultModel, SearchHit, SearchHitModel,
};
use crate::numbers::Single;
use crate::ranking::{positions, rank, ranked, ranked_is_a_stable_order};
use crate::text::{char_len, copy_texts, first, first_chars, same_text, trim, trimmed, views};

verus! {

/// What the pipeline goes by.
#[derive(Clone, Copy, Debug, PartialEq, Eq, Structural)]
pub struct RetrievalLimits {
    /// The most passages for a question.
    pub top_k: usize,
    /// The most characters of all passages for a question.
    pub max_context_chars: usize,
    /// The least score of a passage.
    pub min_score: Single,
    /// The least score of a passage that was found only for an earlier wording
    /// of the question.
    pub strict_score: Single,
    /// The least time between two searches for a growing question.
    pub refresh_ms: u64,
}

/// The passages that a search found, by their names.
#[derive(Debug)]
struct Completed {
    search_id: u64,
    ids: Vec<String>,
}

/// The value of a completed search.
pub struct CompletedModel {
    pub search_id: u64,
    pub ids: Seq<Seq<char>>,
}

/// Finds passages for the question that is being spoken.
#[derive(Debug)]
pub struct RetrievalPipeline {
    limits: RetrievalLimits,
    turn_id: u64,
    next_search_id: u64,
    last_dispatch_ns: Option<u128>,
    last_query: String,
    last_search_id: Option<u64>,
    accumulated: Vec<KnowledgeSnippet>,
    completed: Vec<Completed>,
    searches: u64,
    embedding_calls: u64,
    embedding_prompt_tokens: u64,
    embedding_total_tokens: u64,
    embedding_ms: u64,
    search_ms: u64,
    last_error: Option<String>,
}

/// The value of a [`RetrievalPipeline`].
#[verifier::ext_equal]
pub struct PipelineModel {
    pub limits: RetrievalLimits,
    /// The number of the current question.
    pub turn_id: u64,
    pub next_search_id: u64,
    /// When the last search was sent.
    pub last_dispatch_ns: Option<u128>,
    pub last_query: Seq<char>,
    pub last_search_id: Option<u64>,
    /// What was found for the current question, each passage once, in the order
    /// of finding.
    pub accumulated: Seq<KnowledgeSnippetModel>,
    /// The searches for the current question that are done.
    pub completed: Seq<CompletedModel>,
    pub searches: u64,
    pub embedding_calls: u64,
    pub embedding_prompt_tokens: u64,
    pub embedding_total_tokens: u64,
    pub embedding_ms: u64,
    pub search_ms: u64,
    pub last_error: Option<Seq<char>>,
}

/// The values of the passages.
pub open spec fn snippet_models(snippets: Seq<KnowledgeSnippet>) -> Seq<KnowledgeSnippetModel> {
    Seq::new(snippets.len(), |i: int| snippets[i]@)
}

/// The values of the hits.
pub open spec fn hit_models(hits: Seq<SearchHit>) -> Seq<SearchHitModel> {
    Seq::new(hits.len(), |i: int| hits[i]@)
}

spec fn completed_models(completed: Seq<Completed>) -> Seq<CompletedModel> {
    Seq::new(
        completed.len(),
        |i: int| CompletedModel { search_id: completed[i].search_id, ids: views(completed[i].ids@) },
    )
}

impl View for RetrievalPipeline {
    type V = PipelineModel;

    closed spec fn view(&self) -> PipelineModel {
        PipelineModel {
            limits: self.limits,
            turn_id: self.turn_id,
            next_search_id: self.next_search_id,
            last_dispatch_ns: self.last_dispatch_ns,
            last_query: self.last_query@,
            last_search_id: self.last_search_id,
            accumulated: snippet_models(self.accumulated@),
            completed: completed_models(self.completed@),
            searches: self.searches,
            embedding_calls: self.embedding_calls,
            embedding_prompt_tokens: self.embedding_prompt_tokens,
            embedding_total_tokens: self.embedding_total_tokens,
            embedding_ms: self.embedding_ms,
            search_ms: self.search_ms,
            last_error: match self.last_error {
                Some(error) => Some(error@),
                None => None,
            },
        }
    }
}

/// Where a passage stands among others, or their number where it does not.
pub open spec fn snippet_position(snippets: Seq<KnowledgeSnippetModel>, id: Seq<char>) -> int
    decreases snippets.len(),
{
    if snippets.len() == 0 || snippets[0].id == id {
        0
    } else {
        1 + snippet_position(snippets.drop_first(), id)
    }
}

/// The passage of a hit.
pub open spec fn hit_snippet(hit: SearchHitModel) -> KnowledgeSnippetModel {
    KnowledgeSnippetModel {
        id: hit.id,
        source: hit.source,
        heading: hit.heading,
        text: hit.text,
        score: hit.combined_score,
    }
}

/// The passages with one more: of two of one name the one with the greater
/// score stays.
pub open spec fn with_snippet(
    snippets: Seq<KnowledgeSnippetModel>,
    snippet: KnowledgeSnippetModel,
) -> Seq<KnowledgeSnippetModel> {
    let at = snippet_position(snippets, snippet.id);
    if at < snippets.len() {
        if snippet.score.above(snippets[at].score) {
            snippets.update(at, snippet)
        } else {
            snippets
        }
    } else {
        snippets.push(snippet)
    }
}

/// The passages with all hits of the least score added.
pub open spec fn with_hits(
    snippets: Seq<KnowledgeSnippetModel>,
    hits: Seq<SearchHitModel>,
    min_score: Single,
) -> Seq<KnowledgeSnippetModel>
    decreases hits.len(),
{
    if hits.len() == 0 {
        snippets
    } else {
        let before = with_hits(snippets, hits.drop_last(), min_score);
        if hits.last().combined_score.at_least(min_score) {
            with_snippet(before, hit_snippet(hits.last()))
        } else {
            before
        }
    }
}

/// The names of the hits of the least score.
pub open spec fn hit_ids(hits: Seq<SearchHitModel>, min_score: Single) -> Seq<Seq<char>>
    decreases hits.len(),
{
    if hits.len() == 0 {
        Seq::empty()
    } else if hits.last().combined_score.at_least(min_score) {
        hit_ids(hits.drop_last(), min_score).push(hits.last().id)
    } else {
        hit_ids(hits.drop_last(), min_score)
    }
}

/// The names that a search found, if it is done; of two outcomes the later
/// one counts.
pub open spec fn completed_ids(completed: Seq<CompletedModel>, search_id: u64) -> Option<
    Seq<Seq<char>>,
>
    decreases completed.len(),
{
    if completed.len() == 0 {
        None
    } else if completed.last().search_id == search_id {
        Some(completed.last().ids)
    } else {
        completed_ids(completed.drop_last(), search_id)
    }
}

/// The scores of the passages in their total order.
pub open spec fn score_ranks(snippets: Seq<KnowledgeSnippetModel>) -> Seq<i64> {
    Seq::new(snippets.len(), |i: int| snippets[i].score.total_rank() as i64)
}

/// The names so far, and behind them, the best first, the passages at `order`
/// that have the strict score and are not among the names.
pub open spec fn with_strict(
    ids: Seq<Seq<char>>,
    snippets: Seq<KnowledgeSnippetModel>,
    order: Seq<int>,
    strict_score: Single,
) -> Seq<Seq<char>>
    decreases order.len(),
{
    if order.len() == 0 {
        ids
    } else {
        let before = with_strict(ids, snippets, order.drop_last(), strict_score);
        let snippet = snippets[order.last()];
        if snippet.score.at_least(strict_score) && !before.contains(snippet.id) {
            before.push(snippet.id)
        } else {
            before
        }
    }
}

/// The passages with the given names, at most `count` of them and at most
/// `room` characters; the last one is cut where it does not fit.
pub open spec fn picked(
    ids: Seq<Seq<char>>,
    snippets: Seq<KnowledgeSnippetModel>,
    count: nat,
    room: nat,
) -> Seq<KnowledgeSnippetModel>
    decreases ids.len(),
{
    if ids.len() == 0 || count == 0 || room == 0 {
        Seq::empty()
    } else {
        let at = snippet_position(snippets, ids[0]);
        if at < snippets.len() {
            let snippet = KnowledgeSnippetModel {
                text: first(snippets[at].text, room),
                ..snippets[at]
            };
            seq![snippet] + picked(
                ids.drop_first(),
                snippets,
                (count - 1) as nat,
                (room - snippet.text.len()) as nat,
            )
        } else {
            picked(ids.drop_first(), snippets, count, room)
        }
    }
}

/// The names of the passages for a question, the most wanted first: what the
/// search for its last wording found, then what was found for earlier ones.
pub open spec fn wanted_ids(p: PipelineModel, search_id: Option<u64>) -> Seq<Seq<char>> {
    let found = match search_id {
        Some(id) => match completed_ids(p.completed, id) {
            Some(ids) => ids,
            None => Seq::empty(),
        },
        None => Seq::empty(),
    };
    with_strict(
        found,
        p.accumulated,
        ranked(score_ranks(p.accumulated)),
        p.limits.strict_score,
    )
}

/// The passages for a question.
pub open spec fn chosen_snippets(p: PipelineModel, search_id: Option<u64>) -> Seq<
    KnowledgeSnippetModel,
> {
    picked(
        wanted_ids(p, search_id),
        p.accumulated,
        p.limits.top_k as nat,
        p.limits.max_context_chars as nat,
    )
}

impl PipelineModel {
    /// The pipeline for the next question.
    pub open spec fn renewed(self) -> PipelineModel {
        PipelineModel {
            limits: self.limits,
            turn_id: (self.turn_id + 1) as u64,
            next_search_id: self.next_search_id,
            last_dispatch_ns: None,
            last_query: Seq::empty(),
            last_search_id: None,
            accumulated: Seq::empty(),
            completed: Seq::empty(),
            searches: 0,
            embedding_calls: 0,
            embedding_prompt_tokens: 0,
            embedding_total_tokens: 0,
            embedding_ms: 0,
            search_ms: 0,
            last_error: None,
        }
    }

    /// Whether the sums have room for what a search took.
    pub open spec fn has_room_for(self, result: KnowledgeSearchResultModel) -> bool {
        match result.report {
            Ok(report) => {
                &&& self.embedding_calls + report.embedding_calls <= u64::MAX
                &&& self.embedding_prompt_tokens + report.prompt_tokens <= u64::MAX
                &&& self.embedding_total_tokens + report.total_tokens <= u64::MAX
                &&& self.embedding_ms + report.embedding_ms <= u64::MAX
                &&& self.search_ms + report.search_ms <= u64::MAX
            },
            Err(_) => true,
        }
    }

    /// The pipeline after the outcome of a search. One for an earlier question
    /// changes nothing.
    pub open spec fn accepted(self, result: KnowledgeSearchResultModel) -> PipelineModel {
        if result.turn_id != self.turn_id {
            self
        } else {
            match result.report {
                Ok(report) => PipelineModel {
                    embedding_calls: (self.embedding_calls + report.embedding_calls) as u64,
                    embedding_prompt_tokens: (self.embedding_prompt_tokens
                        + report.prompt_tokens) as u64,
                    embedding_total_tokens: (self.embedding_total_tokens
                        + report.total_tokens) as u64,
                    embedding_ms: (self.embedding_ms + report.embedding_ms) as u64,
                    search_ms: (self.search_ms + report.search_ms) as u64,
                    accumulated: with_hits(self.accumulated, report.hits, self.limits.min_score),
                    completed: self.completed.push(
                        CompletedModel {
                            search_id: result.search_id,
                            ids: hit_ids(report.hits, self.limits.min_score),
                        },
                    ),
                    ..self
                },
                Err(error) => PipelineModel { last_error: Some(error), ..self },
            }
        }
    }

    /// The next search, for a question.
    pub open spec fn next_request(self, query: Seq<char>) -> KnowledgeSearchRequestModel {
        KnowledgeSearchRequestModel {
            search_id: self.next_search_id,
            turn_id: self.turn_id,
            query,
            top_k: self.limits.top_k,
        }
    }

    /// The pipeline that has given a search away.
    pub open spec fn numbered(self) -> PipelineModel {
        PipelineModel { next_search_id: (self.next_search_id + 1) as u64, ..self }
    }

    /// Whether the last search was sent too short a time ago for another one.
    pub open spec fn too_soon(self, now_ns: u128) -> bool {
        match self.last_dispatch_ns {
            Some(at) => {
                let elapsed = if now_ns >= at {
                    now_ns - at
                } else {
                    0
                };
                elapsed < self.limits.refresh_ms * 1_000_000
            },
            None => false,
        }
    }

    /// The wording to look up ahead of time, if any.
    pub open spec fn prefetch_query(self, query: Seq<char>, force: bool, now_ns: u128) -> Option<
        Seq<char>,
    > {
        let wording = trim(query);
        if wording.len() == 0 || wording == self.last_query || (!force && self.too_soon(now_ns)) {
            None
        } else {
            Some(wording)
        }
    }

    /// The pipeline once a search was sent, or could not be.
    pub open spec fn sent(
        self,
        request: KnowledgeSearchRequestModel,
        delivered: bool,
        now_ns: u128,
    ) -> PipelineModel {
        if delivered {
            PipelineModel {
                searches: (self.searches + 1) as u64,
                last_dispatch_ns: Some(now_ns),
                last_query: request.query,
                last_search_id: Some(request.search_id),
                ..self
            }
        } else {
            PipelineModel {
                last_error: Some("knowledge worker request channel closed"@),
                ..self
            }
        }
    }

    /// Whether a search is still to be waited for.
    pub open spec fn awaits(self, search_id: Option<u64>) -> bool {
        match search_id {
            Some(id) => completed_ids(self.completed, id) is None,
            None => false,
        }
    }

    /// What goes along with a question, or why nothing was found.
    pub open spec fn outcome(self, search_id: Option<u64>, final_wait_ms: u64) -> Result<
        KnowledgeContextModel,
        Seq<char>,
    > {
        let snippets = chosen_snippets(self, search_id);
        if snippets.len() == 0 && self.last_error is Some {
            Err(self.last_error->0)
        } else {
            Ok(
                KnowledgeContextModel {
                    snippets,
                    searches: self.searches,
                    embedding_calls: self.embedding_calls,
                    embedding_prompt_tokens: self.embedding_prompt_tokens,
                    embedding_total_tokens: self.embedding_total_tokens,
                    embedding_ms: self.embedding_ms,
                    search_ms: self.search_ms,
                    final_wait_ms,
                },
            )
        }
    }
}

proof fn snippet_position_is_first(snippets: Seq<KnowledgeSnippetModel>, id: Seq<char>)
    ensures
        0 <= snippet_position(snippets, id) <= snippets.len(),
        snippet_position(snippets, id) < snippets.len() ==> snippets[snippet_position(
            snippets,
            id,
        )].id == id,
        forall|k: int|
            0 <= k < snippet_position(snippets, id) ==> (#[trigger] snippets[k]).id != id,
    decreases snippets.len(),
{
    if snippets.len() > 0 && snippets[0].id != id {
        let rest = snippets.drop_first();
        snippet_position_is_first(rest, id);
        assert forall|k: int| 0 <= k < snippet_position(snippets, id) implies (
        #[trigger] snippets[k]).id != id by {
            if k > 0 {
                assert(snippets[k] == rest[k - 1]);
            }
        }
    }
}

fn find_snippet(snippets: &Vec<KnowledgeSnippet>, id: &str) -> (r: usize)
    ensures
        r == snippet_position(snippet_models(snippets@), id@),
        r <= snippets@.len(),
{
    let ghost all = snippet_models(snippets@);
    proof {
        snippet_position_is_first(all, id@);
    }
    let mut i: usize = 0;
    while i < snippets.len()
        invariant
            all == snippet_models(snippets@),
            i <= snippets@.len(),
            i <= snippet_position(all, id@) <= all.len(),
            snippet_position(all, id@) < all.len() ==> all[snippet_position(all, id@)].id == id@,
            forall|k: int|
                0 <= k < snippet_position(all, id@) ==> (#[trigger] all[k]).id != id@,
        decreases snippets@.len() - i,
    {
        assert(all[i as int].id == snippets@[i as int].id@);
        if same_text(snippets[i].id.as_str(), id) {
            return i;
        }
        i += 1;
    }
    i
}

fn add_snippet(snippets: &mut Vec<KnowledgeSnippet>, snippet: KnowledgeSnippet)
    ensures
        snippet_models(final(snippets)@) == with_snippet(
            snippet_models(old(snippets)@),
            snippet@,
        ),
{
    let ghost before = snippet_models(snippets@);
    let ghost model = snippet@;
    let at: usize = find_snippet(snippets, snippet.id.as_str());
    if at < snippets.len() {
        if snippet.score.exceeds(snippets[at].score) {
            snippets.set(at, snippet);
            assert(snippet_models(snippets@) =~= before.update(at as int, model));
        }
    } else {
        snippets.push(snippet);
        assert(snippet_models(snippets@) =~= before.push(model));
    }
}

fn has_id(ids: &Vec<String>, id: &str) -> (r: bool)
    ensures
        r == views(ids@).contains(id@),
{
    let ghost all = views(ids@);
    let mut i: usize = 0;
    while i < ids.len()
        invariant
            all == views(ids@),
            i <= ids@.len(),
            forall|k: int| 0 <= k < i ==> #[trigger] all[k] != id@,
        decreases ids@.len() - i,
    {
        assert(all[i as int] == ids@[i as int]@);
        if same_text(ids[i].as_str(), id) {
            return true;
        }
        i += 1;
    }
    false
}

fn add_strict(ids: Vec<String>, snippets: &Vec<KnowledgeSnippet>, strict_score: Single) -> (r: Vec<
    String,
>)
    ensures
        views(r@) == with_strict(
            views(ids@),
            snippet_models(snippets@),
            ranked(score_ranks(snippet_models(snippets@))),
            strict_score,
        ),
{
    let ghost all = snippet_models(snippets@);
    let mut keys: Vec<i64> = Vec::new();
    let mut i: usize = 0;
    while i < snippets.len()
        invariant
            all == snippet_models(snippets@),
            i <= snippets@.len(),
            keys@ == score_ranks(all).take(i as int),
        decreases snippets@.len() - i,
    {
        let key: i64 = snippets[i].score.total_rank_of();
        keys.push(key);
        assert(all[i as int].score == snippets@[i as int].score);
        i += 1;
        assert(keys@ =~= score_ranks(all).take(i as int));
    }
    assert(keys@ =~= score_ranks(all));
    let order = rank(&keys);
    let ghost places = positions(order@);
    let ghost start = views(ids@);
    let mut out = ids;
    let mut k: usize = 0;
    assert(places.take(0) =~= Seq::empty());
    while k < order.len()
        invariant
            all == snippet_models(snippets@),
            places == positions(order@),
            k <= order@.len() == snippets@.len(),
            forall|i: int| 0 <= i < order@.len() ==> #[trigger] order@[i] < snippets@.len(),
            views(out@) == with_strict(start, all, places.take(k as int), strict_score),
        decreases order@.len() - k,
    {
        assert(places.take(k + 1).drop_last() =~= places.take(k as int));
        assert(places.take(k + 1).last() == order@[k as int]);
        let snippet = &snippets[order[k]];
        assert(all[order@[k as int] as int] == snippet@);
        if snippet.score.reaches(strict_score) && !has_id(&out, snippet.id.as_str()) {
            let ghost before = views(out@);
            let ghost id = snippet.id@;
            out.push(snippet.id.clone());
            assert(views(out@) =~= before.push(id));
        }
        k += 1;
    }
    assert(places.take(k as int) =~= places);
    out
}

fn pick(
    ids: &Vec<String>,
    snippets: &Vec<KnowledgeSnippet>,
    count: usize,
    room: usize,
) -> (r: Vec<KnowledgeSnippet>)
    ensures
        snippet_models(r@) == picked(
            views(ids@),
            snippet_models(snippets@),
            count as nat,
            room as nat,
        ),
{
    let ghost names = views(ids@);
    let ghost all = snippet_models(snippets@);
    let mut out: Vec<KnowledgeSnippet> = Vec::new();
    let mut left: usize = count;
    let mut space: usize = room;
    let mut i: usize = 0;
    assert(names.skip(0) =~= names);
    assert(snippet_models(out@) + picked(names, all, count as nat, room as nat) =~= picked(
        names,
        all,
        count as nat,
        room as nat,
    ));
    while i < ids.len() && left > 0 && space > 0
        invariant
            names == views(ids@),
            all == snippet_models(snippets@),
            i <= ids@.len(),
            picked(names, all, count as nat, room as nat) == snippet_models(out@) + picked(
                names.skip(i as int),
                all,
                left as nat,
                space as nat,
            ),
        decreases ids@.len() - i,
    {
        let ghost rest = names.skip(i as int);
        assert(rest[0] == ids@[i as int]@);
        assert(rest.drop_first() =~= names.skip(i + 1));
        let at: usize = find_snippet(snippets, ids[i].as_str());
        if at < snippets.len() {
            let snippet = &snippets[at];
            assert(all[at as int] == snippet@);
            let text = first_chars(snippet.text.as_str(), space);
            let used: usize = char_len(text.as_str());
            let copy = KnowledgeSnippet {
                id: snippet.id.clone(),
                source: snippet.source.clone(),
                heading: snippet.heading.clone(),
                text,
                score: snippet.score,
            };
            let ghost before = snippet_models(out@);
            let ghost model = copy@;
            out.push(copy);
            space -= used;
            left -= 1;
            assert(snippet_models(out@) =~= before.push(model));
            assert(before + (seq![model] + picked(
                names.skip(i + 1),
                all,
                left as nat,
                space as nat,
            )) =~= before.push(model) + picked(
                names.skip(i + 1),
                all,
                left as nat,
                space as nat,
            ));
        }
        i += 1;
    }
    assert(picked(names.skip(i as int), all, left as nat, space as nat) =~= Seq::empty());
    assert(snippet_models(out@) + Seq::empty() =~= snippet_models(out@));
    out
}

impl RetrievalLimits {
    /// The limits of a configuration. `strict_score` is the least score plus
    /// the margin for earlier wordings.
    pub fn of(config: &KnowledgeConfig, strict_score: Single) -> (r: Self)
        ensures
            r == (RetrievalLimits {
                top_k: config.top_k,
                max_context_chars: config.max_context_chars,
                min_score: config.min_score,
                strict_score,
                refresh_ms: config.refresh_ms,
            }),
    {
        RetrievalLimits {
            top_k: config.top_k,
            max_context_chars: config.max_context_chars,
            min_score: config.min_score,
            strict_score,
            refresh_ms: config.refresh_ms,
        }
    }
}

/// What is to be done for the final wording of a question.
#[derive(Debug)]
pub enum ResolvePlan {
    /// It was looked up already, by this search if by any.
    Known(Option<u64>),
    /// It is to be looked up.
    Search(KnowledgeSearchRequest),
}

impl RetrievalPipeline {
    /// A pipeline that has found nothing.
    pub fn new(limits: RetrievalLimits) -> (r: Self)
        ensures
            r@ == (PipelineModel {
                limits,
                turn_id: 0,
                next_search_id: 0,
                last_dispatch_ns: None,
                last_query: Seq::empty(),
                last_search_id: None,
                accumulated: Seq::empty(),
                completed: Seq::empty(),
                searches: 0,
                embedding_calls: 0,
                embedding_prompt_tokens: 0,
                embedding_total_tokens: 0,
                embedding_ms: 0,
                search_ms: 0,
                last_error: None,
            }),
    {
        let r = RetrievalPipeline {
            limits,
            turn_id: 0,
            next_search_id: 0,
            last_dispatch_ns: None,
            last_query: String::new(),
            last_search_id: None,
            accumulated: Vec::new(),
            completed: Vec::new(),
            searches: 0,
            embedding_calls: 0,
            embedding_prompt_tokens: 0,
            embedding_total_tokens: 0,
            embedding_ms: 0,
            search_ms: 0,
            last_error: None,
        };
        assert(snippet_models(r.accumulated@) =~= Seq::empty());
        assert(completed_models(r.completed@) =~= Seq::empty());
        r
    }

    /// Whether more searches and questions can be numbered and counted.
    pub fn can_go_on(&self) -> (r: bool)
        ensures
            r == (self@.turn_id < u64::MAX && self@.next_search_id < u64::MAX && self@.searches
                < u64::MAX),
    {
        self.turn_id < u64::MAX && self.next_search_id < u64::MAX && self.searches < u64::MAX
    }

    /// Whether the sums have room for what a search took.
    pub fn can_accept(&self, result: &KnowledgeSearchResult) -> (r: bool)
        ensures
            r == self@.has_room_for(result@),
    {
        match &result.report {
            Ok(report) => {
                self.embedding_calls <= u64::MAX - report.embedding_calls
                    && self.embedding_prompt_tokens <= u64::MAX - report.prompt_tokens
                    && self.embedding_total_tokens <= u64::MAX - report.total_tokens
                    && self.embedding_ms <= u64::MAX - report.embedding_ms && self.search_ms
                    <= u64::MAX - report.search_ms
            },
            Err(_) => true,
        }
    }

    /// The knowledge base did not become ready.
    pub fn initialization_failed(&mut self)
        ensures
            final(self)@ == (PipelineModel {
                last_error: Some("knowledge worker failed during initialization"@),
                ..old(self)@
            }),
    {
        self.last_error = Some("knowledge worker failed during initialization".to_owned());
    }

    /// Gives away the next search.
    fn dispatch(&mut self, query: String) -> (r: KnowledgeSearchRequest)
        requires
            old(self)@.next_search_id < u64::MAX,
        ensures
            final(self)@ == old(self)@.numbered(),
            r@ == old(self)@.next_request(query@),
    {
        let request = KnowledgeSearchRequest {
            search_id: self.next_search_id,
            turn_id: self.turn_id,
            query,
            top_k: self.limits.top_k,
        };
        self.next_search_id += 1;
        request
    }

    /// The search to send ahead of time for the question so far, if any.
    pub fn prefetch(&mut self, query: &str, force: bool, now_ns: u128) -> (r: Option<
        KnowledgeSearchRequest,
    >)
        requires
            old(self)@.next_search_id < u64::MAX,
        ensures
            match old(self)@.prefetch_query(query@, force, now_ns) {
                Some(wording) => final(self)@ == old(self)@.numbered() && r is Some && r->0@ == old(
                    self,
                )@.next_request(wording),
                None => final(self)@ == old(self)@ && r is None,
            },
    {
        let wording = trimmed(query);
        if wording.as_str().is_empty() || same_text(wording.as_str(), self.last_query.as_str()) {
            return None;
        }
        if !force {
            if let Some(at) = self.last_dispatch_ns {
                let refresh: u128 = self.limits.refresh_ms as u128 * 1_000_000;
                let elapsed: u128 = if now_ns >= at {
                    now_ns - at
                } else {
                    0
                };
                if elapsed < refresh {
                    return None;
                }
            }
        }
        Some(self.dispatch(wording))
    }

    /// A search was sent, or could not be. Returns its number if it was.
    pub fn dispatched(
        &mut self,
        request: &KnowledgeSearchRequest,
        delivered: bool,
        now_ns: u128,
    ) -> (r: Option<u64>)
        requires
            old(self)@.searches < u64::MAX,
        ensures
            final(self)@ == old(self)@.sent(request@, delivered, now_ns),
            r == if delivered {
                Some(request.search_id)
            } else {
                None
            },
    {
        if delivered {
            self.searches += 1;
            self.last_dispatch_ns = Some(now_ns);
            self.last_query = request.query.clone();
            self.last_search_id = Some(request.search_id);
            Some(request.search_id)
        } else {
            self.last_error = Some("knowledge worker request channel closed".to_owned());
            None
        }
    }

    /// Which search belongs to the final wording of the question, or the
    /// request for it where that wording was not looked up yet.
    pub fn plan_resolve(&mut self, query: &str) -> (r: ResolvePlan)
        requires
            old(self)@.next_search_id < u64::MAX,
        ensures
            match r {
                ResolvePlan::Known(search_id) => {
                    &&& trim(query@) == old(self)@.last_query
                    &&& final(self)@ == old(self)@
                    &&& search_id == old(self)@.last_search_id
                },
                ResolvePlan::Search(request) => {
                    &&& trim(query@) != old(self)@.last_query
                    &&& final(self)@ == old(self)@.numbered()
                    &&& request@ == old(self)@.next_request(trim(query@))
                },
            },
    {
        let wording = trimmed(query);
        if same_text(wording.as_str(), self.last_query.as_str()) {
            ResolvePlan::Known(self.last_search_id)
        } else {
            ResolvePlan::Search(self.dispatch(wording))
        }
    }

    fn find_completed(&self, search_id: u64) -> (r: Option<usize>)
        ensures
            match r {
                Some(at) => at < self.completed@.len() && completed_ids(
                    self@.completed,
                    search_id,
                ) == Some(views(self.completed@[at as int].ids@)),
                None => completed_ids(self@.completed, search_id) is None,
            },
    {
        let ghost all = completed_models(self.completed@);
        let mut n: usize = self.completed.len();
        assert(all.take(n as int) =~= all);
        while n > 0
            invariant
                all == completed_models(self.completed@),
                n <= self.completed@.len(),
                completed_ids(all, search_id) == completed_ids(all.take(n as int), search_id),
            decreases n,
        {
            assert(all.take(n as int).last() == all[n - 1]);
            assert(all.take(n as int).drop_last() =~= all.take(n - 1));
            if self.completed[n - 1].search_id == search_id {
                return Some(n - 1);
            }
            n -= 1;
        }
        None
    }

    /// Whether a search is still to be waited for.
    pub fn must_wait(&self, search_id: Option<u64>) -> (r: bool)
        ensures
            r == self@.awaits(search_id),
    {
        match search_id {
            Some(id) => self.find_completed(id).is_none(),
            None => false,
        }
    }

    /// Whether an outcome ends the wait for a search: its own does, be it a
    /// failure.
    pub fn ends_wait(&self, search_id: Option<u64>, result: &KnowledgeSearchResult) -> (r: bool)
        ensures
            r == (search_id == Some(result@.search_id)),
    {
        match search_id {
            Some(id) => id == result.search_id,
            None => false,
        }
    }

    /// Takes in the outcome of a search.
    pub fn accept_result(&mut self, result: KnowledgeSearchResult)
        requires
            old(self)@.has_room_for(result@),
        ensures
            final(self)@ == old(self)@.accepted(result@),
    {
        if result.turn_id != self.turn_id {
            return;
        }
        match result.report {
            Ok(report) => {
                self.embedding_calls += report.embedding_calls;
                self.embedding_prompt_tokens += report.prompt_tokens;
                self.embedding_total_tokens += report.total_tokens;
                self.embedding_ms += report.embedding_ms;
                self.search_ms += report.search_ms;
                let ids = self.take_hits(&report.hits);
                let ghost before = completed_models(self.completed@);
                let done = Completed { search_id: result.search_id, ids };
                let ghost model = CompletedModel {
                    search_id: done.search_id,
                    ids: views(done.ids@),
                };
                self.completed.push(done);
                assert(completed_models(self.completed@) =~= before.push(model));
            },
            Err(error) => {
                self.last_error = Some(error);
            },
        }
    }

    /// Keeps the hits of the least score and returns their names.
    fn take_hits(&mut self, hits: &Vec<SearchHit>) -> (r: Vec<String>)
        ensures
            views(r@) == hit_ids(hit_models(hits@), old(self)@.limits.min_score),
            final(self)@ == (PipelineModel {
                accumulated: with_hits(
                    old(self)@.accumulated,
                    hit_models(hits@),
                    old(self)@.limits.min_score,
                ),
                ..old(self)@
            }),
    {
        let ghost all = hit_models(hits@);
        let ghost start = self@;
        let mut ids: Vec<String> = Vec::new();
        let mut i: usize = 0;
        assert(all.take(0) =~= Seq::empty());
        assert(views(ids@) =~= Seq::empty());
        while i < hits.len()
            invariant
                all == hit_models(hits@),
                i <= hits@.len(),
                views(ids@) == hit_ids(all.take(i as int), start.limits.min_score),
                self@ == (PipelineModel {
                    accumulated: with_hits(
                        start.accumulated,
                        all.take(i as int),
                        start.limits.min_score,
                    ),
                    ..start
                }),
            decreases hits@.len() - i,
        {
            assert(all.take(i + 1).drop_last() =~= all.take(i as int));
            assert(all.take(i + 1).last() == hits@[i as int]@);
            let hit = &hits[i];
            if hit.combined_score.reaches(self.limits.min_score) {
                let ghost before = views(ids@);
                let ghost id = hit.id@;
                ids.push(hit.id.clone());
                assert(views(ids@) =~= before.push(id));
                add_snippet(
                    &mut self.accumulated,
                    KnowledgeSnippet {
                        id: hit.id.clone(),
                        source: hit.source.clone(),
                        heading: hit.heading.clone(),
                        text: hit.text.clone(),
                        score: hit.combined_score,
                    },
                );
            }
            i += 1;
        }
        assert(all.take(i as int) =~= all);
        ids
    }

    /// The knowledge base does not answer any more.
    pub fn worker_stopped(&mut self)
        ensures
            final(self)@ == if old(self)@.last_error is Some {
                old(self)@
            } else {
                PipelineModel { last_error: Some("knowledge worker stopped"@), ..old(self)@ }
            },
    {
        if self.last_error.is_none() {
            self.last_error = Some("knowledge worker stopped".to_owned());
        }
    }

    /// What goes along with the question, once the search for its final
    /// wording was waited for. A failure is told once.
    pub fn resolve(&mut self, search_id: Option<u64>, final_wait_ms: u64) -> (r: Result<
        KnowledgeContext,
        String,
    >)
        ensures
            match r {
                Ok(context) => old(self)@.outcome(search_id, final_wait_ms) == Ok::<
                    KnowledgeContextModel,
                    Seq<char>,
                >(context@) && final(self)@ == old(self)@,
                Err(error) => old(self)@.outcome(search_id, final_wait_ms) == Err::<
                    KnowledgeContextModel,
                    Seq<char>,
                >(error@) && final(self)@ == (PipelineModel { last_error: None, ..old(self)@ }),
            },
    {
        let mut found: Vec<String> = Vec::new();
        assert(views(found@) =~= Seq::empty());
        if let Some(id) = search_id {
            if let Some(at) = self.find_completed(id) {
                found = copy_texts(&self.completed[at].ids);
            }
        }
        let ids = add_strict(found, &self.accumulated, self.limits.strict_score);
        let snippets = pick(
            &ids,
            &self.accumulated,
            self.limits.top_k,
            self.limits.max_context_chars,
        );
        if snippets.len() == 0 {
            if let Some(error) = self.last_error.take() {
                return Err(error);
            }
        }
        let context = KnowledgeContext {
            snippets,
            searches: self.searches,
            embedding_calls: self.embedding_calls,
            embedding_prompt_tokens: self.embedding_prompt_tokens,
            embedding_total_tokens: self.embedding_total_tokens,
            embedding_ms: self.embedding_ms,
            search_ms: self.search_ms,
            final_wait_ms,
        };
        Ok(context)
    }

    /// Turns to the next question.
    pub fn reset(&mut self)
        requires
            old(self)@.turn_id < u64::MAX,
        ensures
            final(self)@ == old(self)@.renewed(),
    {
        self.turn_id += 1;
        self.last_dispatch_ns = None;
        self.last_query = String::new();
        self.last_search_id = None;
        self.accumulated = Vec::new();
        self.completed = Vec::new();
        self.searches = 0;
        self.embedding_calls = 0;
        self.embedding_prompt_tokens = 0;
        self.embedding_total_tokens = 0;
        self.embedding_ms = 0;
        self.search_ms = 0;
        self.last_error = None;
        assert(snippet_models(self.accumulated@) =~= Seq::empty());
        assert(completed_models(self.completed@) =~= Seq::empty());
    }
}

/// The number of characters of all passages.
pub open spec fn total_chars(snippets: Seq<KnowledgeSnippetModel>) -> nat
    decreases snippets.len(),
{
    if snippets.len() == 0 {
        0
    } else {
        snippets[0].text.len() + total_chars(snippets.drop_first())
    }
}

proof fn picked_is_bounded(
    ids: Seq<Seq<char>>,
    snippets: Seq<KnowledgeSnippetModel>,
    count: nat,
    room: nat,
)
    ensures
        picked(ids, snippets, count, room).len() <= count,
        total_chars(picked(ids, snippets, count, room)) <= room,
    decreases ids.len(),
{
    if ids.len() > 0 && count > 0 && room > 0 {
        let at = snippet_position(snippets, ids[0]);
        if at < snippets.len() {
            let text = first(snippets[at].text, room);
            let rest = picked(
                ids.drop_first(),
                snippets,
                (count - 1) as nat,
                (room - text.len()) as nat,
            );
            picked_is_bounded(
                ids.drop_first(),
                snippets,
                (count - 1) as nat,
                (room - text.len()) as nat,
            );
            assert(picked(ids, snippets, count, room).drop_first() =~= rest);
        } else {
            picked_is_bounded(ids.drop_first(), snippets, count, room);
        }
    }
}

/// A question is given at most the set number of passages, and they have at
/// most the set number of characters.
pub proof fn context_stays_within_limits(p: PipelineModel, search_id: Option<u64>)
    ensures
        chosen_snippets(p, search_id).len() <= p.limits.top_k,
        total_chars(chosen_snippets(p, search_id)) <= p.limits.max_context_chars,
{
    picked_is_bounded(
        wanted_ids(p, search_id),
        p.accumulated,
        p.limits.top_k as nat,
        p.limits.max_context_chars as nat,
    );
}

/// What a search found for another question is thrown away, and so is what
/// comes for this one after the next has begun.
pub proof fn stale_results_are_discarded(p: PipelineModel, result: KnowledgeSearchResultModel)
    ensures
        result.turn_id != p.turn_id ==> p.accepted(result) == p,
        result.turn_id == p.turn_id && p.turn_id < u64::MAX ==> p.renewed().accepted(result)
            == p.renewed(),
{
}

/// Whether all passages were found once and have the least score.
pub open spec fn well_gathered(p: PipelineModel) -> bool {
    &&& forall|i: int|
        0 <= i < p.accumulated.len() ==> (#[trigger] p.accumulated[i]).score.at_least(
            p.limits.min_score,
        )
    &&& forall|i: int, j: int|
        0 <= i < j < p.accumulated.len() ==> (#[trigger] p.accumulated[i]).id != (
        #[trigger] p.accumulated[j]).id
}

proof fn hits_gather_well(
    snippets: Seq<KnowledgeSnippetModel>,
    hits: Seq<SearchHitModel>,
    min_score: Single,
)
    requires
        forall|i: int|
            0 <= i < snippets.len() ==> (#[trigger] snippets[i]).score.at_least(min_score),
        forall|i: int, j: int|
            0 <= i < j < snippets.len() ==> (#[trigger] snippets[i]).id != (
            #[trigger] snippets[j]).id,
    ensures
        ({
            let all = with_hits(snippets, hits, min_score);
            &&& forall|i: int|
                0 <= i < all.len() ==> (#[trigger] all[i]).score.at_least(min_score)
            &&& forall|i: int, j: int|
                0 <= i < j < all.len() ==> (#[trigger] all[i]).id != (#[trigger] all[j]).id
        }),
    decreases hits.len(),
{
    if hits.len() > 0 {
        hits_gather_well(snippets, hits.drop_last(), min_score);
        let before = with_hits(snippets, hits.drop_last(), min_score);
        snippet_position_is_first(before, hit_snippet(hits.last()).id);
    }
}

/// Whatever comes in, each passage is kept once and has the least score.
pub proof fn gathering_keeps_its_rule(p: PipelineModel, result: KnowledgeSearchResultModel)
    requires
        well_gathered(p),
    ensures
        well_gathered(p.accepted(result)),
        well_gathered(p.renewed()),
{
    if let Ok(report) = result.report {
        hits_gather_well(p.accumulated, report.hits, p.limits.min_score);
    }
}

proof fn strict_names_follow(
    ids: Seq<Seq<char>>,
    snippets: Seq<KnowledgeSnippetModel>,
    order: Seq<int>,
    strict_score: Single,
)
    requires
        forall|k: int| 0 <= k < order.len() ==> 0 <= #[trigger] order[k] < snippets.len(),
    ensures
        ({
            let all = with_strict(ids, snippets, order, strict_score);
            &&& all.len() >= ids.len()
            &&& all.take(ids.len() as int) == ids
            &&& forall|i: int|
                ids.len() <= i < all.len() ==> exists|k: int|
                    0 <= k < snippets.len() && (#[trigger] snippets[k]).id == (#[trigger] all[i])
                        && snippets[k].score.at_least(strict_score)
        }),
    decreases order.len(),
{
    let all = with_strict(ids, snippets, order, strict_score);
    if order.len() == 0 {
        assert(all.take(ids.len() as int) =~= ids);
    } else {
        strict_names_follow(ids, snippets, order.drop_last(), strict_score);
        let before = with_strict(ids, snippets, order.drop_last(), strict_score);
        assert(all.take(ids.len() as int) =~= before.take(ids.len() as int));
        assert forall|i: int| ids.len() <= i < all.len() implies exists|k: int|
            0 <= k < snippets.len() && (#[trigger] snippets[k]).id == (#[trigger] all[i])
                && snippets[k].score.at_least(strict_score) by {
            if i < before.len() {
                assert(all[i] == before[i]);
            } else {
                assert(snippets[order.last()].id == all[i]);
            }
        }
    }
}

/// What the final wording found comes first, and whatever follows it has the
/// strict score.
pub proof fn earlier_wordings_need_the_strict_score(p: PipelineModel, search_id: u64)
    ensures
        ({
            let found = match completed_ids(p.completed, search_id) {
                Some(ids) => ids,
                None => Seq::empty(),
            };
            let ids = wanted_ids(p, Some(search_id));
            &&& ids.len() >= found.len()
            &&& ids.take(found.len() as int) == found
            &&& forall|i: int|
                found.len() <= i < ids.len() ==> exists|k: int|
                    0 <= k < p.accumulated.len() && (#[trigger] p.accumulated[k]).id == (
                    #[trigger] ids[i]) && p.accumulated[k].score.at_least(p.limits.strict_score)
        }),
{
    let keys = score_ranks(p.accumulated);
    ranked_is_a_stable_order(keys);
    let found = match completed_ids(p.completed, search_id) {
        Some(ids) => ids,
        None => Seq::empty(),
    };
    strict_names_follow(found, p.accumulated, ranked(keys), p.limits.strict_score);
}

/// Once sent, the same wording is not looked up a second time.
pub proof fn a_wording_is_looked_up_once(
    p: PipelineModel,
    request: KnowledgeSearchRequestModel,
    now_ns: u128,
    force: bool,
    later_ns: u128,
)
    requires
        request.query == trim(request.query),
    ensures
        p.sent(request, true, now_ns).prefetch_query(request.query, force, later_ns) is None,
{
}

/// Unless they are forced, look-ups ahead of time are no closer together than
/// the pipeline was told.
pub proof fn look_ups_ahead_are_spaced(
    p: PipelineModel,
    request: KnowledgeSearchRequestModel,
    sent_ns: u128,
    query: Seq<char>,
    later_ns: u128,
)
    requires
        sent_ns <= later_ns,
        later_ns - sent_ns < p.limits.refresh_ms * 1_000_000,
    ensures
        p.sent(request, true, sent_ns).prefetch_query(query, false, later_ns) is None,
{
}

proof fn position_is_first(snippets: Seq<KnowledgeSnippetModel>, id: Seq<char>)
    ensures
        0 <= snippet_position(snippets, id) <= snippets.len(),
        snippet_position(snippets, id) < snippets.len() ==> snippets[snippet_position(
            snippets,
            id,
        )].id == id,
        forall|k: int|
            0 <= k < snippet_position(snippets, id) ==> (#[trigger] snippets[k]).id != id,
    decreases snippets.len(),
{
    if snippets.len() > 0 && snippets[0].id != id {
        let rest = snippets.drop_first();
        position_is_first(rest, id);
        assert forall|k: int| 0 <= k < snippet_position(snippets, id) implies (
        #[trigger] snippets[k]).id != id by {
            if k > 0 {
                assert(snippets[k] == rest[k - 1]);
            }
        }
    }
}

/// A passage is found by its name: the place is the first with the name, and
/// the end where there is none.
pub proof fn passages_are_found_by_name(snippets: Seq<KnowledgeSnippetModel>, id: Seq<char>)
    ensures
        ({
            let at = snippet_position(snippets, id);
            &&& 0 <= at <= snippets.len()
            &&& at < snippets.len() ==> snippets[at].id == id
            &&& forall|k: int| 0 <= k < at ==> (#[trigger] snippets[k]).id != id
        }),
{
    position_is_first(snippets, id);
}

/// No hit is lost that is good enough, and nothing else comes in: the passages
/// from before stay in their places, each hit is there with its best score, and
/// each passage is one from before or one of the hits.
pub proof fn good_hits_are_gathered(
    snippets: Seq<KnowledgeSnippetModel>,
    hits: Seq<SearchHitModel>,
    min_score: Single,
)
    ensures
        ({
            let all = with_hits(snippets, hits, min_score);
            &&& all.len() >= snippets.len()
            &&& forall|k: int|
                0 <= k < snippets.len() ==> (#[trigger] all[k]).id == snippets[k].id && (all[k]
                    == snippets[k] || all[k].score.above(snippets[k].score))
            &&& forall|h: int|
                0 <= h < hits.len() && (#[trigger] hits[h]).combined_score.at_least(min_score)
                    ==> exists|k: int|
                    0 <= k < all.len() && (#[trigger] all[k]).id == hits[h].id && !hits[h].combined_score.above(
                        all[k].score,
                    )
            &&& forall|k: int|
                0 <= k < all.len() && !(k < snippets.len() && all[k] == snippets[k])
                    ==> exists|h: int|
                    0 <= h < hits.len() && (#[trigger] hits[h]).combined_score.at_least(min_score)
                        && is_passage_of(#[trigger] all[k], hits[h])
        }),
    decreases hits.len(),
{
    if hits.len() > 0 {
        let shorter = hits.drop_last();
        let hit = hits.last();
        let before = with_hits(snippets, shorter, min_score);
        let all = with_hits(snippets, hits, min_score);
        good_hits_are_gathered(snippets, shorter, min_score);
        position_is_first(before, hit.id);
        let at = snippet_position(before, hit.id);
        assert forall|k: int| 0 <= k < snippets.len() implies (#[trigger] all[k]).id
            == snippets[k].id && (all[k] == snippets[k] || all[k].score.above(
            snippets[k].score,
        )) by {
            assert(before[k].id == snippets[k].id);
            if hit.combined_score.at_least(min_score) && k == at {
                assert(before[k] == snippets[k] || before[k].score.above(snippets[k].score));
            }
        }
        assert forall|h: int|
            0 <= h < hits.len() && (#[trigger] hits[h]).combined_score.at_least(
                min_score,
            ) implies exists|k: int|
            0 <= k < all.len() && (#[trigger] all[k]).id == hits[h].id
                && !hits[h].combined_score.above(all[k].score) by {
            if h < shorter.len() {
                assert(shorter[h] == hits[h]);
                let k = choose|k: int|
                    0 <= k < before.len() && (#[trigger] before[k]).id == shorter[h].id
                        && !shorter[h].combined_score.above(before[k].score);
                assert(all[k].id == hits[h].id);
                assert(!hits[h].combined_score.above(all[k].score));
            } else {
                assert(hits[h] == hit);
                if at < before.len() {
                    assert(all[at].id == hit.id);
                } else {
                    assert(all[before.len() as int].id == hit.id);
                }
            }
        }
        assert forall|k: int|
            0 <= k < all.len() && !(k < snippets.len() && all[k] == snippets[k]) implies exists|
            h: int,
        |
            0 <= h < hits.len() && (#[trigger] hits[h]).combined_score.at_least(min_score)
                && is_passage_of(#[trigger] all[k], hits[h]) by {
            if k < before.len() && all[k] == before[k] {
                let h = choose|h: int|
                    0 <= h < shorter.len() && (#[trigger] shorter[h]).combined_score.at_least(
                        min_score,
                    ) && is_passage_of(before[k], shorter[h]);
                assert(hits[h] == shorter[h]);
            } else {
                assert(hits[hits.len() - 1] == hit);
                assert(is_passage_of(all[k], hits[hits.len() - 1]));
            }
        }
    }
}

/// Whether a passage is what a hit found.
pub open spec fn is_passage_of(snippet: KnowledgeSnippetModel, hit: SearchHitModel) -> bool {
    &&& snippet.id == hit.id
    &&& snippet.source == hit.source
    &&& snippet.heading == hit.heading
    &&& snippet.text == hit.text
    &&& snippet.score == hit.combined_score
}

/// The names of hits are those of all that are good enough, in order.
pub proof fn names_of_good_hits(hits: Seq<SearchHitModel>, min_score: Single)
    ensures
        hit_ids(hits, min_score) == hits.filter(
            |hit: SearchHitModel| hit.combined_score.at_least(min_score),
        ).map_values(|hit: SearchHitModel| hit.id),
    decreases hits.len(),
{
    reveal(Seq::filter);
    let good = |hit: SearchHitModel| hit.combined_score.at_least(min_score);
    let name = |hit: SearchHitModel| hit.id;
    if hits.len() > 0 {
        names_of_good_hits(hits.drop_last(), min_score);
        let before = hits.drop_last().filter(good);
        assert(before.push(hits.last()).map_values(name) =~= before.map_values(name).push(
            hits.last().id,
        ));
    }
    assert(hit_ids(hits, min_score) =~= hits.filter(good).map_values(name));
}

/// A result counts for its own search and no other, and only for the question
/// it was made for; a failure is remembered and changes nothing else.
pub proof fn results_count_for_their_search(
    p: PipelineModel,
    result: KnowledgeSearchResultModel,
    other: u64,
)
    requires
        result.turn_id == p.turn_id,
        p.has_room_for(result),
    ensures
        ({
            let q = p.accepted(result);
            &&& result.report matches Ok(report) ==> {
                &&& completed_ids(q.completed, result.search_id) == Some(
                    hit_ids(report.hits, p.limits.min_score),
                )
                &&& !q.awaits(Some(result.search_id))
                &&& other != result.search_id ==> completed_ids(q.completed, other)
                    == completed_ids(p.completed, other)
                &&& q.accumulated == with_hits(p.accumulated, report.hits, p.limits.min_score)
                &&& q.embedding_calls == p.embedding_calls + report.embedding_calls
                &&& q.embedding_prompt_tokens == p.embedding_prompt_tokens + report.prompt_tokens
                &&& q.embedding_total_tokens == p.embedding_total_tokens + report.total_tokens
                &&& q.embedding_ms == p.embedding_ms + report.embedding_ms
                &&& q.search_ms == p.search_ms + report.search_ms
                &&& q.last_error == p.last_error
            }
            &&& result.report matches Err(error) ==> q == (PipelineModel {
                last_error: Some(error),
                ..p
            })
            &&& q.turn_id == p.turn_id
            &&& q.limits == p.limits
            &&& q.searches == p.searches
            &&& q.last_query == p.last_query
            &&& q.last_search_id == p.last_search_id
            &&& q.next_search_id == p.next_search_id
            &&& q.last_dispatch_ns == p.last_dispatch_ns
        }),
        !p.awaits(None),
{
    if let Ok(report) = result.report {
        let q = p.accepted(result);
        assert(q.completed.drop_last() =~= p.completed);
    }
}

proof fn strict_names(
    ids: Seq<Seq<char>>,
    snippets: Seq<KnowledgeSnippetModel>,
    order: Seq<int>,
    strict_score: Single,
)
    ensures
        ({
            let all = with_strict(ids, snippets, order, strict_score);
            &&& all.len() >= ids.len()
            &&& all.take(ids.len() as int) == ids
            &&& forall|k: int|
                0 <= k < order.len() && snippets[#[trigger] order[k]].score.at_least(strict_score)
                    ==> all.contains(snippets[order[k]].id)
            &&& forall|i: int, j: int|
                0 <= i < j < all.len() && ids.len() <= j ==> #[trigger] all[i] != #[trigger] all[j]
            &&& forall|j: int|
                ids.len() <= j < all.len() ==> exists|l: int|
                    0 <= l < order.len() && snippets[#[trigger] order[l]].id == #[trigger] all[j]
                        && snippets[order[l]].score.at_least(strict_score)
            &&& forall|i: int, j: int|
                ids.len() <= i < j < all.len() ==> exists|k: int, l: int|
                    0 <= k < l < order.len() && snippets[#[trigger] order[k]].id
                        == #[trigger] all[i] && snippets[#[trigger] order[l]].id
                        == #[trigger] all[j]
        }),
    decreases order.len(),
{
    let all = with_strict(ids, snippets, order, strict_score);
    if order.len() == 0 {
        assert(all.take(ids.len() as int) =~= ids);
    } else {
        let shorter = order.drop_last();
        let before = with_strict(ids, snippets, shorter, strict_score);
        strict_names(ids, snippets, shorter, strict_score);
        let last = snippets[order.last()];
        assert(all.take(ids.len() as int) =~= before.take(ids.len() as int));
        assert forall|k: int|
            0 <= k < order.len() && snippets[#[trigger] order[k]].score.at_least(
                strict_score,
            ) implies all.contains(snippets[order[k]].id) by {
            if k < shorter.len() {
                assert(shorter[k] == order[k]);
                let i = choose|i: int| 0 <= i < before.len() && before[i] == snippets[order[k]].id;
                assert(all[i] == before[i]);
            } else if before.contains(last.id) {
                let i = choose|i: int| 0 <= i < before.len() && before[i] == last.id;
                assert(all[i] == before[i]);
            } else {
                assert(all[before.len() as int] == last.id);
            }
        }
        assert forall|i: int, j: int| 0 <= i < j < all.len() && ids.len() <= j implies
            #[trigger] all[i] != #[trigger] all[j] by {
            assert(all[i] == before[i]);
            if j < before.len() {
                assert(all[j] == before[j]);
            } else {
                assert(before.contains(before[i]));
            }
        }
        assert forall|j: int| ids.len() <= j < all.len() implies exists|l: int|
            0 <= l < order.len() && snippets[#[trigger] order[l]].id == #[trigger] all[j]
                && snippets[order[l]].score.at_least(strict_score) by {
            if j < before.len() {
                assert(all[j] == before[j]);
                let l = choose|l: int|
                    0 <= l < shorter.len() && snippets[#[trigger] shorter[l]].id == before[j]
                        && snippets[shorter[l]].score.at_least(strict_score);
                assert(order[l] == shorter[l]);
            } else {
                assert(snippets[order[order.len() - 1]].id == all[j]);
            }
        }
        assert forall|i: int, j: int| ids.len() <= i < j < all.len() implies exists|k: int, l: int|
            0 <= k < l < order.len() && snippets[#[trigger] order[k]].id == #[trigger] all[i]
                && snippets[#[trigger] order[l]].id == #[trigger] all[j] by {
            assert(all[i] == before[i]);
            if j < before.len() {
                assert(all[j] == before[j]);
                let (k, l) = choose|k: int, l: int|
                    0 <= k < l < shorter.len() && snippets[#[trigger] shorter[k]].id == before[i]
                        && snippets[#[trigger] shorter[l]].id == before[j];
                assert(order[k] == shorter[k] && order[l] == shorter[l]);
            } else {
                let k = choose|k: int|
                    0 <= k < shorter.len() && snippets[#[trigger] shorter[k]].id == before[i]
                        && snippets[shorter[k]].score.at_least(strict_score);
                assert(order[k] == shorter[k]);
                assert(snippets[order[order.len() - 1]].id == all[j]);
            }
        }
    }
}

/// What a question asks for are the passages of its own search, and behind them
/// each passage once that has the strict score, whatever it was found for.
pub proof fn good_passages_are_wanted(p: PipelineModel, search_id: u64, k: int)
    requires
        0 <= k < p.accumulated.len(),
        p.accumulated[k].score.at_least(p.limits.strict_score),
    ensures
        wanted_ids(p, Some(search_id)).contains(p.accumulated[k].id),
        wanted_ids(p, None).contains(p.accumulated[k].id),
        wanted_ids(p, None).no_duplicates(),
{
    let keys = score_ranks(p.accumulated);
    let order = ranked(keys);
    ranked_is_a_stable_order(keys);
    let at = choose|at: int| 0 <= at < order.len() && order[at] == k;
    assert(order.contains(k));
    let found = match completed_ids(p.completed, search_id) {
        Some(ids) => ids,
        None => Seq::empty(),
    };
    strict_names(found, p.accumulated, order, p.limits.strict_score);
    strict_names(Seq::empty(), p.accumulated, order, p.limits.strict_score);
    assert(p.accumulated[order[at]].id == p.accumulated[k].id);
    let all = wanted_ids(p, None);
    assert forall|i: int, j: int| 0 <= i < all.len() && 0 <= j < all.len() && i != j implies all[i]
        != all[j] by {
        if i < j {
            assert(all[i] != all[j]);
        } else {
            assert(all[j] != all[i]);
        }
    }
}

/// Passages that were not found for the wording itself come by their score, the
/// greatest first, and equal ones in the order in which they were found.
pub proof fn better_passages_come_first(p: PipelineModel, i: int, j: int)
    requires
        0 <= i < j < wanted_ids(p, None).len(),
    ensures
        exists|a: int, b: int|
            0 <= a < p.accumulated.len() && 0 <= b < p.accumulated.len() && (
            #[trigger] p.accumulated[a]).id == wanted_ids(p, None)[i] && (
            #[trigger] p.accumulated[b]).id == wanted_ids(p, None)[j] && (
            p.accumulated[a].score.total_rank() > p.accumulated[b].score.total_rank() || (
            p.accumulated[a].score.total_rank() == p.accumulated[b].score.total_rank() && a < b)),
{
    let keys = score_ranks(p.accumulated);
    let order = ranked(keys);
    ranked_is_a_stable_order(keys);
    strict_names(Seq::empty(), p.accumulated, order, p.limits.strict_score);
    let all = wanted_ids(p, None);
    let (k, l) = choose|k: int, l: int|
        0 <= k < l < order.len() && p.accumulated[#[trigger] order[k]].id == all[i]
            && p.accumulated[#[trigger] order[l]].id == all[j];
    let a = order[k];
    let b = order[l];
    assert(keys[a] > keys[b] || (keys[a] == keys[b] && a < b));
    assert(keys[a] == p.accumulated[a].score.total_rank());
    assert(keys[b] == p.accumulated[b].score.total_rank());
    assert(p.accumulated[a].id == all[i] && p.accumulated[b].id == all[j]);
}

/// Passages are handed over in the order of their names, each as it is, until
/// there are enough of them or no room is left; the last one is cut to the
/// room.
pub proof fn passages_are_handed_over_in_order(
    ids: Seq<Seq<char>>,
    snippets: Seq<KnowledgeSnippetModel>,
    count: nat,
    room: nat,
)
    requires
        forall|k: int|
            0 <= k < ids.len() ==> snippet_position(snippets, #[trigger] ids[k]) < snippets.len(),
    ensures
        ({
            let all = picked(ids, snippets, count, room);
            &&& all.len() <= ids.len()
            &&& all.len() <= count
            &&& total_chars(all) <= room
            &&& all.len() < ids.len() ==> all.len() == count || total_chars(all) == room
            &&& forall|k: int|
                0 <= k < all.len() ==> {
                    let whole = snippets[snippet_position(snippets, ids[k])];
                    &&& (#[trigger] all[k]).id == whole.id
                    &&& all[k].source == whole.source
                    &&& all[k].heading == whole.heading
                    &&& all[k].score == whole.score
                    &&& all[k].text.len() <= whole.text.len()
                    &&& all[k].text == whole.text.take(all[k].text.len() as int)
                    &&& all[k].text.len() < whole.text.len() ==> k == all.len() - 1 && total_chars(
                        all,
                    ) == room
                }
        }),
    decreases ids.len(),
{
    let all = picked(ids, snippets, count, room);
    if ids.len() > 0 && count > 0 && room > 0 {
        position_is_first(snippets, ids[0]);
        let at = snippet_position(snippets, ids[0]);
        assert(at < snippets.len());
        let snippet = KnowledgeSnippetModel {
            text: first(snippets[at].text, room),
            ..snippets[at]
        };
        let others = ids.drop_first();
        let left = (room - snippet.text.len()) as nat;
        let rest = picked(others, snippets, (count - 1) as nat, left);
        assert forall|k: int| 0 <= k < others.len() implies snippet_position(
            snippets,
            #[trigger] others[k],
        ) < snippets.len() by {
            assert(others[k] == ids[k + 1]);
        }
        passages_are_handed_over_in_order(others, snippets, (count - 1) as nat, left);
        assert(all == seq![snippet] + rest);
        assert(all.drop_first() =~= rest);
        assert(all[0] == snippet);
        assert forall|k: int| 0 <= k < all.len() implies {
            let whole = snippets[snippet_position(snippets, ids[k])];
            &&& (#[trigger] all[k]).id == whole.id
            &&& all[k].source == whole.source
            &&& all[k].heading == whole.heading
            &&& all[k].score == whole.score
            &&& all[k].text.len() <= whole.text.len()
            &&& all[k].text == whole.text.take(all[k].text.len() as int)
            &&& all[k].text.len() < whole.text.len() ==> k == all.len() - 1 && total_chars(all)
                == room
        } by {
            if k == 0 {
                let whole = snippets[at];
                assert(all[0].text =~= whole.text.take(all[0].text.len() as int));
                if all[0].text.len() < whole.text.len() {
                    assert(left == 0);
                    assert(rest.len() == 0);
                }
            } else {
                assert(all[k] == rest[k - 1]);
                assert(others[k - 1] == ids[k]);
            }
        }
    } else {
        assert(all.len() == 0);
    }
}

/// A growing question is looked up ahead exactly where it has words that were
/// not looked up last, and is either due or forced; a new question starts with
/// nothing.
pub proof fn look_ups_ahead_have_new_words(
    p: PipelineModel,
    query: Seq<char>,
    force: bool,
    now_ns: u128,
)
    ensures
        p.prefetch_query(query, force, now_ns) is Some <==> trim(query).len() > 0 && trim(query)
            != p.last_query && (force || p.last_dispatch_ns is None || p.last_dispatch_ns->0
            + p.limits.refresh_ms * 1_000_000 <= now_ns || p.limits.refresh_ms == 0),
        p.prefetch_query(query, force, now_ns) matches Some(wording) ==> wording == trim(query),
        p.turn_id < u64::MAX ==> p.renewed().turn_id == p.turn_id + 1,
        p.renewed().limits == p.limits,
        p.renewed().next_search_id == p.next_search_id,
        p.renewed().accumulated.len() == 0,
        p.renewed().completed.len() == 0,
        p.renewed().last_error is None,
        p.renewed().last_query.len() == 0,
        p.renewed().last_search_id is None,
        p.renewed().last_dispatch_ns is None,
        p.renewed().searches == 0,
        p.renewed().embedding_calls == 0,
        p.renewed().embedding_prompt_tokens == 0,
        p.renewed().embedding_total_tokens == 0,
        p.renewed().embedding_ms == 0,
        p.renewed().search_ms == 0,
{
}

/// A search that was delivered is the last one and counts; one that was not is
/// a failure and changes nothing else.
pub proof fn delivered_searches_count(
    p: PipelineModel,
    request: KnowledgeSearchRequestModel,
    now_ns: u128,
)
    ensures
        ({
            let q = p.sent(request, true, now_ns);
            &&& p.searches < u64::MAX ==> q.searches == p.searches + 1
            &&& q.last_dispatch_ns == Some(now_ns)
            &&& q.last_query == request.query
            &&& q.last_search_id == Some(request.search_id)
            &&& q.last_error == p.last_error
            &&& q.accumulated == p.accumulated
            &&& q.completed == p.completed
            &&& q.turn_id == p.turn_id
        }),
        p.sent(request, false, now_ns) == (PipelineModel {
            last_error: Some("knowledge worker request channel closed"@),
            ..p
        }),
        p.next_request(request.query).search_id == p.next_search_id,
        p.next_request(request.query).turn_id == p.turn_id,
        p.next_request(request.query).query == request.query,
        p.next_request(request.query).top_k == p.limits.top_k,
        p.next_search_id < u64::MAX ==> p.numbered().next_search_id == p.next_search_id + 1,
{
}

/// A question fails only where it has a failure and nothing was found; else it
/// is answered with what was chosen and what it took.
pub proof fn passages_outweigh_failures(
    p: PipelineModel,
    search_id: Option<u64>,
    final_wait_ms: u64,
)
    ensures
        p.outcome(search_id, final_wait_ms) is Err <==> p.last_error is Some && chosen_snippets(
            p,
            search_id,
        ).len() == 0,
        p.outcome(search_id, final_wait_ms) matches Err(error) ==> p.last_error == Some(error),
        p.outcome(search_id, final_wait_ms) matches Ok(context) ==> {
            &&& context.snippets == chosen_snippets(p, search_id)
            &&& context.searches == p.searches
            &&& context.embedding_calls == p.embedding_calls
            &&& context.embedding_prompt_tokens == p.embedding_prompt_tokens
            &&& context.embedding_total_tokens == p.embedding_total_tokens
            &&& context.embedding_ms == p.embedding_ms
            &&& context.search_ms == p.search_ms
            &&& context.final_wait_ms == final_wait_ms
        },
{
}

} // verus!
