//! How texts are turned into vectors by a service: what is sent, when it is
//! tried again, and whether the answer can be used.
use vstd::prelude::*;

use crate::config::assistant::{EmbeddingConfig, EmbeddingConfigModel};
use crate::knowledge::types::{EmbeddingPurpose, KnowledgeError, KnowledgeErrorModel};
use crate::llm::openrouter::{truncate, truncated, MAX_ERROR_BODY_CHARS};
use crate::numbers::Single;
use crate::text::{copy_texts, decimal, decimal_text, views};
use crate::web::{endpoint, endpoint_url, UrlFault};

verus! {

/// Vectors, and what making them took.
#[derive(Debug)]
pub struct EmbeddingOutput {
    pub embeddings: Vec<Vec<Single>>,
    pub prompt_tokens: u64,
    pub total_tokens: u64,
}

/// A vector with the number of the text that it belongs to.
#[derive(Debug)]
pub struct EmbeddingData {
    pub index: usize,
    pub embedding: Vec<Single>,
}

/// What making vectors took.
#[derive(Clone, Copy, Debug, PartialEq, Eq, Structural)]
pub struct EmbeddingUsage {
    pub prompt_tokens: u64,
    pub total_tokens: u64,
}

/// What the service returns.
#[derive(Debug)]
pub struct EmbeddingResponse {
    pub data: Vec<EmbeddingData>,
    pub usage: EmbeddingUsage,
}

/// What the service is asked.
#[derive(Debug)]
pub struct EmbeddingRequest {
    pub model: String,
    pub input: Vec<String>,
    pub dimensions: usize,
    pub input_type: String,
    /// By what the service chooses among those that can answer.
    pub sort: &'static str,
}

/// The address of the service below a base address.
pub fn build_embeddings_url(base_url: &str) -> (r: Result<String, UrlFault>)
    ensures
        match r {
            Ok(url) => {
                &&& endpoint(base_url@, "/embeddings"@) == Ok::<Seq<char>, UrlFault>(url@)
                &&& !url@.contains('?')
                &&& !url@.contains('#')
            },
            Err(fault) => endpoint(base_url@, "/embeddings"@) == Err::<Seq<char>, UrlFault>(fault),
        },
{
    proof {
        reveal_strlit("/embeddings");
    }
    endpoint_url(base_url, "/embeddings")
}

/// What the service is told of the kind of texts.
pub open spec fn input_type(config: EmbeddingConfigModel, purpose: EmbeddingPurpose) -> Seq<char> {
    match purpose {
        EmbeddingPurpose::Query => config.query_input_type,
        EmbeddingPurpose::Document => config.document_input_type,
    }
}

/// What the service is told of the kind of texts.
pub fn input_type_for(config: &EmbeddingConfig, purpose: EmbeddingPurpose) -> (r: String)
    ensures
        r@ == input_type(config@, purpose),
{
    match purpose {
        EmbeddingPurpose::Query => config.query_input_type.clone(),
        EmbeddingPurpose::Document => config.document_input_type.clone(),
    }
}

/// What the service is asked to turn texts into vectors. The fastest that can
/// answer is to be chosen.
pub fn embedding_request(
    config: &EmbeddingConfig,
    inputs: &Vec<String>,
    purpose: EmbeddingPurpose,
) -> (r: EmbeddingRequest)
    ensures
        r.model@ == config@.model,
        views(r.input@) == views(inputs@),
        r.dimensions == config@.dimensions,
        r.input_type@ == input_type(config@, purpose),
        r.sort@ == "latency"@,
{
    EmbeddingRequest {
        model: config.model.clone(),
        input: copy_texts(inputs),
        dimensions: config.dimensions,
        input_type: input_type_for(config, purpose),
        sort: "latency",
    }
}

/// How often the service is asked at most.
pub open spec fn attempts(purpose: EmbeddingPurpose) -> nat {
    match purpose {
        EmbeddingPurpose::Query => 1,
        EmbeddingPurpose::Document => 3,
    }
}

/// Whether a failure may pass.
pub open spec fn transient(error: KnowledgeErrorModel) -> bool {
    match error {
        KnowledgeErrorModel::EmbeddingRequest(_) => true,
        KnowledgeErrorModel::EmbeddingHttpStatus { status, .. } => status == 429 || status >= 500,
        _ => false,
    }
}

/// Whether a failure may pass.
pub fn is_transient(error: &KnowledgeError) -> (r: bool)
    ensures
        r == transient(error@),
{
    match error {
        KnowledgeError::EmbeddingRequest(_) => true,
        KnowledgeError::EmbeddingHttpStatus { status, .. } => *status == 429 || *status >= 500,
        _ => false,
    }
}

/// The milliseconds to wait before the service is asked again, after the
/// attempt with the given number, from one, has failed; nothing where it is
/// not asked again.
pub fn retry_delay_ms(purpose: EmbeddingPurpose, attempt: u64, error: &KnowledgeError) -> (r: Option<
    u64,
>)
    ensures
        r == if attempt < attempts(purpose) && transient(error@) {
            Some((250 * attempt) as u64)
        } else {
            None
        },
{
    let most: u64 = match purpose {
        EmbeddingPurpose::Query => 1,
        EmbeddingPurpose::Document => 3,
    };
    if attempt < most && is_transient(error) {
        Some(250 * attempt)
    } else {
        None
    }
}

/// An error of the service.
#[derive(Debug)]
pub struct EmbeddingError {
    pub message: String,
}

/// A response that may hold an error.
#[derive(Debug)]
pub struct EmbeddingErrorEnvelope {
    pub error: Option<EmbeddingError>,
}

/// What the service says of an error in a response, if one was read.
pub open spec fn stated_error(envelope: Option<EmbeddingErrorEnvelope>) -> Option<Seq<char>> {
    match envelope {
        Some(EmbeddingErrorEnvelope { error: Some(error) }) => Some(error.message@),
        _ => None,
    }
}

/// What the service says of an error in a response, if one was read.
pub fn take_stated_error(envelope: Option<EmbeddingErrorEnvelope>) -> (r: Option<String>)
    ensures
        match r {
            Some(text) => stated_error(envelope) == Some(text@),
            None => stated_error(envelope) is None,
        },
{
    match envelope {
        Some(EmbeddingErrorEnvelope { error: Some(error) }) => Some(error.message),
        _ => None,
    }
}

/// Whether a response that came with success carries an error all the same.
/// `read_envelope` reads a response that may hold an error from its JSON text,
/// where it is one.
pub fn check_embedding_body<F>(body: &Vec<u8>, read_envelope: F) -> (r: Result<
    (),
    KnowledgeError,
>) where F: Fn(&Vec<u8>) -> Option<EmbeddingErrorEnvelope>
    requires
        call_requires(read_envelope, (body,)),
    ensures
        exists|envelope: Option<EmbeddingErrorEnvelope>|
            {
                &&& #[trigger] call_ensures(read_envelope, (body,), envelope)
                &&& match r {
                    Ok(_) => stated_error(envelope) is None,
                    Err(error) => stated_error(envelope) is Some && error@
                        == KnowledgeErrorModel::EmbeddingProtocol(
                        "provider returned error: "@ + stated_error(envelope)->0,
                    ),
                }
            },
{
    match take_stated_error(read_envelope(body)) {
        None => Ok(()),
        Some(text) => {
            let mut reason = "provider returned error: ".to_owned();
            reason.append(text.as_str());
            Err(KnowledgeError::EmbeddingProtocol(reason))
        },
    }
}

/// The words of an error response: what the service says, or the beginning of
/// the response where it does not say anything that can be read.
pub open spec fn status_words(stated: Option<Seq<char>>, body: Seq<char>) -> Seq<char> {
    match stated {
        Some(text) => text,
        None => truncated(body, MAX_ERROR_BODY_CHARS as nat),
    }
}

/// The error for a response with an error status. `read_envelope` reads a
/// response that may hold an error from its JSON text, where it is one.
pub fn embedding_status_error<F>(status: u16, body: &str, read_envelope: F) -> (r:
    KnowledgeError) where F: Fn(&str) -> Option<EmbeddingErrorEnvelope>
    requires
        call_requires(read_envelope, (body,)),
    ensures
        exists|envelope: Option<EmbeddingErrorEnvelope>|
            {
                &&& #[trigger] call_ensures(read_envelope, (body,), envelope)
                &&& r@ == (KnowledgeErrorModel::EmbeddingHttpStatus {
                    status,
                    message: status_words(stated_error(envelope), body@),
                })
            },
{
    let message = match take_stated_error(read_envelope(body)) {
        Some(text) => text,
        None => truncate(body, MAX_ERROR_BODY_CHARS),
    };
    KnowledgeError::EmbeddingHttpStatus { status, message }
}

/// Where a vector goes among those that are in order of their numbers: behind
/// those whose number is not greater.
pub open spec fn slot(ordered: Seq<EmbeddingData>, index: usize) -> int
    decreases ordered.len(),
{
    if ordered.len() == 0 {
        0
    } else if ordered.last().index <= index {
        ordered.len() as int
    } else {
        slot(ordered.drop_last(), index)
    }
}

/// The vectors in order of their numbers, equal ones as they came.
pub open spec fn ordered(data: Seq<EmbeddingData>) -> Seq<EmbeddingData>
    decreases data.len(),
{
    if data.len() == 0 {
        Seq::empty()
    } else {
        let before = ordered(data.drop_last());
        before.insert(slot(before, data.last().index), data.last())
    }
}

/// The vectors of data.
pub open spec fn vectors(data: Seq<EmbeddingData>) -> Seq<Seq<Single>> {
    Seq::new(data.len(), |i: int| data[i].embedding@)
}

/// Where the first vector of another length stands, or the number of vectors.
pub open spec fn misfit(vectors: Seq<Seq<Single>>, dimensions: nat) -> int
    decreases vectors.len(),
{
    if vectors.len() == 0 || vectors[0].len() != dimensions {
        0
    } else {
        1 + misfit(vectors.drop_first(), dimensions)
    }
}

/// The vectors for texts in the order of the texts, where there is one of the
/// set length for each.
pub open spec fn embeddings_for(data: Seq<EmbeddingData>, inputs: nat, dimensions: nat) -> Result<
    Seq<Seq<Single>>,
    KnowledgeErrorModel,
> {
    let all = vectors(ordered(data));
    if data.len() != inputs {
        Err(
            KnowledgeErrorModel::EmbeddingProtocol(
                "provider returned "@ + decimal(data.len()) + " vectors for "@ + decimal(inputs)
                    + " inputs"@,
            ),
        )
    } else if misfit(all, dimensions) < all.len() {
        Err(
            KnowledgeErrorModel::EmbeddingDimension {
                expected: dimensions as usize,
                actual: all[misfit(all, dimensions)].len() as usize,
            },
        )
    } else {
        Ok(all)
    }
}

proof fn slot_is_inside(ordered: Seq<EmbeddingData>, index: usize)
    ensures
        0 <= slot(ordered, index) <= ordered.len(),
        forall|k: int|
            slot(ordered, index) <= k < ordered.len() ==> (#[trigger] ordered[k]).index > index,
        slot(ordered, index) > 0 ==> ordered[slot(ordered, index) - 1].index <= index,
    decreases ordered.len(),
{
    if ordered.len() > 0 && ordered.last().index > index {
        let shorter = ordered.drop_last();
        slot_is_inside(shorter, index);
        assert forall|k: int| slot(ordered, index) <= k < ordered.len() implies (
        #[trigger] ordered[k]).index > index by {
            if k < shorter.len() {
                assert(ordered[k] == shorter[k]);
            }
        }
    }
}

/// The vectors come in order of their numbers, none is lost and none is added.
pub proof fn ordered_is_sorted(data: Seq<EmbeddingData>)
    ensures
        ordered(data).len() == data.len(),
        ordered(data).to_multiset() == data.to_multiset(),
        forall|i: int, j: int|
            0 <= i < j < ordered(data).len() ==> (#[trigger] ordered(data)[i]).index <= (
            #[trigger] ordered(data)[j]).index,
    decreases data.len(),
{
    if data.len() == 0 {
        assert(data =~= Seq::empty());
    } else {
        let shorter = data.drop_last();
        let before = ordered(shorter);
        let item = data.last();
        ordered_is_sorted(shorter);
        let at = slot(before, item.index);
        slot_is_inside(before, item.index);
        let now = ordered(data);
        assert(now == before.insert(at, item));
        before.to_multiset_ensures();
        shorter.to_multiset_ensures();
        vstd::seq_lib::to_multiset_insert(before, at, item);
        assert(data =~= shorter.push(item));
        assert forall|i: int, j: int| 0 <= i < j < now.len() implies (#[trigger] now[i]).index <= (
        #[trigger] now[j]).index by {
            if j < at {
                assert(now[i] == before[i] && now[j] == before[j]);
            } else if j == at {
                assert(now[i] == before[i]);
                if i < at - 1 {
                    assert(before[i].index <= before[at - 1].index);
                }
            } else {
                assert(now[j] == before[j - 1]);
                if i < at {
                    assert(now[i] == before[i]);
                } else if i > at {
                    assert(now[i] == before[i - 1]);
                }
            }
        }
    }
}

proof fn misfit_is_first(vectors: Seq<Seq<Single>>, dimensions: nat)
    ensures
        0 <= misfit(vectors, dimensions) <= vectors.len(),
        misfit(vectors, dimensions) < vectors.len() ==> vectors[misfit(vectors, dimensions)].len()
            != dimensions,
        forall|k: int|
            0 <= k < misfit(vectors, dimensions) ==> (#[trigger] vectors[k]).len() == dimensions,
    decreases vectors.len(),
{
    if vectors.len() > 0 && vectors[0].len() == dimensions {
        let rest = vectors.drop_first();
        misfit_is_first(rest, dimensions);
        assert forall|k: int| 0 <= k < misfit(vectors, dimensions) implies (
        #[trigger] vectors[k]).len() == dimensions by {
            if k > 0 {
                assert(vectors[k] == rest[k - 1]);
            }
        }
    }
}

fn in_order(data: Vec<EmbeddingData>) -> (r: Vec<EmbeddingData>)
    ensures
        r@ == ordered(data@),
{
    let ghost all = data@;
    let mut rest = data;
    let mut out: Vec<EmbeddingData> = Vec::new();
    let mut done: Vec<EmbeddingData> = Vec::new();
    // The items are moved over from the end, so that each can be taken from
    // its place without a copy.
    while rest.len() > 0
        invariant
            rest@.len() + done@.len() == all.len(),
            forall|k: int| 0 <= k < rest@.len() ==> #[trigger] rest@[k] == all[k],
            forall|k: int|
                0 <= k < done@.len() ==> #[trigger] done@[k] == all[all.len() - 1 - k],
        decreases rest@.len(),
    {
        if let Some(item) = rest.pop() {
            done.push(item);
        }
    }
    assert(all.take(0) =~= Seq::empty());
    while done.len() > 0
        invariant
            done@.len() <= all.len(),
            forall|k: int|
                0 <= k < done@.len() ==> #[trigger] done@[k] == all[all.len() - 1 - k],
            out@ == ordered(all.take(all.len() - done@.len())),
        decreases done@.len(),
    {
        let ghost taken = all.len() - done@.len();
        let ghost before = out@;
        if let Some(item) = done.pop() {
            assert(item == all[taken]);
            assert(all.take(taken + 1).drop_last() =~= all.take(taken));
            let mut at: usize = out.len();
            assert(before.take(at as int) =~= before);
            while at > 0 && out[at - 1].index > item.index
                invariant
                    before == out@,
                    at <= out@.len(),
                    slot(before, item.index) == slot(before.take(at as int), item.index),
                decreases at,
            {
                assert(before.take(at as int).last() == before[at - 1]);
                assert(before.take(at as int).drop_last() =~= before.take(at - 1));
                at -= 1;
            }
            proof {
                if at > 0 {
                    assert(before.take(at as int).last() == before[at - 1]);
                }
            }
            out.insert(at, item);
        }
    }
    assert(all.take(all.len() as int) =~= all);
    out
}

/// The vectors for so many texts in the order of the texts, where there is one
/// of the set length for each.
pub fn order_embeddings(data: Vec<EmbeddingData>, inputs: usize, dimensions: usize) -> (r: Result<
    Vec<Vec<Single>>,
    KnowledgeError,
>)
    ensures
        match r {
            Ok(list) => embeddings_for(data@, inputs as nat, dimensions as nat) == Ok::<
                Seq<Seq<Single>>,
                KnowledgeErrorModel,
            >(Seq::new(list@.len(), |i: int| list@[i]@)),
            Err(error) => embeddings_for(data@, inputs as nat, dimensions as nat) == Err::<
                Seq<Seq<Single>>,
                KnowledgeErrorModel,
            >(error@),
        },
{
    let ghost given = data@;
    if data.len() != inputs {
        let mut reason = "provider returned ".to_owned();
        reason.append(decimal_text(data.len() as u64).as_str());
        reason.append(" vectors for ");
        reason.append(decimal_text(inputs as u64).as_str());
        reason.append(" inputs");
        return Err(KnowledgeError::EmbeddingProtocol(reason));
    }
    let sorted = in_order(data);
    proof {
        ordered_is_sorted(given);
    }
    let ghost all = vectors(sorted@);
    proof {
        misfit_is_first(all, dimensions as nat);
    }
    let mut out: Vec<Vec<Single>> = Vec::new();
    let mut i: usize = 0;
    while i < sorted.len()
        invariant
            all == vectors(sorted@),
            i <= sorted@.len(),
            i <= misfit(all, dimensions as nat) <= all.len(),
            misfit(all, dimensions as nat) < all.len() ==> all[misfit(
                all,
                dimensions as nat,
            )].len() != dimensions,
            forall|k: int|
                0 <= k < misfit(all, dimensions as nat) ==> (#[trigger] all[k]).len() == dimensions,
            given == data@,
            given.len() == inputs,
            all == vectors(ordered(given)),
            out@.len() == i,
            forall|k: int| 0 <= k < i ==> #[trigger] out@[k]@ == all[k],
        decreases sorted@.len() - i,
    {
        let length: usize = sorted[i].embedding.len();
        assert(all[i as int].len() == length);
        if length != dimensions {
            assert(misfit(all, dimensions as nat) == i);
            return Err(
                KnowledgeError::EmbeddingDimension { expected: dimensions, actual: length },
            );
        }
        out.push(crate::knowledge::index::copy_vector(&sorted[i].embedding));
        i += 1;
    }
    assert(Seq::new(out@.len(), |i: int| out@[i]@) =~= all);
    Ok(out)
}

/// The vectors for so many texts in the order of the texts, and what making
/// them took.
pub fn embedding_output(response: EmbeddingResponse, inputs: usize, dimensions: usize) -> (r:
    Result<EmbeddingOutput, KnowledgeError>)
    ensures
        match r {
            Ok(output) => {
                &&& embeddings_for(response.data@, inputs as nat, dimensions as nat) == Ok::<
                    Seq<Seq<Single>>,
                    KnowledgeErrorModel,
                >(Seq::new(output.embeddings@.len(), |i: int| output.embeddings@[i]@))
                &&& output.prompt_tokens == response.usage.prompt_tokens
                &&& output.total_tokens == response.usage.total_tokens
            },
            Err(error) => embeddings_for(response.data@, inputs as nat, dimensions as nat) == Err::<
                Seq<Seq<Single>>,
                KnowledgeErrorModel,
            >(error@),
        },
{
    let usage = response.usage;
    match order_embeddings(response.data, inputs, dimensions) {
        Ok(embeddings) => Ok(
            EmbeddingOutput {
                embeddings,
                prompt_tokens: usage.prompt_tokens,
                total_tokens: usage.total_tokens,
            },
        ),
        Err(error) => Err(error),
    }
}

proof fn slot_parts(all: Seq<EmbeddingData>, index: usize)
    ensures
        0 <= slot(all, index) <= all.len(),
        forall|k: int| slot(all, index) <= k < all.len() ==> (#[trigger] all[k]).index > index,
    decreases all.len(),
{
    if all.len() > 0 && all.last().index > index {
        let shorter = all.drop_last();
        slot_parts(shorter, index);
        assert forall|k: int| slot(all, index) <= k < all.len() implies (#[trigger] all[k]).index
            > index by {
            if k < shorter.len() {
                assert(all[k] == shorter[k]);
            }
        }
    }
}

proof fn none_of_index(all: Seq<EmbeddingData>, index: usize)
    requires
        forall|k: int| 0 <= k < all.len() ==> (#[trigger] all[k]).index > index,
    ensures
        all.filter(|d: EmbeddingData| d.index == index).len() == 0,
    decreases all.len(),
{
    reveal(Seq::filter);
    if all.len() > 0 {
        let shorter = all.drop_last();
        assert(all[all.len() - 1].index > index);
        assert forall|k: int| 0 <= k < shorter.len() implies (#[trigger] shorter[k]).index
            > index by {
            assert(shorter[k] == all[k]);
        }
        none_of_index(shorter, index);
    }
}

/// Putting vectors in order leaves those of the same number as they came.
pub proof fn ordering_keeps_what_is_equal(data: Seq<EmbeddingData>, index: usize)
    ensures
        ordered(data).filter(|d: EmbeddingData| d.index == index) == data.filter(
            |d: EmbeddingData| d.index == index,
        ),
    decreases data.len(),
{
    let same = |d: EmbeddingData| d.index == index;
    if data.len() > 0 {
        let before = ordered(data.drop_last());
        let one = data.last();
        let at = slot(before, one.index);
        ordering_keeps_what_is_equal(data.drop_last(), index);
        slot_parts(before, one.index);
        let left = before.take(at);
        let right = before.skip(at);
        assert(before =~= left + right);
        assert(ordered(data) =~= (left + seq![one]) + right);
        Seq::filter_distributes_over_add(left, right, same);
        Seq::filter_distributes_over_add(left + seq![one], right, same);
        Seq::filter_distributes_over_add(left, seq![one], same);
        let shorter = data.drop_last();
        assert(data =~= shorter + seq![one]);
        Seq::filter_distributes_over_add(shorter, seq![one], same);
        if one.index == index {
            assert forall|k: int| 0 <= k < right.len() implies (#[trigger] right[k]).index
                > index by {
                assert(right[k] == before[at + k]);
            }
            none_of_index(right, index);
            assert(right.filter(same) =~= Seq::empty());
            assert(left.filter(same) + right.filter(same) =~= left.filter(same));
            assert(ordered(data).filter(same) =~= data.filter(same));
        } else {
            assert(seq![one].filter(same) =~= Seq::empty()) by {
                reveal_with_fuel(Seq::filter, 2);
                assert(seq![one].drop_last() =~= Seq::empty());
            }
            assert(left.filter(same) + Seq::<EmbeddingData>::empty() =~= left.filter(same));
            assert(ordered(data).filter(same) =~= data.filter(same));
        }
    } else {
        assert(ordered(data) =~= data);
    }
}

/// An answer is taken exactly where there is one vector for each input and each
/// has the length that was asked for; then the vectors come by their numbers.
pub proof fn answers_have_a_vector_for_each_input(
    data: Seq<EmbeddingData>,
    inputs: nat,
    dimensions: nat,
)
    ensures
        embeddings_for(data, inputs, dimensions) is Ok <==> data.len() == inputs && forall|k: int|
            0 <= k < ordered(data).len() ==> (#[trigger] ordered(data)[k]).embedding@.len()
                == dimensions,
        embeddings_for(data, inputs, dimensions) matches Ok(all) ==> all.len() == inputs
            && forall|k: int|
            0 <= k < all.len() ==> #[trigger] all[k] == ordered(data)[k].embedding@,
        data.len() != inputs ==> embeddings_for(data, inputs, dimensions) == Err::<
            Seq<Seq<Single>>,
            KnowledgeErrorModel,
        >(
            KnowledgeErrorModel::EmbeddingProtocol(
                "provider returned "@ + decimal(data.len()) + " vectors for "@ + decimal(inputs)
                    + " inputs"@,
            ),
        ),
        data.len() == inputs ==> (embeddings_for(data, inputs, dimensions) matches Err(error)
            ==> error is EmbeddingDimension && error->expected == dimensions as usize),
{
    ordered_is_sorted(data);
    let all = vectors(ordered(data));
    misfit_is_first(all, dimensions);
    if data.len() == inputs && misfit(all, dimensions) < all.len() {
        let k = misfit(all, dimensions);
        assert(ordered(data)[k].embedding@.len() != dimensions);
    }
    if data.len() == inputs && misfit(all, dimensions) == all.len() {
        assert forall|k: int| 0 <= k < ordered(data).len() implies (
        #[trigger] ordered(data)[k]).embedding@.len() == dimensions by {
            assert(all[k].len() == dimensions);
        }
    }
}

/// A request is made again only for documents, twice at most, and only where
/// the failure may pass: it did not go through, there were too many, or the
/// service failed.
pub proof fn only_passing_failures_are_tried_again(status: u16, message: Seq<char>)
    ensures
        attempts(EmbeddingPurpose::Query) == 1,
        attempts(EmbeddingPurpose::Document) == 3,
        transient(KnowledgeErrorModel::EmbeddingRequest(message)),
        transient(KnowledgeErrorModel::EmbeddingHttpStatus { status, message }) <==> status == 429
            || 500 <= status,
        !transient(KnowledgeErrorModel::EmbeddingProtocol(message)),
        !transient(KnowledgeErrorModel::EmbeddingClient(message)),
        !transient(KnowledgeErrorModel::EmptyQuery),
        !transient(KnowledgeErrorModel::EmbeddingDimension { expected: 0, actual: 0 }),
{
}

/// Questions and documents are told apart to the service.
pub proof fn questions_and_documents_are_told_apart(
    config: EmbeddingConfigModel,
    stated: Seq<char>,
    body: Seq<char>,
)
    ensures
        input_type(config, EmbeddingPurpose::Query) == config.query_input_type,
        input_type(config, EmbeddingPurpose::Document) == config.document_input_type,
        status_words(Some(stated), body) == stated,
        status_words(None, body) == truncated(body, MAX_ERROR_BODY_CHARS as nat),
{
}

} // verus!
