//! How an answer of the language model changes a live-coding task.
use vstd::prelude::*;

use crate::events::{LiveCodingState, LiveCodingStateModel, Speaker};
use crate::json::reading;
use crate::llm::code_diff::{
    all_edited, changed_line_numbers, changed_lines, code_edits, edits_between,
    edits_turn_old_into_new, no_edits_between_equal_versions,
};
use crate::llm::prompts::{or_else, DEFAULT_LANGUAGE};
use crate::llm::provider::{LlmError, LlmErrorModel};
use crate::text::{
    begins, chars_of, ends, ends_with, is_blank, lines, slice_text, starts_with, trim, trimmed,
    trimming_takes_off_what_is_around,
};

verus! {

/// What the model says of the task.
#[derive(Debug)]
pub struct LiveCodingResponse {
    pub summary: String,
    pub candidate_context: String,
    pub explanation: String,
    pub language: String,
    pub code_changed: bool,
    pub code: Option<String>,
    pub change_note: String,
}

/// The value of a [`LiveCodingResponse`].
#[verifier::ext_equal]
pub struct ResponseModel {
    pub summary: Seq<char>,
    pub candidate_context: Seq<char>,
    pub explanation: Seq<char>,
    pub language: Seq<char>,
    pub code_changed: bool,
    pub code: Option<Seq<char>>,
    pub change_note: Seq<char>,
}

impl View for LiveCodingResponse {
    type V = ResponseModel;

    open spec fn view(&self) -> ResponseModel {
        ResponseModel {
            summary: self.summary@,
            candidate_context: self.candidate_context@,
            explanation: self.explanation@,
            language: self.language@,
            code_changed: self.code_changed,
            code: match self.code {
                Some(code) => Some(code@),
                None => None,
            },
            change_note: self.change_note@,
        }
    }
}

/// `text` without white space around it, or `other` where nothing is left.
pub open spec fn trimmed_or(text: Seq<char>, other: Seq<char>) -> Seq<char> {
    if trim(text).len() == 0 {
        other
    } else {
        trim(text)
    }
}

/// The code after an answer, if the answer says what it is.
pub open spec fn next_code(current: LiveCodingStateModel, response: ResponseModel) -> Option<
    Seq<char>,
> {
    if response.code_changed {
        response.code
    } else {
        Some(current.code)
    }
}

/// The task after an answer to what the speaker said, or why the answer cannot
/// be used. Only the interviewer changes the summary, and only the candidate
/// the context of the candidate.
pub open spec fn updated(
    current: LiveCodingStateModel,
    speaker: Speaker,
    response: ResponseModel,
) -> Result<LiveCodingStateModel, LlmErrorModel> {
    if speaker == Speaker::Interviewer && trim(response.summary).len() == 0 {
        Err(LlmErrorModel::Protocol("live-coding summary must not be empty"@))
    } else {
        match next_code(current, response) {
            None => Err(
                LlmErrorModel::Protocol(
                    "live-coding response marked code_changed but omitted code"@,
                ),
            ),
            Some(code) => Ok(
                LiveCodingStateModel {
                    revision: (current.revision + 1) as u64,
                    summary: if speaker == Speaker::Candidate {
                        current.summary
                    } else {
                        trim(response.summary)
                    },
                    candidate_context: if speaker == Speaker::Candidate {
                        trimmed_or(response.candidate_context, current.candidate_context)
                    } else {
                        current.candidate_context
                    },
                    explanation: trimmed_or(response.explanation, current.explanation),
                    language: trimmed_or(
                        response.language,
                        or_else(current.language, DEFAULT_LANGUAGE@),
                    ),
                    code,
                    change_note: trim(response.change_note),
                    changed_lines: changed_lines(lines(current.code), lines(code)),
                    code_edits: edits_between(current.code, code),
                },
            ),
        }
    }
}

fn trim_or(text: &str, other: &str) -> (r: String)
    ensures
        r@ == trimmed_or(text@, other@),
{
    let bare = trimmed(text);
    if bare.as_str().is_empty() {
        other.to_owned()
    } else {
        bare
    }
}

/// The task after an answer to what the speaker said.
pub fn apply_response(
    current: &LiveCodingState,
    speaker: Speaker,
    response: LiveCodingResponse,
) -> (r: Result<LiveCodingState, LlmError>)
    requires
        current.revision < u64::MAX,
    ensures
        task_view(r) == updated(current@, speaker, response@),
{
    let ghost model = response@;
    let response_summary = trimmed(response.summary.as_str());
    if speaker == Speaker::Interviewer && response_summary.as_str().is_empty() {
        return Err(LlmError::Protocol("live-coding summary must not be empty".to_owned()));
    }
    let summary = match speaker {
        Speaker::Candidate => current.summary.clone(),
        Speaker::Interviewer => response_summary,
    };
    let candidate_context = match speaker {
        Speaker::Candidate => trim_or(
            response.candidate_context.as_str(),
            current.candidate_context.as_str(),
        ),
        Speaker::Interviewer => current.candidate_context.clone(),
    };
    let language = if is_blank(response.language.as_str()) {
        if current.language.as_str().is_empty() {
            DEFAULT_LANGUAGE.to_owned()
        } else {
            current.language.clone()
        }
    } else {
        trimmed(response.language.as_str())
    };
    let code = if response.code_changed {
        match response.code {
            Some(code) => code,
            None => {
                return Err(
                    LlmError::Protocol(
                        "live-coding response marked code_changed but omitted code".to_owned(),
                    ),
                );
            },
        }
    } else {
        current.code.clone()
    };
    let changed = changed_line_numbers(current.code.as_str(), code.as_str());
    let edits = code_edits(current.code.as_str(), code.as_str());
    let explanation = trim_or(response.explanation.as_str(), current.explanation.as_str());
    let change_note = trimmed(response.change_note.as_str());
    let state = LiveCodingState {
        revision: current.revision + 1,
        summary,
        candidate_context,
        explanation,
        language,
        code,
        change_note,
        changed_lines: changed,
        code_edits: edits,
    };
    assert(state@ =~= updated(current@, speaker, model)->Ok_0);
    Ok(state)
}

/// What stands behind the first line.
pub open spec fn behind_first_line(s: Seq<char>) -> Option<Seq<char>>
    decreases s.len(),
{
    if s.len() == 0 {
        None
    } else if s[0] == '\n' {
        Some(s.drop_first())
    } else {
        behind_first_line(s.drop_first())
    }
}

/// A text without the marks of a block of code around it.
pub open spec fn unfenced(response: Seq<char>) -> Seq<char> {
    let bare = trim(response);
    if !begins(bare, "```"@) {
        bare
    } else {
        let body = match behind_first_line(bare) {
            Some(rest) => rest,
            None => bare,
        };
        if ends(body, "```"@) {
            trim(body.take(body.len() - 3))
        } else {
            body
        }
    }
}

fn find_line_end(chars: &Vec<char>) -> (r: Option<usize>)
    ensures
        match r {
            Some(at) => at < chars@.len() && behind_first_line(chars@) == Some(chars@.skip(at + 1)),
            None => behind_first_line(chars@) is None,
        },
{
    let mut i: usize = 0;
    assert(chars@.skip(0) =~= chars@);
    while i < chars.len()
        invariant
            i <= chars@.len(),
            behind_first_line(chars@) == behind_first_line(chars@.skip(i as int)),
        decreases chars@.len() - i,
    {
        assert(chars@.skip(i as int).drop_first() =~= chars@.skip(i + 1));
        if chars[i] == '\n' {
            return Some(i);
        }
        i += 1;
    }
    None
}

/// The text without the marks of a block of code around it.
pub fn strip_code_fence(response: &str) -> (r: String)
    ensures
        r@ == unfenced(response@),
{
    let bare = trimmed(response);
    if !starts_with(bare.as_str(), "```") {
        return bare;
    }
    let chars = chars_of(bare.as_str());
    let body = match find_line_end(&chars) {
        Some(at) => {
            let rest = slice_text(&chars, at + 1, chars.len());
            assert(rest@ =~= chars@.skip(at + 1));
            rest
        },
        None => bare,
    };
    if ends_with(body.as_str(), "```") {
        proof {
            reveal_strlit("```");
        }
        let inner = chars_of(body.as_str());
        let cut = slice_text(&inner, 0, inner.len() - 3);
        assert(cut@ =~= body@.take(body@.len() - 3));
        trimmed(cut.as_str())
    } else {
        body
    }
}

/// The task after an answer of which `response` was read, or could not be.
pub open spec fn updated_by_reading(
    current: LiveCodingStateModel,
    speaker: Speaker,
    response: Result<ResponseModel, Seq<char>>,
) -> Result<LiveCodingStateModel, LlmErrorModel> {
    match response {
        Err(reason) => Err(LlmErrorModel::Protocol("invalid live-coding JSON: "@ + reason)),
        Ok(response) => updated(current, speaker, response),
    }
}

/// The value of a task, or of the reason why there is none.
pub open spec fn task_view(r: Result<LiveCodingState, LlmError>) -> Result<
    LiveCodingStateModel,
    LlmErrorModel,
> {
    match r {
        Ok(state) => Ok(state@),
        Err(error) => Err(error@),
    }
}

/// The task after a raw answer of the model to what the speaker said. `read`
/// reads what the model says from its JSON text, which stands in the answer
/// with or without the marks of a block of code around it, or says why the text
/// cannot be read.
pub fn parse_live_coding_response<F>(
    current: &LiveCodingState,
    speaker: Speaker,
    raw_response: &str,
    read: F,
) -> (r: Result<LiveCodingState, LlmError>) where
    F: Fn(&str) -> Result<LiveCodingResponse, String>,

    requires
        current.revision < u64::MAX,
        forall|text: &str| call_requires(read, (text,)),
    ensures
        exists|text: &str, response: Result<LiveCodingResponse, String>|
            {
                &&& text@ == unfenced(raw_response@)
                &&& #[trigger] call_ensures(read, (text,), response)
                &&& task_view(r) == updated_by_reading(current@, speaker, reading(response))
            },
{
    let payload = strip_code_fence(raw_response);
    match read(payload.as_str()) {
        Err(reason) => {
            let mut words = "invalid live-coding JSON: ".to_owned();
            words.append(reason.as_str());
            Err(LlmError::Protocol(words))
        },
        Ok(response) => apply_response(current, speaker, response),
    }
}

/// What the candidate says never changes the requirements of the task.
pub proof fn candidate_never_changes_the_summary(
    current: LiveCodingStateModel,
    response: ResponseModel,
)
    ensures
        updated(current, Speaker::Candidate, response) matches Ok(state) ==> state.summary
            == current.summary,
{
}

/// What the interviewer says never changes the context of the candidate.
pub proof fn interviewer_never_changes_the_candidate_context(
    current: LiveCodingStateModel,
    response: ResponseModel,
)
    ensures
        updated(current, Speaker::Interviewer, response) matches Ok(state)
            ==> state.candidate_context == current.candidate_context,
{
}

/// Every update has the next revision, and its edits, made on the code before,
/// give the code after.
pub proof fn updates_carry_their_edits(
    current: LiveCodingStateModel,
    speaker: Speaker,
    response: ResponseModel,
)
    requires
        current.revision < u64::MAX,
        current.code.len() <= usize::MAX,
    ensures
        updated(current, speaker, response) matches Ok(state) ==> state.revision == current.revision
            + 1 && all_edited(current.code, state.code_edits) == state.code,
{
    if let Ok(state) = updated(current, speaker, response) {
        edits_turn_old_into_new(current.code, state.code);
    }
}

/// An answer that does not change the code leaves it as it is, with nothing to
/// mark and nothing to edit.
pub proof fn unchanged_code_stays(
    current: LiveCodingStateModel,
    speaker: Speaker,
    response: ResponseModel,
)
    requires
        !response.code_changed,
        current.code.len() <= usize::MAX,
    ensures
        updated(current, speaker, response) matches Ok(state) ==> state.code == current.code
            && state.changed_lines.len() == 0 && state.code_edits.len() == 0,
{
    no_edits_between_equal_versions(current.code, current.code);
}

/// A task always has a language once it was updated.
pub proof fn updated_tasks_have_a_language(
    current: LiveCodingStateModel,
    speaker: Speaker,
    response: ResponseModel,
)
    ensures
        updated(current, speaker, response) matches Ok(state) ==> state.language.len() > 0,
{
    reveal_strlit("java");
}

/// An answer is refused exactly where the interviewer's has no summary, or
/// where it says that the code changed and has none.
pub proof fn answers_are_refused_for_two_reasons(
    current: LiveCodingStateModel,
    speaker: Speaker,
    response: ResponseModel,
)
    ensures
        updated(current, speaker, response) is Err <==> (speaker == Speaker::Interviewer && trim(
            response.summary,
        ).len() == 0) || (response.code_changed && response.code is None),
        speaker == Speaker::Interviewer && trim(response.summary).len() == 0 ==> updated(
            current,
            speaker,
            response,
        ) == Err::<LiveCodingStateModel, LlmErrorModel>(
            LlmErrorModel::Protocol("live-coding summary must not be empty"@),
        ),
        !(speaker == Speaker::Interviewer && trim(response.summary).len() == 0)
            && response.code_changed && response.code is None ==> updated(current, speaker, response)
            == Err::<LiveCodingStateModel, LlmErrorModel>(
            LlmErrorModel::Protocol("live-coding response marked code_changed but omitted code"@),
        ),
{
}

/// A task takes over each part of an answer that has something to say, without
/// white space around it, and keeps its own where the answer has nothing.
pub proof fn tasks_take_over_what_is_said(
    current: LiveCodingStateModel,
    speaker: Speaker,
    response: ResponseModel,
)
    ensures
        updated(current, speaker, response) matches Ok(state) ==> {
            &&& speaker == Speaker::Interviewer ==> state.summary == trim(response.summary)
            &&& speaker == Speaker::Candidate && trim(response.candidate_context).len() > 0
                ==> state.candidate_context == trim(response.candidate_context)
            &&& speaker == Speaker::Candidate && trim(response.candidate_context).len() == 0
                ==> state.candidate_context == current.candidate_context
            &&& trim(response.explanation).len() > 0 ==> state.explanation == trim(
                response.explanation,
            )
            &&& trim(response.explanation).len() == 0 ==> state.explanation == current.explanation
            &&& trim(response.language).len() > 0 ==> state.language == trim(response.language)
            &&& trim(response.language).len() == 0 && current.language.len() > 0 ==> state.language
                == current.language
            &&& trim(response.language).len() == 0 && current.language.len() == 0
                ==> state.language == seq!['j', 'a', 'v', 'a']
            &&& state.change_note == trim(response.change_note)
            &&& response.code_changed ==> response.code == Some(state.code)
            &&& state.changed_lines == changed_lines(lines(current.code), lines(state.code))
        },
{
    reveal_strlit("java");
    assert("java"@ =~= seq!['j', 'a', 'v', 'a']);
}

/// What stands behind the first line of a text is what follows its first line
/// feed.
pub proof fn first_lines_end_at_a_line_feed(line: Seq<char>, rest: Seq<char>)
    requires
        forall|k: int| 0 <= k < line.len() ==> #[trigger] line[k] != '\n',
    ensures
        behind_first_line(line.push('\n') + rest) == Some(rest),
        behind_first_line(line) is None,
    decreases line.len(),
{
    let whole = line.push('\n') + rest;
    if line.len() == 0 {
        assert(whole.drop_first() =~= rest);
    } else {
        let shorter = line.drop_first();
        assert(line[0] != '\n');
        assert(whole[0] == line[0]);
        assert forall|k: int| 0 <= k < shorter.len() implies #[trigger] shorter[k] != '\n' by {
            assert(shorter[k] == line[k + 1]);
        }
        first_lines_end_at_a_line_feed(shorter, rest);
        assert(whole.drop_first() =~= shorter.push('\n') + rest);
    }
}

/// A fence is three back quotes and the rest of their line, and three back
/// quotes at the end: what stands between them is the answer. A text without a
/// fence is the answer itself.
pub proof fn fences_are_taken_off(name: Seq<char>, body: Seq<char>, bare: Seq<char>)
    requires
        forall|k: int| 0 <= k < name.len() ==> #[trigger] name[k] != '\n',
    ensures
        ({
            let fence = seq!['`', '`', '`'];
            &&& unfenced((fence + name).push('\n') + body + fence) == trim(body)
            &&& !(trim(bare).len() >= 3 && trim(bare).take(3) == fence) ==> unfenced(bare) == trim(
                bare,
            )
        }),
{
    reveal_strlit("```");
    let fence = seq!['`', '`', '`'];
    assert("```"@ =~= fence);
    let whole = (fence + name).push('\n') + body + fence;
    let none = Seq::<char>::empty();
    assert(none + whole + none =~= whole);
    assert(whole[0] == '`');
    assert(whole.last() == '`');
    trimming_takes_off_what_is_around(none, whole, none);
    assert(whole.take(3) =~= fence);
    let line = fence + name;
    assert forall|k: int| 0 <= k < line.len() implies #[trigger] line[k] != '\n' by {
        if k >= 3 {
            assert(line[k] == name[k - 3]);
        }
    }
    first_lines_end_at_a_line_feed(line, body + fence);
    assert(whole =~= line.push('\n') + (body + fence));
    let rest = body + fence;
    assert(rest.skip(rest.len() - 3) =~= fence);
    assert(rest.take(rest.len() - 3) =~= body);
}

} // verus!
