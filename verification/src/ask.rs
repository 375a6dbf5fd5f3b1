//! A call that waits for the whole answer: which key is tried next, and what the caller gets.

use vstd::prelude::*;

use crate::failure::{
    hideable, hides_key, AskFailure, AskFailureView, ErrorDetail, ErrorDetailView,
};
use crate::keys::{first_key, law_each_key_has_one_place, KeyRun, KeyRunView};
use crate::preflight::{lemma_usable_position, PreflightView};
use crate::reply::{
    generated, law_generate_failure_hides_key, law_upload_failure_hides_key, outcome_view,
    upload_step, GenerateReplyView, UploadActionView, UploadEventView,
};

verus! {

/// What the caller gets: "success" or "error", the model, the text where there is one, and
/// what went wrong with each key.
#[derive(Debug, PartialEq, Eq)]
pub struct FinalResponse {
    pub status: String,
    pub model: String,
    pub result: Option<String>,
    pub errors: Vec<ErrorDetail>,
}

/// A `FinalResponse` over sequences.
pub struct FinalResponseView {
    pub status: Seq<char>,
    pub model: Seq<char>,
    pub result: Option<Seq<char>>,
    pub errors: Seq<ErrorDetailView>,
}

impl View for FinalResponse {
    type V = FinalResponseView;

    open spec fn view(&self) -> FinalResponseView {
        FinalResponseView {
            status: self.status@,
            model: self.model@,
            result: self.result.deep_view(),
            errors: self.errors.deep_view(),
        }
    }
}

/// A failure that no key had a part in.
pub open spec fn keyless_detail(status: Seq<char>, message: Seq<char>) -> ErrorDetailView {
    ErrorDetailView { api_key: Seq::empty(), code: 0, status, message }
}

/// The answer where no key was tried.
pub open spec fn preflight_response(status: Seq<char>, message: Seq<char>) -> FinalResponseView {
    FinalResponseView {
        status: "error"@,
        model: "unknown"@,
        result: None,
        errors: seq![keyless_detail(status, message)],
    }
}

/// The answer where a model gave a text.
pub open spec fn success_response(model: Seq<char>, text: Seq<char>) -> FinalResponseView {
    FinalResponseView {
        status: "success"@,
        model,
        result: Some(text),
        errors: Seq::empty(),
    }
}

/// The answer where every key that was tried has failed; the model is that of the last one.
pub open spec fn error_response(
    model: Seq<char>,
    errors: Seq<ErrorDetailView>,
) -> FinalResponseView {
    FinalResponseView { status: "error"@, model, result: None, errors }
}

/// What follows on the outcome for a key.
#[derive(Debug, PartialEq, Eq)]
pub enum AskStep {
    /// Try the next key.
    TryKey(KeyRun),
    /// The call is over.
    Finish(FinalResponse),
}

/// An `AskStep` over sequences.
pub enum AskStepView {
    TryKey(KeyRunView),
    Finish(FinalResponseView),
}

impl View for AskStep {
    type V = AskStepView;

    open spec fn view(&self) -> AskStepView {
        match *self {
            AskStep::TryKey(run) => AskStepView::TryKey(run@),
            AskStep::Finish(response) => AskStepView::Finish(response@),
        }
    }
}

/// The outcome blames the key, so the next one is worth trying.
pub open spec fn rotates(outcome: Result<Seq<char>, AskFailureView>) -> bool {
    outcome matches Err(failure) && failure.kind is RotateKey
}

/// What follows on the outcome for a key: a text ends the call, and so does a failure,
/// unless it blames the key and there is another one.
pub open spec fn ask_step(
    run: KeyRunView,
    outcome: Result<Seq<char>, AskFailureView>,
) -> AskStepView {
    match outcome {
        Ok(text) => AskStepView::Finish(success_response(run.cfg().model, text)),
        Err(failure) => if rotates(outcome) && run.has_next() {
            AskStepView::TryKey(run.next(failure.detail))
        } else {
            AskStepView::Finish(
                error_response(run.cfg().model, run.attempts.push(failure.detail)),
            )
        },
    }
}

/// A failure that no key had a part in.
pub fn keyless_error(status: &str, message: String) -> (detail: ErrorDetail)
    ensures
        detail@ == keyless_detail(status@, message@),
{
    let api_key = String::new();
    assert(api_key@ == Seq::<char>::empty());
    ErrorDetail { api_key, code: 0, status: status.to_owned(), message }
}

/// The answer where no key was tried.
pub fn make_preflight(status: &str, message: &str) -> (response: FinalResponse)
    ensures
        response@ == preflight_response(status@, message@),
{
    let mut errors: Vec<ErrorDetail> = Vec::new();
    errors.push(keyless_error(status, message.to_owned()));
    assert(errors.deep_view() == seq![keyless_detail(status@, message@)]);
    FinalResponse {
        status: "error".to_owned(),
        model: "unknown".to_owned(),
        result: None,
        errors,
    }
}

/// Why a call has no answer of its own.
#[derive(Debug, PartialEq, Eq)]
pub enum AskFault {
    /// It panicked.
    Panicked,
    /// Its answer holds a null byte.
    NullByte,
    /// Its answer cannot be written as JSON.
    NotSerialized,
}

/// The answer in place of one that cannot be given.
pub open spec fn fault_response(fault: AskFault) -> FinalResponseView {
    match fault {
        AskFault::Panicked => preflight_response("FATAL_PANIC"@, "Panic inside FFI boundary"@),
        AskFault::NullByte => preflight_response("NULL_BYTE_ERROR"@, "Null byte error"@),
        AskFault::NotSerialized => preflight_response(
            "JSON_SERIALIZATION_FAIL"@,
            "Failed to construct the unified JSON payload"@,
        ),
    }
}

/// The answer in place of one that cannot be given.
pub fn answer_fault(fault: AskFault) -> (response: FinalResponse)
    ensures
        response@ == fault_response(fault),
{
    match fault {
        AskFault::Panicked => make_preflight("FATAL_PANIC", "Panic inside FFI boundary"),
        AskFault::NullByte => make_preflight("NULL_BYTE_ERROR", "Null byte error"),
        AskFault::NotSerialized => make_preflight(
            "JSON_SERIALIZATION_FAIL",
            "Failed to construct the unified JSON payload",
        ),
    }
}

/// Decides what follows on the outcome for the key that is being tried: of uploading the
/// files, where that failed, else of the request for content.
pub fn ask_inner(run: KeyRun, outcome: Result<String, AskFailure>) -> (step: AskStep)
    requires
        run@.wf(),
    ensures
        step@ == ask_step(run@, outcome_view(outcome)),
        step@ matches AskStepView::TryKey(next) ==> next.wf(),
{
    let model = run.cfg().model.clone();
    match outcome {
        Ok(text) => {
            let errors: Vec<ErrorDetail> = Vec::new();
            assert(errors.deep_view() == Seq::<ErrorDetailView>::empty());
            AskStep::Finish(
                FinalResponse { status: "success".to_owned(), model, result: Some(text), errors },
            )
        },
        Err(failure) => {
            let rotate = failure.should_rotate();
            let detail = failure.into_detail();
            if rotate && run.has_next() {
                AskStep::TryKey(run.next(detail))
            } else {
                let errors = run.failures(detail);
                AskStep::Finish(
                    FinalResponse { status: "error".to_owned(), model, result: None, errors },
                )
            }
        },
    }
}

/// The answer to a call, where `outcomes[i]` is what comes of the key at place `i` of the
/// order.
pub open spec fn asked(
    run: KeyRunView,
    outcomes: Seq<Result<Seq<char>, AskFailureView>>,
) -> FinalResponseView
    decreases run.pre.order.len() - run.slot,
{
    match ask_step(run, outcomes[run.slot as int]) {
        AskStepView::Finish(response) => response,
        AskStepView::TryKey(next) => if run.slot < run.pre.order.len() {
            asked(next, outcomes)
        } else {
            arbitrary()
        },
    }
}

/// What is reported of the first `k` outcomes, all of them failures.
pub open spec fn reported(
    outcomes: Seq<Result<Seq<char>, AskFailureView>>,
    k: nat,
) -> Seq<ErrorDetailView> {
    Seq::new(k, |i: int| outcomes[i]->Err_0.detail)
}

/// The answer where the key at place `k` is the last that is tried.
pub open spec fn answer_at(
    pre: PreflightView,
    outcomes: Seq<Result<Seq<char>, AskFailureView>>,
    k: int,
) -> FinalResponseView {
    let model = pre.cfgs[pre.valid[pre.order[k] as int] as int].model;
    match outcomes[k] {
        Ok(text) => FinalResponseView {
            status: "success"@,
            model,
            result: Some(text),
            errors: Seq::empty(),
        },
        Err(_) => FinalResponseView {
            status: "error"@,
            model,
            result: None,
            errors: reported(outcomes, (k + 1) as nat),
        },
    }
}

/// The call as it goes on from place `slot`, after only failures that blame the key.
proof fn lemma_asked_from(
    run: KeyRunView,
    outcomes: Seq<Result<Seq<char>, AskFailureView>>,
    k: int,
)
    requires
        run.wf(),
        outcomes.len() == run.pre.order.len(),
        run.slot <= k < outcomes.len(),
        forall|i: int| 0 <= i < k ==> rotates(#[trigger] outcomes[i]),
        k + 1 == outcomes.len() || !rotates(outcomes[k]),
        run.attempts == reported(outcomes, run.slot),
    ensures
        asked(run, outcomes) == answer_at(run.pre, outcomes, k),
    decreases k - run.slot,
{
    let outcome = outcomes[run.slot as int];
    if run.slot < k {
        let next = run.next(outcome->Err_0.detail);
        assert(next.attempts =~= reported(outcomes, next.slot));
        lemma_asked_from(next, outcomes, k);
    } else if outcome is Err {
        assert(run.attempts.push(outcome->Err_0.detail) =~= reported(outcomes, (k + 1) as nat));
    }
}

/// A call tries the keys in their order until one gives a text or fails in a way that another
/// key would not mend, or until none is left. A text is returned under the model that gave it
/// and without errors; else the errors are those of all keys that were tried, in their order.
pub proof fn law_keys_are_tried_in_order(
    pre: PreflightView,
    outcomes: Seq<Result<Seq<char>, AskFailureView>>,
    k: int,
)
    requires
        pre.wf(),
        outcomes.len() == pre.order.len(),
        0 <= k < outcomes.len(),
        forall|i: int| 0 <= i < k ==> rotates(#[trigger] outcomes[i]),
        k + 1 == outcomes.len() || !rotates(outcomes[k]),
    ensures
        asked(first_key(pre), outcomes) == answer_at(pre, outcomes, k),
{
    assert(first_key(pre).attempts =~= reported(outcomes, 0));
    lemma_asked_from(first_key(pre), outcomes, k);
}

/// The first place whose outcome ends the call.
proof fn lemma_some_place_is_last(
    outcomes: Seq<Result<Seq<char>, AskFailureView>>,
    from: int,
) -> (k: int)
    requires
        0 <= from < outcomes.len(),
        forall|i: int| 0 <= i < from ==> rotates(#[trigger] outcomes[i]),
    ensures
        from <= k < outcomes.len(),
        forall|i: int| 0 <= i < k ==> rotates(#[trigger] outcomes[i]),
        k + 1 == outcomes.len() || !rotates(outcomes[k]),
    decreases outcomes.len() - from,
{
    if from + 1 == outcomes.len() || !rotates(outcomes[from]) {
        from
    } else {
        lemma_some_place_is_last(outcomes, from + 1)
    }
}

/// Every answer names a model, holds a text if and only if it is a success, and holds an
/// error if and only if it is none.
pub proof fn law_answer_is_complete(
    pre: PreflightView,
    outcomes: Seq<Result<Seq<char>, AskFailureView>>,
)
    requires
        pre.wf(),
        outcomes.len() == pre.order.len(),
    ensures
        asked(first_key(pre), outcomes).model.len() > 0,
        asked(first_key(pre), outcomes).result is Some <==> asked(first_key(pre), outcomes).status
            == "success"@,
        asked(first_key(pre), outcomes).result is None <==> asked(first_key(pre), outcomes).status
            == "error"@,
        asked(first_key(pre), outcomes).result is None <==> asked(
            first_key(pre),
            outcomes,
        ).errors.len() > 0,
{
    reveal_strlit("success");
    reveal_strlit("error");
    assert("success"@.len() != "error"@.len());
    law_each_key_has_one_place(pre);
    let k = lemma_some_place_is_last(outcomes, 0);
    law_keys_are_tried_in_order(pre, outcomes, k);
    assert(pre.order[k] < pre.valid.len());
    lemma_usable_position(pre.cfgs, pre.order[k] as int);
}

/// As long as some key gives a text after failures that only blame the keys before it, the
/// call is a success: its result is that very text, under that key's model.
pub proof fn law_one_good_key_is_enough(
    pre: PreflightView,
    outcomes: Seq<Result<Seq<char>, AskFailureView>>,
    k: int,
)
    requires
        pre.wf(),
        outcomes.len() == pre.order.len(),
        0 <= k < outcomes.len(),
        outcomes[k] is Ok,
        forall|i: int| 0 <= i < k ==> rotates(#[trigger] outcomes[i]),
    ensures
        asked(first_key(pre), outcomes).status == "success"@,
        asked(first_key(pre), outcomes).result == Some(outcomes[k]->Ok_0),
        asked(first_key(pre), outcomes).model == pre.cfgs[pre.valid[pre.order[k] as int] as int].model,
        asked(first_key(pre), outcomes).errors.len() == 0,
{
    law_keys_are_tried_in_order(pre, outcomes, k);
}

/// The outcome is what a reply to a request with this key gives, or what an upload with this
/// key fails with.
pub open spec fn comes_of_key(
    outcome: Result<Seq<char>, AskFailureView>,
    api_key: Seq<char>,
) -> bool {
    ||| exists|reply: GenerateReplyView| outcome == #[trigger] generated(reply, api_key)
    ||| fails_to_upload(outcome, api_key)
}

/// The outcome is what an upload with this key fails with.
pub open spec fn fails_to_upload(
    outcome: Result<Seq<char>, AskFailureView>,
    api_key: Seq<char>,
) -> bool {
    exists|len: nat, mime: Seq<char>, event: UploadEventView|
        #[trigger] upload_step(api_key, len, mime, event) == UploadActionView::Finish(outcome)
}

/// A failure that comes of a key hides it.
pub(crate) proof fn lemma_outcome_hides_key(
    outcome: Result<Seq<char>, AskFailureView>,
    api_key: Seq<char>,
)
    requires
        hideable(api_key),
        comes_of_key(outcome, api_key),
    ensures
        outcome matches Err(failure) ==> hides_key(failure.detail, api_key),
{
    if fails_to_upload(outcome, api_key) {
        let (len, mime, event) = choose|len: nat, mime: Seq<char>, event: UploadEventView|
            #[trigger] upload_step(api_key, len, mime, event) == UploadActionView::Finish(outcome);
        law_upload_failure_hides_key(api_key, len, mime, event);
    } else {
        let reply = choose|reply: GenerateReplyView| outcome == #[trigger] generated(reply, api_key);
        law_generate_failure_hides_key(reply, api_key);
    }
}

/// Every error of an answer shows the key that it came of in its masked form only, whatever
/// holds of keys that were not tried.
pub proof fn law_answer_hides_every_key(
    pre: PreflightView,
    outcomes: Seq<Result<Seq<char>, AskFailureView>>,
)
    requires
        pre.wf(),
        outcomes.len() == pre.order.len(),
        forall|i: int|
            0 <= i < outcomes.len() && (forall|j: int| 0 <= j < i ==> rotates(outcomes[j])) ==> {
                &&& comes_of_key(
                    #[trigger] outcomes[i],
                    pre.cfg_at(pre.order[i] as int).api_key,
                )
                &&& hideable(pre.cfg_at(pre.order[i] as int).api_key)
            },
    ensures
        asked(first_key(pre), outcomes).errors.len() <= pre.order.len(),
        forall|i: int|
            0 <= i < asked(first_key(pre), outcomes).errors.len() ==> hides_key(
                #[trigger] asked(first_key(pre), outcomes).errors[i],
                pre.cfg_at(pre.order[i] as int).api_key,
            ),
{
    law_each_key_has_one_place(pre);
    let k = lemma_some_place_is_last(outcomes, 0);
    law_keys_are_tried_in_order(pre, outcomes, k);
    let errors = asked(first_key(pre), outcomes).errors;
    assert forall|i: int| 0 <= i < errors.len() implies hides_key(
        #[trigger] errors[i],
        pre.cfg_at(pre.order[i] as int).api_key,
    ) by {
        assert(i < k ==> rotates(outcomes[i]));
        lemma_outcome_hides_key(outcomes[i], pre.cfg_at(pre.order[i] as int).api_key);
    }
}

/// A text that a key gives is the result of the call, every character of it and no other, however
/// long it is; the model is that of the configuration that was tried, and nothing went wrong.
pub proof fn law_text_is_returned_whole(run: KeyRunView, text: Seq<char>)
    requires
        run.wf(),
    ensures
        ask_step(run, Ok(text)) matches AskStepView::Finish(response) && {
            &&& response.status == "success"@
            &&& response.result matches Some(result) && result.len() == text.len() && (forall|
                i: int,
            |
                0 <= i < text.len() ==> #[trigger] result[i] == text[i])
            &&& response.result == Some(text)
            &&& response.model == run.pre.cfgs[run.pre.valid[run.pre.order[run.slot as int] as int]
                as int].model
            &&& response.errors.len() == 0
        },
{
}

/// A failure that blames the key is kept, and the next key is tried, as long as there is one. Any
/// other failure, and one of the last key, ends the call: without a result, under the model of
/// this key, with every failure so far and this one last, all unchanged.
pub proof fn law_failure_is_kept_or_reported(run: KeyRunView, failure: AskFailureView)
    requires
        run.wf(),
    ensures
        failure.kind is RotateKey && run.slot + 1 < run.pre.order.len() ==> (ask_step(
            run,
            Err(failure),
        ) matches AskStepView::TryKey(next) && {
            &&& next.pre == run.pre
            &&& next.slot == run.slot + 1
            &&& next.attempts == run.attempts.push(failure.detail)
        }),
        !(failure.kind is RotateKey) || run.slot + 1 == run.pre.order.len() ==> (ask_step(
            run,
            Err(failure),
        ) matches AskStepView::Finish(response) && {
            &&& response.status == "error"@
            &&& response.result is None
            &&& response.model == run.pre.cfgs[run.pre.valid[run.pre.order[run.slot as int] as int]
                as int].model
            &&& response.errors.len() == run.attempts.len() + 1
            &&& response.errors.last() == failure.detail
            &&& forall|i: int|
                0 <= i < run.attempts.len() ==> #[trigger] response.errors[i] == run.attempts[i]
        }),
        rotates(Err(failure)) <==> failure.kind is RotateKey,
{
}

/// Where no key was tried, the answer says why, word for word, and names neither a model nor a
/// key; so it does for each fault.
pub proof fn law_refusal_says_why(status: Seq<char>, message: Seq<char>)
    ensures
        refuses_with(preflight_response(status, message), status, message),
        keyless_detail(status, message) == (ErrorDetailView {
            api_key: Seq::empty(),
            code: 0,
            status,
            message,
        }),
        refuses_with(
            fault_response(AskFault::Panicked),
            "FATAL_PANIC"@,
            "Panic inside FFI boundary"@,
        ),
        refuses_with(fault_response(AskFault::NullByte), "NULL_BYTE_ERROR"@, "Null byte error"@),
        refuses_with(
            fault_response(AskFault::NotSerialized),
            "JSON_SERIALIZATION_FAIL"@,
            "Failed to construct the unified JSON payload"@,
        ),
{
}

/// The answer is one without a key, of this status and with this message.
pub open spec fn refuses_with(
    response: FinalResponseView,
    status: Seq<char>,
    message: Seq<char>,
) -> bool {
    &&& response.status == "error"@
    &&& response.model == "unknown"@
    &&& response.result is None
    &&& response.errors.len() == 1
    &&& response.errors[0].api_key.len() == 0
    &&& response.errors[0].code == 0
    &&& response.errors[0].status == status
    &&& response.errors[0].message == message
}

/// What is said of these values is said of all that they hold.
pub proof fn law_answer_views_leave_nothing_out(response: FinalResponse, run: KeyRun)
    ensures
        response@.status == response.status@,
        response@.model == response.model@,
        response.result is None <==> response@.result is None,
        response.result matches Some(text) ==> response@.result == Some(text@),
        response@.errors.len() == response.errors@.len(),
        forall|i: int|
            0 <= i < response.errors@.len() ==> #[trigger] response@.errors[i]
                == response.errors@[i]@,
        AskStep::TryKey(run)@ == AskStepView::TryKey(run@),
        AskStep::Finish(response)@ == AskStepView::Finish(response@),
{
}

} // verus!
