//! A call whose answer comes piece by piece: which key is tried next, how the stream ends for
//! the caller, and the messages that the caller gets.

use vstd::prelude::*;

use crate::ask::{
    ask_step, error_response, fails_to_upload, keyless_detail, keyless_error,
    lemma_outcome_hides_key, AskStepView,
};
use crate::failure::{
    described, hideable, hides_key, law_described_failure_hides_key, AskFailure, AskFailureView,
    ErrorDetail, ErrorDetailView, HttpFailureView,
};
use crate::json::{
    array_value, has_one_field, has_two_fields, json_text, no_fields, number_value, object1, object2, set_field,
    text_value, value_text, value_tree, value_trees, JsonTree,
};
use crate::keys::{first_key, law_each_key_has_one_place, KeyRun, KeyRunView};
use crate::mask::{mask_api_key, masked, maskable};
use crate::preflight::{lemma_rotation_begins, lemma_usable_position, rotation, PreflightView};
use crate::sse::{
    heard_in_turn, law_every_text_is_sent_on, law_stream_failure_hides_key, noted_delta, pump_step,
    pumped, texts_heard, SseActionView, SseEventView, SseOutcome, SseOutcomeView,
};
use crate::text::contains_text;

verus! {

/// One message from a stream to its caller.
#[derive(Debug, PartialEq, Eq)]
pub enum StreamMsg {
    /// The next piece of text.
    Delta(String),
    /// The answer is complete.
    Done { model: String },
    /// There is no answer; what went wrong with each key.
    Error { model: String, errors: Vec<ErrorDetail> },
}

/// A `StreamMsg` over sequences.
pub enum StreamMsgView {
    Delta(Seq<char>),
    Done { model: Seq<char> },
    Error { model: Seq<char>, errors: Seq<ErrorDetailView> },
}

impl View for StreamMsg {
    type V = StreamMsgView;

    open spec fn view(&self) -> StreamMsgView {
        match *self {
            StreamMsg::Delta(text) => StreamMsgView::Delta(text@),
            StreamMsg::Done { model } => StreamMsgView::Done { model: model@ },
            StreamMsg::Error { model, errors } => StreamMsgView::Error {
                model: model@,
                errors: errors.deep_view(),
            },
        }
    }
}

/// A failed attempt as JSON.
pub open spec fn detail_tree(detail: ErrorDetailView) -> JsonTree {
    JsonTree::Object(
        no_fields().insert("api_key"@, JsonTree::Text(detail.api_key)).insert(
            "code"@,
            JsonTree::Number(detail.code as nat),
        ).insert("status"@, JsonTree::Text(detail.status)).insert(
            "message"@,
            JsonTree::Text(detail.message),
        ),
    )
}

/// Failed attempts as JSON.
pub open spec fn details_tree(details: Seq<ErrorDetailView>) -> JsonTree {
    JsonTree::Array(details.map_values(|detail: ErrorDetailView| detail_tree(detail)))
}

/// A message as JSON: its kind under `type`, and what it says.
pub open spec fn message_tree(message: StreamMsgView) -> JsonTree {
    JsonTree::Object(
        match message {
            StreamMsgView::Delta(text) => no_fields().insert(
                "type"@,
                JsonTree::Text("delta"@),
            ).insert("text"@, JsonTree::Text(text)),
            StreamMsgView::Done { model } => no_fields().insert(
                "type"@,
                JsonTree::Text("done"@),
            ).insert("model"@, JsonTree::Text(model)),
            StreamMsgView::Error { model, errors } => no_fields().insert(
                "type"@,
                JsonTree::Text("error"@),
            ).insert("model"@, JsonTree::Text(model)).insert("errors"@, details_tree(errors)),
        },
    )
}

/// That there is nothing new yet, as JSON.
pub open spec fn pending_tree() -> JsonTree {
    JsonTree::Object(no_fields().insert("type"@, JsonTree::Text("pending"@)))
}

/// A failed attempt as JSON.
fn detail_value(detail: &ErrorDetail) -> (value: serde_json::Value)
    ensures
        value_tree(value) == detail_tree(detail@),
{
    let mut value = object2(
        "api_key",
        text_value(detail.api_key.as_str()),
        "code",
        number_value(detail.code),
    );
    set_field(&mut value, "status", text_value(detail.status.as_str()));
    set_field(&mut value, "message", text_value(detail.message.as_str()));
    value
}

/// Failed attempts as JSON.
fn details_value(details: &Vec<ErrorDetail>) -> (value: serde_json::Value)
    ensures
        value_tree(value) == details_tree(details.deep_view()),
{
    let mut items: Vec<serde_json::Value> = Vec::new();
    let mut i: usize = 0;
    while i < details.len()
        invariant
            i <= details.len(),
            items@.len() == i,
            forall|j: int|
                0 <= j < i ==> value_tree(#[trigger] items@[j]) == detail_tree(
                    details.deep_view()[j],
                ),
        decreases details.len() - i,
    {
        items.push(detail_value(&details[i]));
        i = i + 1;
    }
    assert(value_trees(items@) =~= details.deep_view().map_values(
        |detail: ErrorDetailView| detail_tree(detail),
    ));
    array_value(items)
}

/// A message as a JSON value.
pub fn stream_msg_value(msg: &StreamMsg) -> (value: serde_json::Value)
    ensures
        value_tree(value) == message_tree(msg@),
{
    match msg {
        StreamMsg::Delta(text) => object2(
            "type",
            text_value("delta"),
            "text",
            text_value(text.as_str()),
        ),
        StreamMsg::Done { model } => object2(
            "type",
            text_value("done"),
            "model",
            text_value(model.as_str()),
        ),
        StreamMsg::Error { model, errors } => {
            let mut value = object2(
                "type",
                text_value("error"),
                "model",
                text_value(model.as_str()),
            );
            set_field(&mut value, "errors", details_value(errors));
            value
        },
    }
}

/// A message as JSON text.
pub fn stream_msg_to_json(msg: &StreamMsg) -> (text: String)
    ensures
        text@ == json_text(message_tree(msg@)),
{
    value_text(&stream_msg_value(msg))
}

/// The message where no key had a part in what went wrong.
pub open spec fn keyless_message(status: Seq<char>, message: Seq<char>) -> StreamMsgView {
    StreamMsgView::Error {
        model: "unknown"@,
        errors: seq![keyless_detail(status, message)],
    }
}

/// The message where no key had a part in what went wrong.
pub fn stream_send_error(status: &str, message: String) -> (msg: StreamMsg)
    ensures
        msg@ == keyless_message(status@, message@),
{
    let mut errors: Vec<ErrorDetail> = Vec::new();
    errors.push(keyless_error(status, message));
    assert(errors.deep_view() == seq![keyless_detail(status@, message@)]);
    StreamMsg::Error { model: "unknown".to_owned(), errors }
}

/// What a caller finds who asks a stream for its next message.
#[derive(Debug, PartialEq, Eq)]
pub enum PollEvent {
    /// The streams cannot be had.
    LockPoisoned,
    /// There is no such stream.
    UnknownHandle,
    /// A message.
    Message(StreamMsg),
    /// No message within the time that is waited for one.
    Timeout,
    /// No message, and there never will be one.
    Disconnected,
    /// Asking for it panicked.
    Panicked,
    /// The message holds a null byte.
    NullByte,
}

/// A `PollEvent` over sequences.
pub enum PollEventView {
    LockPoisoned,
    UnknownHandle,
    Message(StreamMsgView),
    Timeout,
    Disconnected,
    Panicked,
    NullByte,
}

impl View for PollEvent {
    type V = PollEventView;

    open spec fn view(&self) -> PollEventView {
        match *self {
            PollEvent::LockPoisoned => PollEventView::LockPoisoned,
            PollEvent::UnknownHandle => PollEventView::UnknownHandle,
            PollEvent::Message(msg) => PollEventView::Message(msg@),
            PollEvent::Timeout => PollEventView::Timeout,
            PollEvent::Disconnected => PollEventView::Disconnected,
            PollEvent::Panicked => PollEventView::Panicked,
            PollEvent::NullByte => PollEventView::NullByte,
        }
    }
}

/// What a caller is told who asks a stream for its next message. A stream that fell silent
/// counts as complete.
pub open spec fn poll_tree(event: PollEventView) -> JsonTree {
    match event {
        PollEventView::LockPoisoned => message_tree(
            keyless_message("LOCK_POISONED"@, "stream registry lock is poisoned"@),
        ),
        PollEventView::UnknownHandle => message_tree(
            keyless_message("UNKNOWN_HANDLE"@, "stream handle not found (already closed?)"@),
        ),
        PollEventView::Message(msg) => message_tree(msg),
        PollEventView::Timeout => pending_tree(),
        PollEventView::Disconnected => message_tree(
            StreamMsgView::Done { model: "unknown"@ },
        ),
        PollEventView::Panicked => message_tree(
            keyless_message("FATAL_PANIC"@, "Panic inside FFI boundary"@),
        ),
        PollEventView::NullByte => message_tree(
            keyless_message("NULL_BYTE_ERROR"@, "Null byte error"@),
        ),
    }
}

/// What a caller is told who asks a stream for its next message, as a JSON value.
pub fn poll_value(event: PollEvent) -> (value: serde_json::Value)
    ensures
        value_tree(value) == poll_tree(event@),
{
    match event {
        PollEvent::LockPoisoned => stream_msg_value(
            &stream_send_error("LOCK_POISONED", "stream registry lock is poisoned".to_owned()),
        ),
        PollEvent::UnknownHandle => stream_msg_value(
            &stream_send_error(
                "UNKNOWN_HANDLE",
                "stream handle not found (already closed?)".to_owned(),
            ),
        ),
        PollEvent::Message(msg) => stream_msg_value(&msg),
        PollEvent::Timeout => object1("type", text_value("pending")),
        PollEvent::Disconnected => stream_msg_value(
            &StreamMsg::Done { model: "unknown".to_owned() },
        ),
        PollEvent::Panicked => stream_msg_value(
            &stream_send_error("FATAL_PANIC", "Panic inside FFI boundary".to_owned()),
        ),
        PollEvent::NullByte => stream_msg_value(
            &stream_send_error("NULL_BYTE_ERROR", "Null byte error".to_owned()),
        ),
    }
}

/// What a caller is told who asks a stream for its next message, as JSON text.
pub fn stream_next_inner(event: PollEvent) -> (text: String)
    ensures
        text@ == json_text(poll_tree(event@)),
{
    value_text(&poll_value(event))
}

/// What happens with the key that is being tried.
#[derive(Debug, PartialEq, Eq)]
pub enum StreamEvent {
    /// The caller had given up before it was tried.
    Cancelled,
    /// No stream came about: the files could not be uploaded, or the request failed.
    Failed(AskFailure),
    /// The stream was read to its end. `any_delta`: whether a text was sent on.
    Streamed { outcome: SseOutcome, any_delta: bool },
}

/// A `StreamEvent` over sequences.
pub enum StreamEventView {
    Cancelled,
    Failed(AskFailureView),
    Streamed { outcome: SseOutcomeView, any_delta: bool },
}

impl View for StreamEvent {
    type V = StreamEventView;

    open spec fn view(&self) -> StreamEventView {
        match *self {
            StreamEvent::Cancelled => StreamEventView::Cancelled,
            StreamEvent::Failed(failure) => StreamEventView::Failed(failure@),
            StreamEvent::Streamed { outcome, any_delta } => StreamEventView::Streamed {
                outcome: outcome@,
                any_delta,
            },
        }
    }
}

/// How a stream ends for its caller: the last message, if there is one, and where the next
/// call is to begin, if not where this one did.
#[derive(Debug, PartialEq, Eq)]
pub struct StreamEnd {
    pub message: Option<StreamMsg>,
    pub pointer: Option<usize>,
}

/// A `StreamEnd` over sequences.
pub struct StreamEndView {
    pub message: Option<StreamMsgView>,
    pub pointer: Option<usize>,
}

impl View for StreamEnd {
    type V = StreamEndView;

    open spec fn view(&self) -> StreamEndView {
        StreamEndView {
            message: match self.message {
                Some(msg) => Some(msg@),
                None => None,
            },
            pointer: self.pointer,
        }
    }
}

/// What follows on what happened with a key.
#[derive(Debug, PartialEq, Eq)]
pub enum StreamStep {
    /// Try the next key.
    TryKey(KeyRun),
    /// The stream is over.
    Finish(StreamEnd),
}

/// A `StreamStep` over sequences.
pub enum StreamStepView {
    TryKey(KeyRunView),
    Finish(StreamEndView),
}

impl View for StreamStep {
    type V = StreamStepView;

    open spec fn view(&self) -> StreamStepView {
        match *self {
            StreamStep::TryKey(run) => StreamStepView::TryKey(run@),
            StreamStep::Finish(end) => StreamStepView::Finish(end@),
        }
    }
}

/// That a stream ended without content.
pub open spec fn no_content_detail(api_key: Seq<char>) -> ErrorDetailView {
    ErrorDetailView {
        api_key: masked(api_key),
        code: 0,
        status: "NO_CANDIDATES"@,
        message: "stream ended with no content"@,
    }
}

/// The stream is over with this message.
pub open spec fn ended(message: StreamMsgView) -> StreamStepView {
    StreamStepView::Finish(StreamEndView { message: Some(message), pointer: None })
}

/// What follows on a failure: the next key, where another one may help and there is one.
pub open spec fn after_failure(
    run: KeyRunView,
    detail: ErrorDetailView,
    rotate: bool,
) -> StreamStepView {
    if rotate && run.has_next() {
        StreamStepView::TryKey(run.next(detail))
    } else {
        ended(
            StreamMsgView::Error { model: run.cfg().model, errors: run.attempts.push(detail) },
        )
    }
}

/// What follows on what happened with a key. Once a text was sent on, no other key is tried:
/// the caller could get the same text twice. Where the key is to blame even so, the stream
/// counts as complete, and the next call begins with the key after this one.
pub open spec fn stream_step(run: KeyRunView, event: StreamEventView) -> StreamStepView {
    let model = run.cfg().model;
    match event {
        StreamEventView::Cancelled => StreamStepView::Finish(
            StreamEndView { message: None, pointer: None },
        ),
        StreamEventView::Failed(failure) => after_failure(
            run,
            failure.detail,
            failure.kind is RotateKey,
        ),
        StreamEventView::Streamed { outcome, any_delta } => match outcome {
            SseOutcomeView::Ended => if any_delta {
                ended(StreamMsgView::Done { model })
            } else {
                after_failure(run, no_content_detail(run.cfg().api_key), false)
            },
            SseOutcomeView::RotateEligible(detail) => if any_delta {
                StreamStepView::Finish(
                    StreamEndView {
                        message: Some(StreamMsgView::Done { model }),
                        pointer: Some(
                            ((run.pos() + 1) % run.pre.order.len() as int) as usize,
                        ),
                    },
                )
            } else {
                after_failure(run, detail, true)
            },
            SseOutcomeView::Terminal(detail) => after_failure(run, detail, false),
        },
    }
}

/// What follows on a failure.
fn go_on(run: KeyRun, detail: ErrorDetail, rotate: bool) -> (step: StreamStep)
    requires
        run@.wf(),
    ensures
        step@ == after_failure(run@, detail@, rotate),
        step@ matches StreamStepView::TryKey(next) ==> next.wf(),
{
    if rotate && run.has_next() {
        StreamStep::TryKey(run.next(detail))
    } else {
        let model = run.cfg().model.clone();
        let errors = run.failures(detail);
        StreamStep::Finish(
            StreamEnd { message: Some(StreamMsg::Error { model, errors }), pointer: None },
        )
    }
}

/// Decides what follows on what happened with the key that is being tried.
pub fn stream_worker(run: KeyRun, event: StreamEvent) -> (step: StreamStep)
    requires
        run@.wf(),
        event@ == (StreamEventView::Streamed { outcome: SseOutcomeView::Ended, any_delta: false })
            ==> maskable(run@.cfg().api_key),
    ensures
        step@ == stream_step(run@, event@),
        step@ matches StreamStepView::TryKey(next) ==> next.wf(),
{
    match event {
        StreamEvent::Cancelled => StreamStep::Finish(StreamEnd { message: None, pointer: None }),
        StreamEvent::Failed(failure) => {
            let rotate = failure.should_rotate();
            go_on(run, failure.into_detail(), rotate)
        },
        StreamEvent::Streamed { outcome, any_delta } => match outcome {
            SseOutcome::Ended => {
                if any_delta {
                    let model = run.cfg().model.clone();
                    StreamStep::Finish(
                        StreamEnd { message: Some(StreamMsg::Done { model }), pointer: None },
                    )
                } else {
                    let detail = ErrorDetail {
                        api_key: mask_api_key(run.cfg().api_key.as_str()),
                        code: 0,
                        status: "NO_CANDIDATES".to_owned(),
                        message: "stream ended with no content".to_owned(),
                    };
                    go_on(run, detail, false)
                }
            },
            SseOutcome::RotateEligible(detail) => {
                if any_delta {
                    let model = run.cfg().model.clone();
                    let pos = run.pos();
                    let n = run.pre.order.len();
                    proof {
                        law_each_key_has_one_place(run@.pre);
                    }
                    let pointer = (pos + 1) % n;
                    StreamStep::Finish(
                        StreamEnd {
                            message: Some(StreamMsg::Done { model }),
                            pointer: Some(pointer),
                        },
                    )
                } else {
                    go_on(run, detail, true)
                }
            },
            SseOutcome::Terminal(detail) => go_on(run, detail, false),
        },
    }
}

/// What happened blames the key, and no text was sent on.
pub open spec fn moves_on(event: StreamEventView) -> bool {
    match event {
        StreamEventView::Failed(failure) => failure.kind is RotateKey,
        StreamEventView::Streamed { outcome, any_delta } => outcome is RotateEligible
            && !any_delta,
        StreamEventView::Cancelled => false,
    }
}

/// What is reported of what happened with a key, where it is reported.
pub open spec fn reported_of(event: StreamEventView, api_key: Seq<char>) -> ErrorDetailView {
    match event {
        StreamEventView::Failed(failure) => failure.detail,
        StreamEventView::Streamed { outcome, .. } => match outcome {
            SseOutcomeView::Ended => no_content_detail(api_key),
            SseOutcomeView::RotateEligible(detail) => detail,
            SseOutcomeView::Terminal(detail) => detail,
        },
        StreamEventView::Cancelled => arbitrary(),
    }
}

/// How a stream ends, where `events[i]` is what happens with the key at place `i` of the
/// order.
pub open spec fn streamed(run: KeyRunView, events: Seq<StreamEventView>) -> StreamEndView
    decreases run.pre.order.len() - run.slot,
{
    match stream_step(run, events[run.slot as int]) {
        StreamStepView::Finish(end) => end,
        StreamStepView::TryKey(next) => if run.slot < run.pre.order.len() {
            streamed(next, events)
        } else {
            arbitrary()
        },
    }
}

/// What is reported of the first `k` keys.
pub open spec fn reported_by(
    pre: PreflightView,
    events: Seq<StreamEventView>,
    k: nat,
) -> Seq<ErrorDetailView> {
    Seq::new(k, |i: int| reported_of(events[i], pre.cfg_at(pre.order[i] as int).api_key))
}

/// How a stream ends where the key at place `k` is the last that is tried.
pub open spec fn end_at(
    pre: PreflightView,
    events: Seq<StreamEventView>,
    k: int,
) -> StreamEndView {
    let model = pre.cfgs[pre.valid[pre.order[k] as int] as int].model;
    match events[k] {
        StreamEventView::Cancelled => StreamEndView { message: None, pointer: None },
        StreamEventView::Streamed { outcome: SseOutcomeView::Ended, any_delta: true } => {
            StreamEndView { message: Some(StreamMsgView::Done { model }), pointer: None }
        },
        StreamEventView::Streamed {
            outcome: SseOutcomeView::RotateEligible(_),
            any_delta: true,
        } => StreamEndView {
            message: Some(StreamMsgView::Done { model }),
            pointer: Some(((pre.order[k] + 1) % pre.order.len() as int) as usize),
        },
        _ => StreamEndView {
            message: Some(
                StreamMsgView::Error { model, errors: reported_by(pre, events, (k + 1) as nat) },
            ),
            pointer: None,
        },
    }
}

/// The stream as it goes on from place `slot`, after only failures that blame the key.
proof fn lemma_streamed_from(run: KeyRunView, events: Seq<StreamEventView>, k: int)
    requires
        run.wf(),
        events.len() == run.pre.order.len(),
        run.slot <= k < events.len(),
        forall|i: int| 0 <= i < k ==> moves_on(#[trigger] events[i]),
        k + 1 == events.len() || !moves_on(events[k]),
        run.attempts == reported_by(run.pre, events, run.slot),
    ensures
        streamed(run, events) == end_at(run.pre, events, k),
    decreases k - run.slot,
{
    let event = events[run.slot as int];
    let detail = reported_of(event, run.cfg().api_key);
    assert(run.attempts.push(detail) =~= reported_by(run.pre, events, run.slot + 1));
    if run.slot < k {
        lemma_streamed_from(run.next(detail), events, k);
    }
}

/// A stream tries the keys in their order until one gives a text, or fails in a way that
/// another key would not mend, or until none is left or the caller gives up. A text ends it as
/// complete under the model that gave it; else the errors are those of all keys that were
/// tried, in their order.
pub proof fn law_stream_tries_keys_in_order(
    pre: PreflightView,
    events: Seq<StreamEventView>,
    k: int,
)
    requires
        pre.wf(),
        events.len() == pre.order.len(),
        0 <= k < events.len(),
        forall|i: int| 0 <= i < k ==> moves_on(#[trigger] events[i]),
        k + 1 == events.len() || !moves_on(events[k]),
    ensures
        streamed(first_key(pre), events) == end_at(pre, events, k),
{
    assert(first_key(pre).attempts =~= reported_by(pre, events, 0));
    lemma_streamed_from(first_key(pre), events, k);
}

/// Once a text was sent on, no other key is tried, and the stream is not ended in silence.
pub proof fn law_no_key_after_text(run: KeyRunView, outcome: SseOutcomeView)
    ensures
        stream_step(
            run,
            StreamEventView::Streamed { outcome, any_delta: true },
        ) matches StreamStepView::Finish(end) && end.message is Some,
{
}

/// Only a key that is to blame after a text was sent on moves the beginning of the next call,
/// and with as many keys the next call begins with the one after it.
pub proof fn law_next_call_begins_after(run: KeyRunView, event: StreamEventView)
    requires
        run.wf(),
    ensures
        stream_step(run, event) matches StreamStepView::Finish(end) && end.pointer is Some <==> (
        event matches StreamEventView::Streamed { outcome, any_delta } && outcome is RotateEligible
            && any_delta),
        stream_step(run, event) matches StreamStepView::Finish(end) ==> end.pointer matches Some(
            pointer,
        ) ==> {
            let n = run.pre.order.len();
            &&& pointer < n
            &&& rotation(n, pointer as nat)[0] == (run.pos() + 1) % n as int
        },
{
    law_each_key_has_one_place(run.pre);
    let n = run.pre.order.len();
    if let StreamStepView::Finish(end) = stream_step(run, event) {
        if let Some(pointer) = end.pointer {
            vstd::arithmetic::div_mod::lemma_mod_bound(run.pos() + 1, n as int);
            lemma_rotation_begins(n, pointer as nat);
        }
    }
}

/// A failed attempt means the same for a stream as for a call that waits for the whole answer:
/// the same key is tried next, or the same errors are reported under the same model.
pub proof fn law_stream_and_ask_agree(run: KeyRunView, failure: AskFailureView)
    ensures
        match stream_step(run, StreamEventView::Failed(failure)) {
            StreamStepView::TryKey(next) => ask_step(run, Err(failure)) == AskStepView::TryKey(
                next,
            ),
            StreamStepView::Finish(end) => end.pointer is None && (end.message matches Some(
                StreamMsgView::Error { model, errors },
            ) && ask_step(run, Err(failure)) == AskStepView::Finish(
                error_response(model, errors),
            )),
        },
{
}

/// The stream ends in silence only where the caller had given up; else its last message names
/// a model, and where it reports errors there is at least one.
pub proof fn law_last_message_is_complete(run: KeyRunView, event: StreamEventView)
    requires
        run.wf(),
    ensures
        stream_step(run, event) matches StreamStepView::Finish(end) ==> match end.message {
            None => event is Cancelled,
            Some(StreamMsgView::Delta(_)) => false,
            Some(StreamMsgView::Done { model }) => model.len() > 0,
            Some(StreamMsgView::Error { model, errors }) => model.len() > 0 && errors.len() > 0,
        },
        event is Cancelled ==> stream_step(run, event) is Finish,
{
    law_each_key_has_one_place(run.pre);
    assert(run.pre.order[run.slot as int] < run.pre.valid.len());
    lemma_usable_position(run.pre.cfgs, run.pos() as int);
}

/// What happened is what can happen with this key: a failed upload, an answer to the request
/// that is described, or the end of a stream that was read with it.
pub open spec fn happens_with_key(event: StreamEventView, api_key: Seq<char>) -> bool {
    match event {
        StreamEventView::Cancelled => true,
        StreamEventView::Failed(failure) => {
            ||| fails_to_upload(Err(failure), api_key)
            ||| exists|answer: HttpFailureView| failure == #[trigger] described(answer, api_key)
        },
        StreamEventView::Streamed { outcome, .. } => outcome is Ended || exists|event:
            SseEventView| #[trigger] pump_step(event, api_key) == SseActionView::End(outcome),
    }
}

/// What is reported of what can happen with a key hides it.
proof fn lemma_report_hides_key(event: StreamEventView, api_key: Seq<char>)
    requires
        hideable(api_key),
        !contains_text("stream ended with no content"@, api_key),
        !(event is Cancelled),
        happens_with_key(event, api_key),
    ensures
        hides_key(reported_of(event, api_key), api_key),
{
    match event {
        StreamEventView::Cancelled => {},
        StreamEventView::Failed(failure) => {
            if fails_to_upload(Err(failure), api_key) {
                lemma_outcome_hides_key(Err(failure), api_key);
            } else {
                let answer = choose|answer: HttpFailureView|
                    failure == #[trigger] described(answer, api_key);
                law_described_failure_hides_key(answer, api_key);
            }
        },
        StreamEventView::Streamed { outcome, .. } => {
            if !(outcome is Ended) {
                let heard = choose|heard: SseEventView|
                    #[trigger] pump_step(heard, api_key) == SseActionView::End(outcome);
                law_stream_failure_hides_key(heard, api_key);
            }
        },
    }
}

/// Every error that a stream reports shows the key that it came of in its masked form only.
/// Keys that stand in the fixed words on a stream without content are left out.
pub proof fn law_stream_hides_every_key(
    pre: PreflightView,
    events: Seq<StreamEventView>,
    k: int,
)
    requires
        pre.wf(),
        events.len() == pre.order.len(),
        0 <= k < events.len(),
        forall|i: int| 0 <= i < k ==> moves_on(#[trigger] events[i]),
        k + 1 == events.len() || !moves_on(events[k]),
        forall|i: int|
            0 <= i <= k ==> {
                let api_key = pre.cfg_at(pre.order[i] as int).api_key;
                &&& happens_with_key(#[trigger] events[i], api_key)
                &&& hideable(api_key)
                &&& !contains_text("stream ended with no content"@, api_key)
            },
    ensures
        streamed(first_key(pre), events).message matches Some(
            StreamMsgView::Error { model, errors },
        ) ==> forall|i: int|
            0 <= i < errors.len() ==> hides_key(
                #[trigger] errors[i],
                pre.cfg_at(pre.order[i] as int).api_key,
            ),
{
    law_stream_tries_keys_in_order(pre, events, k);
    if let Some(StreamMsgView::Error { model, errors }) = streamed(first_key(pre), events).message {
        assert forall|i: int| 0 <= i < errors.len() implies hides_key(
            #[trigger] errors[i],
            pre.cfg_at(pre.order[i] as int).api_key,
        ) by {
            assert(i < k ==> moves_on(events[i]));
            lemma_report_hides_key(events[i], pre.cfg_at(pre.order[i] as int).api_key);
        }
    }
}

/// What happened with a key is what comes of these events: a stream was read to its end with
/// this outcome, and the note says whether a text was sent on; where there was no stream, there
/// were no events.
pub open spec fn read_from(
    event: StreamEventView,
    told: Seq<SseEventView>,
    api_key: Seq<char>,
) -> bool {
    match event {
        StreamEventView::Streamed { outcome, any_delta } => {
            &&& heard_in_turn(told, api_key)
            &&& pumped(told, api_key).action == SseActionView::End(outcome)
            &&& any_delta == noted_delta(told, api_key)
        },
        _ => told.len() == 0,
    }
}

/// The messages that hand texts on.
pub open spec fn deltas(texts: Seq<Seq<char>>) -> Seq<StreamMsgView> {
    texts.map_values(|text: Seq<char>| StreamMsgView::Delta(text))
}

/// The texts that are sent on while the first `n` keys are tried.
pub open spec fn deltas_of(
    pre: PreflightView,
    told: Seq<Seq<SseEventView>>,
    n: nat,
) -> Seq<StreamMsgView>
    decreases n,
{
    if n == 0 {
        Seq::empty()
    } else {
        deltas_of(pre, told, (n - 1) as nat) + deltas(
            pumped(told[n - 1], pre.cfg_at(pre.order[n - 1] as int).api_key).sent,
        )
    }
}

/// Keys that sent nothing add nothing.
proof fn lemma_no_deltas(pre: PreflightView, told: Seq<Seq<SseEventView>>, n: nat)
    requires
        forall|i: int|
            0 <= i < n ==> pumped(
                #[trigger] told[i],
                pre.cfg_at(pre.order[i] as int).api_key,
            ).sent.len() == 0,
    ensures
        deltas_of(pre, told, n).len() == 0,
    decreases n,
{
    if n > 0 {
        lemma_no_deltas(pre, told, (n - 1) as nat);
        assert(pumped(told[n - 1], pre.cfg_at(pre.order[n - 1] as int).api_key).sent.len() == 0);
    }
}

/// A stream as a whole, where `told[i]` is what was heard with the key at place `i`, and the key
/// at place `k` is the last that is tried: the keys before it sent nothing on, so that the
/// caller gets the texts of that one key, each once and in order. The message after them is no
/// text. It says that the answer is complete under that key's model only if there was a text,
/// and whenever there was one and the stream did not fail in a way that is not the key's; and
/// there is none only if the caller had given up.
pub proof fn law_whole_stream(
    pre: PreflightView,
    events: Seq<StreamEventView>,
    told: Seq<Seq<SseEventView>>,
    k: int,
)
    requires
        pre.wf(),
        events.len() == pre.order.len(),
        told.len() == events.len(),
        0 <= k < events.len(),
        forall|i: int| 0 <= i < k ==> moves_on(#[trigger] events[i]),
        k + 1 == events.len() || !moves_on(events[k]),
        forall|i: int|
            0 <= i <= k ==> read_from(
                #[trigger] events[i],
                told[i],
                pre.cfg_at(pre.order[i] as int).api_key,
            ),
    ensures
        forall|i: int|
            0 <= i < k ==> pumped(
                #[trigger] told[i],
                pre.cfg_at(pre.order[i] as int).api_key,
            ).sent.len() == 0,
        deltas_of(pre, told, (k + 1) as nat) == deltas(texts_heard(told[k])),
        ({
            let cfg = pre.cfg_at(pre.order[k] as int);
            let message = streamed(first_key(pre), events).message;
            let sent = pumped(told[k], cfg.api_key).sent;
            let failed = events[k] matches StreamEventView::Streamed { outcome, .. }
                && outcome is Terminal;
            &&& !(message matches Some(StreamMsgView::Delta(_)))
            &&& message matches Some(StreamMsgView::Done { model }) ==> model == cfg.model
            &&& (message matches Some(StreamMsgView::Done { .. })) == (sent.len() > 0 && !failed)
            &&& message is None <==> events[k] is Cancelled
        }),
{
    law_stream_tries_keys_in_order(pre, events, k);
    assert forall|i: int| 0 <= i < k implies pumped(
        #[trigger] told[i],
        pre.cfg_at(pre.order[i] as int).api_key,
    ).sent.len() == 0 by {
        assert(moves_on(events[i]));
        law_every_text_is_sent_on(told[i], pre.cfg_at(pre.order[i] as int).api_key);
    }
    let api_key = pre.cfg_at(pre.order[k] as int).api_key;
    law_every_text_is_sent_on(told[k], api_key);
    lemma_no_deltas(pre, told, k as nat);
    assert(deltas_of(pre, told, (k + 1) as nat) =~= deltas(texts_heard(told[k])));
    assert(read_from(events[k], told[k], api_key));
}

/// How many messages were found.
pub open spec fn found(polls: Seq<PollEventView>) -> nat
    decreases polls.len(),
{
    if polls.len() == 0 {
        0
    } else {
        found(polls.drop_last()) + if polls.last() is Message {
            1nat
        } else {
            0nat
        }
    }
}

/// What a caller finds who asks an open stream again and again, where its worker sends these
/// messages and is gone after them: the messages as a queue hands them out, nothing yet where the
/// next one has not come, and no more after the last.
pub open spec fn found_in_turn(sent: Seq<StreamMsgView>, polls: Seq<PollEventView>) -> bool
    decreases polls.len(),
{
    polls.len() > 0 ==> found_in_turn(sent, polls.drop_last()) && {
        let n = found(polls.drop_last());
        match polls.last() {
            PollEventView::Message(msg) => n < sent.len() && msg == sent[n as int],
            PollEventView::Timeout => true,
            PollEventView::Disconnected => n == sent.len(),
            _ => false,
        }
    }
}

/// What the caller is told, without the times that there was nothing yet.
pub open spec fn told_of(polls: Seq<PollEventView>) -> Seq<JsonTree>
    decreases polls.len(),
{
    if polls.len() == 0 {
        Seq::empty()
    } else {
        let before = told_of(polls.drop_last());
        if poll_tree(polls.last()) == pending_tree() {
            before
        } else {
            before.push(poll_tree(polls.last()))
        }
    }
}

/// No message reads as if there were nothing yet.
proof fn lemma_message_is_not_pending(message: StreamMsgView)
    ensures
        message_tree(message) != pending_tree(),
{
    reveal_strlit("type");
    reveal_strlit("text");
    reveal_strlit("model");
    reveal_strlit("errors");
    reveal_strlit("pending");
    reveal_strlit("delta");
    reveal_strlit("done");
    reveal_strlit("error");
    assert("type"@[1] != "text"@[1]);
    assert("type"@.len() != "model"@.len());
    assert("type"@.len() != "errors"@.len());
    assert("pending"@.len() == 7);
    let kind = message_tree(message)->Object_0["type"@];
    assert(kind->Text_0.len() < 7);
    assert(pending_tree()->Object_0["type"@] == JsonTree::Text("pending"@));
}

/// A caller who asks an open stream again and again is told its messages, each once and in the
/// order in which they were sent, whatever times there was nothing yet in between. After the
/// last of them the caller is told every time that the answer is complete, without a model.
pub proof fn law_polls_give_every_message(sent: Seq<StreamMsgView>, polls: Seq<PollEventView>)
    requires
        found_in_turn(sent, polls),
    ensures
        found(polls) <= sent.len(),
        found(polls) <= told_of(polls).len(),
        forall|i: int|
            0 <= i < found(polls) ==> #[trigger] told_of(polls)[i] == message_tree(sent[i]),
        forall|i: int|
            found(polls) <= i < told_of(polls).len() ==> #[trigger] told_of(polls)[i]
                == message_tree(StreamMsgView::Done { model: "unknown"@ }),
        told_of(polls).len() > found(polls) ==> found(polls) == sent.len(),
    decreases polls.len(),
{
    if polls.len() > 0 {
        law_polls_give_every_message(sent, polls.drop_last());
        match polls.last() {
            PollEventView::Message(msg) => {
                lemma_message_is_not_pending(msg);
            },
            PollEventView::Disconnected => {
                lemma_message_is_not_pending(StreamMsgView::Done { model: "unknown"@ });
            },
            _ => {},
        }
    }
}

/// The value says this failed attempt: its key, its code, its status and its message, all
/// unchanged, and nothing else.
pub open spec fn says_detail(value: JsonTree, detail: ErrorDetailView) -> bool {
    value matches JsonTree::Object(fields) && {
        &&& fields.dom() == set!["api_key"@, "code"@, "status"@, "message"@]
        &&& fields["api_key"@] == JsonTree::Text(detail.api_key)
        &&& fields["code"@] == JsonTree::Number(detail.code as nat)
        &&& fields["status"@] == JsonTree::Text(detail.status)
        &&& fields["message"@] == JsonTree::Text(detail.message)
    }
}

/// A failed attempt as JSON says it.
proof fn lemma_says_detail(detail: ErrorDetailView)
    ensures
        says_detail(detail_tree(detail), detail),
{
    reveal_strlit("api_key");
    reveal_strlit("code");
    reveal_strlit("status");
    reveal_strlit("message");
    assert("api_key"@[0] != "message"@[0]);
    assert("api_key"@.len() == 7);
    assert("code"@.len() == 4);
    assert("status"@.len() == 6);
    assert("message"@.len() == 7);
    assert(detail_tree(detail)->Object_0.dom() =~= set!["api_key"@, "code"@, "status"@, "message"@]);
}

/// A message as JSON says its kind and all that it holds, unchanged and however long it is, and
/// nothing else: a text; the model; or the model and every error, in their order.
pub proof fn law_message_is_written_whole(
    text: Seq<char>,
    model: Seq<char>,
    errors: Seq<ErrorDetailView>,
)
    ensures
        has_two_fields(
            message_tree(StreamMsgView::Delta(text)),
            "type"@,
            JsonTree::Text("delta"@),
            "text"@,
            JsonTree::Text(text),
        ),
        has_two_fields(
            message_tree(StreamMsgView::Done { model }),
            "type"@,
            JsonTree::Text("done"@),
            "model"@,
            JsonTree::Text(model),
        ),
        message_tree(StreamMsgView::Error { model, errors }) matches JsonTree::Object(fields) && {
            &&& fields.dom() == set!["type"@, "model"@, "errors"@]
            &&& fields["type"@] == JsonTree::Text("error"@)
            &&& fields["model"@] == JsonTree::Text(model)
            &&& fields["errors"@] matches JsonTree::Array(items) && items.len() == errors.len()
                && (forall|i: int|
                0 <= i < errors.len() ==> says_detail(#[trigger] items[i], errors[i]))
        },
{
    reveal_strlit("type");
    reveal_strlit("text");
    reveal_strlit("model");
    reveal_strlit("errors");
    assert("type"@[1] != "text"@[1]);
    assert("type"@.len() == 4);
    assert("model"@.len() == 5);
    assert("errors"@.len() == 6);
    assert(message_tree(StreamMsgView::Delta(text))->Object_0.dom() =~= set!["type"@, "text"@]);
    assert(message_tree(StreamMsgView::Done { model })->Object_0.dom() =~= set![
        "type"@,
        "model"@,
    ]);
    let fields = message_tree(StreamMsgView::Error { model, errors })->Object_0;
    assert(fields.dom() =~= set!["type"@, "model"@, "errors"@]);
    let items = fields["errors"@]->Array_0;
    assert forall|i: int| 0 <= i < errors.len() implies says_detail(
        #[trigger] items[i],
        errors[i],
    ) by {
        lemma_says_detail(errors[i]);
    }
}

/// A caller who asks a stream is told its message, that there is nothing yet, that it is
/// complete, or what is wrong, in these words.
pub proof fn law_poll_is_answered(message: StreamMsgView)
    ensures
        poll_tree(PollEventView::Message(message)) == message_tree(message),
        has_one_field(
            poll_tree(PollEventView::Timeout),
            "type"@,
            JsonTree::Text("pending"@),
        ),
        poll_tree(PollEventView::Disconnected) == message_tree(
            StreamMsgView::Done { model: "unknown"@ },
        ),
        complains(
            poll_tree(PollEventView::LockPoisoned),
            "LOCK_POISONED"@,
            "stream registry lock is poisoned"@,
        ),
        complains(
            poll_tree(PollEventView::UnknownHandle),
            "UNKNOWN_HANDLE"@,
            "stream handle not found (already closed?)"@,
        ),
        complains(
            poll_tree(PollEventView::Panicked),
            "FATAL_PANIC"@,
            "Panic inside FFI boundary"@,
        ),
        complains(poll_tree(PollEventView::NullByte), "NULL_BYTE_ERROR"@, "Null byte error"@),
{
    assert(pending_tree()->Object_0.dom() =~= set!["type"@]);
}

/// The value is an error message without a model and a key, of this status and with this message.
pub open spec fn complains(value: JsonTree, status: Seq<char>, message: Seq<char>) -> bool {
    value == message_tree(
        StreamMsgView::Error {
            model: "unknown"@,
            errors: seq![
                ErrorDetailView { api_key: Seq::empty(), code: 0, status, message },
            ],
        },
    )
}

/// A refused preparation is told to the caller of a stream word for word, without a model and a
/// key.
pub proof fn law_refused_stream_says_why(status: Seq<char>, message: Seq<char>)
    ensures
        keyless_message(status, message) matches StreamMsgView::Error { model, errors } && {
            &&& model == "unknown"@
            &&& errors.len() == 1
            &&& errors[0].api_key.len() == 0
            &&& errors[0].code == 0
            &&& errors[0].status == status
            &&& errors[0].message == message
        },
{
}

/// The stream ends with an error under the model of the key that was tried, with every failure so
/// far and this one last, all unchanged, and the next call begins where this one did.
pub open spec fn ends_with_error(
    step: StreamStepView,
    run: KeyRunView,
    detail: ErrorDetailView,
) -> bool {
    step matches StreamStepView::Finish(end) && end.pointer is None && (end.message matches Some(
        StreamMsgView::Error { model, errors },
    ) && {
        &&& model == run.pre.cfgs[run.pre.valid[run.pre.order[run.slot as int] as int] as int].model
        &&& errors.len() == run.attempts.len() + 1
        &&& errors.last() == detail
        &&& forall|i: int|
            0 <= i < run.attempts.len() ==> #[trigger] errors[i] == run.attempts[i]
    })
}

/// The next key is tried, and this failure is kept after those so far.
pub open spec fn tries_next(
    step: StreamStepView,
    run: KeyRunView,
    detail: ErrorDetailView,
) -> bool {
    step matches StreamStepView::TryKey(next) && {
        &&& next.pre == run.pre
        &&& next.slot == run.slot + 1
        &&& next.attempts == run.attempts.push(detail)
    }
}

/// A failure before any text was sent on: where it blames the key and there is another one, that
/// is tried; else it is reported. A failure of a stream that does not blame the key is reported
/// whether a text was sent on or not.
pub proof fn law_stream_failure_is_kept_or_reported(
    run: KeyRunView,
    failure: AskFailureView,
    detail: ErrorDetailView,
    any_delta: bool,
)
    requires
        run.wf(),
    ensures
        ({
            let more = run.slot + 1 < run.pre.order.len();
            let failed = stream_step(run, StreamEventView::Failed(failure));
            let blamed = stream_step(
                run,
                StreamEventView::Streamed {
                    outcome: SseOutcomeView::RotateEligible(detail),
                    any_delta: false,
                },
            );
            let broken = stream_step(
                run,
                StreamEventView::Streamed { outcome: SseOutcomeView::Terminal(detail), any_delta },
            );
            &&& failure.kind is RotateKey && more ==> tries_next(failed, run, failure.detail)
            &&& !(failure.kind is RotateKey) || !more ==> ends_with_error(
                failed,
                run,
                failure.detail,
            )
            &&& more ==> tries_next(blamed, run, detail)
            &&& !more ==> ends_with_error(blamed, run, detail)
            &&& ends_with_error(broken, run, detail)
        }),
{
}

/// A stream that came to its end is complete under the model of its key if a text was sent on,
/// and else is an error that says so, with the masked key.
pub proof fn law_stream_is_complete_with_text(run: KeyRunView)
    requires
        run.wf(),
    ensures
        ({
            let cfg = run.pre.cfgs[run.pre.valid[run.pre.order[run.slot as int] as int] as int];
            let with_text = stream_step(
                run,
                StreamEventView::Streamed { outcome: SseOutcomeView::Ended, any_delta: true },
            );
            let without = stream_step(
                run,
                StreamEventView::Streamed { outcome: SseOutcomeView::Ended, any_delta: false },
            );
            &&& with_text matches StreamStepView::Finish(end) && end.pointer is None
                && end.message == Some(StreamMsgView::Done { model: cfg.model })
            &&& ends_with_error(
                without,
                run,
                ErrorDetailView {
                    api_key: masked(cfg.api_key),
                    code: 0,
                    status: "NO_CANDIDATES"@,
                    message: "stream ended with no content"@,
                },
            )
        }),
{
}

/// A key that is to blame after a text was sent on ends the stream as complete under its model,
/// and the next call begins at the place after it, or at the first after the last.
pub proof fn law_blamed_key_after_text_completes(run: KeyRunView, detail: ErrorDetailView)
    requires
        run.wf(),
    ensures
        stream_step(
            run,
            StreamEventView::Streamed {
                outcome: SseOutcomeView::RotateEligible(detail),
                any_delta: true,
            },
        ) matches StreamStepView::Finish(end) && {
            let pos = run.pre.order[run.slot as int];
            &&& end.message == Some(
                StreamMsgView::Done { model: run.pre.cfgs[run.pre.valid[pos as int] as int].model },
            )
            &&& end.pointer matches Some(pointer) && {
                &&& pos + 1 < run.pre.order.len() ==> pointer == pos + 1
                &&& pos + 1 == run.pre.order.len() ==> pointer == 0
            }
        },
{
    law_each_key_has_one_place(run.pre);
    let pos = run.pre.order[run.slot as int];
    assert(pos < run.pre.valid.len());
    let n = run.pre.order.len();
    if pos + 1 < n {
        vstd::arithmetic::div_mod::lemma_small_mod((pos + 1) as nat, n);
    } else {
        vstd::arithmetic::div_mod::lemma_mod_self_0(n as int);
    }
}

/// What is said of these values is said of all that they hold.
pub proof fn law_stream_views_leave_nothing_out(
    text: String,
    model: String,
    errors: Vec<ErrorDetail>,
    message: StreamMsg,
    failure: AskFailure,
    outcome: SseOutcome,
    any_delta: bool,
    end: StreamEnd,
    run: KeyRun,
)
    ensures
        StreamMsg::Delta(text)@ == StreamMsgView::Delta(text@),
        (StreamMsg::Done { model })@ == (StreamMsgView::Done { model: model@ }),
        (StreamMsg::Error { model, errors })@ == (StreamMsgView::Error {
            model: model@,
            errors: errors.deep_view(),
        }),
        PollEvent::LockPoisoned@ == PollEventView::LockPoisoned,
        PollEvent::UnknownHandle@ == PollEventView::UnknownHandle,
        PollEvent::Message(message)@ == PollEventView::Message(message@),
        PollEvent::Timeout@ == PollEventView::Timeout,
        PollEvent::Disconnected@ == PollEventView::Disconnected,
        PollEvent::Panicked@ == PollEventView::Panicked,
        PollEvent::NullByte@ == PollEventView::NullByte,
        StreamEvent::Cancelled@ == StreamEventView::Cancelled,
        StreamEvent::Failed(failure)@ == StreamEventView::Failed(failure@),
        (StreamEvent::Streamed { outcome, any_delta })@ == (StreamEventView::Streamed {
            outcome: outcome@,
            any_delta,
        }),
        end@.pointer == end.pointer,
        end.message is None <==> end@.message is None,
        end.message matches Some(last) ==> end@.message == Some(last@),
        StreamStep::TryKey(run)@ == StreamStepView::TryKey(run@),
        StreamStep::Finish(end)@ == StreamStepView::Finish(end@),
{
}

} // verus!
