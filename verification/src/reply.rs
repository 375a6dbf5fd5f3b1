//! How the answers of the service are read.

use vstd::prelude::*;
use vstd::string::*;

use crate::config::CfgEntry;
use crate::failure::{
    described, describe_ureq_error, hideable, hides_key, law_described_failure_hides_key,
    law_local_failure_hides_key, terminal_failure, terminal_local, AskFailure, AskFailureView,
    HttpFailure, HttpFailureView,
};
use crate::mask::{law_redacted_message_has_no_key, masked, maskable, redacted};
use crate::request::{
    upload_bytes_call, upload_bytes_request, upload_start_call, upload_start_request, HttpRequest,
    HttpRequestView,
};
use crate::text::{join2, join3};

verus! {

/// A piece of generated text.
#[derive(Debug, PartialEq, Eq)]
pub struct Part {
    pub text: String,
}

impl DeepView for Part {
    type V = Seq<char>;

    open spec fn deep_view(&self) -> Seq<char> {
        self.text@
    }
}

/// Generated content.
#[derive(Debug, PartialEq, Eq)]
pub struct Content {
    pub parts: Vec<Part>,
}

/// One of the answers that the model offers.
#[derive(Debug, PartialEq, Eq)]
pub struct Candidate {
    pub content: Content,
    pub finish_reason: String,
}

/// A `Candidate`: the texts of its parts, and why it ends.
pub struct CandidateView {
    pub parts: Seq<Seq<char>>,
    pub finish_reason: Seq<char>,
}

impl DeepView for Candidate {
    type V = CandidateView;

    open spec fn deep_view(&self) -> CandidateView {
        CandidateView {
            parts: self.content.parts.deep_view(),
            finish_reason: self.finish_reason@,
        }
    }
}

/// What the service says of the prompt.
#[derive(Debug, PartialEq, Eq)]
pub struct PromptFeedback {
    pub block_reason: String,
}

/// The answer to a request for content, or one piece of it.
#[derive(Debug, PartialEq, Eq)]
pub struct GenResponse {
    pub candidates: Vec<Candidate>,
    pub prompt_feedback: Option<PromptFeedback>,
}

/// A `GenResponse`: its candidates, and why the prompt was blocked, where feedback is
/// given.
pub struct GenResponseView {
    pub candidates: Seq<CandidateView>,
    pub block_reason: Option<Seq<char>>,
}

impl View for GenResponse {
    type V = GenResponseView;

    open spec fn view(&self) -> GenResponseView {
        GenResponseView {
            candidates: self.candidates.deep_view(),
            block_reason: match self.prompt_feedback {
                Some(feedback) => Some(feedback.block_reason@),
                None => None,
            },
        }
    }
}

/// What came back on a request for content.
#[derive(Debug, PartialEq, Eq)]
pub enum GenerateReply {
    /// The request failed.
    Failed(HttpFailure),
    /// The answer could not be read; why.
    Unreadable(String),
    /// The answer.
    Answer(GenResponse),
}

/// A `GenerateReply` over sequences of characters.
pub enum GenerateReplyView {
    Failed(HttpFailureView),
    Unreadable(Seq<char>),
    Answer(GenResponseView),
}

impl View for GenerateReply {
    type V = GenerateReplyView;

    open spec fn view(&self) -> GenerateReplyView {
        match *self {
            GenerateReply::Failed(failure) => GenerateReplyView::Failed(failure@),
            GenerateReply::Unreadable(why) => GenerateReplyView::Unreadable(why@),
            GenerateReply::Answer(response) => GenerateReplyView::Answer(response@),
        }
    }
}

/// A text or a failure, over sequences of characters.
pub open spec fn outcome_view(outcome: Result<String, AskFailure>) -> Result<
    Seq<char>,
    AskFailureView,
> {
    match outcome {
        Ok(text) => Ok(text@),
        Err(failure) => Err(failure@),
    }
}

/// The text of an answer: that of its first candidate, empty where there is none.
pub open spec fn answer_text(response: GenResponseView) -> Seq<char> {
    if response.candidates.len() > 0 {
        response.candidates[0].parts.flatten()
    } else {
        Seq::empty()
    }
}

/// Why an answer without text has none: its status and its message.
pub open spec fn no_text_reason(response: GenResponseView) -> (Seq<char>, Seq<char>) {
    if response.candidates.len() > 0 {
        ("EMPTY_RESPONSE"@, "finishReason: "@ + response.candidates[0].finish_reason)
    } else {
        match response.block_reason {
            Some(reason) if reason.len() > 0 => (
                "PROMPT_BLOCKED"@,
                "prompt blocked ("@ + reason + ")"@,
            ),
            _ => ("NO_CANDIDATES"@, "no candidates returned"@),
        }
    }
}

/// What a reply gives the caller: the generated text, or the failure.
pub open spec fn generated(reply: GenerateReplyView, api_key: Seq<char>) -> Result<
    Seq<char>,
    AskFailureView,
> {
    match reply {
        GenerateReplyView::Failed(failure) => Err(described(failure, api_key)),
        GenerateReplyView::Unreadable(why) => Err(
            terminal_local(api_key, "BAD_GENERATE_JSON"@, why),
        ),
        GenerateReplyView::Answer(response) => {
            if answer_text(response).len() > 0 {
                Ok(answer_text(response))
            } else {
                let (status, message) = no_text_reason(response);
                Err(terminal_local(api_key, status, message))
            }
        },
    }
}

/// The texts of the parts, one after the other.
fn parts_text(parts: &Vec<Part>) -> (text: String)
    ensures
        text@ == parts.deep_view().flatten(),
{
    let mut text = String::new();
    let mut i: usize = 0;
    assert(parts.deep_view().take(0).flatten() == Seq::<char>::empty());
    while i < parts.len()
        invariant
            i <= parts.len(),
            text@ == parts.deep_view().take(i as int).flatten(),
        decreases parts.len() - i,
    {
        text.append(parts[i].text.as_str());
        proof {
            let all = parts.deep_view();
            all.take(i as int).lemma_flatten_push(all[i as int]);
            assert(all.take(i + 1) == all.take(i as int).push(all[i as int]));
        }
        i = i + 1;
    }
    assert(parts.deep_view().take(parts.len() as int) == parts.deep_view());
    text
}

/// The text of an answer, empty where there is none.
pub fn response_text(response: &GenResponse) -> (text: String)
    ensures
        text@ == answer_text(response@),
{
    if response.candidates.len() > 0 {
        assert(response.candidates.deep_view()[0].parts
            == response.candidates[0].content.parts.deep_view());
        parts_text(&response.candidates[0].content.parts)
    } else {
        String::new()
    }
}

/// Reads what came back on a request for content.
pub fn generate(cfg: &CfgEntry, reply: GenerateReply) -> (outcome: Result<String, AskFailure>)
    requires
        generated(reply@, cfg.api_key@) is Err ==> maskable(cfg.api_key@),
    ensures
        outcome_view(outcome) == generated(reply@, cfg.api_key@),
{
    let api_key = cfg.api_key.as_str();
    match reply {
        GenerateReply::Failed(failure) => Err(describe_ureq_error(failure, api_key)),
        GenerateReply::Unreadable(why) => Err(
            terminal_failure(api_key, "BAD_GENERATE_JSON", why.as_str()),
        ),
        GenerateReply::Answer(response) => {
            let text = response_text(&response);
            if !text.as_str().is_empty() {
                return Ok(text);
            }
            if response.candidates.len() > 0 {
                let candidate = &response.candidates[0];
                assert(response.candidates.deep_view()[0].finish_reason
                    == candidate.finish_reason@);
                let message = join2("finishReason: ", candidate.finish_reason.as_str());
                return Err(terminal_failure(api_key, "EMPTY_RESPONSE", message.as_str()));
            }
            match &response.prompt_feedback {
                Some(feedback) if !feedback.block_reason.as_str().is_empty() => {
                    let message = join3("prompt blocked (", feedback.block_reason.as_str(), ")");
                    Err(terminal_failure(api_key, "PROMPT_BLOCKED", message.as_str()))
                },
                _ => Err(terminal_failure(api_key, "NO_CANDIDATES", "no candidates returned")),
            }
        },
    }
}

/// What happens in the course of one upload.
#[derive(Debug, PartialEq, Eq)]
pub enum UploadEvent {
    /// The upload begins.
    Begin,
    /// The announcement failed.
    AnnounceFailed(HttpFailure),
    /// The announcement was accepted; where the bytes go, if the answer says so.
    Announced(Option<String>),
    /// Sending the bytes failed.
    SendFailed(HttpFailure),
    /// The bytes were accepted, but the answer could not be read; why.
    Unreadable(String),
    /// The bytes were accepted; the URI of the file.
    Stored(String),
}

/// An `UploadEvent` over sequences of characters.
pub enum UploadEventView {
    Begin,
    AnnounceFailed(HttpFailureView),
    Announced(Option<Seq<char>>),
    SendFailed(HttpFailureView),
    Unreadable(Seq<char>),
    Stored(Seq<char>),
}

impl View for UploadEvent {
    type V = UploadEventView;

    open spec fn view(&self) -> UploadEventView {
        match *self {
            UploadEvent::Begin => UploadEventView::Begin,
            UploadEvent::AnnounceFailed(failure) => UploadEventView::AnnounceFailed(failure@),
            UploadEvent::Announced(url) => UploadEventView::Announced(url.deep_view()),
            UploadEvent::SendFailed(failure) => UploadEventView::SendFailed(failure@),
            UploadEvent::Unreadable(why) => UploadEventView::Unreadable(why@),
            UploadEvent::Stored(uri) => UploadEventView::Stored(uri@),
        }
    }
}

/// What is to be done next in an upload.
#[derive(Debug, PartialEq, Eq)]
pub enum UploadAction {
    /// Send this request.
    Send(HttpRequest),
    /// The upload is over: the URI of the file, or the failure.
    Finish(Result<String, AskFailure>),
}

/// An `UploadAction` over sequences of characters.
pub enum UploadActionView {
    Send(HttpRequestView),
    Finish(Result<Seq<char>, AskFailureView>),
}

impl View for UploadAction {
    type V = UploadActionView;

    open spec fn view(&self) -> UploadActionView {
        match *self {
            UploadAction::Send(request) => UploadActionView::Send(request@),
            UploadAction::Finish(outcome) => UploadActionView::Finish(outcome_view(outcome)),
        }
    }
}

/// What follows on an event of an upload of `len` bytes: the bytes are announced, then
/// sent to where the answer says, and the upload succeeds with the URI that comes back,
/// which may not be empty.
pub open spec fn upload_step(
    api_key: Seq<char>,
    len: nat,
    mime: Seq<char>,
    event: UploadEventView,
) -> UploadActionView {
    match event {
        UploadEventView::Begin => UploadActionView::Send(upload_start_call(api_key, len, mime)),
        UploadEventView::AnnounceFailed(failure) => UploadActionView::Finish(
            Err(described(failure, api_key)),
        ),
        UploadEventView::Announced(Some(url)) => UploadActionView::Send(
            upload_bytes_call(url, len),
        ),
        UploadEventView::Announced(None) => UploadActionView::Finish(
            Err(
                terminal_local(
                    api_key,
                    "MISSING_HEADER"@,
                    "Upload start response missing X-Goog-Upload-URL"@,
                ),
            ),
        ),
        UploadEventView::SendFailed(failure) => UploadActionView::Finish(
            Err(described(failure, api_key)),
        ),
        UploadEventView::Unreadable(why) => UploadActionView::Finish(
            Err(terminal_local(api_key, "BAD_UPLOAD_JSON"@, why)),
        ),
        UploadEventView::Stored(uri) => UploadActionView::Finish(
            if uri.len() > 0 {
                Ok(uri)
            } else {
                Err(
                    terminal_local(
                        api_key,
                        "EMPTY_FILE_URI"@,
                        "Upload response had empty file uri"@,
                    ),
                )
            },
        ),
    }
}

/// Decides what follows on an event of an upload.
pub fn upload_file(api_key: &str, len: u64, mime: &str, event: UploadEvent) -> (action:
    UploadAction)
    requires
        upload_step(api_key@, len as nat, mime@, event@) matches UploadActionView::Finish(Err(_))
            ==> maskable(api_key@),
    ensures
        action@ == upload_step(api_key@, len as nat, mime@, event@),
{
    match event {
        UploadEvent::Begin => UploadAction::Send(upload_start_request(api_key, len, mime)),
        UploadEvent::AnnounceFailed(failure) => UploadAction::Finish(
            Err(describe_ureq_error(failure, api_key)),
        ),
        UploadEvent::Announced(Some(url)) => UploadAction::Send(
            upload_bytes_request(url.as_str(), len),
        ),
        UploadEvent::Announced(None) => UploadAction::Finish(
            Err(
                terminal_failure(
                    api_key,
                    "MISSING_HEADER",
                    "Upload start response missing X-Goog-Upload-URL",
                ),
            ),
        ),
        UploadEvent::SendFailed(failure) => UploadAction::Finish(
            Err(describe_ureq_error(failure, api_key)),
        ),
        UploadEvent::Unreadable(why) => UploadAction::Finish(
            Err(terminal_failure(api_key, "BAD_UPLOAD_JSON", why.as_str())),
        ),
        UploadEvent::Stored(uri) => {
            if uri.as_str().is_empty() {
                UploadAction::Finish(
                    Err(
                        terminal_failure(
                            api_key,
                            "EMPTY_FILE_URI",
                            "Upload response had empty file uri",
                        ),
                    ),
                )
            } else {
                UploadAction::Finish(Ok(uri))
            }
        },
    }
}

/// A generated text is never empty, and it is the text of the first candidate.
pub proof fn law_generated_text_is_not_empty(reply: GenerateReplyView, api_key: Seq<char>)
    ensures
        generated(reply, api_key) is Ok <==> (reply matches GenerateReplyView::Answer(response)
            && response.candidates.len() > 0 && response.candidates[0].parts.flatten().len() > 0),
        generated(reply, api_key) matches Ok(text) ==> text.len() > 0 && text
            == reply->Answer_0.candidates[0].parts.flatten(),
{
}

/// However a request for content fails, the key is hidden.
pub proof fn law_generate_failure_hides_key(reply: GenerateReplyView, api_key: Seq<char>)
    requires
        hideable(api_key),
    ensures
        generated(reply, api_key) matches Err(failure) ==> hides_key(failure.detail, api_key),
{
    match reply {
        GenerateReplyView::Failed(failure) => {
            law_described_failure_hides_key(failure, api_key);
        },
        GenerateReplyView::Unreadable(why) => {
            law_local_failure_hides_key(api_key, "BAD_GENERATE_JSON"@, why);
        },
        GenerateReplyView::Answer(response) => {
            let (status, message) = no_text_reason(response);
            law_local_failure_hides_key(api_key, status, message);
        },
    }
}

/// Only an answer with an error status can mean that the next key is worth trying: an answer
/// that cannot be read or has no text is no matter of the key.
pub proof fn law_bad_answer_does_not_rotate(reply: GenerateReplyView, api_key: Seq<char>)
    ensures
        generated(reply, api_key) matches Err(failure) ==> failure.kind is RotateKey ==> reply
            matches GenerateReplyView::Failed(HttpFailureView::Status { .. }),
{
}

/// A step of an upload sends a request at the beginning and where the announcement was
/// answered with a place for the bytes, and else ends it: with the URI that came back, which is
/// not empty, or with a failure that hides the key.
pub proof fn law_upload_failure_hides_key(
    api_key: Seq<char>,
    len: nat,
    mime: Seq<char>,
    event: UploadEventView,
)
    requires
        hideable(api_key),
    ensures
        upload_step(api_key, len, mime, event) is Send <==> event is Begin || (event
            matches UploadEventView::Announced(url) && url is Some),
        upload_step(api_key, len, mime, event) matches UploadActionView::Finish(Ok(uri))
            ==> uri.len() > 0 && event == UploadEventView::Stored(uri),
        upload_step(api_key, len, mime, event) matches UploadActionView::Finish(Err(failure))
            ==> hides_key(failure.detail, api_key),
{
    match event {
        UploadEventView::AnnounceFailed(failure) => {
            law_described_failure_hides_key(failure, api_key);
        },
        UploadEventView::SendFailed(failure) => {
            law_described_failure_hides_key(failure, api_key);
        },
        _ => {
            if let UploadActionView::Finish(Err(_)) = upload_step(api_key, len, mime, event) {
                let why = match event {
                    UploadEventView::Unreadable(why) => why,
                    UploadEventView::Stored(_) => "Upload response had empty file uri"@,
                    _ => "Upload start response missing X-Goog-Upload-URL"@,
                };
                law_redacted_message_has_no_key(why, api_key);
            }
        },
    }
}

/// The event is one that may come when this is to be done: what comes of the announcement, or
/// of sending the bytes.
pub open spec fn upload_answers(action: UploadActionView, event: UploadEventView) -> bool {
    match action {
        UploadActionView::Send(request) => if request.body is File {
            event is SendFailed || event is Unreadable || event is Stored
        } else {
            event is AnnounceFailed || event is Announced
        },
        UploadActionView::Finish(_) => false,
    }
}

/// The upload begins, and each event after that is one that may come when it comes.
pub open spec fn uploaded_in_turn(
    api_key: Seq<char>,
    len: nat,
    mime: Seq<char>,
    told: Seq<UploadEventView>,
) -> bool
    decreases told.len(),
{
    if told.len() == 0 {
        false
    } else if told.len() == 1 {
        told[0] is Begin
    } else {
        &&& uploaded_in_turn(api_key, len, mime, told.drop_last())
        &&& upload_answers(upload_step(api_key, len, mime, told[told.len() - 2]), told.last())
    }
}

/// The requests that are sent on these events.
pub open spec fn upload_requests(
    api_key: Seq<char>,
    len: nat,
    mime: Seq<char>,
    told: Seq<UploadEventView>,
) -> Seq<HttpRequestView>
    decreases told.len(),
{
    if told.len() == 0 {
        Seq::empty()
    } else {
        let before = upload_requests(api_key, len, mime, told.drop_last());
        match upload_step(api_key, len, mime, told.last()) {
            UploadActionView::Send(request) => before.push(request),
            UploadActionView::Finish(_) => before,
        }
    }
}

/// What each event of an upload can be.
proof fn lemma_upload_events(
    api_key: Seq<char>,
    len: nat,
    mime: Seq<char>,
    told: Seq<UploadEventView>,
)
    requires
        uploaded_in_turn(api_key, len, mime, told),
    ensures
        1 <= told.len() <= 3,
        told[0] is Begin,
        told.len() >= 2 ==> told[1] is AnnounceFailed || told[1] is Announced,
        told.len() == 3 ==> {
            &&& told[1] matches UploadEventView::Announced(url) && url is Some
            &&& told[2] is SendFailed || told[2] is Unreadable || told[2] is Stored
        },
    decreases told.len(),
{
    if told.len() > 1 {
        let before = told.drop_last();
        lemma_upload_events(api_key, len, mime, before);
        assert(before.last() == told[told.len() - 2]);
    }
}

/// An upload is announced first, and only then are its bytes sent, once, to where the answer to
/// the announcement says. It succeeds where both were accepted, with the URI that came back.
pub proof fn law_upload_is_announced_then_sent(
    api_key: Seq<char>,
    len: nat,
    mime: Seq<char>,
    told: Seq<UploadEventView>,
)
    requires
        uploaded_in_turn(api_key, len, mime, told),
    ensures
        1 <= told.len() <= 3,
        upload_requests(api_key, len, mime, told) == if told.len() >= 2 && (told[1]
            matches UploadEventView::Announced(url) && url is Some) {
            seq![
                upload_start_call(api_key, len, mime),
                upload_bytes_call(told[1]->Announced_0->Some_0, len),
            ]
        } else {
            seq![upload_start_call(api_key, len, mime)]
        },
        upload_step(api_key, len, mime, told.last()) matches UploadActionView::Finish(Ok(uri))
            ==> told.len() == 3 && told[2] == UploadEventView::Stored(uri) && uri.len() > 0 && (
        told[1] matches UploadEventView::Announced(url) && url is Some),
    decreases told.len(),
{
    lemma_upload_events(api_key, len, mime, told);
    if told.len() == 1 {
        assert(told.drop_last() =~= Seq::empty());
        assert(upload_requests(api_key, len, mime, told.drop_last()) =~= Seq::empty());
    } else {
        law_upload_is_announced_then_sent(api_key, len, mime, told.drop_last());
    }
    assert(upload_requests(api_key, len, mime, told) =~= if told.len() >= 2 && (told[1]
        matches UploadEventView::Announced(url) && url is Some) {
        seq![
            upload_start_call(api_key, len, mime),
            upload_bytes_call(told[1]->Announced_0->Some_0, len),
        ]
    } else {
        seq![upload_start_call(api_key, len, mime)]
    });
}

/// The text of an answer is every part of its first candidate, one after the other and none
/// left out, however many and however long they are.
pub proof fn law_text_is_every_part(response: GenResponseView, before: Seq<Seq<char>>, part: Seq<char>)
    requires
        response.candidates.len() > 0,
        response.candidates[0].parts == before.push(part),
    ensures
        answer_text(response) == before.flatten() + part,
        response.candidates[0].parts.len() == 1 ==> answer_text(response) == part,
{
    before.lemma_flatten_push(part);
    if before.len() == 0 {
        assert(before =~= Seq::empty());
        assert(before.flatten() =~= Seq::empty());
        assert(before.flatten() + part =~= part);
    }
}

/// Why there is no text: the reason that the candidate ended, that the prompt was blocked with,
/// or that there is no candidate.
pub proof fn law_missing_text_is_explained(response: GenResponseView, api_key: Seq<char>)
    requires
        answer_text(response).len() == 0,
    ensures
        generated(GenerateReplyView::Answer(response), api_key) matches Err(failure) && {
            let detail = failure.detail;
            &&& failure.kind is Terminal
            &&& detail.api_key == masked(api_key)
            &&& detail.code == 0
            &&& response.candidates.len() > 0 ==> detail.status == "EMPTY_RESPONSE"@
                && detail.message == redacted(
                "finishReason: "@ + response.candidates[0].finish_reason,
                api_key,
            )
            &&& response.candidates.len() == 0 && response.block_reason is Some
                && response.block_reason->Some_0.len() > 0 ==> detail.status == "PROMPT_BLOCKED"@
                && detail.message == redacted(
                "prompt blocked ("@ + response.block_reason->Some_0 + ")"@,
                api_key,
            )
            &&& response.candidates.len() == 0 && (response.block_reason is None
                || response.block_reason->Some_0.len() == 0) ==> detail.status
                == "NO_CANDIDATES"@ && detail.message == redacted(
                "no candidates returned"@,
                api_key,
            )
        },
{
}

/// A failed request is described as any, and an answer that cannot be read is reported with the
/// reason.
pub proof fn law_failed_request_is_described(
    failure: HttpFailureView,
    why: Seq<char>,
    api_key: Seq<char>,
)
    ensures
        generated(GenerateReplyView::Failed(failure), api_key) == Err::<Seq<char>, AskFailureView>(
            described(failure, api_key),
        ),
        generated(GenerateReplyView::Unreadable(why), api_key) matches Err(unread) && {
            &&& unread.kind is Terminal
            &&& unread.detail.api_key == masked(api_key)
            &&& unread.detail.code == 0
            &&& unread.detail.status == "BAD_GENERATE_JSON"@
            &&& unread.detail.message == redacted(why, api_key)
        },
{
}

/// What follows on each event of an upload: the announcement; the bytes, to the very address that
/// came back; the URI that came back, unchanged; or the failure, with its reason.
pub proof fn law_upload_follows_the_answers(
    api_key: Seq<char>,
    len: nat,
    mime: Seq<char>,
    text: Seq<char>,
    failure: HttpFailureView,
)
    requires
        text.len() > 0,
    ensures
        upload_step(api_key, len, mime, UploadEventView::Begin) == UploadActionView::Send(
            upload_start_call(api_key, len, mime),
        ),
        upload_step(api_key, len, mime, UploadEventView::Announced(Some(text)))
            == UploadActionView::Send(upload_bytes_call(text, len)),
        upload_step(api_key, len, mime, UploadEventView::Stored(text)) == UploadActionView::Finish(
            Ok(text),
        ),
        upload_step(api_key, len, mime, UploadEventView::AnnounceFailed(failure))
            == UploadActionView::Finish(Err(described(failure, api_key))),
        upload_step(api_key, len, mime, UploadEventView::SendFailed(failure))
            == UploadActionView::Finish(Err(described(failure, api_key))),
        fails_with(
            upload_step(api_key, len, mime, UploadEventView::Announced(None)),
            api_key,
            "MISSING_HEADER"@,
            "Upload start response missing X-Goog-Upload-URL"@,
        ),
        fails_with(
            upload_step(api_key, len, mime, UploadEventView::Unreadable(text)),
            api_key,
            "BAD_UPLOAD_JSON"@,
            text,
        ),
        fails_with(
            upload_step(api_key, len, mime, UploadEventView::Stored(Seq::empty())),
            api_key,
            "EMPTY_FILE_URI"@,
            "Upload response had empty file uri"@,
        ),
{
}

/// The upload ends with a failure found on this side, of this status and with this message
/// without the key.
pub open spec fn fails_with(
    action: UploadActionView,
    api_key: Seq<char>,
    status: Seq<char>,
    message: Seq<char>,
) -> bool {
    action matches UploadActionView::Finish(Err(failure)) && {
        &&& failure.kind is Terminal
        &&& failure.detail.api_key == masked(api_key)
        &&& failure.detail.code == 0
        &&& failure.detail.status == status
        &&& failure.detail.message == redacted(message, api_key)
    }
}

/// What is said of these values is said of all that they hold.
pub proof fn law_reply_views_leave_nothing_out(
    response: GenResponse,
    failure: HttpFailure,
    text: String,
    outcome_failure: AskFailure,
    url: Option<String>,
    request: HttpRequest,
)
    ensures
        response@.candidates.len() == response.candidates@.len(),
        forall|i: int|
            0 <= i < response.candidates@.len() ==> {
                let candidate = response.candidates@[i];
                let view = #[trigger] response@.candidates[i];
                &&& view.finish_reason == candidate.finish_reason@
                &&& view.parts.len() == candidate.content.parts@.len()
                &&& forall|j: int|
                    0 <= j < view.parts.len() ==> #[trigger] view.parts[j]
                        == candidate.content.parts@[j].text@
            },
        response.prompt_feedback is None <==> response@.block_reason is None,
        response.prompt_feedback matches Some(feedback) ==> response@.block_reason == Some(
            feedback.block_reason@,
        ),
        GenerateReply::Failed(failure)@ == GenerateReplyView::Failed(failure@),
        GenerateReply::Unreadable(text)@ == GenerateReplyView::Unreadable(text@),
        GenerateReply::Answer(response)@ == GenerateReplyView::Answer(response@),
        outcome_view(Ok(text)) == Ok::<Seq<char>, AskFailureView>(text@),
        outcome_view(Err(outcome_failure)) == Err::<Seq<char>, AskFailureView>(outcome_failure@),
        UploadEvent::Begin@ == UploadEventView::Begin,
        UploadEvent::AnnounceFailed(failure)@ == UploadEventView::AnnounceFailed(failure@),
        UploadEvent::SendFailed(failure)@ == UploadEventView::SendFailed(failure@),
        UploadEvent::Unreadable(text)@ == UploadEventView::Unreadable(text@),
        UploadEvent::Stored(text)@ == UploadEventView::Stored(text@),
        UploadEvent::Announced(None)@ == UploadEventView::Announced(None),
        url matches Some(address) ==> UploadEvent::Announced(url)@ == UploadEventView::Announced(
            Some(address@),
        ),
        UploadAction::Send(request)@ == UploadActionView::Send(request@),
        UploadAction::Finish(Ok(text))@ == UploadActionView::Finish(Ok(text@)),
        UploadAction::Finish(Err(outcome_failure))@ == UploadActionView::Finish(
            Err(outcome_failure@),
        ),
{
}

} // verus!
