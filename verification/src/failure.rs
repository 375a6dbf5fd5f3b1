//! Failures of a request, and what each of them means for the keys still to try.

use vstd::prelude::*;

use crate::mask::{
    clear_of, law_message_without_key_is_kept, law_redacted_message_has_no_key, mask_api_key,
    masked, maskable, redact, redacted,
};
use crate::text::{
    begins_with, contains_text, same_text, starts_with, take_chars, truncated,
};

verus! {

/// How much of an error body that cannot be read as an error is kept.
pub const MAX_ERR_BODY_CHARS: usize = 1000;

/// One failed attempt, as the caller gets to see it.
#[derive(Debug, PartialEq, Eq)]
pub struct ErrorDetail {
    pub api_key: String,
    pub code: u16,
    pub status: String,
    pub message: String,
}

/// An `ErrorDetail` over sequences of characters.
pub struct ErrorDetailView {
    pub api_key: Seq<char>,
    pub code: u16,
    pub status: Seq<char>,
    pub message: Seq<char>,
}

impl View for ErrorDetail {
    type V = ErrorDetailView;

    open spec fn view(&self) -> ErrorDetailView {
        ErrorDetailView {
            api_key: self.api_key@,
            code: self.code,
            status: self.status@,
            message: self.message@,
        }
    }
}

impl DeepView for ErrorDetail {
    type V = ErrorDetailView;

    open spec fn deep_view(&self) -> ErrorDetailView {
        self@
    }
}

/// One entry of `error.details` in an error that the service reports.
#[derive(Debug, PartialEq, Eq)]
pub struct GeminiErrorDetailEntry {
    pub reason: String,
}

impl DeepView for GeminiErrorDetailEntry {
    type V = Seq<char>;

    open spec fn deep_view(&self) -> Seq<char> {
        self.reason@
    }
}

/// An error that the service reports as JSON.
#[derive(Debug, PartialEq, Eq)]
pub struct GeminiErrorDetails {
    pub code: u16,
    pub message: String,
    pub status: String,
    pub details: Vec<GeminiErrorDetailEntry>,
}

/// A `GeminiErrorDetails` over sequences of characters; of the details, the
/// reasons.
pub struct GeminiErrorView {
    pub code: u16,
    pub message: Seq<char>,
    pub status: Seq<char>,
    pub reasons: Seq<Seq<char>>,
}

impl View for GeminiErrorDetails {
    type V = GeminiErrorView;

    open spec fn view(&self) -> GeminiErrorView {
        GeminiErrorView {
            code: self.code,
            message: self.message@,
            status: self.status@,
            reasons: self.details.deep_view(),
        }
    }
}

/// What went wrong with an HTTP request.
#[derive(Debug, PartialEq, Eq)]
pub enum HttpFailure {
    /// The server answered with an error status. `payload` is the body read as a
    /// reported error, where it can be read so.
    Status {
        code: u16,
        content_type: String,
        body: String,
        payload: Option<GeminiErrorDetails>,
    },
    /// There was no answer.
    Transport(String),
}

/// An `HttpFailure` over sequences of characters.
pub enum HttpFailureView {
    Status {
        code: u16,
        content_type: Seq<char>,
        body: Seq<char>,
        payload: Option<GeminiErrorView>,
    },
    Transport(Seq<char>),
}

impl View for HttpFailure {
    type V = HttpFailureView;

    open spec fn view(&self) -> HttpFailureView {
        match *self {
            HttpFailure::Status { code, content_type, body, payload } => HttpFailureView::Status {
                code,
                content_type: content_type@,
                body: body@,
                payload: match payload {
                    Some(error) => Some(error@),
                    None => None,
                },
            },
            HttpFailure::Transport(message) => HttpFailureView::Transport(message@),
        }
    }
}

/// Classifies a failure for the loop that tries the keys:
/// - `Local`: failed before reaching the server. Another key would not help, so the
///   loop ends.
/// - `RotateKey`: this key is out of quota or invalid, so the next one is worth
///   trying.
/// - `Terminal`: any other failure on the server's side. It is no matter of the key
///   and is reported at once.
#[derive(Debug, PartialEq, Eq)]
pub enum AskFailure {
    Local(ErrorDetail),
    RotateKey(ErrorDetail),
    Terminal(ErrorDetail),
}

/// The class of a failure.
pub enum FailureKind {
    Local,
    RotateKey,
    Terminal,
}

/// An `AskFailure` over sequences of characters.
pub struct AskFailureView {
    pub kind: FailureKind,
    pub detail: ErrorDetailView,
}

impl View for AskFailure {
    type V = AskFailureView;

    open spec fn view(&self) -> AskFailureView {
        match *self {
            AskFailure::Local(detail) => AskFailureView {
                kind: FailureKind::Local,
                detail: detail@,
            },
            AskFailure::RotateKey(detail) => AskFailureView {
                kind: FailureKind::RotateKey,
                detail: detail@,
            },
            AskFailure::Terminal(detail) => AskFailureView {
                kind: FailureKind::Terminal,
                detail: detail@,
            },
        }
    }
}

impl AskFailure {
    /// Whether the next key is worth trying.
    pub fn should_rotate(&self) -> (result: bool)
        ensures
            result == (self@.kind is RotateKey),
    {
        match self {
            AskFailure::RotateKey(_) => true,
            _ => false,
        }
    }

    /// What is reported of the failure.
    pub fn into_detail(self) -> (detail: ErrorDetail)
        ensures
            detail@ == self@.detail,
    {
        match self {
            AskFailure::Local(detail) => detail,
            AskFailure::RotateKey(detail) => detail,
            AskFailure::Terminal(detail) => detail,
        }
    }
}

/// The reasons say that the key itself is bad.
pub open spec fn says_invalid_key(reasons: Seq<Seq<char>>) -> bool {
    reasons.contains("API_KEY_INVALID"@)
}

/// A status code and the reasons given with it blame the key: it is out of quota,
/// or it is rejected as invalid.
pub open spec fn blames_key(code: u16, reasons: Seq<Seq<char>>) -> bool {
    code == 429 || ((code == 400 || code == 403) && says_invalid_key(reasons))
}

/// A failure that was found on this side: the masked key, no status code, and a
/// message without the key.
pub open spec fn local_detail(
    api_key: Seq<char>,
    status: Seq<char>,
    message: Seq<char>,
) -> ErrorDetailView {
    ErrorDetailView {
        api_key: masked(api_key),
        code: 0,
        status,
        message: redacted(message, api_key),
    }
}

/// A failure found on this side that no other key would mend.
pub open spec fn terminal_local(
    api_key: Seq<char>,
    status: Seq<char>,
    message: Seq<char>,
) -> AskFailureView {
    AskFailureView { kind: FailureKind::Terminal, detail: local_detail(api_key, status, message) }
}

/// The error that an error answer reports: the payload, where the body is declared
/// as JSON.
pub open spec fn reported_error(
    content_type: Seq<char>,
    payload: Option<GeminiErrorView>,
) -> Option<GeminiErrorView> {
    if begins_with(content_type, "application/json"@) {
        payload
    } else {
        None
    }
}

/// The failure that an HTTP failure means for the key it was sent with.
pub open spec fn described(failure: HttpFailureView, api_key: Seq<char>) -> AskFailureView {
    match failure {
        HttpFailureView::Transport(message) => AskFailureView {
            kind: FailureKind::Local,
            detail: local_detail(api_key, "TRANSPORT_FAILURE"@, message),
        },
        HttpFailureView::Status { code, content_type, body, payload } => {
            let error = reported_error(content_type, payload);
            let reasons = match error {
                Some(e) => e.reasons,
                None => Seq::empty(),
            };
            let status = match error {
                Some(e) => e.status,
                None => if begins_with(content_type, "application/json"@) {
                    "MALFORMED_JSON_RESPONSE"@
                } else {
                    "HTTP_GATEWAY_ERROR"@
                },
            };
            let message = match error {
                Some(e) => e.message,
                None => truncated(body, MAX_ERR_BODY_CHARS as nat),
            };
            AskFailureView {
                kind: if blames_key(code, reasons) {
                    FailureKind::RotateKey
                } else {
                    FailureKind::Terminal
                },
                detail: ErrorDetailView {
                    api_key: masked(api_key),
                    code,
                    status,
                    message: redacted(message, api_key),
                },
            }
        },
    }
}

/// Whether one of the reasons means that the key itself is bad.
pub fn is_invalid_api_key(details: &Vec<GeminiErrorDetailEntry>) -> (result: bool)
    ensures
        result == says_invalid_key(details.deep_view()),
{
    let mut i: usize = 0;
    while i < details.len()
        invariant
            i <= details.len(),
            forall|j: int| 0 <= j < i ==> details.deep_view()[j] != "API_KEY_INVALID"@,
        decreases details.len() - i,
    {
        if same_text(details[i].reason.as_str(), "API_KEY_INVALID") {
            assert(details.deep_view()[i as int] == "API_KEY_INVALID"@);
            return true;
        }
        i = i + 1;
    }
    false
}

/// Describes a failure that was found on this side.
pub fn make_local_api_error(api_key: &str, status: &str, message: &str) -> (detail: ErrorDetail)
    requires
        maskable(api_key@),
    ensures
        detail@ == local_detail(api_key@, status@, message@),
{
    ErrorDetail {
        api_key: mask_api_key(api_key),
        code: 0,
        status: status.to_owned(),
        message: redact(message.to_owned(), api_key),
    }
}

/// Describes a failure found on this side that no other key would mend.
pub fn terminal_failure(api_key: &str, status: &str, message: &str) -> (failure: AskFailure)
    requires
        maskable(api_key@),
    ensures
        failure@ == terminal_local(api_key@, status@, message@),
{
    AskFailure::Terminal(make_local_api_error(api_key, status, message))
}

/// Describes an HTTP failure and says whether the next key is worth trying.
pub fn describe_ureq_error(e: HttpFailure, api_key: &str) -> (failure: AskFailure)
    requires
        maskable(api_key@),
    ensures
        failure@ == described(e@, api_key@),
{
    match e {
        HttpFailure::Transport(message) => AskFailure::Local(
            make_local_api_error(api_key, "TRANSPORT_FAILURE", message.as_str()),
        ),
        HttpFailure::Status { code, content_type, body, payload } => {
            let is_json = starts_with(content_type.as_str(), "application/json");
            let is_quota_limit = code == 429;
            let (status, message, rotate) = if is_json {
                match payload {
                    Some(error) => {
                        let is_bad_key = (code == 400 || code == 403) && is_invalid_api_key(
                            &error.details,
                        );
                        (error.status, error.message, is_quota_limit || is_bad_key)
                    },
                    None => (
                        "MALFORMED_JSON_RESPONSE".to_owned(),
                        take_chars(body.as_str(), MAX_ERR_BODY_CHARS),
                        is_quota_limit,
                    ),
                }
            } else {
                (
                    "HTTP_GATEWAY_ERROR".to_owned(),
                    take_chars(body.as_str(), MAX_ERR_BODY_CHARS),
                    is_quota_limit,
                )
            };
            let detail = ErrorDetail {
                api_key: mask_api_key(api_key),
                code,
                status,
                message: redact(message, api_key),
            };
            if rotate {
                AskFailure::RotateKey(detail)
            } else {
                AskFailure::Terminal(detail)
            }
        },
    }
}

/// What is reported of a failure shows the key in its masked form only.
pub open spec fn hides_key(detail: ErrorDetailView, api_key: Seq<char>) -> bool {
    detail.api_key == masked(api_key) && !contains_text(detail.message, api_key)
}

/// A key that can be kept out of messages: it is one, and it cannot overlap the marker that
/// stands in its place.
pub open spec fn hideable(api_key: Seq<char>) -> bool {
    api_key.len() > 0 && clear_of("[REDACTED]"@, api_key)
}

/// A failure found on this side hides the key.
pub proof fn law_local_failure_hides_key(api_key: Seq<char>, status: Seq<char>, message: Seq<char>)
    requires
        hideable(api_key),
    ensures
        hides_key(local_detail(api_key, status, message), api_key),
{
    law_redacted_message_has_no_key(message, api_key);
}

/// Whatever a server answers, the failure that is made of it hides the key.
pub proof fn law_described_failure_hides_key(failure: HttpFailureView, api_key: Seq<char>)
    requires
        hideable(api_key),
    ensures
        hides_key(described(failure, api_key).detail, api_key),
{
    match failure {
        HttpFailureView::Transport(message) => {
            law_redacted_message_has_no_key(message, api_key);
        },
        HttpFailureView::Status { code, content_type, body, payload } => {
            let message = match reported_error(content_type, payload) {
                Some(error) => error.message,
                None => truncated(body, MAX_ERR_BODY_CHARS as nat),
            };
            law_redacted_message_has_no_key(message, api_key);
        },
    }
}

/// The next key is worth trying after an answer that blames this one, and only then: the code
/// is 429, or it is 400 or 403 and a JSON body gives an invalid key as the reason. Without an
/// answer, the failure is local.
pub proof fn law_only_key_trouble_rotates(failure: HttpFailureView, api_key: Seq<char>)
    ensures
        described(failure, api_key).kind is Local <==> failure is Transport,
        described(failure, api_key).kind is RotateKey <==> (failure matches HttpFailureView::Status {
            code,
            content_type,
            payload,
            ..
        } && (code == 429 || ((code == 400 || code == 403) && begins_with(
            content_type,
            "application/json"@,
        ) && (payload matches Some(error) && error.reasons.contains("API_KEY_INVALID"@))))),
{
}

/// What is reported of an answer with an error status: its own code; where its JSON body reports
/// an error, that error's status and message, and else that it does not, and the first thousand
/// characters of the body. The key is masked, and taken out of the message.
pub proof fn law_answer_is_reported(
    code: u16,
    content_type: Seq<char>,
    body: Seq<char>,
    payload: Option<GeminiErrorView>,
    api_key: Seq<char>,
)
    ensures
        ({
            let detail = described(
                HttpFailureView::Status { code, content_type, body, payload },
                api_key,
            ).detail;
            let is_json = begins_with(content_type, "application/json"@);
            &&& detail.code == code
            &&& detail.api_key == masked(api_key)
            &&& is_json && payload is Some ==> detail.status == payload->Some_0.status
                && detail.message == redacted(payload->Some_0.message, api_key)
            &&& is_json && payload is None ==> detail.status == "MALFORMED_JSON_RESPONSE"@
            &&& !is_json ==> detail.status == "HTTP_GATEWAY_ERROR"@
            &&& !(is_json && payload is Some) && body.len() <= 1000 ==> detail.message == redacted(
                body,
                api_key,
            )
            &&& !(is_json && payload is Some) && body.len() > 1000 ==> detail.message == redacted(
                body.take(1000),
                api_key,
            )
        }),
{
}

/// A message in which the key does not stand reaches the caller as it came, however long it is:
/// that of a reported error, that of a failed connection, and that of a failure found on this
/// side, each with its status.
pub proof fn law_message_reaches_the_caller(
    api_key: Seq<char>,
    status: Seq<char>,
    message: Seq<char>,
    error: GeminiErrorView,
    code: u16,
    body: Seq<char>,
)
    requires
        !contains_text(message, api_key),
        error.message == message,
    ensures
        local_detail(api_key, status, message) == (ErrorDetailView {
            api_key: masked(api_key),
            code: 0,
            status,
            message,
        }),
        terminal_local(api_key, status, message).kind is Terminal,
        terminal_local(api_key, status, message).detail == local_detail(api_key, status, message),
        described(HttpFailureView::Transport(message), api_key).kind is Local,
        described(HttpFailureView::Transport(message), api_key).detail == (ErrorDetailView {
            api_key: masked(api_key),
            code: 0,
            status: "TRANSPORT_FAILURE"@,
            message,
        }),
        described(
            HttpFailureView::Status {
                code,
                content_type: "application/json"@,
                body,
                payload: Some(error),
            },
            api_key,
        ).detail == (ErrorDetailView {
            api_key: masked(api_key),
            code,
            status: error.status,
            message,
        }),
{
    law_message_without_key_is_kept(message, api_key);
    let json = "application/json"@;
    assert(json.subrange(0, json.len() as int) =~= json);
}

/// One reason among any number of others is enough to call the key invalid, and without it none
/// are.
pub proof fn law_one_reason_is_enough(
    before: Seq<Seq<char>>,
    after: Seq<Seq<char>>,
    others: Seq<Seq<char>>,
)
    requires
        forall|i: int| 0 <= i < others.len() ==> #[trigger] others[i] != "API_KEY_INVALID"@,
    ensures
        says_invalid_key(before + seq!["API_KEY_INVALID"@] + after),
        !says_invalid_key(others),
{
    let all = before + seq!["API_KEY_INVALID"@] + after;
    assert(all[before.len() as int] == "API_KEY_INVALID"@);
}

/// What is said of these values is said of all that they hold.
pub proof fn law_failure_views_leave_nothing_out(
    detail: ErrorDetail,
    error: GeminiErrorDetails,
    transport: String,
    code: u16,
    content_type: String,
    body: String,
    payload: Option<GeminiErrorDetails>,
)
    ensures
        detail@.api_key == detail.api_key@,
        detail@.code == detail.code,
        detail@.status == detail.status@,
        detail@.message == detail.message@,
        detail.deep_view() == detail@,
        AskFailure::Local(detail)@.kind is Local,
        AskFailure::RotateKey(detail)@.kind is RotateKey,
        AskFailure::Terminal(detail)@.kind is Terminal,
        AskFailure::Local(detail)@.detail == detail@,
        AskFailure::RotateKey(detail)@.detail == detail@,
        AskFailure::Terminal(detail)@.detail == detail@,
        error@.code == error.code,
        error@.message == error.message@,
        error@.status == error.status@,
        error@.reasons.len() == error.details@.len(),
        forall|i: int|
            0 <= i < error.details@.len() ==> #[trigger] error@.reasons[i]
                == error.details@[i].reason@,
        HttpFailure::Transport(transport)@ == HttpFailureView::Transport(transport@),
        ({
            let view = HttpFailure::Status { code, content_type, body, payload }@;
            &&& view is Status
            &&& view->code == code
            &&& view->content_type == content_type@
            &&& view->body == body@
            &&& payload is None ==> view->payload is None
            &&& payload matches Some(reported) ==> view->payload == Some(reported@)
        }),
{
}

/// A failure found on this side, and a connection that failed, are reported with the masked key,
/// without a code, and with their message, from which the key is taken and nothing else.
pub proof fn law_local_failure_is_reported(
    api_key: Seq<char>,
    status: Seq<char>,
    message: Seq<char>,
)
    ensures
        local_detail(api_key, status, message).api_key == masked(api_key),
        local_detail(api_key, status, message).code == 0,
        local_detail(api_key, status, message).status == status,
        local_detail(api_key, status, message).message == redacted(message, api_key),
        terminal_local(api_key, status, message).kind is Terminal,
        terminal_local(api_key, status, message).detail == local_detail(api_key, status, message),
        described(HttpFailureView::Transport(message), api_key).kind is Local,
        described(HttpFailureView::Transport(message), api_key).detail.api_key == masked(api_key),
        described(HttpFailureView::Transport(message), api_key).detail.code == 0,
        described(HttpFailureView::Transport(message), api_key).detail.status
            == "TRANSPORT_FAILURE"@,
        described(HttpFailureView::Transport(message), api_key).detail.message == redacted(
            message,
            api_key,
        ),
{
}

} // verus!
