//! Reading a stream of server-sent events: which lines carry data, what the data means, and
//! how the stream ends.

use vstd::prelude::*;
use vstd::string::*;

use crate::failure::{
    blames_key, described, hideable, hides_key, is_invalid_api_key, local_detail,
    make_local_api_error, ErrorDetail, ErrorDetailView, GeminiErrorDetails, GeminiErrorView,
    HttpFailureView,
};
use crate::json::{has_field, json_read, read_value, value_has, JsonTree};
use crate::mask::{
    law_redacted_message_has_no_key, mask_api_key, masked, maskable, redact, redacted,
};
use crate::reply::{answer_text, response_text, GenResponse, GenResponseView};
use crate::text::{
    begins_with, is_white_space, join2, law_prefix_and_rest, law_trimming_takes_the_tail,
    strip_prefix, trim_end, trimmed_end,
};

verus! {

/// What the data of a line is to be read as.
#[derive(Debug, PartialEq, Eq)]
pub enum SseShape {
    /// It is no JSON.
    NotJson,
    /// An error in place of content.
    Error,
    /// A piece of content.
    Content,
}

/// What JSON is to be read as: an object with a field `error` is an error, and anything else
/// is content.
pub open spec fn shape_of(read: Option<JsonTree>) -> SseShape {
    match read {
        None => SseShape::NotJson,
        Some(tree) => if has_field(tree, "error"@) {
            SseShape::Error
        } else {
            SseShape::Content
        },
    }
}

/// What the data of a line is to be read as.
pub fn sse_shape(data: &str) -> (shape: SseShape)
    ensures
        shape == shape_of(json_read(data@)),
{
    match read_value(data) {
        None => SseShape::NotJson,
        Some(value) => if value_has(&value, "error") {
            SseShape::Error
        } else {
            SseShape::Content
        },
    }
}

/// The data of a line, read as what it is to be read as, or why it could not be.
#[derive(Debug, PartialEq, Eq)]
pub enum SseDecoded {
    NotJson,
    Error(Result<GeminiErrorDetails, String>),
    Content(Result<GenResponse, String>),
}

/// An `SseDecoded` over sequences.
pub enum SseDecodedView {
    NotJson,
    Error(Result<GeminiErrorView, Seq<char>>),
    Content(Result<GenResponseView, Seq<char>>),
}

impl View for SseDecoded {
    type V = SseDecodedView;

    open spec fn view(&self) -> SseDecodedView {
        match *self {
            SseDecoded::NotJson => SseDecodedView::NotJson,
            SseDecoded::Error(Ok(error)) => SseDecodedView::Error(Ok(error@)),
            SseDecoded::Error(Err(why)) => SseDecodedView::Error(Err(why@)),
            SseDecoded::Content(Ok(content)) => SseDecodedView::Content(Ok(content@)),
            SseDecoded::Content(Err(why)) => SseDecodedView::Content(Err(why@)),
        }
    }
}

/// What one `data: {...}` line turned out to be.
#[derive(Debug, PartialEq, Eq)]
pub enum SseLineKind {
    Content(GenResponse),
    /// A failure in mid-stream, sent in band since the HTTP status was sent long before.
    ErrorChunk(GeminiErrorDetails),
    Malformed(String),
}

/// An `SseLineKind` over sequences.
pub enum SseLineKindView {
    Content(GenResponseView),
    ErrorChunk(GeminiErrorView),
    Malformed(Seq<char>),
}

impl View for SseLineKind {
    type V = SseLineKindView;

    open spec fn view(&self) -> SseLineKindView {
        match *self {
            SseLineKind::Content(content) => SseLineKindView::Content(content@),
            SseLineKind::ErrorChunk(error) => SseLineKindView::ErrorChunk(error@),
            SseLineKind::Malformed(message) => SseLineKindView::Malformed(message@),
        }
    }
}

/// What a line turned out to be.
pub open spec fn line_kind(decoded: SseDecodedView) -> SseLineKindView {
    match decoded {
        SseDecodedView::NotJson => SseLineKindView::Malformed("line was not valid JSON"@),
        SseDecodedView::Error(Ok(error)) => SseLineKindView::ErrorChunk(error),
        SseDecodedView::Error(Err(why)) => SseLineKindView::Malformed(
            "unparseable in-band error chunk: "@ + why,
        ),
        SseDecodedView::Content(Ok(content)) => SseLineKindView::Content(content),
        SseDecodedView::Content(Err(why)) => SseLineKindView::Malformed(
            "malformed SSE chunk: "@ + why,
        ),
    }
}

/// Says what a line turned out to be.
pub fn parse_sse_data(decoded: SseDecoded) -> (kind: SseLineKind)
    ensures
        kind@ == line_kind(decoded@),
{
    match decoded {
        SseDecoded::NotJson => SseLineKind::Malformed("line was not valid JSON".to_owned()),
        SseDecoded::Error(Ok(error)) => SseLineKind::ErrorChunk(error),
        SseDecoded::Error(Err(why)) => SseLineKind::Malformed(
            join2("unparseable in-band error chunk: ", why.as_str()),
        ),
        SseDecoded::Content(Ok(content)) => SseLineKind::Content(content),
        SseDecoded::Content(Err(why)) => SseLineKind::Malformed(
            join2("malformed SSE chunk: ", why.as_str()),
        ),
    }
}

/// How a stream ended.
#[derive(Debug, PartialEq, Eq)]
pub enum SseOutcome {
    /// It came to its end, or nobody listens any more. Whether a text was sent on tells a
    /// success from no content at all.
    Ended,
    /// It reported that the key is out of quota or invalid.
    RotateEligible(ErrorDetail),
    /// It failed in any other way.
    Terminal(ErrorDetail),
}

/// An `SseOutcome` over sequences.
pub enum SseOutcomeView {
    Ended,
    RotateEligible(ErrorDetailView),
    Terminal(ErrorDetailView),
}

impl View for SseOutcome {
    type V = SseOutcomeView;

    open spec fn view(&self) -> SseOutcomeView {
        match *self {
            SseOutcome::Ended => SseOutcomeView::Ended,
            SseOutcome::RotateEligible(detail) => SseOutcomeView::RotateEligible(detail@),
            SseOutcome::Terminal(detail) => SseOutcomeView::Terminal(detail@),
        }
    }
}

/// What happens while a stream is read.
#[derive(Debug, PartialEq, Eq)]
pub enum SseEvent {
    /// The caller gave up before a line was read.
    Cancelled,
    /// A line could not be read; why.
    ReadFailed(String),
    /// There are no more lines.
    Eof,
    /// A line was read.
    Line(String),
    /// The data of the line was read as what it is.
    Decoded(SseDecoded),
    /// The text was sent on.
    Sent,
    /// The text could not be sent on: nobody listens any more.
    SendFailed,
}

/// An `SseEvent` over sequences.
pub enum SseEventView {
    Cancelled,
    ReadFailed(Seq<char>),
    Eof,
    Line(Seq<char>),
    Decoded(SseDecodedView),
    Sent,
    SendFailed,
}

impl View for SseEvent {
    type V = SseEventView;

    open spec fn view(&self) -> SseEventView {
        match *self {
            SseEvent::Cancelled => SseEventView::Cancelled,
            SseEvent::ReadFailed(why) => SseEventView::ReadFailed(why@),
            SseEvent::Eof => SseEventView::Eof,
            SseEvent::Line(line) => SseEventView::Line(line@),
            SseEvent::Decoded(decoded) => SseEventView::Decoded(decoded@),
            SseEvent::Sent => SseEventView::Sent,
            SseEvent::SendFailed => SseEventView::SendFailed,
        }
    }
}

/// What is to be done next with a stream.
#[derive(Debug, PartialEq, Eq)]
pub enum SseAction {
    /// Read the next line, unless the caller has given up.
    ReadLine,
    /// Read this data as what it is.
    Decode(SseShape, String),
    /// Send this text on.
    Send(String),
    /// The stream is over.
    End(SseOutcome),
}

/// An `SseAction` over sequences.
pub enum SseActionView {
    ReadLine,
    Decode(SseShape, Seq<char>),
    Send(Seq<char>),
    End(SseOutcomeView),
}

impl View for SseAction {
    type V = SseActionView;

    open spec fn view(&self) -> SseActionView {
        match *self {
            SseAction::ReadLine => SseActionView::ReadLine,
            SseAction::Decode(shape, data) => SseActionView::Decode(shape, data@),
            SseAction::Send(text) => SseActionView::Send(text@),
            SseAction::End(outcome) => SseActionView::End(outcome@),
        }
    }
}

/// The data that a line carries: what follows `data: `, where the line without the white
/// space at its end begins so and goes on.
pub open spec fn line_data(line: Seq<char>) -> Option<Seq<char>> {
    let trimmed = trimmed_end(line);
    let prefix = "data: "@;
    if begins_with(trimmed, prefix) && trimmed.len() > prefix.len() {
        Some(trimmed.skip(prefix.len() as int))
    } else {
        None
    }
}

/// The stream ends with a failure found on this side.
pub open spec fn ends_locally(
    api_key: Seq<char>,
    status: Seq<char>,
    message: Seq<char>,
) -> SseActionView {
    SseActionView::End(SseOutcomeView::Terminal(local_detail(api_key, status, message)))
}

/// What follows on a line: its data is read, and a line without data is passed over.
pub open spec fn after_line(line: Seq<char>) -> SseActionView {
    match line_data(line) {
        None => SseActionView::ReadLine,
        Some(data) => SseActionView::Decode(shape_of(json_read(data)), data),
    }
}

/// What follows on the data of a line: a text is sent on, content without text is passed
/// over, and anything else ends the stream.
pub open spec fn after_data(decoded: SseDecodedView, api_key: Seq<char>) -> SseActionView {
    match line_kind(decoded) {
        SseLineKindView::Content(content) => if answer_text(content).len() > 0 {
            SseActionView::Send(answer_text(content))
        } else {
            SseActionView::ReadLine
        },
        SseLineKindView::ErrorChunk(error) => {
            let detail = ErrorDetailView {
                api_key: masked(api_key),
                code: error.code,
                status: error.status,
                message: redacted(error.message, api_key),
            };
            SseActionView::End(
                if blames_key(error.code, error.reasons) {
                    SseOutcomeView::RotateEligible(detail)
                } else {
                    SseOutcomeView::Terminal(detail)
                },
            )
        },
        SseLineKindView::Malformed(message) => ends_locally(
            api_key,
            "MALFORMED_SSE_CHUNK"@,
            message,
        ),
    }
}

/// What follows on an event of a stream.
pub open spec fn pump_step(event: SseEventView, api_key: Seq<char>) -> SseActionView {
    match event {
        SseEventView::Cancelled => SseActionView::End(SseOutcomeView::Ended),
        SseEventView::ReadFailed(why) => ends_locally(api_key, "STREAM_READ_ERROR"@, why),
        SseEventView::Eof => SseActionView::End(SseOutcomeView::Ended),
        SseEventView::Line(line) => after_line(line),
        SseEventView::Decoded(decoded) => after_data(decoded, api_key),
        SseEventView::Sent => SseActionView::ReadLine,
        SseEventView::SendFailed => SseActionView::End(SseOutcomeView::Ended),
    }
}

/// The event ends the stream with a failure.
pub open spec fn fails(event: SseEventView, api_key: Seq<char>) -> bool {
    match event {
        SseEventView::ReadFailed(_) => true,
        SseEventView::Decoded(decoded) => after_data(decoded, api_key) is End,
        _ => false,
    }
}

/// Decides what follows on the data of a line.
fn take_data(api_key: &str, decoded: SseDecoded) -> (action: SseAction)
    requires
        after_data(decoded@, api_key@) is End ==> maskable(api_key@),
    ensures
        action@ == after_data(decoded@, api_key@),
{
    match parse_sse_data(decoded) {
        SseLineKind::Content(content) => {
            let text = response_text(&content);
            if text.as_str().is_empty() {
                SseAction::ReadLine
            } else {
                SseAction::Send(text)
            }
        },
        SseLineKind::ErrorChunk(error) => {
            let rotate_eligible = error.code == 429 || ((error.code == 400 || error.code == 403)
                && is_invalid_api_key(&error.details));
            let detail = ErrorDetail {
                api_key: mask_api_key(api_key),
                code: error.code,
                status: error.status,
                message: redact(error.message, api_key),
            };
            SseAction::End(
                if rotate_eligible {
                    SseOutcome::RotateEligible(detail)
                } else {
                    SseOutcome::Terminal(detail)
                },
            )
        },
        SseLineKind::Malformed(message) => SseAction::End(
            SseOutcome::Terminal(
                make_local_api_error(api_key, "MALFORMED_SSE_CHUNK", message.as_str()),
            ),
        ),
    }
}

/// Decides what follows on an event of a stream, and notes in `any_delta` when a text is sent
/// on.
pub fn pump_sse(any_delta: &mut bool, api_key: &str, event: SseEvent) -> (action: SseAction)
    requires
        fails(event@, api_key@) ==> maskable(api_key@),
    ensures
        action@ == pump_step(event@, api_key@),
        *final(any_delta) == (*old(any_delta) || action@ is Send),
{
    let action = match event {
        SseEvent::Cancelled => SseAction::End(SseOutcome::Ended),
        SseEvent::ReadFailed(why) => SseAction::End(
            SseOutcome::Terminal(
                make_local_api_error(api_key, "STREAM_READ_ERROR", why.as_str()),
            ),
        ),
        SseEvent::Eof => SseAction::End(SseOutcome::Ended),
        SseEvent::Line(line) => match strip_prefix(trim_end(line.as_str()), "data: ") {
            Some(data) if !data.is_empty() => SseAction::Decode(sse_shape(data), data.to_owned()),
            _ => SseAction::ReadLine,
        },
        SseEvent::Decoded(decoded) => take_data(api_key, decoded),
        SseEvent::Sent => SseAction::ReadLine,
        SseEvent::SendFailed => SseAction::End(SseOutcome::Ended),
    };
    if let SseAction::Send(_) = &action {
        *any_delta = true;
    }
    action
}

/// A stream as it is read: what was sent on, and what is to be done next.
pub struct PumpView {
    pub sent: Seq<Seq<char>>,
    pub action: SseActionView,
}

/// The event is one that may come when this is to be done.
pub open spec fn answers(action: SseActionView, event: SseEventView) -> bool {
    match action {
        SseActionView::ReadLine => event is Cancelled || event is ReadFailed || event is Eof
            || event is Line,
        SseActionView::Decode(SseShape::NotJson, _) => event == SseEventView::Decoded(
            SseDecodedView::NotJson,
        ),
        SseActionView::Decode(SseShape::Error, _) => event matches SseEventView::Decoded(decoded)
            && decoded is Error,
        SseActionView::Decode(SseShape::Content, _) => event matches SseEventView::Decoded(decoded)
            && decoded is Content,
        SseActionView::Send(_) => event is Sent || event is SendFailed,
        SseActionView::End(_) => false,
    }
}

/// The stream after these events.
pub open spec fn pumped(told: Seq<SseEventView>, api_key: Seq<char>) -> PumpView
    decreases told.len(),
{
    if told.len() == 0 {
        PumpView { sent: Seq::empty(), action: SseActionView::ReadLine }
    } else {
        let before = pumped(told.drop_last(), api_key);
        let action = pump_step(told.last(), api_key);
        PumpView {
            sent: match action {
                SseActionView::Send(text) => before.sent.push(text),
                _ => before.sent,
            },
            action,
        }
    }
}

/// Each event is one that may come when it comes.
pub open spec fn heard_in_turn(told: Seq<SseEventView>, api_key: Seq<char>) -> bool
    decreases told.len(),
{
    told.len() > 0 ==> {
        &&& heard_in_turn(told.drop_last(), api_key)
        &&& answers(pumped(told.drop_last(), api_key).action, told.last())
    }
}

/// The note that `pump_sse` keeps over these events.
pub open spec fn noted_delta(told: Seq<SseEventView>, api_key: Seq<char>) -> bool
    decreases told.len(),
{
    told.len() > 0 && (noted_delta(told.drop_last(), api_key) || pump_step(
        told.last(),
        api_key,
    ) is Send)
}

/// The texts of the contents that came in.
pub open spec fn texts_heard(told: Seq<SseEventView>) -> Seq<Seq<char>>
    decreases told.len(),
{
    if told.len() == 0 {
        Seq::empty()
    } else {
        let before = texts_heard(told.drop_last());
        match told.last() {
            SseEventView::Decoded(SseDecodedView::Content(Ok(content))) => if answer_text(
                content,
            ).len() > 0 {
                before.push(answer_text(content))
            } else {
                before
            },
            _ => before,
        }
    }
}

/// What is sent on is the text of every piece of content, in the order in which they came and
/// without the empty ones, and the note says whether there was any.
pub proof fn law_every_text_is_sent_on(told: Seq<SseEventView>, api_key: Seq<char>)
    ensures
        pumped(told, api_key).sent == texts_heard(told),
        noted_delta(told, api_key) <==> pumped(told, api_key).sent.len() > 0,
        forall|i: int|
            0 <= i < pumped(told, api_key).sent.len() ==> (#[trigger] pumped(
                told,
                api_key,
            ).sent[i]).len() > 0,
    decreases told.len(),
{
    if told.len() > 0 {
        law_every_text_is_sent_on(told.drop_last(), api_key);
    }
}

/// A stream ends once: nothing is heard of it after the event that ends it.
pub proof fn law_stream_ends_once(told: Seq<SseEventView>, api_key: Seq<char>, i: int)
    requires
        heard_in_turn(told, api_key),
        0 <= i < told.len(),
        pump_step(told[i], api_key) is End,
    ensures
        i == told.len() - 1,
    decreases told.len(),
{
    let before = told.drop_last();
    if i < before.len() {
        law_stream_ends_once(before, api_key, i);
    }
}

/// An error that comes in band is judged and reported as the same error would be as the answer
/// to a request.
pub proof fn law_in_band_error_is_judged_alike(
    error: GeminiErrorView,
    body: Seq<char>,
    api_key: Seq<char>,
)
    ensures
        ({
            let failure = described(
                HttpFailureView::Status {
                    code: error.code,
                    content_type: "application/json"@,
                    body,
                    payload: Some(error),
                },
                api_key,
            );
            after_data(SseDecodedView::Error(Ok(error)), api_key) == SseActionView::End(
                if failure.kind is RotateKey {
                    SseOutcomeView::RotateEligible(failure.detail)
                } else {
                    SseOutcomeView::Terminal(failure.detail)
                },
            )
        }),
{
    let json = "application/json"@;
    assert(json.subrange(0, json.len() as int) == json);
}

/// However a stream fails, the key is hidden.
pub proof fn law_stream_failure_hides_key(event: SseEventView, api_key: Seq<char>)
    requires
        hideable(api_key),
    ensures
        pump_step(event, api_key) matches SseActionView::End(outcome) ==> match outcome {
            SseOutcomeView::Ended => true,
            SseOutcomeView::RotateEligible(detail) => hides_key(detail, api_key),
            SseOutcomeView::Terminal(detail) => hides_key(detail, api_key),
        },
{
    match event {
        SseEventView::ReadFailed(why) => {
            law_redacted_message_has_no_key(why, api_key);
        },
        SseEventView::Decoded(decoded) => match line_kind(decoded) {
            SseLineKindView::ErrorChunk(error) => {
                law_redacted_message_has_no_key(error.message, api_key);
            },
            SseLineKindView::Malformed(message) => {
                law_redacted_message_has_no_key(message, api_key);
            },
            SseLineKindView::Content(_) => {},
        },
        _ => {},
    }
}

/// A line of `data: ` and something after it, however long, with any white space at its end, is
/// read: its data is exactly that something.
pub proof fn law_every_data_line_is_read(data: Seq<char>, tail: Seq<char>, api_key: Seq<char>)
    requires
        data.len() > 0,
        !is_white_space(data.last()),
        forall|i: int| 0 <= i < tail.len() ==> is_white_space(#[trigger] tail[i]),
    ensures
        pump_step(SseEventView::Line("data: "@ + data + tail), api_key) matches SseActionView::Decode(
            shape,
            read,
        ) && read == data && shape == shape_of(json_read(data)),
{
    law_trimming_takes_the_tail("data: "@ + data, tail);
    law_prefix_and_rest("data: "@, data, "data: "@ + data);
}

/// A line is passed over only if, without the white space at its end, it does not begin with
/// `data: ` or ends with it; and a line never ends a stream or sends anything on by itself.
pub proof fn law_only_lines_without_data_are_passed_over(line: Seq<char>, api_key: Seq<char>)
    ensures
        ({
            let kept = trimmed_end(line);
            let action = pump_step(SseEventView::Line(line), api_key);
            &&& action is ReadLine || action is Decode
            &&& action is ReadLine <==> !(exists|data: Seq<char>|
                data.len() > 0 && kept == #[trigger] ("data: "@ + data))
        }),
{
    let kept = trimmed_end(line);
    let prefix = "data: "@;
    law_prefix_and_rest(prefix, Seq::empty(), kept);
    if begins_with(kept, prefix) && kept.len() > prefix.len() {
        assert(kept == prefix + kept.skip(prefix.len() as int));
    }
    assert forall|data: Seq<char>| data.len() > 0 && kept == #[trigger] (prefix
        + data) implies begins_with(kept, prefix) && kept.len() > prefix.len() by {
        law_prefix_and_rest(prefix, data, kept);
    }
}

/// Data is read as an error if and only if it is a JSON object with a field `error`, whatever
/// that holds, and any other JSON as content.
pub proof fn law_error_field_tells_the_shape(fields: Map<Seq<char>, JsonTree>, tree: JsonTree)
    ensures
        shape_of(None) is NotJson,
        shape_of(Some(JsonTree::Object(fields))) is Error <==> fields.contains_key("error"@),
        shape_of(Some(JsonTree::Object(fields))) is Content <==> !fields.contains_key("error"@),
        !(tree is Object) ==> shape_of(Some(tree)) is Content,
{
}

/// Content with a text sends on that very text, all the parts of the first candidate; content
/// without one is passed over.
pub proof fn law_content_sends_its_text(content: GenResponseView, api_key: Seq<char>)
    ensures
        ({
            let action = pump_step(
                SseEventView::Decoded(SseDecodedView::Content(Ok(content))),
                api_key,
            );
            let has_text = content.candidates.len() > 0
                && content.candidates[0].parts.flatten().len() > 0;
            &&& has_text ==> action == SseActionView::Send(content.candidates[0].parts.flatten())
            &&& !has_text ==> action == SseActionView::ReadLine
        }),
{
}

/// The stream ends with a failure found on this side, of this status and with this message
/// without the key.
pub open spec fn stops_with(
    action: SseActionView,
    api_key: Seq<char>,
    status: Seq<char>,
    message: Seq<char>,
) -> bool {
    action matches SseActionView::End(SseOutcomeView::Terminal(detail)) && {
        &&& detail.api_key == masked(api_key)
        &&& detail.code == 0
        &&& detail.status == status
        &&& detail.message == redacted(message, api_key)
    }
}

/// What does not go well ends the stream with its reason: a line that cannot be read, data that
/// is no JSON, and JSON that cannot be read as what it is. An error in band is reported with its
/// own code, status and message, and blames the key if and only if its code is 429, or is 400 or
/// 403 with an invalid key as one of its reasons.
pub proof fn law_bad_data_ends_the_stream(
    why: Seq<char>,
    error: GeminiErrorView,
    api_key: Seq<char>,
)
    ensures
        stops_with(
            pump_step(SseEventView::ReadFailed(why), api_key),
            api_key,
            "STREAM_READ_ERROR"@,
            why,
        ),
        stops_with(
            pump_step(SseEventView::Decoded(SseDecodedView::NotJson), api_key),
            api_key,
            "MALFORMED_SSE_CHUNK"@,
            "line was not valid JSON"@,
        ),
        stops_with(
            pump_step(SseEventView::Decoded(SseDecodedView::Error(Err(why))), api_key),
            api_key,
            "MALFORMED_SSE_CHUNK"@,
            "unparseable in-band error chunk: "@ + why,
        ),
        stops_with(
            pump_step(SseEventView::Decoded(SseDecodedView::Content(Err(why))), api_key),
            api_key,
            "MALFORMED_SSE_CHUNK"@,
            "malformed SSE chunk: "@ + why,
        ),
        pump_step(SseEventView::Decoded(SseDecodedView::Error(Ok(error))), api_key)
            matches SseActionView::End(outcome) && {
            let to_blame = error.code == 429 || ((error.code == 400 || error.code == 403)
                && error.reasons.contains("API_KEY_INVALID"@));
            let detail = match outcome {
                SseOutcomeView::RotateEligible(detail) => detail,
                SseOutcomeView::Terminal(detail) => detail,
                SseOutcomeView::Ended => arbitrary(),
            };
            &&& to_blame ==> outcome is RotateEligible
            &&& !to_blame ==> outcome is Terminal
            &&& detail.api_key == masked(api_key)
            &&& detail.code == error.code
            &&& detail.status == error.status
            &&& detail.message == redacted(error.message, api_key)
        },
{
}

/// A stream ends quietly where there are no more lines or nobody listens, and goes on after a
/// text was sent on.
pub proof fn law_stream_goes_on_or_ends_quietly(api_key: Seq<char>)
    ensures
        pump_step(SseEventView::Eof, api_key) == SseActionView::End(SseOutcomeView::Ended),
        pump_step(SseEventView::Cancelled, api_key) == SseActionView::End(SseOutcomeView::Ended),
        pump_step(SseEventView::SendFailed, api_key) == SseActionView::End(SseOutcomeView::Ended),
        pump_step(SseEventView::Sent, api_key) == SseActionView::ReadLine,
{
}

/// What a line turned out to be holds what was read from it.
pub proof fn law_line_is_what_was_read(
    error: GeminiErrorView,
    content: GenResponseView,
    why: Seq<char>,
)
    ensures
        line_kind(SseDecodedView::Error(Ok(error))) == SseLineKindView::ErrorChunk(error),
        line_kind(SseDecodedView::Content(Ok(content))) == SseLineKindView::Content(content),
        line_kind(SseDecodedView::NotJson) == SseLineKindView::Malformed(
            "line was not valid JSON"@,
        ),
        line_kind(SseDecodedView::Error(Err(why))) == SseLineKindView::Malformed(
            "unparseable in-band error chunk: "@ + why,
        ),
        line_kind(SseDecodedView::Content(Err(why))) == SseLineKindView::Malformed(
            "malformed SSE chunk: "@ + why,
        ),
{
}

/// What is said of these values is said of all that they hold.
pub proof fn law_event_views_leave_nothing_out(
    text: String,
    shape: SseShape,
    detail: ErrorDetail,
    outcome: SseOutcome,
    decoded: SseDecoded,
    error: GeminiErrorDetails,
    content: GenResponse,
)
    ensures
        SseEvent::Cancelled@ == SseEventView::Cancelled,
        SseEvent::ReadFailed(text)@ == SseEventView::ReadFailed(text@),
        SseEvent::Eof@ == SseEventView::Eof,
        SseEvent::Line(text)@ == SseEventView::Line(text@),
        SseEvent::Decoded(decoded)@ == SseEventView::Decoded(decoded@),
        SseEvent::Sent@ == SseEventView::Sent,
        SseEvent::SendFailed@ == SseEventView::SendFailed,
        SseAction::ReadLine@ == SseActionView::ReadLine,
        SseAction::Decode(shape, text)@ == SseActionView::Decode(shape, text@),
        SseAction::Send(text)@ == SseActionView::Send(text@),
        SseAction::End(outcome)@ == SseActionView::End(outcome@),
        SseOutcome::Ended@ == SseOutcomeView::Ended,
        SseOutcome::RotateEligible(detail)@ == SseOutcomeView::RotateEligible(detail@),
        SseOutcome::Terminal(detail)@ == SseOutcomeView::Terminal(detail@),
        SseDecoded::NotJson@ == SseDecodedView::NotJson,
        SseDecoded::Error(Ok(error))@ == SseDecodedView::Error(Ok(error@)),
        SseDecoded::Error(Err(text))@ == SseDecodedView::Error(Err(text@)),
        SseDecoded::Content(Ok(content))@ == SseDecodedView::Content(Ok(content@)),
        SseDecoded::Content(Err(text))@ == SseDecodedView::Content(Err(text@)),
        SseLineKind::Content(content)@ == SseLineKindView::Content(content@),
        SseLineKind::ErrorChunk(error)@ == SseLineKindView::ErrorChunk(error@),
        SseLineKind::Malformed(text)@ == SseLineKindView::Malformed(text@),
{
}

} // verus!
