use gemlite::failure::{
    describe_ureq_error, ErrorDetail, GeminiErrorDetailEntry, GeminiErrorDetails, HttpFailure,
};
use gemlite::reply::{Candidate, Content, GenResponse, Part};
use gemlite::sse::{
    parse_sse_data, pump_sse, sse_shape, SseAction, SseDecoded, SseEvent, SseLineKind, SseOutcome,
    SseShape,
};

const KEY: &str = "AIza12SECRETwxyz";

fn content(texts: &[&str]) -> GenResponse {
    GenResponse {
        candidates: vec![Candidate {
            content: Content {
                parts: texts.iter().map(|text| Part { text: text.to_string() }).collect(),
            },
            finish_reason: String::new(),
        }],
        prompt_feedback: None,
    }
}

fn error(code: u16, reasons: &[&str]) -> GeminiErrorDetails {
    GeminiErrorDetails {
        code,
        message: format!("bad {KEY}"),
        status: "STATUS".to_string(),
        details: reasons
            .iter()
            .map(|reason| GeminiErrorDetailEntry { reason: reason.to_string() })
            .collect(),
    }
}

fn detail(code: u16, status: &str, message: &str) -> ErrorDetail {
    ErrorDetail {
        api_key: "AIza12...wxyz".to_string(),
        code,
        status: status.to_string(),
        message: message.to_string(),
    }
}

fn pump(event: SseEvent) -> (SseAction, bool) {
    let mut any_delta = false;
    let action = pump_sse(&mut any_delta, KEY, event);
    (action, any_delta)
}

fn line(text: &str) -> SseAction {
    let (action, any_delta) = pump(SseEvent::Line(text.to_string()));
    assert!(!any_delta);
    action
}

#[test]
fn data_has_a_shape() {
    assert_eq!(sse_shape("{nope"), SseShape::NotJson);
    assert_eq!(sse_shape(r#"{"error": null}"#), SseShape::Error);
    assert_eq!(sse_shape(r#"{"candidates": []}"#), SseShape::Content);
    assert_eq!(sse_shape(r#"["error"]"#), SseShape::Content);
    assert_eq!(sse_shape(r#""error""#), SseShape::Content);
    assert_eq!(sse_shape(r#"{"nested": {"error": 1}}"#), SseShape::Content);
}

#[test]
fn lines_turn_out_to_be_something() {
    assert_eq!(
        parse_sse_data(SseDecoded::NotJson),
        SseLineKind::Malformed("line was not valid JSON".to_string())
    );
    assert_eq!(
        parse_sse_data(SseDecoded::Error(Ok(error(500, &[])))),
        SseLineKind::ErrorChunk(error(500, &[]))
    );
    assert_eq!(
        parse_sse_data(SseDecoded::Error(Err("e".to_string()))),
        SseLineKind::Malformed("unparseable in-band error chunk: e".to_string())
    );
    assert_eq!(
        parse_sse_data(SseDecoded::Content(Ok(content(&["a"])))),
        SseLineKind::Content(content(&["a"]))
    );
    assert_eq!(
        parse_sse_data(SseDecoded::Content(Err("e".to_string()))),
        SseLineKind::Malformed("malformed SSE chunk: e".to_string())
    );
}

#[test]
fn lines_without_data_are_passed_over() {
    for text in ["\n", ": comment\n", "event: x\n", "data:{}\n", "data: \n", "data:   \r\n", " data: {}"] {
        assert_eq!(line(text), SseAction::ReadLine);
    }
}

#[test]
fn data_is_read_as_what_it_is() {
    assert_eq!(
        line("data: {\"a\": 1} \r\n"),
        SseAction::Decode(SseShape::Content, "{\"a\": 1}".to_string())
    );
    assert_eq!(
        line("data: {\"error\": {}}\n"),
        SseAction::Decode(SseShape::Error, "{\"error\": {}}".to_string())
    );
    assert_eq!(
        line("data: [DONE]"),
        SseAction::Decode(SseShape::NotJson, "[DONE]".to_string())
    );
}

#[test]
fn texts_are_sent_on_and_noted() {
    assert_eq!(
        pump(SseEvent::Decoded(SseDecoded::Content(Ok(content(&["a", "b"]))))),
        (SseAction::Send("ab".to_string()), true)
    );
    assert_eq!(
        pump(SseEvent::Decoded(SseDecoded::Content(Ok(content(&[""]))))),
        (SseAction::ReadLine, false)
    );
    let empty = GenResponse { candidates: Vec::new(), prompt_feedback: None };
    assert_eq!(
        pump(SseEvent::Decoded(SseDecoded::Content(Ok(empty)))),
        (SseAction::ReadLine, false)
    );
}

#[test]
fn the_note_stays() {
    let mut any_delta = true;
    let action = pump_sse(&mut any_delta, KEY, SseEvent::Eof);
    assert_eq!(action, SseAction::End(SseOutcome::Ended));
    assert!(any_delta);
}

#[test]
fn text_needs_no_maskable_key() {
    let mut any_delta = false;
    let event = SseEvent::Decoded(SseDecoded::Content(Ok(content(&["a"]))));
    assert_eq!(
        pump_sse(&mut any_delta, "aéééééé", event),
        SseAction::Send("a".to_string())
    );
}

#[test]
fn streams_end_quietly() {
    for event in [SseEvent::Cancelled, SseEvent::Eof, SseEvent::SendFailed] {
        assert_eq!(pump(event), (SseAction::End(SseOutcome::Ended), false));
    }
    assert_eq!(pump(SseEvent::Sent), (SseAction::ReadLine, false));
}

#[test]
fn read_errors_are_terminal() {
    assert_eq!(
        pump(SseEvent::ReadFailed(format!("reset {KEY}"))),
        (
            SseAction::End(SseOutcome::Terminal(detail(
                0,
                "STREAM_READ_ERROR",
                "reset [REDACTED]"
            ))),
            false
        )
    );
}

#[test]
fn malformed_data_is_terminal() {
    assert_eq!(
        pump(SseEvent::Decoded(SseDecoded::NotJson)).0,
        SseAction::End(SseOutcome::Terminal(detail(
            0,
            "MALFORMED_SSE_CHUNK",
            "line was not valid JSON"
        )))
    );
    assert_eq!(
        pump(SseEvent::Decoded(SseDecoded::Content(Err("e".to_string())))).0,
        SseAction::End(SseOutcome::Terminal(detail(
            0,
            "MALFORMED_SSE_CHUNK",
            "malformed SSE chunk: e"
        )))
    );
}

#[test]
fn in_band_errors_blame_the_key_or_not() {
    let end = |code, reasons: &[&str]| {
        pump(SseEvent::Decoded(SseDecoded::Error(Ok(error(code, reasons))))).0
    };
    let told = |code| detail(code, "STATUS", "bad [REDACTED]");
    for (code, reasons) in [(429, &[][..]), (400, &["API_KEY_INVALID"][..]), (403, &["API_KEY_INVALID"][..])] {
        assert_eq!(
            end(code, reasons),
            SseAction::End(SseOutcome::RotateEligible(told(code)))
        );
    }
    for (code, reasons) in [(400, &[][..]), (403, &["X"][..]), (500, &["API_KEY_INVALID"][..])] {
        assert_eq!(end(code, reasons), SseAction::End(SseOutcome::Terminal(told(code))));
    }
}

#[test]
fn in_band_errors_are_judged_like_answers() {
    for (code, reasons) in [(429, &[][..]), (403, &["API_KEY_INVALID"][..]), (500, &["X"][..])] {
        let answer = describe_ureq_error(
            HttpFailure::Status {
                code,
                content_type: "application/json".to_string(),
                body: String::new(),
                payload: Some(error(code, reasons)),
            },
            KEY,
        );
        let rotates = answer.should_rotate();
        let expected = if rotates {
            SseOutcome::RotateEligible(answer.into_detail())
        } else {
            SseOutcome::Terminal(answer.into_detail())
        };
        assert_eq!(
            pump(SseEvent::Decoded(SseDecoded::Error(Ok(error(code, reasons))))).0,
            SseAction::End(expected)
        );
    }
}

#[test]
fn every_text_of_a_stream_is_sent_on() {
    let pieces = [vec!["He", "l"], vec![""], vec!["lo"]];
    let mut any_delta = false;
    let mut sent = Vec::new();
    for piece in &pieces {
        let mut action =
            pump_sse(&mut any_delta, KEY, SseEvent::Line("data: {\"a\": []}\n".to_string()));
        assert!(matches!(action, SseAction::Decode(SseShape::Content, _)));
        let decoded = SseDecoded::Content(Ok(content(piece)));
        action = pump_sse(&mut any_delta, KEY, SseEvent::Decoded(decoded));
        if let SseAction::Send(text) = action {
            sent.push(text);
            action = pump_sse(&mut any_delta, KEY, SseEvent::Sent);
        }
        assert_eq!(action, SseAction::ReadLine);
    }
    assert_eq!(sent, vec!["Hel".to_string(), "lo".to_string()]);
    assert!(any_delta);
}
