use std::sync::Arc;

use gemlite::ask::{ask_inner, AskStep};
use gemlite::config::CfgEntry;
use gemlite::failure::{AskFailure, ErrorDetail, GeminiErrorDetails};
use gemlite::keys::KeyRun;
use gemlite::preflight::{rotation_order, Preflight};
use gemlite::reply::{Candidate, Content, GenResponse, Part};
use gemlite::sse::{pump_sse, SseAction, SseDecoded, SseEvent, SseOutcome};
use gemlite::stream::{
    poll_value, stream_msg_to_json, stream_msg_value, stream_next_inner, stream_send_error,
    stream_worker, PollEvent, StreamEnd, StreamEvent, StreamMsg, StreamStep,
};

fn cfg(api_key: &str, model: &str) -> CfgEntry {
    CfgEntry {
        api_key: api_key.to_string(),
        system_prompt: String::new(),
        model: model.to_string(),
        enable_grounding: false,
    }
}

fn settled() -> Preflight {
    Preflight {
        read_files: Vec::new(),
        cfg_snapshot: Arc::new(vec![cfg("AIza12SECRETwxyz", "m1"), cfg("b", "m2")]),
        valid: vec![0, 1],
        order: vec![1, 0],
    }
}

fn detail(status: &str) -> ErrorDetail {
    ErrorDetail {
        api_key: "...".to_string(),
        code: 7,
        status: status.to_string(),
        message: "m \"q\"".to_string(),
    }
}

fn no_content(api_key: &str) -> ErrorDetail {
    ErrorDetail {
        api_key: api_key.to_string(),
        code: 0,
        status: "NO_CANDIDATES".to_string(),
        message: "stream ended with no content".to_string(),
    }
}

fn read(outcome: SseOutcome, any_delta: bool) -> StreamEvent {
    StreamEvent::Streamed { outcome, any_delta }
}

fn done(model: &str, pointer: Option<usize>) -> StreamEnd {
    StreamEnd { message: Some(StreamMsg::Done { model: model.to_string() }), pointer }
}

fn errors(model: &str, errors: Vec<ErrorDetail>) -> StreamEnd {
    StreamEnd {
        message: Some(StreamMsg::Error { model: model.to_string(), errors }),
        pointer: None,
    }
}

fn stream(events: Vec<StreamEvent>) -> StreamEnd {
    let mut run = KeyRun::begin(settled());
    for event in events {
        match stream_worker(run, event) {
            StreamStep::TryKey(next) => run = next,
            StreamStep::Finish(end) => return end,
        }
    }
    panic!("the stream is not over");
}

#[test]
fn text_completes_the_stream() {
    assert_eq!(stream(vec![read(SseOutcome::Ended, true)]), done("m2", None));
    assert_eq!(
        stream(vec![
            read(SseOutcome::RotateEligible(detail("Q")), false),
            read(SseOutcome::Ended, true)
        ]),
        done("m1", None)
    );
}

#[test]
fn stream_without_content_is_an_error() {
    assert_eq!(
        stream(vec![read(SseOutcome::Ended, false)]),
        errors("m2", vec![no_content("...")])
    );
    assert_eq!(
        stream(vec![
            StreamEvent::Failed(AskFailure::RotateKey(detail("Q"))),
            read(SseOutcome::Ended, false)
        ]),
        errors("m1", vec![detail("Q"), no_content("AIza12...wxyz")])
    );
}

#[test]
fn key_to_blame_after_text_moves_the_next_call() {
    let end = stream(vec![read(SseOutcome::RotateEligible(detail("Q")), true)]);
    assert_eq!(end, done("m2", Some(0)));
    let end = stream(vec![
        StreamEvent::Failed(AskFailure::RotateKey(detail("Q"))),
        read(SseOutcome::RotateEligible(detail("Q")), true),
    ]);
    assert_eq!(end, done("m1", Some(1)));
    assert_eq!(rotation_order(2, end.pointer.unwrap()), vec![1, 0]);
}

#[test]
fn keys_to_blame_before_text_are_exhausted() {
    assert_eq!(
        stream(vec![
            read(SseOutcome::RotateEligible(detail("Q1")), false),
            StreamEvent::Failed(AskFailure::RotateKey(detail("Q2")))
        ]),
        errors("m1", vec![detail("Q1"), detail("Q2")])
    );
}

#[test]
fn other_stream_failures_are_reported_at_once() {
    for event in [
        StreamEvent::Failed(AskFailure::Local(detail("X"))),
        StreamEvent::Failed(AskFailure::Terminal(detail("X"))),
        read(SseOutcome::Terminal(detail("X")), false),
        read(SseOutcome::Terminal(detail("X")), true),
    ] {
        assert_eq!(stream(vec![event]), errors("m2", vec![detail("X")]));
    }
}

#[test]
fn cancelled_stream_is_silent() {
    let silent = || StreamEnd { message: None, pointer: None };
    assert_eq!(stream(vec![StreamEvent::Cancelled]), silent());
    assert_eq!(
        stream(vec![
            StreamEvent::Failed(AskFailure::RotateKey(detail("Q"))),
            StreamEvent::Cancelled
        ]),
        silent()
    );
}

#[test]
fn messages_are_written_as_json() {
    assert_eq!(
        stream_msg_to_json(&StreamMsg::Delta("a\n\"b\"".to_string())),
        r#"{"text":"a\n\"b\"","type":"delta"}"#
    );
    assert_eq!(
        stream_msg_to_json(&StreamMsg::Done { model: "m".to_string() }),
        r#"{"model":"m","type":"done"}"#
    );
    assert_eq!(
        stream_msg_to_json(&StreamMsg::Error {
            model: "m".to_string(),
            errors: vec![detail("S"), no_content("AIza12...wxyz")],
        }),
        concat_lines(&[
            r#"{"errors":[{"api_key":"...","code":7,"message":"m \"q\"","status":"S"},"#,
            r#"{"api_key":"AIza12...wxyz","code":0,"message":"stream ended with no content","#,
            r#""status":"NO_CANDIDATES"}],"model":"m","type":"error"}"#,
        ])
    );
}

fn concat_lines(lines: &[&str]) -> String {
    lines.concat()
}

#[test]
fn message_values_hold_what_the_text_says() {
    for msg in [
        StreamMsg::Delta("é".to_string()),
        StreamMsg::Done { model: "m".to_string() },
        stream_send_error("S", "why".to_string()),
    ] {
        let read: serde_json::Value = serde_json::from_str(&stream_msg_to_json(&msg)).unwrap();
        assert_eq!(stream_msg_value(&msg), read);
    }
}

#[test]
fn errors_without_a_key_have_one_detail() {
    assert_eq!(
        stream_send_error("FATAL_PANIC", "Panic inside FFI boundary".to_string()),
        StreamMsg::Error {
            model: "unknown".to_string(),
            errors: vec![ErrorDetail {
                api_key: String::new(),
                code: 0,
                status: "FATAL_PANIC".to_string(),
                message: "Panic inside FFI boundary".to_string(),
            }],
        }
    );
}

#[test]
fn polls_are_answered() {
    assert_eq!(stream_next_inner(PollEvent::Timeout), r#"{"type":"pending"}"#);
    assert_eq!(
        stream_next_inner(PollEvent::Disconnected),
        r#"{"model":"unknown","type":"done"}"#
    );
    assert_eq!(
        stream_next_inner(PollEvent::Message(StreamMsg::Delta("x".to_string()))),
        r#"{"text":"x","type":"delta"}"#
    );
    assert_eq!(
        stream_next_inner(PollEvent::UnknownHandle),
        concat_lines(&[
            r#"{"errors":[{"api_key":"","code":0,"#,
            r#""message":"stream handle not found (already closed?)","status":"UNKNOWN_HANDLE"}],"#,
            r#""model":"unknown","type":"error"}"#,
        ])
    );
    assert_eq!(
        stream_next_inner(PollEvent::LockPoisoned),
        concat_lines(&[
            r#"{"errors":[{"api_key":"","code":0,"#,
            r#""message":"stream registry lock is poisoned","status":"LOCK_POISONED"}],"#,
            r#""model":"unknown","type":"error"}"#,
        ])
    );
}

#[test]
fn poll_values_are_objects_with_a_type() {
    for event in [PollEvent::Timeout, PollEvent::Disconnected, PollEvent::UnknownHandle] {
        assert!(poll_value(event).get("type").is_some());
    }
}

#[test]
fn faults_of_a_poll_are_told() {
    assert_eq!(
        poll_value(PollEvent::Panicked),
        stream_msg_value(&stream_send_error(
            "FATAL_PANIC",
            "Panic inside FFI boundary".to_string()
        ))
    );
    assert_eq!(
        stream_next_inner(PollEvent::NullByte),
        concat_lines(&[
            r#"{"errors":[{"api_key":"","code":0,"message":"Null byte error","#,
            r#""status":"NULL_BYTE_ERROR"}],"model":"unknown","type":"error"}"#,
        ])
    );
}

#[test]
fn streams_and_calls_agree_on_failures() {
    let failures = || {
        [
            AskFailure::Local(detail("X")),
            AskFailure::RotateKey(detail("X")),
            AskFailure::Terminal(detail("X")),
        ]
    };
    for (for_stream, for_call) in failures().into_iter().zip(failures()) {
        let streamed =
            stream_worker(KeyRun::begin(settled()), StreamEvent::Failed(for_stream));
        let asked = ask_inner(KeyRun::begin(settled()), Err(for_call));
        match (streamed, asked) {
            (StreamStep::TryKey(a), AskStep::TryKey(b)) => assert_eq!(a, b),
            (StreamStep::Finish(end), AskStep::Finish(response)) => {
                assert_eq!(end, errors(&response.model, response.errors))
            }
            (a, b) => panic!("{a:?} but {b:?}"),
        }
    }
}

#[test]
fn whole_stream_gives_the_texts_of_one_key() {
    let quota = GeminiErrorDetails {
        code: 429,
        message: "quota".to_string(),
        status: "RESOURCE_EXHAUSTED".to_string(),
        details: Vec::new(),
    };
    let piece = |text: &str| GenResponse {
        candidates: vec![Candidate {
            content: Content { parts: vec![Part { text: text.to_string() }] },
            finish_reason: String::new(),
        }],
        prompt_feedback: None,
    };
    let mut heard = vec![
        vec![SseEvent::Decoded(SseDecoded::Error(Ok(quota)))],
        vec![
            SseEvent::Decoded(SseDecoded::Content(Ok(piece("He")))),
            SseEvent::Sent,
            SseEvent::Decoded(SseDecoded::Content(Ok(piece("llo")))),
            SseEvent::Sent,
            SseEvent::Eof,
        ],
    ];
    let mut messages = Vec::new();
    let mut run = KeyRun::begin(settled());
    let end = loop {
        let mut any_delta = false;
        let mut ended = None;
        for event in heard.remove(0) {
            match pump_sse(&mut any_delta, &run.cfg().api_key, event) {
                SseAction::Send(text) => messages.push(StreamMsg::Delta(text)),
                SseAction::End(outcome) => ended = Some(outcome),
                _ => {}
            }
        }
        match stream_worker(run, read(ended.unwrap(), any_delta)) {
            StreamStep::TryKey(next) => run = next,
            StreamStep::Finish(end) => break end,
        }
    };
    assert_eq!(
        messages,
        vec![StreamMsg::Delta("He".to_string()), StreamMsg::Delta("llo".to_string())]
    );
    assert_eq!(end, done("m1", None));
}

#[test]
fn repeated_polls_give_every_message_once() {
    let polls = [
        PollEvent::Timeout,
        PollEvent::Message(StreamMsg::Delta("a".to_string())),
        PollEvent::Timeout,
        PollEvent::Message(StreamMsg::Done { model: "m".to_string() }),
        PollEvent::Disconnected,
        PollEvent::Disconnected,
    ];
    let told: Vec<String> = polls
        .into_iter()
        .map(stream_next_inner)
        .filter(|text| text != r#"{"type":"pending"}"#)
        .collect();
    assert_eq!(
        told,
        vec![
            r#"{"text":"a","type":"delta"}"#,
            r#"{"model":"m","type":"done"}"#,
            r#"{"model":"unknown","type":"done"}"#,
            r#"{"model":"unknown","type":"done"}"#,
        ]
    );
}
