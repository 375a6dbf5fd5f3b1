use std::sync::Arc;

use gemlite::ask::{answer_fault, ask_inner, make_preflight, AskFault, AskStep, FinalResponse};
use gemlite::config::CfgEntry;
use gemlite::failure::{AskFailure, ErrorDetail, HttpFailure};
use gemlite::keys::KeyRun;
use gemlite::preflight::Preflight;
use gemlite::reply::{generate, GenerateReply};

fn cfg(api_key: &str, model: &str) -> CfgEntry {
    CfgEntry {
        api_key: api_key.to_string(),
        system_prompt: String::new(),
        model: model.to_string(),
        enable_grounding: false,
    }
}

fn settled() -> Preflight {
    Preflight {
        read_files: Vec::new(),
        cfg_snapshot: Arc::new(vec![cfg("a", "m1"), cfg("", ""), cfg("b", "m2")]),
        valid: vec![0, 2],
        order: vec![1, 0],
    }
}

fn detail(status: &str) -> ErrorDetail {
    ErrorDetail {
        api_key: "...".to_string(),
        code: 429,
        status: status.to_string(),
        message: "m".to_string(),
    }
}

fn errors(model: &str, errors: Vec<ErrorDetail>) -> FinalResponse {
    FinalResponse { status: "error".to_string(), model: model.to_string(), result: None, errors }
}

fn ask(outcomes: Vec<Result<String, AskFailure>>) -> FinalResponse {
    let mut run = KeyRun::begin(settled());
    for outcome in outcomes {
        match ask_inner(run, outcome) {
            AskStep::TryKey(next) => run = next,
            AskStep::Finish(response) => return response,
        }
    }
    panic!("the call is not over");
}

#[test]
fn refusal_names_no_model_and_no_key() {
    assert_eq!(
        make_preflight("NO_VALID_CONFIG", "no valid configuration found"),
        FinalResponse {
            status: "error".to_string(),
            model: "unknown".to_string(),
            result: None,
            errors: vec![ErrorDetail {
                api_key: String::new(),
                code: 0,
                status: "NO_VALID_CONFIG".to_string(),
                message: "no valid configuration found".to_string(),
            }],
        }
    );
}

#[test]
fn first_text_is_the_answer() {
    assert_eq!(
        ask(vec![Ok("hi".to_string())]),
        FinalResponse {
            status: "success".to_string(),
            model: "m2".to_string(),
            result: Some("hi".to_string()),
            errors: Vec::new(),
        }
    );
}

#[test]
fn next_key_is_tried_and_earlier_errors_are_dropped() {
    assert_eq!(
        ask(vec![Err(AskFailure::RotateKey(detail("Q"))), Ok("hi".to_string())]),
        FinalResponse {
            status: "success".to_string(),
            model: "m1".to_string(),
            result: Some("hi".to_string()),
            errors: Vec::new(),
        }
    );
}

#[test]
fn other_failures_end_the_call() {
    assert_eq!(
        ask(vec![Err(AskFailure::Terminal(detail("T")))]),
        errors("m2", vec![detail("T")])
    );
    assert_eq!(ask(vec![Err(AskFailure::Local(detail("L")))]), errors("m2", vec![detail("L")]));
    assert_eq!(
        ask(vec![Err(AskFailure::RotateKey(detail("Q"))), Err(AskFailure::Local(detail("L")))]),
        errors("m1", vec![detail("Q"), detail("L")])
    );
}

#[test]
fn exhausted_keys_report_every_failure() {
    assert_eq!(
        ask(vec![
            Err(AskFailure::RotateKey(detail("Q1"))),
            Err(AskFailure::RotateKey(detail("Q2")))
        ]),
        errors("m1", vec![detail("Q1"), detail("Q2")])
    );
}

#[test]
fn keys_are_walked_in_order() {
    let run = KeyRun::begin(settled());
    assert_eq!(run.pos(), 1);
    assert_eq!(run.cfg(), &cfg("b", "m2"));
    assert!(run.has_next());
    let run = run.next(detail("Q"));
    assert_eq!(run.pos(), 0);
    assert_eq!(run.cfg(), &cfg("a", "m1"));
    assert!(!run.has_next());
    assert_eq!(run.failures(detail("R")), vec![detail("Q"), detail("R")]);
}

#[test]
fn faults_are_answered() {
    for (fault, status, message) in [
        (AskFault::Panicked, "FATAL_PANIC", "Panic inside FFI boundary"),
        (AskFault::NullByte, "NULL_BYTE_ERROR", "Null byte error"),
        (
            AskFault::NotSerialized,
            "JSON_SERIALIZATION_FAIL",
            "Failed to construct the unified JSON payload",
        ),
    ] {
        assert_eq!(answer_fault(fault), make_preflight(status, message));
    }
}

#[test]
fn answers_show_masked_keys_only() {
    let key = "AIza12SECRETwxyz";
    let run = KeyRun::begin(Preflight {
        read_files: Vec::new(),
        cfg_snapshot: Arc::new(vec![cfg(key, "m")]),
        valid: vec![0],
        order: vec![0],
    });
    let reply = GenerateReply::Failed(HttpFailure::Status {
        code: 429,
        content_type: "text/plain".to_string(),
        body: format!("quota of {key} is used up"),
        payload: None,
    });
    let outcome = generate(run.cfg(), reply);
    let AskStep::Finish(response) = ask_inner(run, outcome) else { panic!("not over") };
    assert_eq!(response.errors.len(), 1);
    assert_eq!(response.errors[0].api_key, "AIza12...wxyz");
    assert_eq!(response.errors[0].message, "quota of [REDACTED] is used up");
    assert_eq!(response.model, "m");
}
