use gemlite::failure::{
    describe_ureq_error, is_invalid_api_key, make_local_api_error, terminal_failure, AskFailure,
    ErrorDetail, GeminiErrorDetailEntry, GeminiErrorDetails, HttpFailure,
};

const KEY: &str = "AIza12SECRETwxyz";

fn detail(code: u16, status: &str, message: &str) -> ErrorDetail {
    ErrorDetail {
        api_key: "AIza12...wxyz".to_string(),
        code,
        status: status.to_string(),
        message: message.to_string(),
    }
}

fn reasons(list: &[&str]) -> Vec<GeminiErrorDetailEntry> {
    list.iter().map(|reason| GeminiErrorDetailEntry { reason: reason.to_string() }).collect()
}

fn answer(code: u16, content_type: &str, payload: Option<GeminiErrorDetails>) -> HttpFailure {
    HttpFailure::Status {
        code,
        content_type: content_type.to_string(),
        body: format!("body with {KEY}"),
        payload,
    }
}

fn reported(code: u16, list: &[&str]) -> Option<GeminiErrorDetails> {
    Some(GeminiErrorDetails {
        code,
        message: format!("bad key {KEY}."),
        status: "INVALID_ARGUMENT".to_string(),
        details: reasons(list),
    })
}

#[test]
fn invalid_key_reason_is_found_anywhere() {
    assert!(is_invalid_api_key(&reasons(&["X", "API_KEY_INVALID"])));
    assert!(!is_invalid_api_key(&reasons(&["X", "API_KEY_INVALID_"])));
    assert!(!is_invalid_api_key(&reasons(&[])));
}

#[test]
fn local_error_has_no_code_and_no_key() {
    assert_eq!(
        make_local_api_error(KEY, "SOME_STATUS", &format!("at {KEY}: bad")),
        detail(0, "SOME_STATUS", "at [REDACTED]: bad")
    );
    assert_eq!(terminal_failure(KEY, "S", "m"), AskFailure::Terminal(detail(0, "S", "m")));
}

#[test]
fn missing_answer_is_local() {
    let failure = describe_ureq_error(HttpFailure::Transport(format!("dns {KEY}")), KEY);
    assert!(!failure.should_rotate());
    assert_eq!(failure, AskFailure::Local(detail(0, "TRANSPORT_FAILURE", "dns [REDACTED]")));
}

#[test]
fn quota_rotates_whatever_the_body() {
    for content_type in ["application/json", "text/html"] {
        let failure = describe_ureq_error(answer(429, content_type, None), KEY);
        assert!(failure.should_rotate());
    }
    let failure = describe_ureq_error(answer(429, "application/json", reported(429, &[])), KEY);
    assert_eq!(
        failure,
        AskFailure::RotateKey(detail(429, "INVALID_ARGUMENT", "bad key [REDACTED]."))
    );
}

#[test]
fn invalid_key_rotates_on_400_and_403_only() {
    for (code, rotates) in [(400, true), (403, true), (401, false), (500, false)] {
        let failure = describe_ureq_error(
            answer(code, "application/json; charset=UTF-8", reported(code, &["API_KEY_INVALID"])),
            KEY,
        );
        assert_eq!(failure.should_rotate(), rotates);
    }
    let failure = describe_ureq_error(answer(400, "application/json", reported(400, &["X"])), KEY);
    assert_eq!(
        failure,
        AskFailure::Terminal(detail(400, "INVALID_ARGUMENT", "bad key [REDACTED]."))
    );
}

#[test]
fn payload_counts_only_where_json_is_declared() {
    let failure = describe_ureq_error(
        answer(400, "text/plain", reported(400, &["API_KEY_INVALID"])),
        KEY,
    );
    assert_eq!(
        failure,
        AskFailure::Terminal(detail(400, "HTTP_GATEWAY_ERROR", "body with [REDACTED]"))
    );
}

#[test]
fn the_code_is_that_of_the_answer() {
    let failure = describe_ureq_error(
        answer(403, "application/json", reported(429, &["API_KEY_INVALID"])),
        KEY,
    );
    assert_eq!(failure.into_detail().code, 403);
}

#[test]
fn unreadable_bodies_are_cut() {
    let body = "é".repeat(1001);
    let failure = describe_ureq_error(
        HttpFailure::Status {
            code: 500,
            content_type: "application/json".to_string(),
            body,
            payload: None,
        },
        KEY,
    );
    assert_eq!(
        failure,
        AskFailure::Terminal(detail(500, "MALFORMED_JSON_RESPONSE", &"é".repeat(1000)))
    );
}

#[test]
fn every_failure_gives_its_detail() {
    for failure in [
        AskFailure::Local(detail(1, "S", "m")),
        AskFailure::RotateKey(detail(1, "S", "m")),
        AskFailure::Terminal(detail(1, "S", "m")),
    ] {
        assert_eq!(failure.into_detail(), detail(1, "S", "m"));
    }
}
