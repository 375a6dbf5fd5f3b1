use gemlite::config::CfgEntry;
use gemlite::failure::{AskFailure, ErrorDetail, HttpFailure};
use gemlite::reply::{
    generate, response_text, upload_file, Candidate, Content, GenResponse, GenerateReply, Part,
    PromptFeedback, UploadAction, UploadEvent,
};
use gemlite::request::{upload_bytes_request, upload_start_request};

const KEY: &str = "AIza12SECRETwxyz";

fn cfg(api_key: &str) -> CfgEntry {
    CfgEntry {
        api_key: api_key.to_string(),
        system_prompt: String::new(),
        model: "m".to_string(),
        enable_grounding: false,
    }
}

fn candidate(texts: &[&str], finish_reason: &str) -> Candidate {
    Candidate {
        content: Content {
            parts: texts.iter().map(|text| Part { text: text.to_string() }).collect(),
        },
        finish_reason: finish_reason.to_string(),
    }
}

fn response(candidates: Vec<Candidate>, block_reason: Option<&str>) -> GenResponse {
    GenResponse {
        candidates,
        prompt_feedback: block_reason
            .map(|reason| PromptFeedback { block_reason: reason.to_string() }),
    }
}

fn terminal(status: &str, message: &str) -> AskFailure {
    AskFailure::Terminal(ErrorDetail {
        api_key: "AIza12...wxyz".to_string(),
        code: 0,
        status: status.to_string(),
        message: message.to_string(),
    })
}

fn transport(message: &str) -> HttpFailure {
    HttpFailure::Transport(message.to_string())
}

fn local(message: &str) -> AskFailure {
    AskFailure::Local(ErrorDetail {
        api_key: "AIza12...wxyz".to_string(),
        code: 0,
        status: "TRANSPORT_FAILURE".to_string(),
        message: message.to_string(),
    })
}

#[test]
fn text_is_that_of_the_first_candidate() {
    let answer = response(vec![candidate(&["a", "", "b"], "STOP"), candidate(&["c"], "")], None);
    assert_eq!(response_text(&answer), "ab");
    assert_eq!(generate(&cfg(KEY), GenerateReply::Answer(answer)), Ok("ab".to_string()));
}

#[test]
fn text_is_given_whatever_the_key() {
    let answer = response(vec![candidate(&["a"], "STOP")], Some("IGNORED"));
    assert_eq!(
        generate(&cfg("aéééééé"), GenerateReply::Answer(answer)),
        Ok("a".to_string())
    );
}

#[test]
fn candidate_without_text_is_a_failure() {
    let answer = response(vec![candidate(&[""], "SAFETY"), candidate(&["c"], "STOP")], Some("X"));
    assert_eq!(response_text(&answer), "");
    assert_eq!(
        generate(&cfg(KEY), GenerateReply::Answer(answer)),
        Err(terminal("EMPTY_RESPONSE", "finishReason: SAFETY"))
    );
}

#[test]
fn blocked_prompt_says_why() {
    assert_eq!(
        generate(&cfg(KEY), GenerateReply::Answer(response(vec![], Some("OTHER")))),
        Err(terminal("PROMPT_BLOCKED", "prompt blocked (OTHER)"))
    );
}

#[test]
fn missing_candidates_are_a_failure() {
    for feedback in [None, Some("")] {
        assert_eq!(
            generate(&cfg(KEY), GenerateReply::Answer(response(vec![], feedback))),
            Err(terminal("NO_CANDIDATES", "no candidates returned"))
        );
    }
}

#[test]
fn unreadable_answer_is_terminal() {
    assert_eq!(
        generate(&cfg(KEY), GenerateReply::Unreadable(format!("bad {KEY}"))),
        Err(terminal("BAD_GENERATE_JSON", "bad [REDACTED]"))
    );
}

#[test]
fn failed_request_is_described() {
    assert_eq!(
        generate(&cfg(KEY), GenerateReply::Failed(transport("down"))),
        Err(local("down"))
    );
}

#[test]
fn upload_goes_step_by_step() {
    assert_eq!(
        upload_file(KEY, 7, "image/png", UploadEvent::Begin),
        UploadAction::Send(upload_start_request(KEY, 7, "image/png"))
    );
    assert_eq!(
        upload_file(KEY, 7, "image/png", UploadEvent::Announced(Some("https://up".to_string()))),
        UploadAction::Send(upload_bytes_request("https://up", 7))
    );
    assert_eq!(
        upload_file(KEY, 7, "image/png", UploadEvent::Stored("https://file/1".to_string())),
        UploadAction::Finish(Ok("https://file/1".to_string()))
    );
}

#[test]
fn upload_fails_in_its_ways() {
    let finish = |event| upload_file(KEY, 7, "image/png", event);
    assert_eq!(
        finish(UploadEvent::AnnounceFailed(transport("a"))),
        UploadAction::Finish(Err(local("a")))
    );
    assert_eq!(
        finish(UploadEvent::Announced(None)),
        UploadAction::Finish(Err(terminal(
            "MISSING_HEADER",
            "Upload start response missing X-Goog-Upload-URL"
        )))
    );
    assert_eq!(
        finish(UploadEvent::SendFailed(transport("s"))),
        UploadAction::Finish(Err(local("s")))
    );
    assert_eq!(
        finish(UploadEvent::Unreadable("not JSON".to_string())),
        UploadAction::Finish(Err(terminal("BAD_UPLOAD_JSON", "not JSON")))
    );
    assert_eq!(
        finish(UploadEvent::Stored(String::new())),
        UploadAction::Finish(Err(terminal(
            "EMPTY_FILE_URI",
            "Upload response had empty file uri"
        )))
    );
}

#[test]
fn upload_is_announced_before_it_is_sent() {
    let mut sent = Vec::new();
    let mut event = UploadEvent::Begin;
    let outcome = loop {
        match upload_file(KEY, 7, "image/png", event) {
            UploadAction::Finish(outcome) => break outcome,
            UploadAction::Send(request) => {
                event = if sent.is_empty() {
                    UploadEvent::Announced(Some("https://up".to_string()))
                } else {
                    UploadEvent::Stored("https://file/1".to_string())
                };
                sent.push(request);
            }
        }
    };
    assert_eq!(outcome, Ok("https://file/1".to_string()));
    assert_eq!(
        sent,
        vec![upload_start_request(KEY, 7, "image/png"), upload_bytes_request("https://up", 7)]
    );
}
