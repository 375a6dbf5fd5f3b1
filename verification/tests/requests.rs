use gemlite::config::{CfgEntry, Turn};
use gemlite::request::{
    build_payload, generate_request, open_stream, upload_bytes_request, upload_start_request, Body,
    HttpRequest, Method,
};

fn turn(role: &str, text: &str) -> Turn {
    Turn { role: role.to_string(), text: text.to_string() }
}

fn cfg(model: &str, system_prompt: &str, enable_grounding: bool) -> CfgEntry {
    CfgEntry {
        api_key: "K".to_string(),
        system_prompt: system_prompt.to_string(),
        model: model.to_string(),
        enable_grounding,
    }
}

fn json(text: &str) -> serde_json::Value {
    serde_json::from_str(text).unwrap()
}

fn pairs(list: &[(&str, &str)]) -> Vec<(String, String)> {
    list.iter().map(|(a, b)| (a.to_string(), b.to_string())).collect()
}

#[test]
fn files_stand_in_the_last_turn() {
    let payload = build_payload(
        &cfg("m", "", false),
        &vec![turn("user", "a"), turn("model", "b"), turn("user", "c")],
        &pairs(&[("u1", "image/png"), ("u2", "text/plain")]),
    );
    assert_eq!(
        payload,
        json(
            r#"{"contents": [
                {"role": "user", "parts": [{"text": "a"}]},
                {"role": "model", "parts": [{"text": "b"}]},
                {"role": "user", "parts": [
                    {"text": "c"},
                    {"fileData": {"fileUri": "u1", "mimeType": "image/png"}},
                    {"fileData": {"fileUri": "u2", "mimeType": "text/plain"}}
                ]}
            ]}"#
        )
    );
}

#[test]
fn options_add_their_fields() {
    let payload = build_payload(&cfg("m", "be \"kind\"", true), &vec![turn("user", "a")], &pairs(&[]));
    assert_eq!(
        payload,
        json(
            r#"{"contents": [{"role": "user", "parts": [{"text": "a"}]}],
                "tools": [{"googleSearch": {}}],
                "systemInstruction": {"parts": [{"text": "be \"kind\""}]}}"#
        )
    );
}

#[test]
fn payload_without_turns_has_no_contents() {
    let payload = build_payload(&cfg("m", "", false), &Vec::new(), &pairs(&[("u", "t")]));
    assert_eq!(payload, json(r#"{"contents": []}"#));
}

#[test]
fn content_is_asked_of_the_bare_model() {
    let request = generate_request(
        &cfg("models/gemini-2.5-flash", "", false),
        &vec![turn("user", "hi")],
        &pairs(&[]),
    );
    assert_eq!(
        request,
        HttpRequest {
            method: Method::Post,
            url: "https://generativelanguage.googleapis.com/v1beta/models/gemini-2.5-flash:generateContent"
                .to_string(),
            query: pairs(&[("key", "K")]),
            headers: pairs(&[]),
            body: Body::Json(json(r#"{"contents": [{"role": "user", "parts": [{"text": "hi"}]}]}"#)),
        }
    );
}

#[test]
fn stream_is_asked_for_as_events() {
    let request = open_stream(&cfg("gemini", "", false), &vec![turn("user", "hi")], &pairs(&[]));
    assert_eq!(
        request.url,
        "https://generativelanguage.googleapis.com/v1beta/models/gemini:streamGenerateContent"
    );
    assert_eq!(request.query, pairs(&[("key", "K"), ("alt", "sse")]));
    assert_eq!(request.method, Method::Post);
    assert_eq!(
        request.body,
        Body::Json(json(r#"{"contents": [{"role": "user", "parts": [{"text": "hi"}]}]}"#))
    );
}

#[test]
fn upload_is_announced_and_sent() {
    assert_eq!(
        upload_start_request("K", 1234, "image/png"),
        HttpRequest {
            method: Method::Post,
            url: "https://generativelanguage.googleapis.com/upload/v1beta/files".to_string(),
            query: pairs(&[("key", "K")]),
            headers: pairs(&[
                ("X-Goog-Upload-Protocol", "resumable"),
                ("X-Goog-Upload-Command", "start"),
                ("X-Goog-Upload-Header-Content-Length", "1234"),
                ("X-Goog-Upload-Header-Content-Type", "image/png"),
            ]),
            body: Body::Json(json(r#"{"file": {"displayName": "upload"}}"#)),
        }
    );
    assert_eq!(
        upload_bytes_request("https://up.example/1", 1234),
        HttpRequest {
            method: Method::Put,
            url: "https://up.example/1".to_string(),
            query: pairs(&[]),
            headers: pairs(&[
                ("X-Goog-Upload-Command", "upload, finalize"),
                ("X-Goog-Upload-Offset", "0"),
                ("Content-Length", "1234"),
            ]),
            body: Body::File,
        }
    );
}
