//! The requests that are sent to the service.

use vstd::prelude::*;
use vstd::string::*;

use crate::config::{CfgEntry, CfgView, Turn, TurnView};
use crate::json::{
    array_value, empty_object, has_one_field, has_two_fields, no_fields, object1, object2,
    set_field, text_value, value_tree, value_trees, JsonTree,
};
use crate::text::{
    begins_with, decimal, join3, law_decimal_reads_back, law_prefix_and_rest, read_decimal,
    strip_prefix, to_decimal,
};

verus! {

/// Where the service is found.
pub const BASE_URL: &'static str = "https://generativelanguage.googleapis.com";

/// The HTTP method of a request.
#[derive(Debug, PartialEq, Eq)]
pub enum Method {
    Post,
    Put,
}

/// The body of a request.
#[derive(Debug, PartialEq, Eq)]
pub enum Body {
    /// A JSON value.
    Json(serde_json::Value),
    /// The bytes of the file that is being uploaded.
    File,
}

/// A request, ready to be sent.
#[derive(Debug, PartialEq, Eq)]
pub struct HttpRequest {
    pub method: Method,
    pub url: String,
    pub query: Vec<(String, String)>,
    pub headers: Vec<(String, String)>,
    pub body: Body,
}

/// What a body holds.
pub enum BodyView {
    Json(JsonTree),
    File,
}

/// An `HttpRequest` over sequences of characters.
pub struct HttpRequestView {
    pub method: Method,
    pub url: Seq<char>,
    pub query: Seq<(Seq<char>, Seq<char>)>,
    pub headers: Seq<(Seq<char>, Seq<char>)>,
    pub body: BodyView,
}

impl View for HttpRequest {
    type V = HttpRequestView;

    open spec fn view(&self) -> HttpRequestView {
        HttpRequestView {
            method: self.method,
            url: self.url@,
            query: self.query.deep_view(),
            headers: self.headers.deep_view(),
            body: match self.body {
                Body::Json(value) => BodyView::Json(value_tree(value)),
                Body::File => BodyView::File,
            },
        }
    }
}

/// An object whose one field is a text.
pub open spec fn text_object(name: Seq<char>, text: Seq<char>) -> JsonTree {
    JsonTree::Object(no_fields().insert(name, JsonTree::Text(text)))
}

/// The part of a turn that refers to an uploaded file, by its URI and its MIME type.
pub open spec fn file_part(file: (Seq<char>, Seq<char>)) -> JsonTree {
    JsonTree::Object(
        no_fields().insert(
            "fileData"@,
            JsonTree::Object(
                no_fields().insert("fileUri"@, JsonTree::Text(file.0)).insert(
                    "mimeType"@,
                    JsonTree::Text(file.1),
                ),
            ),
        ),
    )
}

/// The parts of a turn: its text, and after it the files that go with it.
pub open spec fn turn_parts(turn: TurnView, files: Seq<(Seq<char>, Seq<char>)>) -> Seq<JsonTree> {
    seq![text_object("text"@, turn.text)] + files.map_values(
        |file: (Seq<char>, Seq<char>)| file_part(file),
    )
}

/// One entry of `contents`.
pub open spec fn turn_content(turn: TurnView, files: Seq<(Seq<char>, Seq<char>)>) -> JsonTree {
    JsonTree::Object(
        no_fields().insert("role"@, JsonTree::Text(turn.role)).insert(
            "parts"@,
            JsonTree::Array(turn_parts(turn, files)),
        ),
    )
}

/// `contents`: the turns in their order; the files go with the last one.
pub open spec fn contents(
    turns: Seq<TurnView>,
    files: Seq<(Seq<char>, Seq<char>)>,
) -> Seq<JsonTree> {
    Seq::new(
        turns.len(),
        |i: int|
            turn_content(
                turns[i],
                if i == turns.len() - 1 {
                    files
                } else {
                    Seq::empty()
                },
            ),
    )
}

/// The tool that searches the web.
pub open spec fn search_tool() -> JsonTree {
    JsonTree::Object(no_fields().insert("googleSearch"@, JsonTree::Object(no_fields())))
}

/// The system prompt, as the service wants it.
pub open spec fn system_instruction(prompt: Seq<char>) -> JsonTree {
    JsonTree::Object(
        no_fields().insert("parts"@, JsonTree::Array(seq![text_object("text"@, prompt)])),
    )
}

/// The fields of a request for content: the turns, the search tool where grounding is
/// on, and the system prompt where there is one.
pub open spec fn payload_fields(
    cfg: CfgView,
    turns: Seq<TurnView>,
    files: Seq<(Seq<char>, Seq<char>)>,
) -> Map<Seq<char>, JsonTree> {
    let base = no_fields().insert("contents"@, JsonTree::Array(contents(turns, files)));
    let with_tools = if cfg.enable_grounding {
        base.insert("tools"@, JsonTree::Array(seq![search_tool()]))
    } else {
        base
    };
    if cfg.system_prompt.len() > 0 {
        with_tools.insert("systemInstruction"@, system_instruction(cfg.system_prompt))
    } else {
        with_tools
    }
}

/// The name of a model without the prefix that the listing of models gives it.
pub open spec fn bare_model(model: Seq<char>) -> Seq<char> {
    if begins_with(model, "models/"@) {
        model.skip("models/"@.len() as int)
    } else {
        model
    }
}

/// A request for content, answered at once.
pub open spec fn generate_call(
    cfg: CfgView,
    turns: Seq<TurnView>,
    files: Seq<(Seq<char>, Seq<char>)>,
) -> HttpRequestView {
    HttpRequestView {
        method: Method::Post,
        url: BASE_URL@ + "/v1beta/models/"@ + bare_model(cfg.model) + ":generateContent"@,
        query: seq![("key"@, cfg.api_key)],
        headers: Seq::empty(),
        body: BodyView::Json(JsonTree::Object(payload_fields(cfg, turns, files))),
    }
}

/// A request for content, answered piece by piece.
pub open spec fn stream_call(
    cfg: CfgView,
    turns: Seq<TurnView>,
    files: Seq<(Seq<char>, Seq<char>)>,
) -> HttpRequestView {
    HttpRequestView {
        method: Method::Post,
        url: BASE_URL@ + "/v1beta/models/"@ + bare_model(cfg.model) + ":streamGenerateContent"@,
        query: seq![("key"@, cfg.api_key), ("alt"@, "sse"@)],
        headers: Seq::empty(),
        body: BodyView::Json(JsonTree::Object(payload_fields(cfg, turns, files))),
    }
}

/// The request that announces an upload of `len` bytes.
pub open spec fn upload_start_call(
    api_key: Seq<char>,
    len: nat,
    mime: Seq<char>,
) -> HttpRequestView {
    HttpRequestView {
        method: Method::Post,
        url: BASE_URL@ + "/upload/v1beta/files"@,
        query: seq![("key"@, api_key)],
        headers: seq![
            ("X-Goog-Upload-Protocol"@, "resumable"@),
            ("X-Goog-Upload-Command"@, "start"@),
            ("X-Goog-Upload-Header-Content-Length"@, decimal(len)),
            ("X-Goog-Upload-Header-Content-Type"@, mime),
        ],
        body: BodyView::Json(
            JsonTree::Object(
                no_fields().insert("file"@, text_object("displayName"@, "upload"@)),
            ),
        ),
    }
}

/// The request that sends the `len` bytes of an announced upload.
pub open spec fn upload_bytes_call(upload_url: Seq<char>, len: nat) -> HttpRequestView {
    HttpRequestView {
        method: Method::Put,
        url: upload_url,
        query: Seq::empty(),
        headers: seq![
            ("X-Goog-Upload-Command"@, "upload, finalize"@),
            ("X-Goog-Upload-Offset"@, "0"@),
            ("Content-Length"@, decimal(len)),
        ],
        body: BodyView::File,
    }
}

/// Appends the parts for the files.
fn push_file_parts(parts: &mut Vec<serde_json::Value>, files: &Vec<(String, String)>)
    ensures
        value_trees(final(parts)@) == value_trees(old(parts)@) + files.deep_view().map_values(
            |file: (Seq<char>, Seq<char>)| file_part(file),
        ),
{
    let ghost added = files.deep_view().map_values(
        |file: (Seq<char>, Seq<char>)| file_part(file),
    );
    let ghost before = value_trees(parts@);
    assert(before + added.take(0) == before);
    let mut i: usize = 0;
    while i < files.len()
        invariant
            i <= files.len(),
            added == files.deep_view().map_values(|file: (Seq<char>, Seq<char>)| file_part(file)),
            value_trees(parts@) == before + added.take(i as int),
        decreases files.len() - i,
    {
        let file = &files[i];
        let data = object2(
            "fileUri",
            text_value(file.0.as_str()),
            "mimeType",
            text_value(file.1.as_str()),
        );
        let part = object1("fileData", data);
        let ghost so_far = parts@;
        parts.push(part);
        proof {
            assert(files.deep_view()[i as int] == (file.0@, file.1@));
            assert(value_tree(part) == added[i as int]);
            assert(value_trees(parts@) == value_trees(so_far).push(value_tree(part)));
            assert(added.take(i + 1) == added.take(i as int).push(added[i as int]));
        }
        i = i + 1;
    }
    assert(added.take(added.len() as int) == added);
}

/// A JSON array with one item.
fn array1(item: serde_json::Value) -> (array: serde_json::Value)
    ensures
        value_tree(array) == JsonTree::Array(seq![value_tree(item)]),
{
    let mut items: Vec<serde_json::Value> = Vec::new();
    items.push(item);
    assert(value_trees(items@) == seq![value_tree(item)]);
    array_value(items)
}

/// The body of a request for content.
pub fn build_payload(
    cfg: &CfgEntry,
    turns: &Vec<Turn>,
    files: &Vec<(String, String)>,
) -> (payload: serde_json::Value)
    ensures
        value_tree(payload) == JsonTree::Object(
            payload_fields(cfg@, turns.deep_view(), files.deep_view()),
        ),
{
    let ghost all = contents(turns.deep_view(), files.deep_view());
    let mut list: Vec<serde_json::Value> = Vec::new();
    assert(value_trees(list@) == all.take(0));
    let mut i: usize = 0;
    while i < turns.len()
        invariant
            i <= turns.len(),
            all == contents(turns.deep_view(), files.deep_view()),
            value_trees(list@) == all.take(i as int),
        decreases turns.len() - i,
    {
        let turn = &turns[i];
        let mut parts: Vec<serde_json::Value> = Vec::new();
        parts.push(object1("text", text_value(turn.text.as_str())));
        assert(value_trees(parts@) == seq![text_object("text"@, turn.text@)]);
        let ghost here = if i == turns.len() - 1 {
            files.deep_view()
        } else {
            Seq::empty()
        };
        if i == turns.len() - 1 {
            push_file_parts(&mut parts, files);
        }
        assert(value_trees(parts@) == turn_parts(turn@, here));
        let content = object2("role", text_value(turn.role.as_str()), "parts", array_value(parts));
        let ghost so_far = list@;
        list.push(content);
        proof {
            assert(turns.deep_view()[i as int] == turn@);
            assert(value_tree(content) == all[i as int]);
            assert(value_trees(list@) == value_trees(so_far).push(value_tree(content)));
            assert(all.take(i + 1) == all.take(i as int).push(all[i as int]));
        }
        i = i + 1;
    }
    assert(all.take(all.len() as int) == all);
    let mut payload = object1("contents", array_value(list));
    if cfg.enable_grounding {
        let tool = object1("googleSearch", empty_object());
        set_field(&mut payload, "tools", array1(tool));
    }
    if !cfg.system_prompt.as_str().is_empty() {
        let part = object1("text", text_value(cfg.system_prompt.as_str()));
        let instruction = object1("parts", array1(part));
        set_field(&mut payload, "systemInstruction", instruction);
    }
    payload
}

/// A pair of texts.
fn pair(name: &str, value: &str) -> (result: (String, String))
    ensures
        result.deep_view() == (name@, value@),
{
    (name.to_owned(), value.to_owned())
}

/// The name of a model without its listing prefix.
fn model_name(model: &String) -> (name: &str)
    ensures
        name@ == bare_model(model@),
{
    match strip_prefix(model.as_str(), "models/") {
        Some(name) => name,
        None => model.as_str(),
    }
}

/// Where an operation of a model is found.
fn model_url(model: &String, operation: &str) -> (url: String)
    ensures
        url@ == BASE_URL@ + "/v1beta/models/"@ + bare_model(model@) + operation@,
{
    let mut url = join3(BASE_URL, "/v1beta/models/", model_name(model));
    url.append(operation);
    url
}

/// The request for content that is answered at once.
pub fn generate_request(
    cfg: &CfgEntry,
    turns: &Vec<Turn>,
    files: &Vec<(String, String)>,
) -> (request: HttpRequest)
    ensures
        request@ == generate_call(cfg@, turns.deep_view(), files.deep_view()),
{
    let mut query: Vec<(String, String)> = Vec::new();
    query.push(pair("key", cfg.api_key.as_str()));
    assert(query.deep_view() == seq![("key"@, cfg.api_key@)]);
    let headers: Vec<(String, String)> = Vec::new();
    assert(headers.deep_view() == Seq::<(Seq<char>, Seq<char>)>::empty());
    HttpRequest {
        method: Method::Post,
        url: model_url(&cfg.model, ":generateContent"),
        query,
        headers,
        body: Body::Json(build_payload(cfg, turns, files)),
    }
}

/// The request for content that is answered piece by piece.
pub fn open_stream(
    cfg: &CfgEntry,
    turns: &Vec<Turn>,
    files: &Vec<(String, String)>,
) -> (request: HttpRequest)
    ensures
        request@ == stream_call(cfg@, turns.deep_view(), files.deep_view()),
{
    let mut query: Vec<(String, String)> = Vec::new();
    query.push(pair("key", cfg.api_key.as_str()));
    query.push(pair("alt", "sse"));
    assert(query.deep_view() == seq![("key"@, cfg.api_key@), ("alt"@, "sse"@)]);
    let headers: Vec<(String, String)> = Vec::new();
    assert(headers.deep_view() == Seq::<(Seq<char>, Seq<char>)>::empty());
    HttpRequest {
        method: Method::Post,
        url: model_url(&cfg.model, ":streamGenerateContent"),
        query,
        headers,
        body: Body::Json(build_payload(cfg, turns, files)),
    }
}

/// The request that announces an upload of `len` bytes.
pub fn upload_start_request(api_key: &str, len: u64, mime: &str) -> (request: HttpRequest)
    ensures
        request@ == upload_start_call(api_key@, len as nat, mime@),
{
    let mut query: Vec<(String, String)> = Vec::new();
    query.push(pair("key", api_key));
    assert(query.deep_view() == seq![("key"@, api_key@)]);
    let length = to_decimal(len);
    let mut headers: Vec<(String, String)> = Vec::new();
    headers.push(pair("X-Goog-Upload-Protocol", "resumable"));
    headers.push(pair("X-Goog-Upload-Command", "start"));
    headers.push(pair("X-Goog-Upload-Header-Content-Length", length.as_str()));
    headers.push(pair("X-Goog-Upload-Header-Content-Type", mime));
    assert(headers.deep_view() == upload_start_call(api_key@, len as nat, mime@).headers);
    let name = object1("displayName", text_value("upload"));
    let mut url = BASE_URL.to_owned();
    url.append("/upload/v1beta/files");
    HttpRequest {
        method: Method::Post,
        url,
        query,
        headers,
        body: Body::Json(object1("file", name)),
    }
}

/// The request that sends the `len` bytes of an announced upload.
pub fn upload_bytes_request(upload_url: &str, len: u64) -> (request: HttpRequest)
    ensures
        request@ == upload_bytes_call(upload_url@, len as nat),
{
    let query: Vec<(String, String)> = Vec::new();
    assert(query.deep_view() == Seq::<(Seq<char>, Seq<char>)>::empty());
    let length = to_decimal(len);
    let mut headers: Vec<(String, String)> = Vec::new();
    headers.push(pair("X-Goog-Upload-Command", "upload, finalize"));
    headers.push(pair("X-Goog-Upload-Offset", "0"));
    headers.push(pair("Content-Length", length.as_str()));
    assert(headers.deep_view() == upload_bytes_call(upload_url@, len as nat).headers);
    HttpRequest {
        method: Method::Put,
        url: upload_url.to_owned(),
        query,
        headers,
        body: Body::File,
    }
}

/// The fields of a payload are these and no others: the turns always, the search tool
/// exactly where grounding is on, and the system prompt exactly where there is one.
pub proof fn law_payload_fields(
    cfg: CfgView,
    turns: Seq<TurnView>,
    files: Seq<(Seq<char>, Seq<char>)>,
)
    ensures
        ({
            let fields = payload_fields(cfg, turns, files);
            &&& fields.dom().contains("contents"@)
            &&& fields["contents"@] == JsonTree::Array(contents(turns, files))
            &&& fields.dom().contains("tools"@) <==> cfg.enable_grounding
            &&& fields.dom().contains("systemInstruction"@) <==> cfg.system_prompt.len() > 0
            &&& forall|name: Seq<char>| #[trigger]
                fields.dom().contains(name) ==> name == "contents"@ || name == "tools"@ || name
                    == "systemInstruction"@
        }),
{
    reveal_strlit("contents");
    reveal_strlit("tools");
    reveal_strlit("systemInstruction");
    assert("contents"@.len() == 8);
    assert("tools"@.len() == 5);
    assert("systemInstruction"@.len() == 17);
}

/// Every turn of the conversation is sent, in its order, with its own text first; the
/// uploaded files stand after the text of the last turn, all of them in their order,
/// and in no other turn.
pub proof fn law_files_go_with_the_last_turn(
    turns: Seq<TurnView>,
    files: Seq<(Seq<char>, Seq<char>)>,
)
    ensures
        contents(turns, files).len() == turns.len(),
        forall|i: int|
            0 <= i < turns.len() - 1 ==> #[trigger] contents(turns, files)[i] == turn_content(
                turns[i],
                Seq::empty(),
            ),
        turns.len() > 0 ==> contents(turns, files).last() == turn_content(turns.last(), files),
        forall|turn: TurnView| #[trigger]
            turn_parts(turn, files).len() == 1 + files.len() && turn_parts(turn, files)[0]
                == text_object("text"@, turn.text),
        forall|turn: TurnView, i: int|
            0 <= i < files.len() ==> #[trigger] turn_parts(turn, files)[1 + i] == file_part(
                files[i],
            ),
        forall|turn: TurnView| #[trigger] turn_parts(turn, Seq::empty()).len() == 1,
{
}

/// The part of a turn refers to the file by this URI and this type, both unchanged, and says
/// nothing else.
pub open spec fn refers_to_file(part: JsonTree, uri: Seq<char>, mime: Seq<char>) -> bool {
    part matches JsonTree::Object(fields) && fields.dom() == set!["fileData"@] && has_two_fields(
        fields["fileData"@],
        "fileUri"@,
        JsonTree::Text(uri),
        "mimeType"@,
        JsonTree::Text(mime),
    )
}

/// The entry says this turn: its role, and as its parts its text and a reference to each of the
/// files, in their order; all unchanged, and nothing else.
pub open spec fn says_turn(
    entry: JsonTree,
    role: Seq<char>,
    text: Seq<char>,
    files: Seq<(Seq<char>, Seq<char>)>,
) -> bool {
    entry matches JsonTree::Object(fields) && {
        &&& fields.dom() == set!["role"@, "parts"@]
        &&& fields["role"@] == JsonTree::Text(role)
        &&& fields["parts"@] matches JsonTree::Array(parts) && {
            &&& parts.len() == 1 + files.len()
            &&& has_one_field(parts[0], "text"@, JsonTree::Text(text))
            &&& forall|j: int|
                0 <= j < files.len() ==> refers_to_file(
                    #[trigger] parts[1 + j],
                    files[j].0,
                    files[j].1,
                )
        }
    }
}

/// An entry says its turn.
proof fn lemma_says_turn(turn: TurnView, files: Seq<(Seq<char>, Seq<char>)>)
    ensures
        says_turn(turn_content(turn, files), turn.role, turn.text, files),
{
    reveal_strlit("role");
    reveal_strlit("parts");
    reveal_strlit("fileUri");
    reveal_strlit("mimeType");
    assert("role"@.len() != "parts"@.len());
    assert("fileUri"@.len() != "mimeType"@.len());
    let fields = turn_content(turn, files)->Object_0;
    assert(fields.dom() =~= set!["role"@, "parts"@]);
    let parts = turn_parts(turn, files);
    assert(parts[0]->Object_0.dom() =~= set!["text"@]);
    assert forall|j: int| 0 <= j < files.len() implies refers_to_file(
        #[trigger] parts[1 + j],
        files[j].0,
        files[j].1,
    ) by {
        let part = parts[1 + j]->Object_0;
        assert(part.dom() =~= set!["fileData"@]);
        assert(part["fileData"@]->Object_0.dom() =~= set!["fileUri"@, "mimeType"@]);
    }
}

/// The body of a request for content says every turn of the conversation, in its order, with its
/// role and its text unchanged; with the last turn go all files, each by its URI and its type
/// unchanged, and with no other turn goes any.
pub proof fn law_payload_says_the_conversation(
    cfg: CfgView,
    turns: Seq<TurnView>,
    files: Seq<(Seq<char>, Seq<char>)>,
)
    ensures
        payload_fields(cfg, turns, files).contains_key("contents"@),
        payload_fields(cfg, turns, files)["contents"@] matches JsonTree::Array(entries) && {
            &&& entries.len() == turns.len()
            &&& forall|i: int|
                0 <= i < turns.len() - 1 ==> says_turn(
                    #[trigger] entries[i],
                    turns[i].role,
                    turns[i].text,
                    Seq::empty(),
                )
            &&& turns.len() > 0 ==> says_turn(
                entries[turns.len() - 1],
                turns[turns.len() - 1].role,
                turns[turns.len() - 1].text,
                files,
            )
        },
{
    law_payload_fields(cfg, turns, files);
    let entries = contents(turns, files);
    assert forall|i: int| 0 <= i < turns.len() implies says_turn(
        #[trigger] entries[i],
        turns[i].role,
        turns[i].text,
        if i == turns.len() - 1 {
            files
        } else {
            Seq::empty()
        },
    ) by {
        lemma_says_turn(
            turns[i],
            if i == turns.len() - 1 {
                files
            } else {
                Seq::empty()
            },
        );
    }
}

/// The body of a request for content asks for the search tool and says the system prompt,
/// unchanged, as the service wants them.
pub proof fn law_payload_says_the_options(
    cfg: CfgView,
    turns: Seq<TurnView>,
    files: Seq<(Seq<char>, Seq<char>)>,
)
    ensures
        cfg.enable_grounding ==> (payload_fields(cfg, turns, files)["tools"@]
            matches JsonTree::Array(tools) && tools.len() == 1 && has_one_field(
            tools[0],
            "googleSearch"@,
            JsonTree::Object(Map::empty()),
        )),
        cfg.system_prompt.len() > 0 ==> (payload_fields(cfg, turns, files)["systemInstruction"@]
            matches JsonTree::Object(instruction) && {
            &&& instruction.dom() == set!["parts"@]
            &&& instruction["parts"@] matches JsonTree::Array(parts) && parts.len() == 1
                && has_one_field(parts[0], "text"@, JsonTree::Text(cfg.system_prompt))
        }),
{
    reveal_strlit("contents");
    reveal_strlit("tools");
    reveal_strlit("systemInstruction");
    assert("contents"@.len() == 8);
    assert("tools"@.len() == 5);
    assert("systemInstruction"@.len() == 17);
    assert(search_tool()->Object_0.dom() =~= set!["googleSearch"@]);
    let instruction = system_instruction(cfg.system_prompt)->Object_0;
    assert(instruction.dom() =~= set!["parts"@]);
    assert(text_object("text"@, cfg.system_prompt)->Object_0.dom() =~= set!["text"@]);
}

/// A model is named with or without the prefix of the listing, and asked for without it; nothing
/// else of its name is changed.
pub proof fn law_model_is_asked_for_by_its_name(name: Seq<char>)
    ensures
        bare_model("models/"@ + name) == name,
        !begins_with(name, "models/"@) ==> bare_model(name) == name,
{
    law_prefix_and_rest("models/"@, name, name);
}

/// A request for content goes to its model at the service, with the key, and says the payload.
/// Answered at once or piece by piece, it says the same.
pub proof fn law_content_is_asked_of_the_model(
    cfg: CfgView,
    name: Seq<char>,
    turns: Seq<TurnView>,
    files: Seq<(Seq<char>, Seq<char>)>,
)
    requires
        cfg.model == "models/"@ + name || (cfg.model == name && !begins_with(name, "models/"@)),
    ensures
        ({
            let call = generate_call(cfg, turns, files);
            let stream = stream_call(cfg, turns, files);
            let models = "https://generativelanguage.googleapis.com"@ + "/v1beta/models/"@;
            let payload = BodyView::Json(JsonTree::Object(payload_fields(cfg, turns, files)));
            &&& call.method is Post && stream.method is Post
            &&& call.url == models + name + ":generateContent"@
            &&& stream.url == models + name + ":streamGenerateContent"@
            &&& call.query == seq![("key"@, cfg.api_key)]
            &&& stream.query == seq![("key"@, cfg.api_key), ("alt"@, "sse"@)]
            &&& call.headers.len() == 0 && stream.headers.len() == 0
            &&& call.body == payload && stream.body == payload
        }),
{
    law_model_is_asked_for_by_its_name(name);
}

/// The value of the first header with this name.
pub open spec fn header_value(
    headers: Seq<(Seq<char>, Seq<char>)>,
    name: Seq<char>,
) -> Option<Seq<char>>
    decreases headers.len(),
{
    if headers.len() == 0 {
        None
    } else if headers[0].0 == name {
        Some(headers[0].1)
    } else {
        header_value(headers.skip(1), name)
    }
}

/// The announcement of an upload says how many bytes will be sent, as a number that reads back
/// as their count, and the request that sends them says the same.
pub proof fn law_announced_length_is_that_of_the_bytes(
    api_key: Seq<char>,
    len: nat,
    mime: Seq<char>,
    upload_url: Seq<char>,
)
    ensures
        ({
            let announced = header_value(
                upload_start_call(api_key, len, mime).headers,
                "X-Goog-Upload-Header-Content-Length"@,
            );
            let sent = header_value(
                upload_bytes_call(upload_url, len).headers,
                "Content-Length"@,
            );
            &&& announced is Some && sent is Some
            &&& read_decimal(announced->Some_0) == len
            &&& read_decimal(sent->Some_0) == len
            &&& announced == sent
            &&& forall|i: int|
                0 <= i < announced->Some_0.len() ==> '0' <= #[trigger] announced->Some_0[i] <= '9'
        }),
{
    law_decimal_reads_back(len);
    lemma_upload_headers(api_key, len, mime, upload_url);
}

/// The headers of both requests of an upload, by their names.
proof fn lemma_upload_headers(
    api_key: Seq<char>,
    len: nat,
    mime: Seq<char>,
    upload_url: Seq<char>,
)
    ensures
        ({
            let start = upload_start_call(api_key, len, mime).headers;
            let bytes = upload_bytes_call(upload_url, len).headers;
            &&& header_value(start, "X-Goog-Upload-Protocol"@) == Some("resumable"@)
            &&& header_value(start, "X-Goog-Upload-Command"@) == Some("start"@)
            &&& header_value(start, "X-Goog-Upload-Header-Content-Length"@) == Some(decimal(len))
            &&& header_value(start, "X-Goog-Upload-Header-Content-Type"@) == Some(mime)
            &&& header_value(bytes, "X-Goog-Upload-Command"@) == Some("upload, finalize"@)
            &&& header_value(bytes, "X-Goog-Upload-Offset"@) == Some("0"@)
            &&& header_value(bytes, "Content-Length"@) == Some(decimal(len))
        }),
{
    reveal_strlit("X-Goog-Upload-Protocol");
    reveal_strlit("X-Goog-Upload-Command");
    reveal_strlit("X-Goog-Upload-Header-Content-Length");
    reveal_strlit("X-Goog-Upload-Header-Content-Type");
    reveal_strlit("X-Goog-Upload-Offset");
    reveal_strlit("Content-Length");
    assert("X-Goog-Upload-Protocol"@.len() == 22);
    assert("X-Goog-Upload-Command"@.len() == 21);
    assert("X-Goog-Upload-Header-Content-Length"@.len() == 35);
    assert("X-Goog-Upload-Header-Content-Type"@.len() == 33);
    assert("X-Goog-Upload-Offset"@.len() == 20);
    assert("Content-Length"@.len() == 14);
    let start = upload_start_call(api_key, len, mime).headers;
    let bytes = upload_bytes_call(upload_url, len).headers;
    reveal_with_fuel(header_value, 5);
    assert(start.skip(1)[0] == start[1]);
    assert(start.skip(1).skip(1)[0] == start[2]);
    assert(start.skip(1).skip(1).skip(1)[0] == start[3]);
    assert(bytes.skip(1)[0] == bytes[1]);
    assert(bytes.skip(1).skip(1)[0] == bytes[2]);
}

/// An upload is announced at the service with the key and the type of the file, unchanged, and
/// its bytes go to the very address that came back, in one piece from the first byte on.
pub proof fn law_upload_goes_where_it_is_told(
    api_key: Seq<char>,
    len: nat,
    mime: Seq<char>,
    upload_url: Seq<char>,
)
    ensures
        ({
            let start = upload_start_call(api_key, len, mime);
            let bytes = upload_bytes_call(upload_url, len);
            &&& start.method is Post
            &&& start.url == "https://generativelanguage.googleapis.com"@
                + "/upload/v1beta/files"@
            &&& start.query == seq![("key"@, api_key)]
            &&& start.headers.len() == 4
            &&& header_value(start.headers, "X-Goog-Upload-Protocol"@) == Some("resumable"@)
            &&& header_value(start.headers, "X-Goog-Upload-Command"@) == Some("start"@)
            &&& header_value(start.headers, "X-Goog-Upload-Header-Content-Type"@) == Some(mime)
            &&& start.body matches BodyView::Json(JsonTree::Object(fields)) && {
                &&& fields.dom() == set!["file"@]
                &&& has_one_field(fields["file"@], "displayName"@, JsonTree::Text("upload"@))
            }
            &&& bytes.method is Put
            &&& bytes.url == upload_url
            &&& bytes.query.len() == 0
            &&& bytes.headers.len() == 3
            &&& header_value(bytes.headers, "X-Goog-Upload-Command"@) == Some(
                "upload, finalize"@,
            )
            &&& header_value(bytes.headers, "X-Goog-Upload-Offset"@) == Some("0"@)
            &&& bytes.body is File
        }),
{
    lemma_upload_headers(api_key, len, mime, upload_url);
    let fields = upload_start_call(api_key, len, mime).body->Json_0->Object_0;
    assert(fields.dom() =~= set!["file"@]);
    assert(fields["file"@]->Object_0.dom() =~= set!["displayName"@]);
}

/// What is said of a request is said of all that it holds.
pub proof fn law_request_view_leaves_nothing_out(request: HttpRequest)
    ensures
        request@.method == request.method,
        request@.url == request.url@,
        request@.query.len() == request.query@.len(),
        request@.headers.len() == request.headers@.len(),
        forall|i: int|
            0 <= i < request.query@.len() ==> #[trigger] request@.query[i] == (
                request.query@[i].0@,
                request.query@[i].1@,
            ),
        forall|i: int|
            0 <= i < request.headers@.len() ==> #[trigger] request@.headers[i] == (
                request.headers@[i].0@,
                request.headers@[i].1@,
            ),
        request.body is File <==> request@.body is File,
        request.body matches Body::Json(value) ==> request@.body == BodyView::Json(
            value_tree(value),
        ),
{
}

} // verus!
