//! ACP (Agent Client Protocol) client logic: JSON-RPC 2.0 messages exchanged
//! line by line with an agent process.
//!
//! Protocol flow: `initialize` (handshake), `session/new` (creates a session and
//! yields its id), then `session/prompt` (sends a prompt; the agent streams
//! `session/update` notifications and finally answers the request).

use vstd::prelude::*;
use vstd::string::*;
use crate::json::{
    elems_canonical, elems_depth, entries_canonical, entries_depth, entries_view, elems_view,
    is_canonical, json_depth, json_parse, json_text, json_to_text, keys_increasing,
    lemma_decimal_is_integer_text, lemma_elems_view, lemma_entries_view, parse_depth_limit,
    parse_json, parse_ok, reads_back_unchanged, same_text, text_less, Json, JsonModel,
    lemma_array_empty, lemma_array_one, lemma_object_one, lemma_object_three, lemma_object_two,
    is_integer_text, max_depth,
};
use crate::text::{
    all_digits, digits_value,
    lemma_decimal_roundtrip, parse_u64_spec,
    append_file_refs, concat_spec, concat_strings, debug_quoted, debug_text, decimal, decimal_spec,
    file_refs_spec, strings_view, strs_view, trim_spec, trim_text,
};
use vstd::utf8::{encode_utf8, decode_utf8, is_char_boundary};

verus! {

/// A JSON string value.
pub open spec fn text_model(s: Seq<char>) -> JsonModel {
    JsonModel::Text(s)
}

fn text_value(s: &str) -> (r: Json)
    ensures
        r@ == text_model(s@),
{
    Json::Text(s.to_owned())
}

fn member(key: &str, value: Json) -> (r: (String, Json))
    ensures
        r.0@ == key@,
        r.1 == value,
{
    (key.to_owned(), value)
}

/// The client information sent in `initialize`.
pub open spec fn client_info_model() -> JsonModel {
    JsonModel::Object(seq![("name"@, text_model("resident-ai"@)), ("version"@, text_model("0.1.0"@))])
}

/// The capabilities the client declares in `initialize`: it offers the agent no
/// file system access.
pub open spec fn client_capabilities_model() -> JsonModel {
    JsonModel::Object(
        seq![
            (
                "fs"@,
                JsonModel::Object(
                    seq![
                        ("readTextFile"@, JsonModel::Bool(false)),
                        ("writeTextFile"@, JsonModel::Bool(false)),
                    ],
                ),
            ),
        ],
    )
}

/// The params of the `initialize` request: protocol version, client
/// capabilities and client information.
pub open spec fn initialize_params_model() -> JsonModel {
    JsonModel::Object(
        seq![
            ("clientCapabilities"@, client_capabilities_model()),
            ("clientInfo"@, client_info_model()),
            ("protocolVersion"@, JsonModel::Number("1"@)),
        ],
    )
}

/// The params of the `session/new` request for working directory `cwd`.
pub open spec fn session_new_params_model(cwd: Seq<char>) -> JsonModel {
    JsonModel::Object(seq![("cwd"@, text_model(cwd)), ("mcpServers"@, JsonModel::Array(seq![]))])
}

/// The params of the `session/prompt` request sending `text` in session `session_id`.
pub open spec fn prompt_params_model(session_id: Seq<char>, text: Seq<char>) -> JsonModel {
    JsonModel::Object(
        seq![
            (
                "prompt"@,
                JsonModel::Array(
                    seq![JsonModel::Object(seq![("text"@, text_model(text)), ("type"@, text_model("text"@))])],
                ),
            ),
            ("sessionId"@, text_model(session_id)),
        ],
    )
}

/// A JSON-RPC 2.0 request.
pub open spec fn request_model(id: u64, method: Seq<char>, params: JsonModel) -> JsonModel {
    JsonModel::Object(
        seq![
            ("id"@, JsonModel::Number(decimal_spec(id as nat))),
            ("jsonrpc"@, text_model("2.0"@)),
            ("method"@, text_model(method)),
            ("params"@, params),
        ],
    )
}

fn client_capabilities() -> (r: Json)
    ensures
        r@ == client_capabilities_model(),
{
    let fs = vec![member("readTextFile", Json::Bool(false)), member("writeTextFile", Json::Bool(false))];
    let entries = vec![member("fs", Json::Object(fs))];
    proof {
        lemma_entries_view(fs@);
        lemma_entries_view(entries@);
        assert(entries_view(fs@) =~= seq![
            ("readTextFile"@, JsonModel::Bool(false)),
            ("writeTextFile"@, JsonModel::Bool(false)),
        ]);
    }
    assert(entries_view(entries@) =~= seq![
        (
            "fs"@,
            JsonModel::Object(
                seq![("readTextFile"@, JsonModel::Bool(false)), ("writeTextFile"@, JsonModel::Bool(false))],
            ),
        ),
    ]);
    Json::Object(entries)
}

/// `"1"` is integer text.
proof fn lemma_one_is_integer_text()
    ensures
        is_integer_text("1"@),
{
    reveal_strlit("1");
    let t = "1"@;
    assert(t =~= seq!['1']);
    assert(t.drop_last() =~= Seq::<char>::empty());
    assert(digits_value(Seq::<char>::empty()) == 0);
    assert(t.last() == '1');
    assert(crate::text::digit_value('1') == 1) by {
        assert('1' as u32 == 49);
        assert('0' as u32 == 48);
    }
    assert(digits_value(t) == 1);
    assert(all_digits(t));
}

/// The `initialize` params are canonical and three levels deep.
pub proof fn lemma_initialize_params_canonical()
    ensures
        is_canonical(initialize_params_model()),
        json_depth(initialize_params_model()) == 3,
{
    reveal_strlit("readTextFile");
    reveal_strlit("writeTextFile");
    reveal_strlit("fs");
    reveal_strlit("name");
    reveal_strlit("version");
    reveal_strlit("clientCapabilities");
    reveal_strlit("clientInfo");
    reveal_strlit("protocolVersion");
    let r = ("readTextFile"@, JsonModel::Bool(false));
    let w = ("writeTextFile"@, JsonModel::Bool(false));
    assert(text_less(r.0, w.0));
    lemma_object_two(r, w);
    lemma_object_one(("fs"@, JsonModel::Object(seq![r, w])));
    let n = ("name"@, text_model("resident-ai"@));
    let v = ("version"@, text_model("0.1.0"@));
    assert(text_less(n.0, v.0));
    lemma_object_two(n, v);
    assert(text_less("clientCapabilities"@, "clientInfo"@)) by {
        reveal_with_fuel(text_less, 8);
    }
    assert(text_less("clientCapabilities"@, "protocolVersion"@));
    assert(text_less("clientInfo"@, "protocolVersion"@));
    lemma_one_is_integer_text();
    lemma_object_three(
        ("clientCapabilities"@, client_capabilities_model()),
        ("clientInfo"@, client_info_model()),
        ("protocolVersion"@, JsonModel::Number("1"@)),
    );
}

/// The `session/new` params are canonical and two levels deep.
pub proof fn lemma_session_new_params_canonical(cwd: Seq<char>)
    ensures
        is_canonical(session_new_params_model(cwd)),
        json_depth(session_new_params_model(cwd)) == 2,
{
    reveal_strlit("cwd");
    reveal_strlit("mcpServers");
    assert(text_less("cwd"@, "mcpServers"@));
    lemma_array_empty();
    assert(seq![] =~= Seq::<JsonModel>::empty());
    lemma_object_two(("cwd"@, text_model(cwd)), ("mcpServers"@, JsonModel::Array(seq![])));
}

/// The `session/prompt` params are canonical and three levels deep.
pub proof fn lemma_prompt_params_canonical(session_id: Seq<char>, text: Seq<char>)
    ensures
        is_canonical(prompt_params_model(session_id, text)),
        json_depth(prompt_params_model(session_id, text)) == 3,
{
    reveal_strlit("text");
    reveal_strlit("type");
    reveal_strlit("prompt");
    reveal_strlit("sessionId");
    assert(text_less("text"@, "type"@)) by {
        reveal_with_fuel(text_less, 3);
    }
    let part = JsonModel::Object(seq![("text"@, text_model(text)), ("type"@, text_model("text"@))]);
    lemma_object_two(("text"@, text_model(text)), ("type"@, text_model("text"@)));
    lemma_array_one(part);
    assert(text_less("prompt"@, "sessionId"@));
    lemma_object_two(("prompt"@, JsonModel::Array(seq![part])), ("sessionId"@, text_model(session_id)));
}

/// A request object is canonical and one level deeper than its params, so a
/// request whose params are canonical and shallower than the parser's limit is
/// read back from its text unchanged.
pub proof fn lemma_request_reads_back(id: u64, method: Seq<char>, params: JsonModel)
    requires
        is_canonical(params),
        json_depth(params) < parse_depth_limit(),
    ensures
        reads_back_unchanged(request_model(id, method, params)),
{
    reveal_strlit("id");
    reveal_strlit("jsonrpc");
    reveal_strlit("method");
    reveal_strlit("params");
    let e = seq![
        ("id"@, JsonModel::Number(decimal_spec(id as nat))),
        ("jsonrpc"@, text_model("2.0"@)),
        ("method"@, text_model(method)),
        ("params"@, params),
    ];
    assert(text_less("id"@, "jsonrpc"@));
    assert(text_less("id"@, "method"@));
    assert(text_less("id"@, "params"@));
    assert(text_less("jsonrpc"@, "method"@));
    assert(text_less("jsonrpc"@, "params"@));
    assert(text_less("method"@, "params"@));
    assert(keys_increasing(e));
    lemma_decimal_is_integer_text(id);
    let a = ("id"@, JsonModel::Number(decimal_spec(id as nat)));
    let b = ("jsonrpc"@, text_model("2.0"@));
    let c = ("method"@, text_model(method));
    let e1 = seq![a];
    let e2 = seq![a, b];
    let e3 = seq![a, b, c];
    assert(e1.drop_last() =~= Seq::<(Seq<char>, JsonModel)>::empty());
    assert(e2.drop_last() =~= e1);
    assert(e3.drop_last() =~= e2);
    assert(e.drop_last() =~= e3);
    assert(is_canonical(a.1));
    assert(is_canonical(b.1));
    assert(is_canonical(c.1));
    assert(e2.last() == b && e3.last() == c && e.last() == ("params"@, params));
    assert(entries_canonical(Seq::<(Seq<char>, JsonModel)>::empty()));
    assert(entries_depth(Seq::<(Seq<char>, JsonModel)>::empty()) == 0);
    assert(entries_canonical(e1));
    assert(entries_canonical(e2));
    assert(entries_canonical(e3));
    assert(entries_canonical(e));
    assert(json_depth(a.1) == 0);
    assert(json_depth(b.1) == 0);
    assert(json_depth(c.1) == 0);
    assert(entries_depth(e1) == 0);
    assert(entries_depth(e2) == 0);
    assert(entries_depth(e3) == 0);
    assert(entries_depth(e) == json_depth(params));
}

/// Build the initialize request params.
pub fn build_initialize_params() -> (r: Json)
    ensures
        r@ == initialize_params_model(),
        is_canonical(r@),
        json_depth(r@) == 3,
{
    proof {
        lemma_initialize_params_canonical();
    }
    let info = vec![member("name", text_value("resident-ai")), member("version", text_value("0.1.0"))];
    proof {
        lemma_entries_view(info@);
        assert(entries_view(info@) =~= seq![
            ("name"@, text_model("resident-ai"@)),
            ("version"@, text_model("0.1.0"@)),
        ]);
    }
    let entries = vec![
        member("clientCapabilities", client_capabilities()),
        member("clientInfo", Json::Object(info)),
        member("protocolVersion", Json::Number("1".to_owned())),
    ];
    proof {
        lemma_entries_view(entries@);
    }
    assert(entries_view(entries@) =~= seq![
        ("clientCapabilities"@, client_capabilities_model()),
        ("clientInfo"@, client_info_model()),
        ("protocolVersion"@, JsonModel::Number("1"@)),
    ]);
    Json::Object(entries)
}

/// Build the session/new request params.
pub fn build_session_new_params(cwd: &str) -> (r: Json)
    ensures
        r@ == session_new_params_model(cwd@),
        is_canonical(r@),
        json_depth(r@) == 2,
{
    proof {
        lemma_session_new_params_canonical(cwd@);
    }
    let servers: Vec<Json> = Vec::new();
    let entries = vec![member("cwd", text_value(cwd)), member("mcpServers", Json::Array(servers))];
    proof {
        lemma_entries_view(entries@);
        assert(elems_view(servers@) =~= seq![]);
    }
    assert(entries_view(entries@) =~= seq![("cwd"@, text_model(cwd@)), ("mcpServers"@, JsonModel::Array(seq![]))]);
    Json::Object(entries)
}

/// Build the session/prompt request params.
pub fn build_prompt_params(session_id: &str, text: &str) -> (r: Json)
    ensures
        r@ == prompt_params_model(session_id@, text@),
        is_canonical(r@),
        json_depth(r@) == 3,
{
    proof {
        lemma_prompt_params_canonical(session_id@, text@);
    }
    let part = vec![member("text", text_value(text)), member("type", text_value("text"))];
    let parts = vec![Json::Object(part)];
    let entries = vec![member("prompt", Json::Array(parts)), member("sessionId", text_value(session_id))];
    proof {
        lemma_entries_view(part@);
        lemma_elems_view(parts@);
        lemma_entries_view(entries@);
        assert(entries_view(part@) =~= seq![("text"@, text_model(text@)), ("type"@, text_model("text"@))]);
        assert(elems_view(parts@) =~= seq![
            JsonModel::Object(seq![("text"@, text_model(text@)), ("type"@, text_model("text"@))]),
        ]);
    }
    assert(entries_view(entries@) =~= seq![
        (
            "prompt"@,
            JsonModel::Array(
                seq![JsonModel::Object(seq![("text"@, text_model(text@)), ("type"@, text_model("text"@))])],
            ),
        ),
        ("sessionId"@, text_model(session_id@)),
    ]);
    Json::Object(entries)
}

/// The JSON-RPC 2.0 request object with the given id, method and params.
pub fn request_value(id: u64, method: &str, params: Json) -> (r: Json)
    ensures
        r@ == request_model(id, method@, params@),
{
    let ghost p = params@;
    let entries = vec![
        member("id", Json::Number(decimal(id))),
        member("jsonrpc", text_value("2.0")),
        member("method", text_value(method)),
        member("params", params),
    ];
    proof {
        lemma_entries_view(entries@);
    }
    assert(entries_view(entries@) =~= seq![
        ("id"@, JsonModel::Number(decimal_spec(id as nat))),
        ("jsonrpc"@, text_model("2.0"@)),
        ("method"@, text_model(method@)),
        ("params"@, p),
    ]);
    Json::Object(entries)
}

/// Build a JSON-RPC 2.0 request message: the compact JSON text of the request,
/// on one line.
pub fn build_request(id: u64, method: &str, params: Json) -> (r: String)
    ensures
        r@ == json_text(request_model(id, method@, params@)),
        !r@.contains('\n'),
        is_canonical(params@) && json_depth(params@) < parse_depth_limit() ==> json_parse(r@) == parse_ok(
            request_model(id, method@, params@),
        ),
{
    proof {
        if is_canonical(params@) && json_depth(params@) < parse_depth_limit() {
            lemma_request_reads_back(id, method@, params@);
        }
    }
    let request = request_value(id, method, params);
    json_to_text(&request)
}


/// The prompt text with `@f ` references for the files prepended (only when
/// there is a non-empty list of files).
pub open spec fn prompt_text_spec(text: Seq<char>, files: Option<&[&str]>) -> Seq<char> {
    match files {
        Some(f) => if f@.len() > 0 {
            file_refs_spec(strs_view(f@)) + text
        } else {
            text
        },
        None => text,
    }
}

/// Build prompt text with @file references prepended.
pub fn build_prompt_text(text: &str, files: Option<&[&str]>) -> (r: String)
    ensures
        r@ == prompt_text_spec(text@, files),
{
    match files {
        Some(f) => {
            if f.len() > 0 {
                let mut out = String::new();
                append_file_refs(&mut out, f);
                out.append(text);
                assert(out@ =~= prompt_text_spec(text@, files));
                return out;
            }
        },
        None => {},
    }
    text.to_owned()
}

/// The session id in a `session/new` response: `result.sessionId`, when it is a string.
pub open spec fn session_id_spec(response: JsonModel) -> Option<Seq<char>> {
    match response.get("result"@) {
        Some(r) => match r.get("sessionId"@) {
            Some(v) => v.as_str(),
            None => None,
        },
        None => None,
    }
}

/// The text of an `agent_message_chunk` session update: `params.update.content.text`
/// when `params.update.sessionUpdate` is the string `agent_message_chunk`.
pub open spec fn chunk_text_spec(line: JsonModel) -> Option<Seq<char>> {
    match line.get("params"@) {
        None => None,
        Some(p) => match p.get("update"@) {
            None => None,
            Some(u) => match u.get("sessionUpdate"@) {
                None => None,
                Some(kind) => match kind.as_str() {
                    None => None,
                    Some(k) => if k != "agent_message_chunk"@ {
                        None
                    } else {
                        match u.get("content"@) {
                            None => None,
                            Some(c) => match c.get("text"@) {
                                None => None,
                                Some(t) => t.as_str(),
                            },
                        }
                    },
                },
            },
        },
    }
}

/// Whether `line` is the response to request `id`: its `id` member is that number.
pub open spec fn is_response_spec(line: JsonModel, id: u64) -> bool {
    match line.get("id"@) {
        Some(v) => v.as_u64() == Some(id),
        None => false,
    }
}

/// A request's own `id` member reads back as its id, so the response that
/// repeats it is recognized as the response to that request.
pub proof fn law_request_id_recognized(id: u64, method: Seq<char>, params: JsonModel)
    ensures
        request_model(id, method, params).get("id"@) == Some(JsonModel::Number(decimal_spec(id as nat))),
        parse_u64_spec(decimal_spec(id as nat)) == Some(id),
        is_response_spec(request_model(id, method, params), id),
{
    lemma_decimal_roundtrip(id as nat);
}

/// Extract sessionId from a session/new response.
pub fn extract_session_id(response: &Json) -> (r: Option<&str>)
    ensures
        match r {
            Some(s) => session_id_spec(response@) == Some(s@),
            None => session_id_spec(response@) is None,
        },
{
    match response.get("result") {
        Some(result) => match result.get("sessionId") {
            Some(v) => v.as_str(),
            None => None,
        },
        None => None,
    }
}

/// Extract agent_message_chunk text from a session/update notification.
/// Returns None if the line is not an agent_message_chunk.
pub fn extract_chunk_text(line: &Json) -> (r: Option<&str>)
    ensures
        match r {
            Some(s) => chunk_text_spec(line@) == Some(s@),
            None => chunk_text_spec(line@) is None,
        },
{
    let params = match line.get("params") {
        Some(p) => p,
        None => return None,
    };
    let update = match params.get("update") {
        Some(u) => u,
        None => return None,
    };
    let kind = match update.get("sessionUpdate") {
        Some(k) => k,
        None => return None,
    };
    let kind_text = match kind.as_str() {
        Some(k) => k,
        None => return None,
    };
    if !same_text(kind_text, "agent_message_chunk") {
        return None;
    }
    let content = match update.get("content") {
        Some(c) => c,
        None => return None,
    };
    match content.get("text") {
        Some(t) => t.as_str(),
        None => None,
    }
}

/// Check if a JSON-RPC line is a response with the given id.
pub fn is_response(line: &Json, expected_id: u64) -> (r: bool)
    ensures
        r == is_response_spec(line@, expected_id),
{
    match line.get("id") {
        Some(v) => match v.as_u64() {
            Some(n) => n == expected_id,
            None => false,
        },
        None => false,
    }
}

/// Check if a JSON-RPC response contains an error.
pub fn response_error(line: &Json) -> (r: Option<&Json>)
    ensures
        match r {
            Some(e) => line@.get("error"@) == Some(e@),
            None => line@.get("error"@) is None,
        },
{
    line.get("error")
}


/// The line that frames a request: its compact JSON text and a line feed.
pub open spec fn request_line_spec(id: u64, method: Seq<char>, params: JsonModel) -> Seq<char> {
    json_text(request_model(id, method, params)) + "\n"@
}

/// The line of the `session/prompt` request `id` sending `text` in session `session_id`.
/// A prompt with files is this line for the text with the file references prepended.
pub open spec fn prompt_line_spec(session_id: Seq<char>, id: u64, text: Seq<char>) -> Seq<char> {
    request_line_spec(id, "session/prompt"@, prompt_params_model(session_id, text))
}

/// One message per line: `s` ends in a line feed and holds no other.
pub open spec fn is_single_line(s: Seq<char>) -> bool {
    s.len() > 0 && s.last() == '\n' && !s.drop_last().contains('\n')
}

/// A JSON-RPC error from the agent, or a failure to talk to it.
#[derive(Debug)]
pub struct AcpError(pub String);

impl AcpError {
    /// The error's message (what `Display` prints).
    pub fn message(&self) -> (r: &str)
        ensures
            r@ == self.0@,
    {
        self.0.as_str()
    }
}

fn error_with_json(prefix: &str, value: &Json) -> (r: AcpError)
    ensures
        r.0@ == prefix@ + json_text(value@),
{
    let mut m = prefix.to_owned();
    m.append(json_to_text(value).as_str());
    AcpError(m)
}

/// The protocol side of an ACP session: request ids and the session id. The
/// process and its pipes belong to the caller, which writes the lines this
/// produces and hands back the messages it reads.
pub struct AcpClient {
    session_id: String,
    next_id: u64,
}

impl AcpClient {
    /// The id the next request gets.
    pub closed spec fn next_request_id(&self) -> u64 {
        self.next_id
    }

    /// The id of the session opened by `session/new` (empty before it).
    pub closed spec fn session(&self) -> Seq<char> {
        self.session_id@
    }

    /// A client before the handshake: no session yet, first request id 1.
    pub fn new() -> (r: Self)
        ensures
            r.next_request_id() == 1,
            r.session() == Seq::<char>::empty(),
    {
        AcpClient { session_id: String::new(), next_id: 1 }
    }

    /// The id the next request gets.
    pub fn next_id(&self) -> (r: u64)
        ensures
            r == self.next_request_id(),
    {
        self.next_id
    }

    /// The session id.
    pub fn session_id(&self) -> (r: &str)
        ensures
            r@ == self.session(),
    {
        self.session_id.as_str()
    }

    /// Takes the next request id and frames the request as one line of JSON
    /// ending in a newline; ids go up by one with each request.
    pub fn next_request(&mut self, method: &str, params: Json) -> (r: (u64, String))
        requires
            old(self).next_request_id() < u64::MAX,
        ensures
            r.0 == old(self).next_request_id(),
            final(self).next_request_id() == r.0 + 1,
            final(self).session() == old(self).session(),
            r.1@ == request_line_spec(r.0, method@, params@),
            is_single_line(r.1@),
            is_canonical(params@) && json_depth(params@) < parse_depth_limit() ==> json_parse(
                r.1@.drop_last(),
            ) == parse_ok(request_model(r.0, method@, params@)),
    {
        let id = self.next_id;
        self.next_id = self.next_id + 1;
        proof {
            if is_canonical(params@) && json_depth(params@) < parse_depth_limit() {
                lemma_request_reads_back(id, method@, params@);
            }
        }
        let request = request_value(id, method, params);
        let text = json_to_text(&request);
        let mut line = text;
        proof {
            reveal_strlit("\n");
        }
        line.append("\n");
        assert(line@.drop_last() =~= text@);
        (id, line)
    }

    /// Checks the response to `initialize`: an error member makes the handshake fail.
    pub fn check_initialize(response: &Json) -> (r: Result<(), AcpError>)
        ensures
            match response@.get("error"@) {
                Some(_) => r matches Err(e) && e.0@ == "initialize failed: "@ + json_text(response@),
                None => r is Ok,
            },
    {
        match response_error(response) {
            Some(_) => Err(error_with_json("initialize failed: ", response)),
            None => Ok(()),
        }
    }

    /// Takes the session id from the response to `session/new`; without one the
    /// handshake fails and the client is unchanged.
    pub fn accept_session(&mut self, response: &Json) -> (r: Result<(), AcpError>)
        ensures
            final(self).next_request_id() == old(self).next_request_id(),
            match session_id_spec(response@) {
                Some(sid) => r is Ok && final(self).session() == sid,
                None => r matches Err(e) && e.0@ == "no sessionId: "@ + json_text(response@)
                    && final(self).session() == old(self).session(),
            },
    {
        match extract_session_id(response) {
            Some(sid) => {
                self.session_id = sid.to_owned();
                Ok(())
            },
            None => Err(error_with_json("no sessionId: ", response)),
        }
    }

    /// The `session/prompt` request for `text` in this session.
    pub fn prompt_request(&mut self, text: &str) -> (r: (u64, String))
        requires
            old(self).next_request_id() < u64::MAX,
        ensures
            r.0 == old(self).next_request_id(),
            final(self).next_request_id() == r.0 + 1,
            final(self).session() == old(self).session(),
            r.1@ == prompt_line_spec(old(self).session(), r.0, text@),
            is_single_line(r.1@),
            json_parse(r.1@.drop_last()) == parse_ok(
                request_model(r.0, "session/prompt"@, prompt_params_model(old(self).session(), text@)),
            ),
    {
        let params = build_prompt_params(self.session_id.as_str(), text);
        self.next_request("session/prompt", params)
    }

    /// The `session/prompt` request for `text` with `@f ` references to `files` prepended.
    pub fn prompt_with_files_request(&mut self, text: &str, files: &[&str]) -> (r: (u64, String))
        requires
            old(self).next_request_id() < u64::MAX,
        ensures
            r.0 == old(self).next_request_id(),
            final(self).next_request_id() == r.0 + 1,
            final(self).session() == old(self).session(),
            r.1@ == prompt_line_spec(old(self).session(), r.0, prompt_text_spec(text@, Some(files))),
            is_single_line(r.1@),
            json_parse(r.1@.drop_last()) == parse_ok(
                request_model(
                    r.0,
                    "session/prompt"@,
                    prompt_params_model(old(self).session(), prompt_text_spec(text@, Some(files))),
                ),
            ),
    {
        let full = build_prompt_text(text, Some(files));
        self.prompt_request(full.as_str())
    }
}

/// Collects the streamed answer to one `session/prompt` request.
pub struct ResponseCollector {
    expected_id: u64,
    chunks: Vec<String>,
}

impl ResponseCollector {
    /// The id of the request whose answer is collected.
    pub closed spec fn expected(&self) -> u64 {
        self.expected_id
    }

    /// The message chunks received so far, in order.
    pub closed spec fn chunks(&self) -> Seq<Seq<char>> {
        strings_view(self.chunks@)
    }

    /// A collector for the answer to request `expected_id`, with nothing received yet.
    pub fn new(expected_id: u64) -> (r: Self)
        ensures
            r.expected() == expected_id,
            r.chunks() == Seq::<Seq<char>>::empty(),
    {
        let r = ResponseCollector { expected_id, chunks: Vec::new() };
        assert(r.chunks() =~= Seq::<Seq<char>>::empty());
        r
    }

    /// Takes one message read from the agent. The response to the request ends
    /// the collection: its error, or the chunks joined and trimmed. Before it,
    /// each `agent_message_chunk` update adds its text; other messages are skipped.
    pub fn feed(&mut self, line: &Json) -> (r: Option<Result<String, AcpError>>)
        ensures
            final(self).expected() == old(self).expected(),
            is_response_spec(line@, old(self).expected()) ==> final(self).chunks() == old(self).chunks(),
            is_response_spec(line@, old(self).expected()) ==> match line@.get("error"@) {
                Some(e) => (r matches Some(Err(err)) && err.0@ == "prompt error: "@ + json_text(e)),
                None => (r matches Some(Ok(text)) && text@ == trim_spec(concat_spec(old(self).chunks()))),
            },
            !is_response_spec(line@, old(self).expected()) ==> r is None && final(self).chunks() == match chunk_text_spec(line@) {
                Some(t) => old(self).chunks().push(t),
                None => old(self).chunks(),
            },
    {
        if is_response(line, self.expected_id) {
            match response_error(line) {
                Some(err) => {
                    return Some(Err(error_with_json("prompt error: ", err)));
                },
                None => {
                    let joined = concat_strings(&self.chunks);
                    return Some(Ok(trim_text(joined.as_str())));
                },
            }
        }
        match extract_chunk_text(line) {
            Some(text) => {
                self.chunks.push(text.to_owned());
                assert(self.chunks() =~= old(self).chunks().push(text@));
            },
            None => {},
        }
        None
    }
}

/// What one line read from the agent's stdout amounts to.
#[derive(Debug)]
pub enum LineOutcome {
    /// Only white space: read the next line.
    Blank,
    /// A JSON message.
    Message(Json),
    /// The read ends the exchange with this error.
    Failed(AcpError),
}

/// The number of bytes of a line quoted in a parse error.
pub const PARSE_ERROR_QUOTE_BYTES: usize = 100;

/// The error for a line that is not JSON: the parser's message and the first
/// `PARSE_ERROR_QUOTE_BYTES` bytes of the line, quoted.
pub open spec fn parse_error_spec(parser_message: Seq<char>, line: Seq<char>) -> Seq<char> {
    let bytes = encode_utf8(line);
    let cut = if bytes.len() < PARSE_ERROR_QUOTE_BYTES { bytes.len() as int } else { PARSE_ERROR_QUOTE_BYTES as int };
    "parse JSON: "@ + parser_message + " in "@ + debug_text(decode_utf8(bytes.subrange(0, cut)))
}

/// Whether the quoted part of a line that is not JSON ends inside a character
/// (the quote is cut at a byte offset).
pub open spec fn quote_cuts_char(line: Seq<char>) -> bool {
    let bytes = encode_utf8(line);
    bytes.len() > PARSE_ERROR_QUOTE_BYTES && !is_char_boundary(bytes, PARSE_ERROR_QUOTE_BYTES as int)
}

/// What a non-blank trimmed line amounts to, given what the JSON parser made of
/// it: the message, or the error quoting the line's first bytes. `None` stands
/// for a parse error whose quote would end inside a character, which the error
/// message cannot be cut at.
pub fn line_outcome(trimmed: &str, parsed: Result<Json, String>) -> (r: Option<LineOutcome>)
    ensures
        match parsed {
            Ok(j) => r == Some(LineOutcome::Message(j)),
            Err(msg) => if quote_cuts_char(trimmed@) {
                r is None
            } else {
                r matches Some(LineOutcome::Failed(e)) && e.0@ == parse_error_spec(msg@, trimmed@)
            },
        },
{
    match parsed {
        Ok(j) => Some(LineOutcome::Message(j)),
        Err(msg) => {
            let n = trimmed.as_bytes().len();
            let cut = if n < PARSE_ERROR_QUOTE_BYTES { n } else { PARSE_ERROR_QUOTE_BYTES };
            if !trimmed.is_char_boundary(cut) {
                proof {
                    broadcast use vstd::utf8::group_utf8_lib;
                }
                return None;
            }
            let (head, _) = trimmed.split_at(cut);
            proof {
                broadcast use vstd::utf8::group_utf8_lib;
                assert(head@ == decode_utf8(head.spec_bytes()));
            }
            let mut m = "parse JSON: ".to_owned();
            m.append(msg.as_str());
            m.append(" in ");
            m.append(debug_quoted(head).as_str());
            Some(LineOutcome::Failed(AcpError(m)))
        },
    }
}

/// Decodes one read from the agent's stdout: `bytes_read` is what the read
/// returned and `line` what it read. Zero bytes means the agent closed its
/// stdout. `None` stands for a line that is not JSON and whose quote would end
/// inside a character, which the error message cannot be cut at.
pub fn decode_line(bytes_read: usize, line: &str) -> (r: Option<LineOutcome>)
    ensures
        bytes_read == 0 ==> (r matches Some(LineOutcome::Failed(e)) && e.0@ == "process closed stdout"@),
        bytes_read != 0 ==> {
            let t = trim_spec(line@);
            if t.len() == 0 {
                r matches Some(LineOutcome::Blank)
            } else {
                match json_parse(t) {
                    Ok(m) => r matches Some(LineOutcome::Message(j)) && j@ == m,
                    Err(msg) => if quote_cuts_char(t) {
                        r is None
                    } else {
                        r matches Some(LineOutcome::Failed(e)) && e.0@ == parse_error_spec(msg, t)
                    },
                }
            }
        },
{
    if bytes_read == 0 {
        return Some(LineOutcome::Failed(AcpError("process closed stdout".to_owned())));
    }
    let trimmed = trim_text(line);
    if trimmed.as_str().is_empty() {
        return Some(LineOutcome::Blank);
    }
    let parsed = parse_json(trimmed.as_str());
    line_outcome(trimmed.as_str(), parsed)
}

} // verus!
