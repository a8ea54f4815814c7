//! The completion request: its headers and its body, built from the
//! credentials and the prompt.

use vstd::prelude::*;
use vstd::string::StringExecFns;
use vstd::utf8::encode_utf8;

verus! {

/// Relies on uuid::Uuid::new_v4 and its `Display`: a random identifier in
/// hyphenated form, 36 characters. The crate panics only when the system
/// gives no random bytes.
#[verifier::external_body]
fn new_uuid() -> (r: String)
    ensures
        r@.len() == 36,
{
    uuid::Uuid::new_v4().to_string()
}

/// Relies on chrono::Utc::now and DateTime::timestamp: the seconds since the
/// Unix epoch, now.
#[verifier::external_body]
fn unix_time_now() -> (r: i64) {
    chrono::Utc::now().timestamp()
}

/// The settings that travel with the request body.
pub struct CompletionParams {
    pub language: String,
    pub next_indent: i8,
    pub trim_by_indentation: bool,
    pub prompt_tokens: i32,
    pub suffix_tokens: i32,
}

/// The body of a completion request.
pub struct CompletionRequest {
    pub prompt: String,
    pub suffix: String,
    pub max_tokens: i32,
    pub temperature: i8,
    pub top_p: i8,
    pub n: i16,
    pub stop: Vec<String>,
    pub nwo: String,
    pub stream: bool,
    pub extra: CompletionParams,
}

/// The grant of the completion service's token.
pub struct CopilotTokenGrant {
    pub chat_enabled: bool,
    pub code_quote_enabled: bool,
    pub copilotignore_enabled: bool,
    pub expires_at: i128,
    pub public_suggestions: String,
    pub refresh_in: i128,
    pub sku: String,
    pub telemetry: String,
    pub token: String,
    pub tracking_id: String,
}

/// One request header.
pub struct Header {
    pub name: String,
    pub value: String,
}

/// A request ready to be sent: where to, its headers and its body.
pub struct CompletionHttpRequest {
    pub url: String,
    pub headers: Vec<Header>,
    pub body: CompletionRequest,
}

/// Builds completion requests with the credentials and the identity of the
/// editor.
pub struct CopilotRequestBuilder {
    pub token: String,
    pub machine_id: String,
    pub editor_version: String,
    pub plugin_version: String,
}

pub open spec fn headers_view(h: Seq<Header>) -> Seq<(Seq<char>, Seq<char>)> {
    h.map_values(|x: Header| (x.name@, x.value@))
}

/// The headers of a request with identifier `request_id` in session
/// `session_id`.
pub open spec fn expected_headers(
    b: CopilotRequestBuilder,
    request_id: Seq<char>,
    session_id: Seq<char>,
) -> Seq<(Seq<char>, Seq<char>)> {
    seq![
        ("Authorization"@, "Bearer "@ + b.token@),
        ("Openai-Organization"@, "github-copilot"@),
        ("VScode-MachineId"@, b.machine_id@),
        ("Editor-Version"@, b.editor_version@),
        ("Editor-Plugin-Version"@, b.plugin_version@),
        ("OpenAI-Intent"@, "copilot-ghost"@),
        ("X-Request-Id"@, request_id),
        ("VScode-SessionId"@, session_id),
    ]
}

/// Bytes that `s` takes in UTF-8, as `str::len` reports them.
pub open spec fn utf8_len(s: Seq<char>) -> nat {
    (encode_utf8(s).len() as usize) as nat
}

/// `n`, or `i32::MAX` where `n` is larger.
pub open spec fn clamp_i32(n: nat) -> i32 {
    if n > i32::MAX {
        i32::MAX
    } else {
        n as i32
    }
}

/// `body` asks for completions of `prompt` before `suffix` in `language`.
pub open spec fn is_body_for(
    body: CompletionRequest,
    language: Seq<char>,
    prompt: Seq<char>,
    prompt_bytes: nat,
    suffix: Seq<char>,
    suffix_bytes: nat,
) -> bool {
    &&& body.prompt@ == prompt
    &&& body.suffix@ == suffix
    &&& body.max_tokens == 500
    &&& body.temperature == 1
    &&& body.top_p == 1
    &&& body.n == 3
    &&& body.stop@.len() == 1
    &&& body.stop@[0]@ == "unset"@
    &&& body.nwo@ == "my_org/my_repo"@
    &&& body.stream
    &&& body.extra.language@ == language
    &&& body.extra.next_indent == 0
    &&& body.extra.trim_by_indentation
    &&& body.extra.prompt_tokens == clamp_i32(prompt_bytes)
    &&& body.extra.suffix_tokens == clamp_i32(suffix_bytes)
}

fn header(name: &str, value: String) -> (r: Header)
    ensures
        r.name@ == name@,
        r.value@ == value@,
{
    Header { name: String::from_str(name), value }
}

fn clamped_len(s: &String) -> (r: i32)
    ensures
        r == clamp_i32(utf8_len(s@)),
{
    let n = s.as_str().len();
    if n > i32::MAX as usize {
        i32::MAX
    } else {
        n as i32
    }
}

/// The session identifier: `id` followed by the time in seconds.
pub fn session_id(id: String, unix_seconds: i64) -> (r: String)
    ensures
        r@.len() >= id@.len(),
        r@.take(id@.len() as int) == id@,
{
    id.concat(unix_seconds.to_string().as_str())
}

impl CopilotRequestBuilder {
    pub fn new(token: String, machine_id: String, editor_version: String, plugin_version: String) -> (r: Self)
        ensures
            r.token == token,
            r.machine_id == machine_id,
            r.editor_version == editor_version,
            r.plugin_version == plugin_version,
    {
        CopilotRequestBuilder { token, machine_id, editor_version, plugin_version }
    }

    /// The headers of a request with identifier `request_id` in session
    /// `session_id`.
    pub fn headers_with(&self, request_id: String, session_id: String) -> (r: Vec<Header>)
        ensures
            headers_view(r@) == expected_headers(*self, request_id@, session_id@),
    {
        let mut h: Vec<Header> = Vec::new();
        h.push(header("Authorization", String::from_str("Bearer ").concat(self.token.as_str())));
        h.push(header("Openai-Organization", String::from_str("github-copilot")));
        h.push(header("VScode-MachineId", self.machine_id.clone()));
        h.push(header("Editor-Version", self.editor_version.clone()));
        h.push(header("Editor-Plugin-Version", self.plugin_version.clone()));
        h.push(header("OpenAI-Intent", String::from_str("copilot-ghost")));
        h.push(header("X-Request-Id", request_id));
        h.push(header("VScode-SessionId", session_id));
        assert(headers_view(h@) =~= expected_headers(*self, request_id@, session_id@));
        h
    }

    /// The headers of a new request, with a fresh request identifier and a
    /// fresh session identifier.
    pub fn build_request_headers(&self) -> (r: Vec<Header>)
        ensures
            exists|rid: Seq<char>, sid: Seq<char>|
                rid.len() == 36 && sid.len() >= 36 && headers_view(r@) == expected_headers(
                    *self,
                    rid,
                    sid,
                ),
    {
        let request_id = new_uuid();
        let session = session_id(new_uuid(), unix_time_now());
        proof {
            assert(session@.take(36).len() == 36);
        }
        self.headers_with(request_id, session)
    }

    /// The body that asks for completions of `prompt` before `suffix` in
    /// `language`.
    pub fn build_request_body(&self, language: &String, prompt: &String, suffix: &String) -> (r:
        CompletionRequest)
        ensures
            is_body_for(
                r,
                language@,
                prompt@,
                utf8_len(prompt@),
                suffix@,
                utf8_len(suffix@),
            ),
    {
        let extra = CompletionParams {
            language: language.clone(),
            next_indent: 0,
            trim_by_indentation: true,
            prompt_tokens: clamped_len(prompt),
            suffix_tokens: clamped_len(suffix),
        };
        let mut stop: Vec<String> = Vec::new();
        stop.push(String::from_str("unset"));
        CompletionRequest {
            prompt: prompt.clone(),
            suffix: suffix.clone(),
            max_tokens: 500,
            temperature: 1,
            top_p: 1,
            n: 3,
            stop,
            nwo: String::from_str("my_org/my_repo"),
            stream: true,
            extra,
        }
    }

    /// A complete request for completions of `prompt` before `suffix` in
    /// `language`.
    pub fn build_request(&self, language: &String, prompt: &String, suffix: &String) -> (r:
        CompletionHttpRequest)
        ensures
            r.url@ == "https://copilot-proxy.githubusercontent.com/v1/engines/copilot-codex/completions"@,
            exists|rid: Seq<char>, sid: Seq<char>|
                rid.len() == 36 && headers_view(r.headers@) == expected_headers(*self, rid, sid),
            is_body_for(
                r.body,
                language@,
                prompt@,
                utf8_len(prompt@),
                suffix@,
                utf8_len(suffix@),
            ),
    {
        let headers = self.build_request_headers();
        let body = self.build_request_body(language, prompt, suffix);
        CompletionHttpRequest {
            url: String::from_str(
                "https://copilot-proxy.githubusercontent.com/v1/engines/copilot-codex/completions",
            ),
            headers,
            body,
        }
    }
}

} // verus!
