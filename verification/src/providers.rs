//! Chat providers: their settings, the endpoints they talk to, and what a
//! provider's reply body means. The HTTP exchange itself belongs to the
//! caller, which hands the reply text to the functions here.
use vstd::prelude::*;

use crate::text::{chars_of, string_from_chars};

verus! {

/// `serde_json::Value`, carried opaquely.
#[verifier::external_type_specification]
#[verifier::external_body]
pub struct ExJsonValue(serde_json::Value);

/// `serde_json::Value::clone` (derived): the copy holds the same JSON value.
pub assume_specification[<serde_json::Value as Clone>::clone](v: &serde_json::Value) -> (r: serde_json::Value)
    ensures
        r == *v,
;

/// Settings from which a provider is built.
#[derive(Debug, Clone)]
pub struct ProviderConfig {
    pub name: String,
    pub api_key: Option<String>,
    pub base_url: Option<String>,
}

/// Tokens a request consumed.
#[derive(Debug, Clone, Copy, PartialEq, Eq, Structural)]
pub struct Usage {
    pub input_tokens: u32,
    pub output_tokens: u32,
}

/// A tool call the model asks for, by its fields: the call's `id`, and the
/// `name` and `arguments` text of its `function`. A field that is absent, or
/// not a string, is `None`.
#[derive(Debug, Clone)]
pub struct ToolCall {
    pub id: Option<String>,
    pub name: Option<String>,
    pub arguments: Option<String>,
}

/// A tool call's fields as text.
pub struct ToolCallView {
    pub id: Option<Seq<char>>,
    pub name: Option<Seq<char>>,
    pub arguments: Option<Seq<char>>,
}

pub open spec fn tool_call_view(c: ToolCall) -> ToolCallView {
    ToolCallView { id: opt_chars(c.id), name: opt_chars(c.name), arguments: opt_chars(c.arguments) }
}

pub open spec fn tool_call_views(v: Seq<ToolCall>) -> Seq<ToolCallView> {
    v.map_values(|c: ToolCall| tool_call_view(c))
}

/// The tool calls of an answer as text, if it has any.
pub open spec fn opt_tool_call_views(o: Option<Vec<ToolCall>>) -> Option<Seq<ToolCallView>> {
    match o {
        Some(v) => Some(tool_call_views(v@)),
        None => None,
    }
}

/// A provider's answer.
#[derive(Debug, Clone)]
pub struct ModelResponse {
    pub content: String,
    pub tool_calls: Option<Vec<ToolCall>>,
    pub usage: Usage,
}

impl ModelResponse {
    /// An answer without tool calls.
    pub fn new(content: String, usage: Usage) -> (r: Self)
        ensures
            r.content == content,
            r.tool_calls is None,
            r.usage == usage,
    {
        ModelResponse { content, tool_calls: None, usage }
    }

    /// The same answer carrying `tool_calls`.
    pub fn with_tool_calls(self, tool_calls: Vec<ToolCall>) -> (r: Self)
        ensures
            r.content == self.content,
            r.usage == self.usage,
            r.tool_calls == Some(tool_calls),
    {
        let mut s = self;
        s.tool_calls = Some(tool_calls);
        s
    }
}

/// Why a reply body gave no answer.
#[derive(Debug, Clone, Copy, PartialEq, Eq, Structural)]
pub enum ReplyError {
    /// The body is not JSON.
    Malformed,
    /// The answer text is missing or not a string.
    NoContent,
}

impl ReplyError {
    /// The message the caller reports.
    pub fn message(&self) -> (r: String)
        ensures
            r@ == reply_error_text(*self),
    {
        match self {
            ReplyError::Malformed => String::from_str("error decoding response body"),
            ReplyError::NoContent => String::from_str("No content in response"),
        }
    }
}

pub open spec fn reply_error_text(e: ReplyError) -> Seq<char> {
    match e {
        ReplyError::Malformed => "error decoding response body"@,
        ReplyError::NoContent => "No content in response"@,
    }
}

// ---------------------------------------------------------------------------
// Reply bodies
// ---------------------------------------------------------------------------

/// The fields of a chat reply body that the providers read.
pub struct ReplyFields {
    /// `content[0].text` (Anthropic).
    pub content_text: Option<String>,
    /// `message.content` (Ollama).
    pub message_content: Option<String>,
    /// `choices[0].message.content` (DeepSeek).
    pub choice_content: Option<String>,
    /// `usage.input_tokens`, `usage.output_tokens` (Anthropic).
    pub input_tokens: Option<u64>,
    pub output_tokens: Option<u64>,
    /// `usage.prompt_tokens`, `usage.completion_tokens` (DeepSeek).
    pub prompt_tokens: Option<u64>,
    pub completion_tokens: Option<u64>,
}

/// The reply fields as plain values.
pub struct ReplyView {
    pub content_text: Option<Seq<char>>,
    pub message_content: Option<Seq<char>>,
    pub choice_content: Option<Seq<char>>,
    pub input_tokens: Option<u64>,
    pub output_tokens: Option<u64>,
    pub prompt_tokens: Option<u64>,
    pub completion_tokens: Option<u64>,
}

pub open spec fn opt_chars(o: Option<String>) -> Option<Seq<char>> {
    match o {
        Some(s) => Some(s@),
        None => None,
    }
}

pub open spec fn reply_view(f: ReplyFields) -> ReplyView {
    ReplyView {
        content_text: opt_chars(f.content_text),
        message_content: opt_chars(f.message_content),
        choice_content: opt_chars(f.choice_content),
        input_tokens: f.input_tokens,
        output_tokens: f.output_tokens,
        prompt_tokens: f.prompt_tokens,
        completion_tokens: f.completion_tokens,
    }
}

/// What `serde_json` reads out of a chat reply body: `None` when it is not
/// JSON, else the fields above.
pub uninterp spec fn spec_reply_fields(body: Seq<char>) -> Option<ReplyView>;

/// `serde_json::from_str` of a reply body, with the fields the providers
/// read; `None` when the body is not JSON. A path that leads nowhere, or to a
/// value of another type, gives `None` for that field.
#[verifier::external_body]
fn parse_reply(body: &str) -> (r: Option<ReplyFields>)
    ensures
        match r {
            Some(f) => spec_reply_fields(body@) == Some(reply_view(f)),
            None => spec_reply_fields(body@) is None,
        },
{
    let v: serde_json::Value = serde_json::from_str(body).ok()?;
    let (m, u) = (&v["choices"][0]["message"], &v["usage"]);
    Some(ReplyFields {
        content_text: v["content"][0]["text"].as_str().map(String::from),
        message_content: v["message"]["content"].as_str().map(String::from),
        choice_content: m["content"].as_str().map(String::from),
        input_tokens: u["input_tokens"].as_u64(),
        output_tokens: u["output_tokens"].as_u64(),
        prompt_tokens: u["prompt_tokens"].as_u64(),
        completion_tokens: u["completion_tokens"].as_u64(),
    })
}

/// What `serde_json` reads as the tool calls of a chat reply body: `None`
/// when it is not JSON; else `Some(None)` when `choices[0].message.tool_calls`
/// is not an array, and otherwise its elements in order, each by its fields.
pub uninterp spec fn spec_reply_tool_calls(body: Seq<char>) -> Option<Option<Seq<ToolCallView>>>;

/// `serde_json::from_str` of a reply body, with the tool calls of
/// `choices[0].message.tool_calls`, each read by `id`, `function.name` and
/// `function.arguments` (`None` for a field that is absent or not a string).
/// The body parses here exactly when it parses for `parse_reply`, the same
/// `from_str` being applied to the same text.
#[verifier::external_body]
fn parse_tool_calls(body: &str) -> (r: Option<Option<Vec<ToolCall>>>)
    ensures
        r is None <==> spec_reply_fields(body@) is None,
        match r {
            Some(t) => spec_reply_tool_calls(body@) == Some(opt_tool_call_views(t)),
            None => spec_reply_tool_calls(body@) is None,
        },
{
    let v: serde_json::Value = serde_json::from_str(body).ok()?;
    let s = |x: &serde_json::Value| x.as_str().map(String::from);
    let call = |c: &serde_json::Value| ToolCall { id: s(&c["id"]), name: s(&c["function"]["name"]), arguments: s(&c["function"]["arguments"]) };
    Some(v["choices"][0]["message"]["tool_calls"].as_array().map(|a| a.iter().map(call).collect()))
}

/// A token count as the providers keep it: absent counts as 0, and the
/// count is cut to its low 32 bits.
pub open spec fn token_count(o: Option<u64>) -> u32 {
    match o {
        Some(n) => n as u32,
        None => 0,
    }
}

fn count_tokens(o: Option<u64>) -> (r: u32)
    ensures
        r == token_count(o),
{
    match o {
        Some(n) => #[verifier::truncate] (n as u32),
        None => 0,
    }
}

/// The answer text of a reply body, read by `text` from its fields.
pub open spec fn answer_of(fields: Option<ReplyView>, text: spec_fn(ReplyView) -> Option<Seq<char>>) -> Result<Seq<char>, ReplyError> {
    match fields {
        None => Err(ReplyError::Malformed),
        Some(f) => match text(f) {
            Some(t) => Ok(t),
            None => Err(ReplyError::NoContent),
        },
    }
}

/// The text of a result's answer, for contracts.
pub open spec fn answer_text(r: Result<ModelResponse, ReplyError>) -> Result<Seq<char>, ReplyError> {
    match r {
        Ok(m) => Ok(m.content@),
        Err(e) => Err(e),
    }
}

/// The names that are present, in their order.
pub open spec fn present_names(names: Seq<Option<Seq<char>>>) -> Seq<Seq<char>>
    decreases names.len(),
{
    if names.len() == 0 {
        Seq::empty()
    } else {
        let rest = present_names(names.drop_last());
        match names.last() {
            Some(n) => rest.push(n),
            None => rest,
        }
    }
}

/// What `serde_json` reads out of a model list body: `None` when it is not
/// JSON; else, when the value under `key` is an array, the string under
/// `field` of each element (`None` where there is none).
pub uninterp spec fn spec_model_entries(body: Seq<char>, key: Seq<char>, field: Seq<char>) -> Option<Option<Seq<Option<Seq<char>>>>>;

pub open spec fn opt_names(v: Seq<Option<String>>) -> Seq<Option<Seq<char>>> {
    v.map_values(|o: Option<String>| opt_chars(o))
}

/// `serde_json::from_str` of a model list body; for the array under `key`,
/// the string under `field` of each element.
#[verifier::external_body]
fn parse_model_entries(body: &str, key: &str, field: &str) -> (r: Option<Option<Vec<Option<String>>>>)
    ensures
        match r {
            None => spec_model_entries(body@, key@, field@) is None,
            Some(None) => spec_model_entries(body@, key@, field@) == Some(None::<Seq<Option<Seq<char>>>>),
            Some(Some(v)) => spec_model_entries(body@, key@, field@) == Some(Some(opt_names(v@))),
        },
{
    let v: serde_json::Value = serde_json::from_str(body).ok()?;
    Some(v[key].as_array().map(|a| a.iter().map(|m| m[field].as_str().map(String::from)).collect()))
}

/// The names in a model list body: those under `field` of the elements of
/// the array under `key`; none when there is no such array.
pub open spec fn model_list(body: Seq<char>, key: Seq<char>, field: Seq<char>) -> Result<Seq<Seq<char>>, ReplyError> {
    match spec_model_entries(body, key, field) {
        None => Err(ReplyError::Malformed),
        Some(None) => Ok(Seq::empty()),
        Some(Some(names)) => Ok(present_names(names)),
    }
}

pub open spec fn list_view(r: Result<Vec<String>, ReplyError>) -> Result<Seq<Seq<char>>, ReplyError> {
    match r {
        Ok(v) => Ok(v@.map_values(|s: String| s@)),
        Err(e) => Err(e),
    }
}

/// The model names of a model list body.
fn read_model_list(body: &str, key: &str, field: &str) -> (r: Result<Vec<String>, ReplyError>)
    ensures
        list_view(r) == model_list(body@, key@, field@),
{
    match parse_model_entries(body, key, field) {
        None => Err(ReplyError::Malformed),
        Some(None) => {
            let out: Vec<String> = Vec::new();
            assert(out@.map_values(|s: String| s@) =~= Seq::<Seq<char>>::empty());
            Ok(out)
        },
        Some(Some(entries)) => {
            let ghost nv = opt_names(entries@);
            let mut out: Vec<String> = Vec::new();
            let mut i: usize = 0;
            while i < entries.len()
                invariant
                    i <= entries@.len(),
                    nv == opt_names(entries@),
                    out@.map_values(|s: String| s@) == present_names(nv.take(i as int)),
                decreases entries@.len() - i,
            {
                assert(nv.take(i as int + 1).drop_last() =~= nv.take(i as int));
                match &entries[i] {
                    Some(n) => {
                        let ghost before = out@;
                        out.push(n.clone());
                        assert(out@.map_values(|s: String| s@) =~= before.map_values(|s: String| s@).push(n@));
                    },
                    None => {},
                }
                i = i + 1;
            }
            assert(nv.take(entries@.len() as int) =~= nv);
            Ok(out)
        },
    }
}

/// `base` followed by `path`.
pub open spec fn endpoint(base: Seq<char>, path: Seq<char>) -> Seq<char> {
    base + path
}

fn join_url(base: &String, path: &str) -> (r: String)
    ensures
        r@ == endpoint(base@, path@),
{
    let mut v = chars_of(base.as_str());
    let p = chars_of(path);
    let mut i: usize = 0;
    let ghost b = v@;
    while i < p.len()
        invariant
            i <= p@.len(),
            v@ == b + p@.take(i as int),
        decreases p@.len() - i,
    {
        v.push(p[i]);
        assert(b + p@.take(i as int + 1) =~= (b + p@.take(i as int)).push(p@[i as int]));
        i = i + 1;
    }
    assert(p@.take(p@.len() as int) =~= p@);
    string_from_chars(&v)
}

/// The `Authorization` header value for an API key.
pub open spec fn bearer(key: Seq<char>) -> Seq<char> {
    "Bearer "@ + key
}

fn bearer_of(key: &String) -> (r: String)
    ensures
        r@ == bearer(key@),
{
    let lead = String::from_str("Bearer ");
    join_url(&lead, key.as_str())
}

/// `o`, or `d` when it is absent.
pub open spec fn or_default(o: Option<String>, d: Seq<char>) -> Seq<char> {
    match o {
        Some(s) => s@,
        None => d,
    }
}

fn unwrap_or_text(o: Option<String>, d: &str) -> (r: String)
    ensures
        r@ == or_default(o, d@),
{
    match o {
        Some(s) => s,
        None => String::from_str(d),
    }
}

// ---------------------------------------------------------------------------
// Anthropic
// ---------------------------------------------------------------------------

/// Anthropic's messages API.
pub struct AnthropicProvider {
    pub api_key: String,
    pub base_url: String,
    /// The model asked for; `None` leaves the choice to the caller's
    /// catalogue of Anthropic models, which names the provider's default.
    pub model: Option<String>,
}

impl AnthropicProvider {
    /// A provider for `api_key`, at `base_url` or Anthropic's own address,
    /// talking to Anthropic's default model.
    pub fn new(api_key: String, base_url: Option<String>) -> (r: Self)
        ensures
            r.api_key == api_key,
            r.base_url@ == or_default(base_url, "https://api.anthropic.com"@),
            r.model is None,
    {
        AnthropicProvider { api_key, base_url: unwrap_or_text(base_url, "https://api.anthropic.com"), model: None }
    }

    pub fn provider_name(&self) -> (r: &'static str)
        ensures
            r@ == "anthropic"@,
    {
        "anthropic"
    }

    /// Where chat requests go.
    pub fn messages_url(&self) -> (r: String)
        ensures
            r@ == endpoint(self.base_url@, "/v1/messages"@),
    {
        join_url(&self.base_url, "/v1/messages")
    }

    /// The answer in a chat reply body: the text of its first content block,
    /// with the tokens counted under `usage`.
    pub fn read_chat_reply(&self, body: &str) -> (r: Result<ModelResponse, ReplyError>)
        ensures
            answer_text(r) == answer_of(spec_reply_fields(body@), |f: ReplyView| f.content_text),
            r matches Ok(m) ==> m.tool_calls is None && m.usage == (Usage {
                input_tokens: token_count(spec_reply_fields(body@).unwrap().input_tokens),
                output_tokens: token_count(spec_reply_fields(body@).unwrap().output_tokens),
            }),
    {
        match parse_reply(body) {
            None => Err(ReplyError::Malformed),
            Some(f) => match f.content_text {
                None => Err(ReplyError::NoContent),
                Some(t) => {
                    let usage = Usage {
                        input_tokens: count_tokens(f.input_tokens),
                        output_tokens: count_tokens(f.output_tokens),
                    };
                    Ok(ModelResponse::new(t, usage))
                },
            },
        }
    }
}

// ---------------------------------------------------------------------------
// Ollama
// ---------------------------------------------------------------------------

/// A local Ollama server.
pub struct OllamaProvider {
    pub base_url: String,
    pub model: String,
}

impl OllamaProvider {
    /// A provider at `base_url` or `http://localhost:11434`, for `model` or
    /// `llama3`.
    pub fn new(base_url: Option<String>, model: Option<String>) -> (r: Self)
        ensures
            r.base_url@ == or_default(base_url, "http://localhost:11434"@),
            r.model@ == or_default(model, "llama3"@),
    {
        OllamaProvider {
            base_url: unwrap_or_text(base_url, "http://localhost:11434"),
            model: unwrap_or_text(model, "llama3"),
        }
    }

    pub fn provider_name(&self) -> (r: &'static str)
        ensures
            r@ == "ollama"@,
    {
        "ollama"
    }

    /// Where chat requests go.
    pub fn chat_url(&self) -> (r: String)
        ensures
            r@ == endpoint(self.base_url@, "/api/chat"@),
    {
        join_url(&self.base_url, "/api/chat")
    }

    /// Where the installed models are listed.
    pub fn tags_url(&self) -> (r: String)
        ensures
            r@ == endpoint(self.base_url@, "/api/tags"@),
    {
        join_url(&self.base_url, "/api/tags")
    }

    /// The installed models in a tags body: the `name` of each entry of
    /// `models` that has one.
    pub fn read_model_list(&self, body: &str) -> (r: Result<Vec<String>, ReplyError>)
        ensures
            list_view(r) == model_list(body@, "models"@, "name"@),
    {
        read_model_list(body, "models", "name")
    }

    /// The answer in a chat reply body: `message.content`; Ollama's usage is
    /// not read.
    pub fn read_chat_reply(&self, body: &str) -> (r: Result<ModelResponse, ReplyError>)
        ensures
            answer_text(r) == answer_of(spec_reply_fields(body@), |f: ReplyView| f.message_content),
            r matches Ok(m) ==> m.tool_calls is None && m.usage == (Usage { input_tokens: 0, output_tokens: 0 }),
    {
        match parse_reply(body) {
            None => Err(ReplyError::Malformed),
            Some(f) => match f.message_content {
                None => Err(ReplyError::NoContent),
                Some(t) => Ok(ModelResponse::new(t, Usage { input_tokens: 0, output_tokens: 0 })),
            },
        }
    }
}

// ---------------------------------------------------------------------------
// DeepSeek
// ---------------------------------------------------------------------------

/// DeepSeek's OpenAI-style chat API.
pub struct DeepSeekProvider {
    pub api_key: String,
    pub base_url: String,
    pub model: String,
}

/// The usage DeepSeek reports.
pub open spec fn deepseek_usage(f: ReplyView) -> Usage {
    Usage {
        input_tokens: token_count(f.prompt_tokens),
        output_tokens: token_count(f.completion_tokens),
    }
}

impl DeepSeekProvider {
    /// A provider for `api_key`, at `base_url` or DeepSeek's own address, for
    /// `model` or `deepseek-chat`.
    pub fn new(api_key: String, base_url: Option<String>, model: Option<String>) -> (r: Self)
        ensures
            r.api_key == api_key,
            r.base_url@ == or_default(base_url, "https://api.deepseek.com"@),
            r.model@ == or_default(model, "deepseek-chat"@),
    {
        DeepSeekProvider {
            api_key,
            base_url: unwrap_or_text(base_url, "https://api.deepseek.com"),
            model: unwrap_or_text(model, "deepseek-chat"),
        }
    }

    pub fn provider_name(&self) -> (r: &'static str)
        ensures
            r@ == "deepseek"@,
    {
        "deepseek"
    }

    /// Where chat requests go.
    pub fn chat_url(&self) -> (r: String)
        ensures
            r@ == endpoint(self.base_url@, "/chat/completions"@),
    {
        join_url(&self.base_url, "/chat/completions")
    }

    /// Where the models are listed.
    pub fn models_url(&self) -> (r: String)
        ensures
            r@ == endpoint(self.base_url@, "/v1/models"@),
    {
        join_url(&self.base_url, "/v1/models")
    }

    /// The `Authorization` header value.
    pub fn authorization(&self) -> (r: String)
        ensures
            r@ == bearer(self.api_key@),
    {
        bearer_of(&self.api_key)
    }

    /// The models in a models body: the `id` of each entry of `data` that
    /// has one.
    pub fn read_model_list(&self, body: &str) -> (r: Result<Vec<String>, ReplyError>)
        ensures
            list_view(r) == model_list(body@, "data"@, "id"@),
    {
        read_model_list(body, "data", "id")
    }

    /// The answer in a chat reply body: `choices[0].message.content`, with
    /// the prompt and completion tokens.
    pub fn read_chat_reply(&self, body: &str) -> (r: Result<ModelResponse, ReplyError>)
        ensures
            answer_text(r) == answer_of(spec_reply_fields(body@), |f: ReplyView| f.choice_content),
            r matches Ok(m) ==> m.tool_calls is None && m.usage == deepseek_usage(
                spec_reply_fields(body@).unwrap(),
            ),
    {
        match parse_reply(body) {
            None => Err(ReplyError::Malformed),
            Some(f) => match f.choice_content {
                None => Err(ReplyError::NoContent),
                Some(t) => {
                    let usage = Usage {
                        input_tokens: count_tokens(f.prompt_tokens),
                        output_tokens: count_tokens(f.completion_tokens),
                    };
                    Ok(ModelResponse::new(t, usage))
                },
            },
        }
    }

    /// The answer in a reply to a request that offered tools: the message
    /// text, empty when absent, and the tool calls, in order, when the
    /// message has an array of them. Fails only on a body that is not JSON.
    pub fn read_tool_reply(&self, body: &str) -> (r: Result<ModelResponse, ReplyError>)
        ensures
            spec_reply_fields(body@) is None <==> r == Err::<ModelResponse, ReplyError>(ReplyError::Malformed),
            r matches Ok(m) ==> ({
                let f = spec_reply_fields(body@).unwrap();
                &&& m.content@ == (match f.choice_content {
                    Some(c) => c,
                    None => Seq::empty(),
                })
                &&& m.usage == deepseek_usage(f)
                &&& Some(opt_tool_call_views(m.tool_calls)) == spec_reply_tool_calls(body@)
            }),
    {
        match parse_reply(body) {
            None => Err(ReplyError::Malformed),
            Some(f) => match parse_tool_calls(body) {
                None => Err(ReplyError::Malformed),
                Some(calls) => Ok(self.tool_reply(f, calls)),
            },
        }
    }

    /// The answer of a parsed reply to a request that offered tools: the
    /// message text, empty when absent, the usage, and the tool calls
    /// exactly as the reply holds them.
    pub fn tool_reply(&self, f: ReplyFields, calls: Option<Vec<ToolCall>>) -> (m: ModelResponse)
        ensures
            m.content@ == or_default(f.choice_content, Seq::empty()),
            m.usage == deepseek_usage(reply_view(f)),
            m.tool_calls == calls,
    {
        let content = unwrap_or_text(f.choice_content, "");
        let usage = Usage {
            input_tokens: count_tokens(f.prompt_tokens),
            output_tokens: count_tokens(f.completion_tokens),
        };
        let response = ModelResponse::new(content, usage);
        proof {
            reveal_strlit("");
        }
        match calls {
            Some(tc) => response.with_tool_calls(tc),
            None => response,
        }
    }
}

} // verus!
