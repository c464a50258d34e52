//! The requests sent to the providers, as plain values: where each goes,
//! its headers, and the fields of its JSON body. The caller turns them into
//! HTTP.
use vstd::prelude::*;

use crate::providers::{bearer, endpoint, AnthropicProvider, DeepSeekProvider, OllamaProvider};

verus! {

/// A tool offered to the model: its name, what it does, and the JSON schema
/// of its arguments.
pub struct ToolSpec {
    pub name: String,
    pub description: String,
    pub parameters: serde_json::Value,
}

/// The fields of a chat request body; a field that is `None` is left out,
/// and `thinking` asks for `{"type": "enabled"}` under `thinking`.
pub struct ChatBody {
    pub model: String,
    /// Role and content of each message, in order.
    pub messages: Vec<(String, String)>,
    pub tools: Option<Vec<ToolSpec>>,
    pub max_tokens: Option<u32>,
    pub stream: Option<bool>,
    pub thinking: bool,
    pub reasoning_effort: Option<String>,
}

/// A chat request: its address, its headers in order, and its body.
pub struct ChatRequest {
    pub url: String,
    pub headers: Vec<(String, String)>,
    pub body: ChatBody,
}

pub open spec fn header_views(v: Seq<(String, String)>) -> Seq<(Seq<char>, Seq<char>)> {
    v.map_values(|h: (String, String)| (h.0@, h.1@))
}

/// `Some(true)` for a streamed request; the field is left out otherwise.
pub open spec fn stream_field(stream: bool) -> Option<bool> {
    if stream {
        Some(true)
    } else {
        None
    }
}

fn header(name: &str, value: String) -> (r: (String, String))
    ensures
        r.0@ == name@,
        r.1@ == value@,
{
    (String::from_str(name), value)
}

fn stream_flag(stream: bool) -> (r: Option<bool>)
    ensures
        r == stream_field(stream),
{
    if stream {
        Some(true)
    } else {
        None
    }
}

/// The headers of an Anthropic request; a streamed one also accepts an
/// event stream and names its content type.
pub open spec fn anthropic_headers(key: Seq<char>, stream: bool) -> Seq<(Seq<char>, Seq<char>)> {
    seq![("x-api-key"@, key), ("anthropic-version"@, "2023-06-01"@)] + if stream {
        seq![("accept"@, "text/event-stream"@), ("content-type"@, "application/json"@)]
    } else {
        Seq::empty()
    }
}

/// The headers of a DeepSeek request.
pub open spec fn deepseek_headers(key: Seq<char>) -> Seq<(Seq<char>, Seq<char>)> {
    seq![("Authorization"@, bearer(key)), ("Content-Type"@, "application/json"@)]
}

impl AnthropicProvider {
    /// A chat request for `model`: the messages, at most 1024 tokens of
    /// answer, streamed or not.
    pub fn chat_request(&self, model: String, messages: Vec<(String, String)>, stream: bool) -> (r: ChatRequest)
        ensures
            r.url@ == endpoint(self.base_url@, "/v1/messages"@),
            header_views(r.headers@) == anthropic_headers(self.api_key@, stream),
            r.body.model == model,
            r.body.messages == messages,
            r.body.tools is None,
            r.body.max_tokens == Some(1024u32),
            r.body.stream == stream_field(stream),
            !r.body.thinking,
            r.body.reasoning_effort is None,
    {
        let mut headers: Vec<(String, String)> = Vec::new();
        headers.push(header("x-api-key", self.api_key.clone()));
        headers.push(header("anthropic-version", String::from_str("2023-06-01")));
        if stream {
            headers.push(header("accept", String::from_str("text/event-stream")));
            headers.push(header("content-type", String::from_str("application/json")));
        }
        assert(header_views(headers@) =~= anthropic_headers(self.api_key@, stream));
        let body = ChatBody {
            model,
            messages,
            tools: None,
            max_tokens: Some(1024),
            stream: stream_flag(stream),
            thinking: false,
            reasoning_effort: None,
        };
        ChatRequest { url: self.messages_url(), headers, body }
    }
}

impl OllamaProvider {
    /// A chat request for the provider's model, streamed or not; a streamed
    /// one names its content type.
    pub fn chat_request(&self, messages: Vec<(String, String)>, stream: bool) -> (r: ChatRequest)
        ensures
            r.url@ == endpoint(self.base_url@, "/api/chat"@),
            header_views(r.headers@) == if stream {
                seq![("Content-Type"@, "application/json"@)]
            } else {
                Seq::empty()
            },
            r.body.model@ == self.model@,
            r.body.messages == messages,
            r.body.tools is None,
            r.body.max_tokens is None,
            r.body.stream == stream_field(stream),
            !r.body.thinking,
            r.body.reasoning_effort is None,
    {
        let mut headers: Vec<(String, String)> = Vec::new();
        if stream {
            headers.push(header("Content-Type", String::from_str("application/json")));
        }
        assert(header_views(headers@) =~= if stream {
            seq![("Content-Type"@, "application/json"@)]
        } else {
            Seq::empty()
        });
        let body = ChatBody {
            model: self.model.clone(),
            messages,
            tools: None,
            max_tokens: None,
            stream: stream_flag(stream),
            thinking: false,
            reasoning_effort: None,
        };
        ChatRequest { url: self.chat_url(), headers, body }
    }
}

impl DeepSeekProvider {
    fn request_headers(&self) -> (r: Vec<(String, String)>)
        ensures
            header_views(r@) == deepseek_headers(self.api_key@),
    {
        let mut headers: Vec<(String, String)> = Vec::new();
        headers.push(header("Authorization", self.authorization()));
        headers.push(header("Content-Type", String::from_str("application/json")));
        assert(header_views(headers@) =~= deepseek_headers(self.api_key@));
        headers
    }

    /// A chat request for the provider's model, streamed or not, with
    /// thinking enabled and a high reasoning effort.
    pub fn chat_request(&self, messages: Vec<(String, String)>, stream: bool) -> (r: ChatRequest)
        ensures
            r.url@ == endpoint(self.base_url@, "/chat/completions"@),
            header_views(r.headers@) == deepseek_headers(self.api_key@),
            r.body.model@ == self.model@,
            r.body.messages == messages,
            r.body.tools is None,
            r.body.max_tokens is None,
            r.body.stream == stream_field(stream),
            r.body.thinking,
            r.body.reasoning_effort matches Some(e) && e@ == "high"@,
    {
        let body = ChatBody {
            model: self.model.clone(),
            messages,
            tools: None,
            max_tokens: None,
            stream: stream_flag(stream),
            thinking: true,
            reasoning_effort: Some(String::from_str("high")),
        };
        ChatRequest { url: self.chat_url(), headers: self.request_headers(), body }
    }

    /// A request that offers `tools`: without streaming it carries the
    /// messages and the tools alone; streamed, it also enables thinking with
    /// a low reasoning effort.
    pub fn tools_request(&self, messages: Vec<(String, String)>, tools: Vec<ToolSpec>, stream: bool) -> (r: ChatRequest)
        ensures
            r.url@ == endpoint(self.base_url@, "/chat/completions"@),
            header_views(r.headers@) == deepseek_headers(self.api_key@),
            r.body.model@ == self.model@,
            r.body.messages == messages,
            r.body.tools == Some(tools),
            r.body.max_tokens is None,
            r.body.stream == stream_field(stream),
            r.body.thinking == stream,
            stream ==> (r.body.reasoning_effort matches Some(e) && e@ == "low"@),
            !stream ==> r.body.reasoning_effort is None,
    {
        let effort = if stream {
            Some(String::from_str("low"))
        } else {
            None
        };
        let body = ChatBody {
            model: self.model.clone(),
            messages,
            tools: Some(tools),
            max_tokens: None,
            stream: stream_flag(stream),
            thinking: stream,
            reasoning_effort: effort,
        };
        ChatRequest { url: self.chat_url(), headers: self.request_headers(), body }
    }
}

} // verus!
