use rust_agent_platform::providers::{
    AnthropicProvider, DeepSeekProvider, ModelResponse, OllamaProvider, ReplyError, ReplyFields, ToolCall, Usage,
};

#[test]
fn test_anthropic_provider_creation() {
    let provider = AnthropicProvider::new("sk-ant-test".to_string(), None);
    assert_eq!(provider.provider_name(), "anthropic");
}

#[test]
fn test_ollama_provider_creation() {
    let provider = OllamaProvider::new(None, None);
    assert_eq!(provider.provider_name(), "ollama");
}

#[test]
fn deepseek_provider_defaults() {
    let p = DeepSeekProvider::new("k".to_string(), None, None);
    assert_eq!(p.provider_name(), "deepseek");
    assert_eq!(p.base_url, "https://api.deepseek.com");
    assert_eq!(p.model, "deepseek-chat");
    assert_eq!(p.chat_url(), "https://api.deepseek.com/chat/completions");
    assert_eq!(p.models_url(), "https://api.deepseek.com/v1/models");
    assert_eq!(p.authorization(), "Bearer k");
}

#[test]
fn anthropic_defaults_and_urls() {
    let p = AnthropicProvider::new("key".to_string(), None);
    assert_eq!(p.base_url, "https://api.anthropic.com");
    assert!(p.model.is_none());
    assert_eq!(p.messages_url(), "https://api.anthropic.com/v1/messages");
    let q = AnthropicProvider::new("key".to_string(), Some("http://x".to_string()));
    assert_eq!(q.messages_url(), "http://x/v1/messages");
}

#[test]
fn ollama_urls_and_model() {
    let p = OllamaProvider::new(Some("http://h:1".to_string()), Some("m".to_string()));
    assert_eq!(p.chat_url(), "http://h:1/api/chat");
    assert_eq!(p.tags_url(), "http://h:1/api/tags");
    assert_eq!(p.model, "m");
    let d = OllamaProvider::new(None, None);
    assert_eq!(d.base_url, "http://localhost:11434");
    assert_eq!(d.model, "llama3");
}

#[test]
fn anthropic_reply_is_read() {
    let p = AnthropicProvider::new("k".to_string(), None);
    let body = r#"{"content":[{"text":"hello"}],"usage":{"input_tokens":12,"output_tokens":34}}"#;
    let r = p.read_chat_reply(body).unwrap();
    assert_eq!(r.content, "hello");
    assert_eq!(r.usage, Usage { input_tokens: 12, output_tokens: 34 });
    assert!(r.tool_calls.is_none());
}

#[test]
fn token_counts_are_cut_to_32_bits() {
    let p = AnthropicProvider::new("k".to_string(), None);
    let body = r#"{"content":[{"text":"x"}],"usage":{"input_tokens":4294967297}}"#;
    let r = p.read_chat_reply(body).unwrap();
    assert_eq!(r.usage.input_tokens, 1);
    assert_eq!(r.usage.output_tokens, 0);
}

#[test]
fn reply_without_content_fails() {
    let p = AnthropicProvider::new("k".to_string(), None);
    let e = p.read_chat_reply(r#"{"content":[]}"#).unwrap_err();
    assert_eq!(e, ReplyError::NoContent);
    assert_eq!(e.message(), "No content in response");
}

#[test]
fn reply_that_is_not_json_fails() {
    let p = OllamaProvider::new(None, None);
    let e = p.read_chat_reply("not json").unwrap_err();
    assert_eq!(e, ReplyError::Malformed);
}

#[test]
fn ollama_reply_is_read() {
    let p = OllamaProvider::new(None, None);
    let r = p.read_chat_reply(r#"{"message":{"content":"hi"}}"#).unwrap();
    assert_eq!(r.content, "hi");
    assert_eq!(r.usage, Usage { input_tokens: 0, output_tokens: 0 });
}

#[test]
fn deepseek_replies_are_read() {
    let p = DeepSeekProvider::new("k".to_string(), None, None);
    let body = r#"{"choices":[{"message":{"content":"ok"}}],"usage":{"prompt_tokens":3,"completion_tokens":4}}"#;
    let r = p.read_chat_reply(body).unwrap();
    assert_eq!(r.content, "ok");
    assert_eq!(r.usage, Usage { input_tokens: 3, output_tokens: 4 });

    let tools = r#"{"choices":[{"message":{"tool_calls":[{"id":"1"},{"id":"2"}]}}]}"#;
    let t = p.read_tool_reply(tools).unwrap();
    assert_eq!(t.content, "");
    assert_eq!(t.tool_calls.unwrap().len(), 2);
    assert_eq!(p.read_tool_reply("{").unwrap_err(), ReplyError::Malformed);
}

#[test]
fn model_lists_are_read() {
    let o = OllamaProvider::new(None, None);
    let names = o.read_model_list(r#"{"models":[{"name":"a"},{"size":1},{"name":"b"}]}"#).unwrap();
    assert_eq!(names, vec!["a".to_string(), "b".to_string()]);
    assert!(o.read_model_list(r#"{"other":1}"#).unwrap().is_empty());
    let d = DeepSeekProvider::new("k".to_string(), None, None);
    let ids = d.read_model_list(r#"{"data":[{"id":"deepseek-chat"},{"id":"deepseek-reasoner"}]}"#).unwrap();
    assert_eq!(ids, vec!["deepseek-chat".to_string(), "deepseek-reasoner".to_string()]);
    assert_eq!(d.read_model_list("x").unwrap_err(), ReplyError::Malformed);
}

#[test]
fn model_response_builders() {
    let r = ModelResponse::new("c".to_string(), Usage { input_tokens: 1, output_tokens: 2 });
    assert!(r.tool_calls.is_none());
    let call = ToolCall { id: Some("c1".to_string()), name: Some("bash".to_string()), arguments: None };
    let r = r.with_tool_calls(vec![call]);
    let calls = r.tool_calls.unwrap();
    assert_eq!(calls.len(), 1);
    assert_eq!(calls[0].id.as_deref(), Some("c1"));
}

#[test]
fn tool_replies_keep_the_calls_in_order() {
    let p = DeepSeekProvider::new("k".to_string(), None, None);
    let call = |id: &str, name: &str| ToolCall {
        id: Some(id.to_string()),
        name: Some(name.to_string()),
        arguments: Some("{}".to_string()),
    };
    let f = ReplyFields {
        content_text: None,
        message_content: None,
        choice_content: Some("thinking done".to_string()),
        input_tokens: Some(9),
        output_tokens: Some(9),
        prompt_tokens: Some(7),
        completion_tokens: None,
    };
    let m = p.tool_reply(f, Some(vec![call("1", "bash"), call("2", "read"), call("3", "grep")]));
    assert_eq!(m.content, "thinking done");
    let names: Vec<String> = m.tool_calls.unwrap().into_iter().map(|c| c.name.unwrap()).collect();
    assert_eq!(names, vec!["bash".to_string(), "read".to_string(), "grep".to_string()]);
    assert_eq!(m.usage, Usage { input_tokens: 7, output_tokens: 0 });

    let body = r#"{"choices":[{"message":{"tool_calls":[
        {"id":"b","type":"function","function":{"name":"bash","arguments":"{\"command\":\"ls\"}"}},
        {"id":"a","function":{"name":7}}]}}]}"#;
    let t = p.read_tool_reply(body).unwrap();
    let calls = t.tool_calls.unwrap();
    assert_eq!(calls.len(), 2);
    assert_eq!(calls[0].id.as_deref(), Some("b"));
    assert_eq!(calls[0].name.as_deref(), Some("bash"));
    assert_eq!(calls[0].arguments.as_deref(), Some("{\"command\":\"ls\"}"));
    assert_eq!(calls[1].id.as_deref(), Some("a"));
    assert!(calls[1].name.is_none());
    assert!(calls[1].arguments.is_none());
}

fn header_pairs(r: &rust_agent_platform::requests::ChatRequest) -> Vec<(&str, &str)> {
    r.headers.iter().map(|(n, v)| (n.as_str(), v.as_str())).collect()
}

#[test]
fn requests_are_described_per_provider() {
    let msgs = vec![("user".to_string(), "hi".to_string())];

    let a = AnthropicProvider::new("ak".to_string(), None);
    let r = a.chat_request("m1".to_string(), msgs.clone(), true);
    assert_eq!(r.url, "https://api.anthropic.com/v1/messages");
    assert_eq!(
        header_pairs(&r),
        vec![
            ("x-api-key", "ak"),
            ("anthropic-version", "2023-06-01"),
            ("accept", "text/event-stream"),
            ("content-type", "application/json"),
        ]
    );
    assert_eq!((r.body.model.as_str(), r.body.max_tokens, r.body.stream), ("m1", Some(1024), Some(true)));
    assert_eq!(r.body.messages, msgs);
    let r = a.chat_request("m1".to_string(), msgs.clone(), false);
    assert_eq!(header_pairs(&r), vec![("x-api-key", "ak"), ("anthropic-version", "2023-06-01")]);
    assert_eq!(r.body.stream, None);

    let o = OllamaProvider::new(None, Some("qwen".to_string()));
    let r = o.chat_request(msgs.clone(), true);
    assert_eq!(r.url, "http://localhost:11434/api/chat");
    assert_eq!(header_pairs(&r), vec![("Content-Type", "application/json")]);
    assert_eq!((r.body.model.as_str(), r.body.stream, r.body.thinking), ("qwen", Some(true), false));
    assert!(o.chat_request(msgs.clone(), false).headers.is_empty());

    let d = DeepSeekProvider::new("dk".to_string(), None, None);
    let r = d.chat_request(msgs.clone(), false);
    assert_eq!(r.url, "https://api.deepseek.com/chat/completions");
    assert_eq!(header_pairs(&r), vec![("Authorization", "Bearer dk"), ("Content-Type", "application/json")]);
    assert!(r.body.thinking);
    assert_eq!(r.body.reasoning_effort.as_deref(), Some("high"));
    assert_eq!(r.body.stream, None);

    let tool = rust_agent_platform::requests::ToolSpec {
        name: "bash".to_string(),
        description: "run".to_string(),
        parameters: serde_json::Value::Null,
    };
    let r = d.tools_request(msgs.clone(), vec![tool], true);
    assert_eq!(r.body.tools.as_ref().unwrap()[0].name, "bash");
    assert_eq!((r.body.stream, r.body.thinking, r.body.reasoning_effort.as_deref()), (Some(true), true, Some("low")));
    let r = d.tools_request(msgs, Vec::new(), false);
    assert_eq!((r.body.stream, r.body.thinking, r.body.reasoning_effort.as_deref()), (None, false, None));
    assert!(r.body.tools.unwrap().is_empty());
}
