use rust_agent_platform::mcp::{ContentBlock, JsonRpcError, JsonRpcRequest, MCPClient, McpError};

#[test]
fn test_mcp_client_creation() {
    let client = MCPClient::new("http://localhost:8080".to_string());
    assert!(!client.is_connected());
}

#[test]
fn test_mcp_client_connect() {
    let mut client = MCPClient::new("http://localhost:8080".to_string());
    client.connect().unwrap();
    assert!(client.is_connected());
}

#[test]
fn test_mcp_client_disconnect() {
    let mut client = MCPClient::new("http://localhost:8080".to_string());
    client.connect().unwrap();
    client.disconnect().unwrap();
    assert!(!client.is_connected());
}

#[test]
fn test_mcp_list_resources() {
    let mut client = MCPClient::new("http://localhost:8080".to_string());
    client.connect().unwrap();
    let resources = client.list_resources().unwrap();
    assert!(resources.is_empty());
}

#[test]
fn test_mcp_list_tools() {
    let mut client = MCPClient::new("http://localhost:8080".to_string());
    client.connect().unwrap();
    let tools = client.list_tools().unwrap();
    assert!(tools.is_empty());
}

#[test]
fn test_mcp_call_tool() {
    let mut client = MCPClient::new("http://localhost:8080".to_string());
    client.connect().unwrap();
    let result = client.call_tool("test_tool", serde_json::Value::Object(serde_json::Map::new())).unwrap();
    assert!(!result.is_empty());
    assert_eq!(result[0].text.as_deref(), Some("Tool test_tool called"));
    assert_eq!(result[0].kind, "text");
}

#[test]
fn test_mcp_not_connected_error() {
    let client = MCPClient::new("http://localhost:8080".to_string());
    let result = client.list_resources();
    assert!(result.is_err());
    let e = result.unwrap_err();
    assert_eq!(e, McpError::NotConnected);
    assert_eq!(e.message(), "Not connected to MCP server");
    assert!(client.list_tools().is_err());
    assert!(client.call_tool("t", serde_json::Value::Null).is_err());
}

#[test]
fn json_rpc_envelopes() {
    let r = JsonRpcRequest::new(7, "tools/list");
    assert_eq!(r.jsonrpc, "2.0");
    assert_eq!(r.id, 7);
    assert!(r.params.is_none());
    let r = r.with_params(serde_json::Value::Bool(true));
    assert_eq!(r.params, Some(serde_json::Value::Bool(true)));
    let e = JsonRpcError::method_not_found();
    assert_eq!((e.code, e.message.as_str()), (-32601, "Method not found"));
    assert_eq!(JsonRpcError::invalid_params("bad").code, -32602);
    assert_eq!(JsonRpcError::internal_error("oops").message, "oops");
    let b = ContentBlock::text("hi");
    assert_eq!(b.text.as_deref(), Some("hi"));
    assert!(b.data.is_none() && b.mime_type.is_none());
}
