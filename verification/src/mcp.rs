//! The Model Context Protocol: JSON-RPC envelopes, the MCP payload types, and
//! a client that answers only while it is connected.
use vstd::prelude::*;

use crate::text::concat_str;

verus! {

// ---------------------------------------------------------------------------
// JSON-RPC 2.0 envelopes
// ---------------------------------------------------------------------------

/// A JSON-RPC 2.0 request.
#[derive(Debug, Clone)]
pub struct JsonRpcRequest {
    pub jsonrpc: String,
    pub id: u32,
    pub method: String,
    pub params: Option<serde_json::Value>,
}

/// A JSON-RPC 2.0 response.
#[derive(Debug, Clone)]
pub struct JsonRpcResponse {
    pub jsonrpc: String,
    pub id: u32,
    pub result: Option<serde_json::Value>,
    pub error: Option<JsonRpcError>,
}

/// A JSON-RPC 2.0 error.
#[derive(Debug, Clone)]
pub struct JsonRpcError {
    pub code: i32,
    pub message: String,
    pub data: Option<serde_json::Value>,
}

impl JsonRpcError {
    /// An error with `code` and `message` and no data.
    pub fn new(code: i32, message: &str) -> (r: Self)
        ensures
            r.code == code,
            r.message@ == message@,
            r.data is None,
    {
        JsonRpcError { code, message: String::from_str(message), data: None }
    }

    /// The method does not exist (-32601).
    pub fn method_not_found() -> (r: Self)
        ensures
            r.code == -32601,
            r.message@ == "Method not found"@,
            r.data is None,
    {
        Self::new(-32601, "Method not found")
    }

    /// The parameters are wrong (-32602).
    pub fn invalid_params(msg: &str) -> (r: Self)
        ensures
            r.code == -32602,
            r.message@ == msg@,
            r.data is None,
    {
        Self::new(-32602, msg)
    }

    /// The server failed (-32603).
    pub fn internal_error(msg: &str) -> (r: Self)
        ensures
            r.code == -32603,
            r.message@ == msg@,
            r.data is None,
    {
        Self::new(-32603, msg)
    }
}

impl JsonRpcRequest {
    /// A version 2.0 request for `method` without parameters.
    pub fn new(id: u32, method: &str) -> (r: Self)
        ensures
            r.jsonrpc@ == "2.0"@,
            r.id == id,
            r.method@ == method@,
            r.params is None,
    {
        JsonRpcRequest { jsonrpc: String::from_str("2.0"), id, method: String::from_str(method), params: None }
    }

    /// The same request carrying `params`.
    pub fn with_params(self, params: serde_json::Value) -> (r: Self)
        ensures
            r.jsonrpc == self.jsonrpc,
            r.id == self.id,
            r.method == self.method,
            r.params == Some(params),
    {
        let mut s = self;
        s.params = Some(params);
        s
    }
}

// ---------------------------------------------------------------------------
// MCP payloads
// ---------------------------------------------------------------------------

/// Parameters of `initialize`.
#[derive(Debug, Clone)]
pub struct InitializeParams {
    pub protocol_version: String,
    pub capabilities: ClientCapabilities,
    pub client_info: ClientInfo,
}

/// What the client can do.
#[derive(Debug, Clone)]
pub struct ClientCapabilities {
    pub sampling: Option<()>,
}

impl Default for ClientCapabilities {
    fn default() -> (r: Self)
        ensures
            r.sampling is None,
    {
        ClientCapabilities { sampling: None }
    }
}

/// The client's name and version.
#[derive(Debug, Clone)]
pub struct ClientInfo {
    pub name: String,
    pub version: String,
}

/// The server's answer to `initialize`.
#[derive(Debug, Clone)]
pub struct InitializeResult {
    pub protocol_version: String,
    pub capabilities: ServerCapabilities,
    pub server_info: ServerInfo,
}

/// What the server offers.
#[derive(Debug, Clone)]
pub struct ServerCapabilities {
    pub tools: Option<ToolsCapability>,
    pub resources: Option<ResourcesCapability>,
    pub prompts: Option<PromptsCapability>,
}

#[derive(Debug, Clone)]
pub struct ToolsCapability {}

#[derive(Debug, Clone)]
pub struct ResourcesCapability {}

#[derive(Debug, Clone)]
pub struct PromptsCapability {}

/// The server's name and version.
#[derive(Debug, Clone)]
pub struct ServerInfo {
    pub name: String,
    pub version: String,
}

/// Parameters of `tools/list` (none).
#[derive(Debug, Clone)]
pub struct ToolsListParams;

/// The answer to `tools/list`.
#[derive(Debug, Clone)]
pub struct ToolsListResult {
    pub tools: Vec<Tool>,
}

/// A tool the server offers.
#[derive(Debug, Clone)]
pub struct Tool {
    pub name: String,
    pub description: String,
    pub input_schema: serde_json::Value,
}

/// Parameters of `tools/call`.
#[derive(Debug, Clone)]
pub struct ToolCallParams {
    pub name: String,
    pub arguments: serde_json::Value,
}

/// The answer to `tools/call`.
#[derive(Debug, Clone)]
pub struct ToolCallResult {
    pub content: Vec<ContentBlock>,
}

/// One block of a tool's answer; `kind` is its `type` on the wire.
#[derive(Debug, Clone)]
pub struct ContentBlock {
    pub kind: String,
    pub text: Option<String>,
    pub data: Option<String>,
    pub mime_type: Option<String>,
}

impl ContentBlock {
    /// A text block.
    pub fn text(content: &str) -> (r: Self)
        ensures
            r.kind@ == "text"@,
            r.text matches Some(t) && t@ == content@,
            r.data is None,
            r.mime_type is None,
    {
        ContentBlock {
            kind: String::from_str("text"),
            text: Some(String::from_str(content)),
            data: None,
            mime_type: None,
        }
    }
}

/// A resource the server offers.
#[derive(Debug, Clone)]
pub struct Resource {
    pub uri: String,
    pub name: String,
    pub description: Option<String>,
    pub mime_type: Option<String>,
}

/// A prompt the server offers.
#[derive(Debug, Clone)]
pub struct Prompt {
    pub name: String,
    pub description: Option<String>,
    pub arguments: Vec<PromptArgument>,
}

/// An argument of a prompt.
#[derive(Debug, Clone)]
pub struct PromptArgument {
    pub name: String,
    pub description: Option<String>,
    pub required: bool,
}

// ---------------------------------------------------------------------------
// Client
// ---------------------------------------------------------------------------

/// Why the client did not answer.
#[derive(Debug, Clone, Copy, PartialEq, Eq, Structural)]
pub enum McpError {
    NotConnected,
}

impl McpError {
    pub fn message(&self) -> (r: String)
        ensures
            r@ == "Not connected to MCP server"@,
    {
        String::from_str("Not connected to MCP server")
    }
}

/// A client of one MCP server.
pub struct MCPClient {
    pub server_url: String,
    pub connected: bool,
}

impl MCPClient {
    /// A client for `server_url`, not yet connected.
    pub fn new(server_url: String) -> (r: Self)
        ensures
            r.server_url == server_url,
            !r.connected,
    {
        MCPClient { server_url, connected: false }
    }

    pub fn connect(&mut self) -> (r: Result<(), McpError>)
        ensures
            r is Ok,
            final(self).connected,
            final(self).server_url == old(self).server_url,
    {
        self.connected = true;
        Ok(())
    }

    pub fn disconnect(&mut self) -> (r: Result<(), McpError>)
        ensures
            r is Ok,
            !final(self).connected,
            final(self).server_url == old(self).server_url,
    {
        self.connected = false;
        Ok(())
    }

    pub fn is_connected(&self) -> (r: bool)
        ensures
            r == self.connected,
    {
        self.connected
    }

    /// The server's resources: none yet; an error while not connected.
    pub fn list_resources(&self) -> (r: Result<Vec<Resource>, McpError>)
        ensures
            self.connected ==> (r matches Ok(v) && v@.len() == 0),
            !self.connected ==> r == Err::<Vec<Resource>, McpError>(McpError::NotConnected),
    {
        if !self.connected {
            return Err(McpError::NotConnected);
        }
        Ok(Vec::new())
    }

    /// The server's tools: none yet; an error while not connected.
    pub fn list_tools(&self) -> (r: Result<Vec<Tool>, McpError>)
        ensures
            self.connected ==> (r matches Ok(v) && v@.len() == 0),
            !self.connected ==> r == Err::<Vec<Tool>, McpError>(McpError::NotConnected),
    {
        if !self.connected {
            return Err(McpError::NotConnected);
        }
        Ok(Vec::new())
    }

    /// Calls a tool: one text block naming it; an error while not connected.
    pub fn call_tool(&self, name: &str, arguments: serde_json::Value) -> (r: Result<Vec<ContentBlock>, McpError>)
        ensures
            self.connected ==> (r matches Ok(v) && v@.len() == 1 && v@[0].kind@ == "text"@
                && v@[0].text == Some(v@[0].text.unwrap()) && v@[0].text.unwrap()@ == "Tool "@ + name@ + " called"@
                && v@[0].data is None && v@[0].mime_type is None),
            !self.connected ==> r == Err::<Vec<ContentBlock>, McpError>(McpError::NotConnected),
    {
        if !self.connected {
            return Err(McpError::NotConnected);
        }
        let head = concat_str("Tool ", name);
        let t = concat_str(head.as_str(), " called");
        let mut v: Vec<ContentBlock> = Vec::new();
        v.push(ContentBlock::text(t.as_str()));
        Ok(v)
    }
}

} // verus!
