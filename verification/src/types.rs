use vstd::prelude::*;
use vstd::string::StringExecFns;

verus! {

/// A connection's declared configuration, supplied by the caller at connect
/// time and treated as immutable input.
pub struct MCPServerConfig {
    pub id: String,
    pub name: String,
    pub description: Option<String>,
    pub command: String,
    pub args: Vec<String>,
    pub env: Option<Vec<(String, String)>>,
}

/// The mathematical content of a configuration.
#[verifier::ext_equal]
pub ghost struct ConfigView {
    pub id: Seq<char>,
    pub name: Seq<char>,
    pub description: Option<Seq<char>>,
    pub command: Seq<char>,
    pub args: Seq<Seq<char>>,
    pub env: Option<Seq<(Seq<char>, Seq<char>)>>,
}

impl View for MCPServerConfig {
    type V = ConfigView;

    open spec fn view(&self) -> ConfigView {
        ConfigView {
            id: self.id@,
            name: self.name@,
            description: match self.description {
                Some(d) => Some(d@),
                None => None,
            },
            command: self.command@,
            args: self.args@.map_values(|a: String| a@),
            env: match self.env {
                Some(e) => Some(e@.map_values(|p: (String, String)| (p.0@, p.1@))),
                None => None,
            },
        }
    }
}

/// One callable operation a connection exposes: a unique name, an optional
/// description, and an opaque argument-schema document passed through
/// unvalidated.
pub struct MCPTool {
    pub name: String,
    pub description: Option<String>,
    pub input_schema: serde_json::Value,
}

/// The mathematical content of a tool descriptor; the schema document stands
/// for itself.
#[verifier::ext_equal]
pub ghost struct MCPToolView {
    pub name: Seq<char>,
    pub description: Option<Seq<char>>,
    pub input_schema: serde_json::Value,
}

impl View for MCPTool {
    type V = MCPToolView;

    open spec fn view(&self) -> MCPToolView {
        MCPToolView {
            name: self.name@,
            description: match self.description {
                Some(d) => Some(d@),
                None => None,
            },
            input_schema: self.input_schema,
        }
    }
}

/// Exactly one status holds for a connection identifier at any time.
#[derive(Clone, Copy, Debug, PartialEq, Eq, Structural)]
pub enum ConnectionStatus {
    Connecting,
    Connected,
    Disconnected,
    Failed,
}

/// The registry's stored view of one connection: configuration, lifecycle
/// status, discovered tools, and the last error message.
pub struct MCPServerState {
    pub config: MCPServerConfig,
    pub status: ConnectionStatus,
    pub tools: Vec<MCPTool>,
    pub error: Option<String>,
}

/// The mathematical content of a stored record.
#[verifier::ext_equal]
pub ghost struct RecordView {
    pub config: ConfigView,
    pub status: ConnectionStatus,
    pub tools: Seq<MCPToolView>,
    pub error: Option<Seq<char>>,
}

impl View for MCPServerState {
    type V = RecordView;

    open spec fn view(&self) -> RecordView {
        RecordView {
            config: self.config@,
            status: self.status,
            tools: self.tools@.map_values(|t: MCPTool| t@),
            error: match self.error {
                Some(e) => Some(e@),
                None => None,
            },
        }
    }
}

impl ConnectionStatus {
    /// The status under its wire name.
    pub fn text(&self) -> (r: String)
        ensures
            *self == ConnectionStatus::Connecting ==> r@ == "connecting"@,
            *self == ConnectionStatus::Connected ==> r@ == "connected"@,
            *self == ConnectionStatus::Disconnected ==> r@ == "disconnected"@,
            *self == ConnectionStatus::Failed ==> r@ == "error"@,
    {
        match self {
            ConnectionStatus::Connecting => String::from_str("connecting"),
            ConnectionStatus::Connected => String::from_str("connected"),
            ConnectionStatus::Disconnected => String::from_str("disconnected"),
            ConnectionStatus::Failed => String::from_str("error"),
        }
    }
}

/// An equal copy of each string, in order.
fn clone_strings(v: &Vec<String>) -> (r: Vec<String>)
    ensures
        r@ == v@,
{
    let mut out: Vec<String> = Vec::new();
    let mut i: usize = 0;
    assert(out@ =~= v@.subrange(0, 0));
    while i < v.len()
        invariant
            i <= v@.len(),
            out@ == v@.subrange(0, i as int),
        decreases v@.len() - i,
    {
        out.push(v[i].clone());
        assert(v@.subrange(0, i + 1) =~= v@.subrange(0, i as int).push(v@[i as int]));
        i = i + 1;
    }
    assert(v@.subrange(0, v@.len() as int) =~= v@);
    out
}

/// An equal copy of each name/value pair, in order.
fn clone_pairs(v: &Vec<(String, String)>) -> (r: Vec<(String, String)>)
    ensures
        r@ == v@,
{
    let mut out: Vec<(String, String)> = Vec::new();
    let mut i: usize = 0;
    assert(out@ =~= v@.subrange(0, 0));
    while i < v.len()
        invariant
            i <= v@.len(),
            out@ == v@.subrange(0, i as int),
        decreases v@.len() - i,
    {
        let name = v[i].0.clone();
        let value = v[i].1.clone();
        out.push((name, value));
        assert(v@.subrange(0, i + 1) =~= v@.subrange(0, i as int).push(v@[i as int]));
        i = i + 1;
    }
    assert(v@.subrange(0, v@.len() as int) =~= v@);
    out
}

impl MCPServerConfig {
    /// A copy with the same content.
    pub fn duplicate(&self) -> (r: Self)
        ensures
            r@ == self@,
    {
        let r = MCPServerConfig {
            id: self.id.clone(),
            name: self.name.clone(),
            description: match &self.description {
                Some(d) => Some(d.clone()),
                None => None,
            },
            command: self.command.clone(),
            args: clone_strings(&self.args),
            env: match &self.env {
                Some(e) => Some(clone_pairs(e)),
                None => None,
            },
        };
        proof {
            assert(r@ =~= self@);
        }
        r
    }
}

impl MCPTool {
    /// A copy with the same content.
    pub fn duplicate(&self) -> (r: Self)
        ensures
            r@ == self@,
    {
        let r = MCPTool {
            name: self.name.clone(),
            description: match &self.description {
                Some(d) => Some(d.clone()),
                None => None,
            },
            input_schema: crate::json::json_clone(&self.input_schema),
        };
        proof {
            assert(r@ =~= self@);
        }
        r
    }
}

/// An equal copy of each descriptor, in order.
fn clone_tools(v: &Vec<MCPTool>) -> (r: Vec<MCPTool>)
    ensures
        r@.len() == v@.len(),
        forall|i: int| 0 <= i < v@.len() ==> (#[trigger] r@[i]@) == v@[i]@,
{
    let mut out: Vec<MCPTool> = Vec::new();
    let mut i: usize = 0;
    while i < v.len()
        invariant
            i <= v@.len(),
            out@.len() == i,
            forall|j: int| 0 <= j < i ==> (#[trigger] out@[j]@) == v@[j]@,
        decreases v@.len() - i,
    {
        out.push(v[i].duplicate());
        i = i + 1;
    }
    out
}

impl MCPServerState {
    /// A copy with the same content.
    pub fn duplicate(&self) -> (r: Self)
        ensures
            r@ == self@,
    {
        let r = MCPServerState {
            config: self.config.duplicate(),
            status: self.status,
            tools: clone_tools(&self.tools),
            error: match &self.error {
                Some(e) => Some(e.clone()),
                None => None,
            },
        };
        proof {
            assert(r.tools@.map_values(|t: MCPTool| t@) =~= self.tools@.map_values(
                |t: MCPTool| t@,
            ));
            assert(r@ =~= self@);
        }
        r
    }
}

/// Why a response could not be interpreted, or a call not be made.
#[derive(Debug)]
pub enum ProtocolError {
    /// The response line was empty or whitespace-only.
    EmptyResponse,
    /// The response line was not a well-formed JSON document.
    Malformed,
    /// The response carried a top-level `error` member, whose text this holds.
    ErrorField(String),
    /// The response carried no `result` member.
    NoResult,
    /// The discovery result carried no `tools` member.
    NoToolsField,
    /// A discovered tool entry was not an object with a string `name` and an
    /// `inputSchema` member.
    BadToolEntry,
}

impl ProtocolError {
    /// A descriptive message, as the caller-facing layer reports it.
    pub fn message(&self) -> (r: String)
        ensures
            *self is EmptyResponse ==> r@ == "Empty response from MCP server"@,
            *self is Malformed ==> r@ == "Failed to parse response"@,
            (*self) matches ProtocolError::ErrorField(e) ==> r@ == "MCP server error: "@ + e@,
            *self is NoResult ==> r@ == "No result field in response"@,
            *self is NoToolsField ==> r@ == "No 'tools' field in response"@,
            *self is BadToolEntry ==> r@ == "Failed to parse tools"@,
    {
        match self {
            ProtocolError::EmptyResponse => String::from_str("Empty response from MCP server"),
            ProtocolError::Malformed => String::from_str("Failed to parse response"),
            ProtocolError::ErrorField(e) => {
                let mut m = String::from_str("MCP server error: ");
                m.append(e.as_str());
                m
            },
            ProtocolError::NoResult => String::from_str("No result field in response"),
            ProtocolError::NoToolsField => String::from_str("No 'tools' field in response"),
            ProtocolError::BadToolEntry => String::from_str("Failed to parse tools"),
        }
    }
}

/// Why the registry refused to hand a call to a connection.
#[derive(Clone, Copy, Debug, PartialEq, Eq, Structural)]
pub enum CallError {
    /// The identifier was never connected (or was removed).
    NotFound,
    /// The identifier exists but its status is not `connected`.
    InvalidState,
}

/// A spawn failure message; it always names the attempted command.
pub fn spawn_error_message(command: &str, detail: &str) -> (r: String)
    ensures
        r@ == "Failed to spawn MCP server '"@ + command@ + "': "@ + detail@,
{
    let mut m = String::from_str("Failed to spawn MCP server '");
    m.append(command);
    m.append("': ");
    m.append(detail);
    m
}

} // verus!
