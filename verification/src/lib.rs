//! Process-backed protocol client and connection registry for tool-provider
//! subprocesses that speak newline-delimited JSON-RPC over standard pipes.
//!
//! The crate holds the verified core: wire-protocol framing and response
//! interpretation, the per-connection request-id discipline, the connection
//! registry's lifecycle state machine, and credential-file parsing. The
//! process spawning and pipe I/O that drive these functions live outside.

mod json;
mod registry;
mod response;
mod credentials;
mod protocol;
mod text;
mod types;

pub use credentials::OAuthCredentials;
pub use credentials::unprefixed_env;
pub use credentials::merge_env;
pub use credentials::non_empty_entries;
pub use credentials::opt_bytes;
pub use credentials::line_value;
pub use credentials::trimmed;
pub use credentials::unquoted;
pub use credentials::parse_oauth_credentials;
pub use credentials::cred_of;
pub use credentials::client_id_key;
pub use credentials::client_secret_key;
pub use json::json_to_bytes;
pub use json::doc_of;
pub use json::member_of;
pub use json::array_of;
pub use json::str_of;
pub use json::null_of;
pub use json::text_of;
pub use protocol::Method;
pub use protocol::initialize_params;
pub use protocol::list_tools_params;
pub use protocol::call_tool_params;
pub use protocol::frame_spec;
pub use protocol::dec_rep;
pub use protocol::escaped;
pub use protocol::method_text;
pub use protocol::PollOutcome;
pub use protocol::liveness;
pub use protocol::lemma_request_ids_strictly_increasing;
pub use response::interpret_response;
pub use response::finish_response;
pub use response::decode_tools;
pub use response::tool_of;
pub use response::tools_of;
pub use response::desc_of;
pub use response::desc_ok;
pub use response::list_tools_result;
pub use response::is_ws_line;
pub use protocol::ProtocolSession;
pub use registry::McpRegistry;
pub use registry::same_but;
pub use registry::lemma_registry_coherent;
pub use text::ws_only;
pub use text::is_ws;
pub use types::CallError;
pub use types::ConnectionStatus;
pub use types::MCPServerConfig;
pub use types::MCPServerState;
pub use types::MCPTool;
pub use types::ProtocolError;
pub use types::spawn_error_message;
pub use types::ConfigView;
pub use types::MCPToolView;
pub use types::RecordView;
