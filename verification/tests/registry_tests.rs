use mcp_core::CallError;
use mcp_core::ConnectionStatus;
use mcp_core::MCPServerConfig;
use mcp_core::MCPTool;
use mcp_core::McpRegistry;
use mcp_core::PollOutcome;
use mcp_core::liveness;
use mcp_core::spawn_error_message;

fn config(id: &str, command: &str) -> MCPServerConfig {
    MCPServerConfig {
        id: id.to_string(),
        name: id.to_string(),
        description: None,
        command: command.to_string(),
        args: vec!["--stdio".to_string()],
        env: None,
    }
}

fn tool(name: &str) -> MCPTool {
    MCPTool {
        name: name.to_string(),
        description: Some("a tool".to_string()),
        input_schema: serde_json::Value::Null,
    }
}

#[test]
fn unknown_identifier_is_not_found_and_not_healthy() {
    let reg = McpRegistry::new();
    let id = "never-connected".to_string();
    assert_eq!(reg.check_call(&id), Err(CallError::NotFound));
    assert!(!reg.health_precheck(&id));
    assert!(reg.record(&id).is_none());
    assert!(reg.list().is_empty());
}

#[test]
fn begin_connect_publishes_connecting_without_tools() {
    let mut reg = McpRegistry::new();
    let id = "fs".to_string();
    let had = reg.begin_connect(id.clone(), config("fs", "server-bin"));
    assert!(!had);
    let rec = reg.record(&id).unwrap();
    assert_eq!(rec.status, ConnectionStatus::Connecting);
    assert!(rec.tools.is_empty());
    assert!(rec.error.is_none());
    assert!(!reg.health_precheck(&id));
    assert_eq!(reg.check_call(&id), Err(CallError::InvalidState));
}

#[test]
fn successful_connect_stores_tools_and_registers_handle() {
    let mut reg = McpRegistry::new();
    let id = "fs".to_string();
    reg.begin_connect(id.clone(), config("fs", "server-bin"));
    let found = reg.finish_connect_ok(&id, vec![tool("read_file"), tool("list_directory")]);
    assert!(found);
    let rec = reg.record(&id).unwrap();
    assert_eq!(rec.status, ConnectionStatus::Connected);
    assert_eq!(rec.status.text(), "connected");
    assert_eq!(rec.tools.len(), 2);
    assert_eq!(rec.tools[0].name, "read_file");
    assert!(rec.error.is_none());
    assert!(reg.health_precheck(&id));
    assert_eq!(reg.check_call(&id), Ok(()));
}

#[test]
fn connect_with_no_reported_tools_stays_empty() {
    let mut reg = McpRegistry::new();
    let id = "bare".to_string();
    reg.begin_connect(id.clone(), config("bare", "server-bin"));
    reg.finish_connect_ok(&id, vec![]);
    let rec = reg.record(&id).unwrap();
    assert_eq!(rec.status, ConnectionStatus::Connected);
    assert!(rec.tools.is_empty());
}

#[test]
fn failed_connect_stores_the_error_and_no_handle() {
    let mut reg = McpRegistry::new();
    let id = "gh".to_string();
    reg.begin_connect(id.clone(), config("gh", "missing-bin"));
    let msg = spawn_error_message("missing-bin", "No such file or directory");
    assert_eq!(
        msg,
        "Failed to spawn MCP server 'missing-bin': No such file or directory"
    );
    let found = reg.finish_connect_err(&id, msg.clone());
    assert!(found);
    let rec = reg.record(&id).unwrap();
    assert_eq!(rec.status, ConnectionStatus::Failed);
    assert_eq!(rec.status.text(), "error");
    assert_eq!(rec.error.as_deref(), Some(msg.as_str()));
    assert!(rec.tools.is_empty());
    assert!(!reg.health_precheck(&id));
    assert_eq!(reg.check_call(&id), Err(CallError::InvalidState));
}

#[test]
fn disconnect_always_ends_disconnected_with_no_tools() {
    let mut reg = McpRegistry::new();
    let id = "fs".to_string();
    reg.begin_connect(id.clone(), config("fs", "server-bin"));
    reg.finish_connect_ok(&id, vec![tool("read_file")]);
    let had_live = reg.disconnect(&id);
    assert!(had_live);
    let rec = reg.record(&id).unwrap();
    assert_eq!(rec.status, ConnectionStatus::Disconnected);
    assert!(rec.tools.is_empty());
    assert!(!reg.health_precheck(&id));
    assert_eq!(reg.check_call(&id), Err(CallError::InvalidState));
    // disconnecting again, or an unknown id, is not an error
    assert!(!reg.disconnect(&id));
    assert!(!reg.disconnect(&"nope".to_string()));
}

#[test]
fn call_is_refused_unless_status_is_exactly_connected() {
    let mut reg = McpRegistry::new();
    let id = "fs".to_string();
    reg.begin_connect(id.clone(), config("fs", "server-bin"));
    assert_eq!(reg.check_call(&id), Err(CallError::InvalidState));
    reg.finish_connect_ok(&id, vec![]);
    assert_eq!(reg.check_call(&id), Ok(()));
    reg.disconnect(&id);
    assert_eq!(reg.check_call(&id), Err(CallError::InvalidState));
    assert_eq!(reg.check_call(&"other".to_string()), Err(CallError::NotFound));
}

#[test]
fn two_connections_are_tracked_independently() {
    let mut reg = McpRegistry::new();
    let a = "a".to_string();
    let b = "b".to_string();
    reg.begin_connect(a.clone(), config("a", "bin-a"));
    reg.finish_connect_ok(&a, vec![tool("t1")]);
    reg.begin_connect(b.clone(), config("b", "bin-b"));
    reg.finish_connect_err(&b, "boom".to_string());
    assert_eq!(reg.check_call(&a), Ok(()));
    assert_eq!(reg.check_call(&b), Err(CallError::InvalidState));
    assert_eq!(reg.list().len(), 2);
    reg.disconnect(&a);
    let rec_b = reg.record(&b).unwrap();
    assert_eq!(rec_b.status, ConnectionStatus::Failed);
}

#[test]
fn reconnecting_an_identifier_replaces_its_record() {
    let mut reg = McpRegistry::new();
    let id = "fs".to_string();
    reg.begin_connect(id.clone(), config("fs", "old-bin"));
    reg.finish_connect_ok(&id, vec![tool("t")]);
    let had = reg.begin_connect(id.clone(), config("fs", "new-bin"));
    assert!(had, "a live handle was registered and must be reported");
    let rec = reg.record(&id).unwrap();
    assert_eq!(rec.status, ConnectionStatus::Connecting);
    assert_eq!(rec.config.command, "new-bin");
    assert!(rec.tools.is_empty());
    assert_eq!(reg.list().len(), 1);
}

#[test]
fn liveness_collapses_exit_and_unknown_to_false() {
    assert!(liveness(PollOutcome::Running));
    assert!(!liveness(PollOutcome::Exited));
    assert!(!liveness(PollOutcome::Unknown));
}
