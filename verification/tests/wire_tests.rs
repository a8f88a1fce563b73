use mcp_core::Method;
use mcp_core::ProtocolError;
use mcp_core::ProtocolSession;
use mcp_core::call_tool_params;
use mcp_core::initialize_params;
use mcp_core::interpret_response;
use mcp_core::list_tools_params;
use mcp_core::list_tools_result;

#[test]
fn request_ids_count_up_from_one_across_methods() {
    let mut s = ProtocolSession::new();
    let r1 = s.build_request(Method::Initialize, initialize_params().as_slice());
    let r2 = s.build_request(Method::ToolsList, list_tools_params().as_slice());
    let r3 = s.build_request(Method::ToolsCall, b"{\"name\":\"t\",\"arguments\":null}");
    let t1 = String::from_utf8(r1).unwrap();
    let t2 = String::from_utf8(r2).unwrap();
    let t3 = String::from_utf8(r3).unwrap();
    assert!(t1.starts_with("{\"jsonrpc\":\"2.0\",\"id\":1,\"method\":\"initialize\""));
    assert!(t2.starts_with("{\"jsonrpc\":\"2.0\",\"id\":2,\"method\":\"tools/list\""));
    assert!(t3.starts_with("{\"jsonrpc\":\"2.0\",\"id\":3,\"method\":\"tools/call\""));
}

#[test]
fn request_line_is_exact() {
    let mut s = ProtocolSession::new();
    let r = s.build_request(Method::ToolsList, b"{}");
    assert_eq!(
        String::from_utf8(r).unwrap(),
        "{\"jsonrpc\":\"2.0\",\"id\":1,\"method\":\"tools/list\",\"params\":{}}"
    );
}

#[test]
fn request_line_is_one_json_document() {
    let mut s = ProtocolSession::new();
    let r = s.build_request(Method::Initialize, initialize_params().as_slice());
    let v: serde_json::Value = serde_json::from_slice(&r).unwrap();
    assert_eq!(v.get("jsonrpc").and_then(|j| j.as_str()), Some("2.0"));
    assert_eq!(v.get("id").and_then(|j| j.as_u64()), Some(1));
    assert_eq!(v.get("method").and_then(|j| j.as_str()), Some("initialize"));
    assert!(v.get("params").is_some());
}

#[test]
fn initialize_params_declare_version_and_client() {
    let p = String::from_utf8(initialize_params()).unwrap();
    assert_eq!(
        p,
        "{\"protocolVersion\":\"0.1.0\",\"capabilities\":{},\
         \"clientInfo\":{\"name\":\"Axen\",\"version\":\"0.1.0\"}}"
    );
    let v: serde_json::Value = serde_json::from_str(&p).unwrap();
    assert_eq!(v.get("protocolVersion").and_then(|j| j.as_str()), Some("0.1.0"));
}

#[test]
fn tool_name_is_escaped_in_call_params() {
    let p = call_tool_params("he\"llo\\", b"{\"x\":1}");
    assert_eq!(
        String::from_utf8(p).unwrap(),
        "{\"name\":\"he\\\"llo\\\\\",\"arguments\":{\"x\":1}}"
    );
}

#[test]
fn control_bytes_in_tool_name_take_escape_forms() {
    let p = call_tool_params("a\nb\u{1}", b"null");
    assert_eq!(
        String::from_utf8(p).unwrap(),
        "{\"name\":\"a\\nb\\u0001\",\"arguments\":null}"
    );
}

#[test]
fn empty_response_line_fails_with_empty_message() {
    let r = interpret_response(b"");
    match r {
        Err(e) => {
            assert!(matches!(e, ProtocolError::EmptyResponse));
            assert_eq!(e.message(), "Empty response from MCP server");
        }
        Ok(_) => panic!("empty line must not produce a result"),
    }
}

#[test]
fn whitespace_only_response_line_is_empty_response() {
    assert!(matches!(
        interpret_response(b" \t \r\n"),
        Err(ProtocolError::EmptyResponse)
    ));
}

#[test]
fn non_json_response_is_malformed() {
    assert!(matches!(
        interpret_response(b"not json at all"),
        Err(ProtocolError::Malformed)
    ));
}

#[test]
fn error_member_fails_the_call_with_its_text() {
    let r = interpret_response(b"{\"jsonrpc\":\"2.0\",\"id\":1,\"error\":{\"code\":-1}}");
    match r {
        Err(ProtocolError::ErrorField(text)) => {
            assert_eq!(text, "{\"code\":-1}");
        }
        other => panic!("expected the error member to fail the call, got {:?}", other),
    }
}

#[test]
fn missing_result_member_is_an_error() {
    assert!(matches!(
        interpret_response(b"{\"jsonrpc\":\"2.0\",\"id\":1}"),
        Err(ProtocolError::NoResult)
    ));
}

#[test]
fn result_member_is_returned_unchanged() {
    let r = interpret_response(b"{\"id\":1,\"result\":{\"answer\":42}}").unwrap();
    assert_eq!(r.get("answer").and_then(|v| v.as_u64()), Some(42));
}

#[test]
fn empty_tools_array_lists_no_tools() {
    let v = interpret_response(b"{\"result\": {\"tools\": []}}").unwrap();
    let tools = list_tools_result(&v).unwrap();
    assert!(tools.is_empty());
}

#[test]
fn tools_decode_with_name_description_and_schema() {
    let line = b"{\"result\":{\"tools\":[\
        {\"name\":\"read_file\",\"description\":\"Read file contents\",\
         \"inputSchema\":{\"type\":\"object\"}},\
        {\"name\":\"bare\",\"inputSchema\":null}]}}";
    let v = interpret_response(line).unwrap();
    let tools = list_tools_result(&v).unwrap();
    assert_eq!(tools.len(), 2);
    assert_eq!(tools[0].name, "read_file");
    assert_eq!(tools[0].description.as_deref(), Some("Read file contents"));
    assert_eq!(
        tools[0].input_schema.get("type").and_then(|t| t.as_str()),
        Some("object")
    );
    assert_eq!(tools[1].name, "bare");
    assert_eq!(tools[1].description, None);
}

#[test]
fn null_description_decodes_as_absent() {
    let v = interpret_response(
        b"{\"result\":{\"tools\":[{\"name\":\"t\",\"description\":null,\"inputSchema\":{}}]}}",
    )
    .unwrap();
    let tools = list_tools_result(&v).unwrap();
    assert_eq!(tools.len(), 1);
    assert_eq!(tools[0].description, None);
}

#[test]
fn non_string_description_fails_the_decode() {
    let v = interpret_response(
        b"{\"result\":{\"tools\":[{\"name\":\"t\",\"description\":7,\"inputSchema\":{}}]}}",
    )
    .unwrap();
    assert!(matches!(
        list_tools_result(&v),
        Err(ProtocolError::BadToolEntry)
    ));
}

#[test]
fn missing_tools_member_is_an_error() {
    let v = interpret_response(b"{\"result\":{}}").unwrap();
    assert!(matches!(
        list_tools_result(&v),
        Err(ProtocolError::NoToolsField)
    ));
}

#[test]
fn tool_entry_without_name_fails_the_decode() {
    let v = interpret_response(b"{\"result\":{\"tools\":[{\"inputSchema\":{}}]}}").unwrap();
    assert!(matches!(
        list_tools_result(&v),
        Err(ProtocolError::BadToolEntry)
    ));
}

#[test]
fn tools_member_that_is_not_an_array_fails_the_decode() {
    let v = interpret_response(b"{\"result\":{\"tools\":7}}").unwrap();
    assert!(matches!(
        list_tools_result(&v),
        Err(ProtocolError::BadToolEntry)
    ));
}
