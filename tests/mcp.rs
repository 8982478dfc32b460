use enchant::mcp::{
    call_result_text, check_server_config, first_repeated_server, parse_permission, tool_fq_name, CallContent,
    CallResult, ContentBlock, Disposition, ListedTool, McpConnection, McpRegistry,
    McpServerConfig, McpTool, McpToolDef, ToolListing,
};
use enchant::permission::Permission;
use enchant::tool_error::ToolError;
use enchant::tools::{ToolHandle, Toolset};
use std::collections::HashMap;

fn server(name: &str, command: &str, permission: Option<&str>) -> McpServerConfig {
    McpServerConfig {
        name: name.to_string(),
        command: command.to_string(),
        args: vec![],
        env: HashMap::new(),
        permission: permission.map(|p| p.to_string()),
    }
}

fn def(server: &str, name: &str) -> McpToolDef {
    McpToolDef {
        server: server.to_string(),
        name: name.to_string(),
        description: None,
        input_schema: "{}".to_string(),
    }
}

fn listed(name: Option<&str>, raw: &str) -> ListedTool {
    ListedTool {
        name: name.map(|n| n.to_string()),
        description: None,
        input_schema: None,
        raw: raw.to_string(),
    }
}

fn message(e: ToolError) -> String {
    match e {
        ToolError::Error { message } => message,
        other => panic!("unexpected error {:?}", other),
    }
}

#[test]
fn fq_name_joins_server_and_tool() {
    assert_eq!(tool_fq_name("fs", "read"), "fs.read");
}

#[test]
fn permission_policy_names() {
    assert_eq!(parse_permission(Some("implicit")), Permission::Implicit);
    assert_eq!(parse_permission(Some("allow_automatic")), Permission::AllowAutomatic);
    assert_eq!(parse_permission(Some("require_approval")), Permission::RequireApproval);
    assert_eq!(parse_permission(Some("never")), Permission::Never);
    assert_eq!(parse_permission(Some("bogus")), Permission::RequireApproval);
    assert_eq!(parse_permission(None), Permission::RequireApproval);
}

#[test]
fn server_config_needs_name_and_command() {
    assert!(check_server_config(&server("fs", "fs-server", None)).is_ok());
    assert_eq!(
        message(check_server_config(&server("  ", "x", None)).unwrap_err()),
        "MCP server config missing 'name'"
    );
    assert_eq!(
        message(check_server_config(&server("fs", " \t", None)).unwrap_err()),
        "MCP server 'fs' missing 'command'"
    );
}

#[test]
fn request_ids_strictly_increase() {
    let mut c = McpConnection::new("fs".to_string());
    assert_eq!(c.issue_id(), 1);
    assert_eq!(c.issue_id(), 2);
    assert_eq!(c.issue_id(), 3);
    assert!(c.can_issue());
}

#[test]
fn responses_are_correlated_by_id() {
    let c = McpConnection::new("fs".to_string());
    assert!(matches!(c.response_disposition(2, None, None), Disposition::Skip));
    assert!(matches!(c.response_disposition(2, Some(1), None), Disposition::Skip));
    assert!(matches!(
        c.response_disposition(2, Some(1), Some("x".to_string())),
        Disposition::Skip
    ));
    assert!(matches!(c.response_disposition(2, Some(2), None), Disposition::Accept));
    match c.response_disposition(2, Some(2), Some("{\"code\":-1}".to_string())) {
        Disposition::Fail(e) => assert_eq!(message(e), "MCP error from 'fs': {\"code\":-1}"),
        _ => panic!("expected a failure"),
    }
    assert_eq!(message(c.closed_error()), "MCP server 'fs' closed stdout");
}

#[test]
fn tool_listing_is_normalised() {
    let c = McpConnection::new("fs".to_string());
    let listing = ToolListing {
        tools: Some(vec![
            ListedTool {
                name: Some("read".to_string()),
                description: Some("Reads".to_string()),
                input_schema: Some("{\"type\":\"object\",\"required\":[]}".to_string()),
                raw: String::new(),
            },
            listed(Some("ping"), ""),
        ]),
        raw: String::new(),
    };
    let defs = c.tool_defs(&listing).unwrap();
    assert_eq!(defs.len(), 2);
    assert_eq!(defs[0].server, "fs");
    assert_eq!(defs[0].name, "read");
    assert_eq!(defs[0].description.as_deref(), Some("Reads"));
    assert_eq!(defs[0].input_schema, "{\"type\":\"object\",\"required\":[]}");
    assert_eq!(defs[1].description, None);
    assert_eq!(defs[1].input_schema, "{\"type\":\"object\"}");
}

#[test]
fn tool_listing_errors() {
    let c = McpConnection::new("fs".to_string());
    let shape = ToolListing {
        tools: None,
        raw: "{\"x\":1}".to_string(),
    };
    assert_eq!(
        message(c.tool_defs(&shape).unwrap_err()),
        "MCP 'fs' tools/list returned unexpected shape: {\"x\":1}"
    );
    let nameless = ToolListing {
        tools: Some(vec![listed(Some("a"), "{}"), listed(None, "{\"b\":2}")]),
        raw: String::new(),
    };
    assert_eq!(
        message(c.tool_defs(&nameless).unwrap_err()),
        "MCP 'fs' tool missing name: {\"b\":2}"
    );
}

fn block(kind: Option<&str>, text: Option<&str>) -> ContentBlock {
    ContentBlock {
        kind: kind.map(|k| k.to_string()),
        text: text.map(|t| t.to_string()),
    }
}

#[test]
fn call_text_joins_text_blocks() {
    let r = CallResult {
        content: Some(CallContent {
            blocks: Some(vec![
                block(Some("text"), Some("one")),
                block(Some("image"), Some("skip")),
                block(None, Some("skip")),
                block(Some("text"), Some("two")),
            ]),
            raw: "[...]".to_string(),
        }),
        raw: "{...}".to_string(),
    };
    assert_eq!(call_result_text(&r), "one\ntwo");
}

#[test]
fn call_text_falls_back_to_raw_content() {
    let no_text = CallResult {
        content: Some(CallContent {
            blocks: Some(vec![block(Some("image"), None)]),
            raw: "[{\"type\":\"image\"}]".to_string(),
        }),
        raw: "{}".to_string(),
    };
    assert_eq!(call_result_text(&no_text), "[{\"type\":\"image\"}]");
    let not_array = CallResult {
        content: Some(CallContent {
            blocks: None,
            raw: "\"plain\"".to_string(),
        }),
        raw: "{}".to_string(),
    };
    assert_eq!(call_result_text(&not_array), "\"plain\"");
    let no_content = CallResult {
        content: None,
        raw: "{\"ok\":true}".to_string(),
    };
    assert_eq!(call_result_text(&no_content), "{\"ok\":true}");
}

#[test]
fn duplicate_tools_keep_the_first() {
    let a = server("fs", "x", Some("never"));
    let b = server("fs", "y", Some("implicit"));
    let mut reg = McpRegistry::new();
    assert!(reg.add(McpTool::new(def("fs", "read"), &a)));
    assert!(!reg.add(McpTool::new(def("fs", "read"), &b)));
    assert!(reg.add(McpTool::new(def("fs", "write"), &b)));
    assert_eq!(reg.tools.len(), 2);
    assert_eq!(reg.tools[0].permission, Permission::Never);
}

#[test]
fn names_differing_in_case_are_distinct() {
    let cfg = server("srv", "x", None);
    let c = McpConnection::new("srv".to_string());
    let listing = ToolListing {
        tools: Some(vec![listed(Some("Echo"), ""), listed(Some("echo"), "")]),
        raw: String::new(),
    };
    let mut reg = McpRegistry::new();
    for d in c.tool_defs(&listing).unwrap() {
        assert!(reg.add(McpTool::new(d, &cfg)));
    }
    assert_eq!(reg.tools.len(), 2);
    let set = Toolset::new(reg.tools.into_iter().map(ToolHandle::Mcp).collect());
    let names: Vec<String> = set.list_tools().iter().map(|t| t.name.clone()).collect();
    assert_eq!(names, vec!["srv.Echo".to_string(), "srv.echo".to_string()]);
    assert_ne!(set.lookup("srv.Echo"), set.lookup("srv.echo"));
    assert_eq!(set.lookup("srv.ECHO"), None);
}

#[test]
fn mcp_tool_description_and_permission() {
    let t = McpTool::new(def("fs", "read"), &server("fs", "x", Some("allow_automatic")));
    assert_eq!(t.fq_name(), "fs.read");
    assert_eq!(t.describe_action("{\"p\":1}"), "fs.read({\"p\":1})");
    assert_eq!(t.permission, Permission::AllowAutomatic);
}

#[test]
fn blank_names_include_unicode_spaces() {
    assert!(check_server_config(&server("\u{3000}\u{a0}", "x", None)).is_err());
    assert!(check_server_config(&server("", "x", None)).is_err());
    assert!(check_server_config(&server(" a ", "x", None)).is_ok());
}

#[test]
fn repeated_server_names_are_found() {
    let list = vec![server("a", "x", None), server("b", "x", None), server("a", "y", None)];
    assert_eq!(first_repeated_server(&list), Some(2));
    assert_eq!(first_repeated_server(&list[..2].to_vec()), None);
}

#[test]
fn catalogues_from_two_servers_keep_first_names() {
    let a = server("s", "x", Some("never"));
    let b = server("s2", "x", None);
    let mut reg = McpRegistry::new();
    reg.add_all(vec![McpTool::new(def("s", "t"), &a), McpTool::new(def("s", "t"), &a)]);
    reg.add_all(vec![McpTool::new(def("s", "t"), &b), McpTool::new(def("s2", "t"), &b)]);
    let names: Vec<String> = reg.tools.iter().map(|t| t.fq_name()).collect();
    assert_eq!(names, vec!["s.t".to_string(), "s2.t".to_string()]);
    assert_eq!(reg.tools[0].permission, Permission::Never);
}
