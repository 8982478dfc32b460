use enchant::config::{BashConfig, Config, ConfigState, Permissions};
use enchant::permission::{Permission, PermissionMode};
use enchant::session::{CallAction, ChatMessage, Session, Step, ToolCall};
use enchant::tool_error::ToolError;
use enchant::tools::{BashInput, ToolInput, Toolset};
use std::collections::HashMap;

fn config(rules: &[&str]) -> ConfigState {
    ConfigState {
        base: Config {
            default_model: None,
            permissions: Permissions {
                bash: BashConfig {
                    allow: rules.iter().map(|r| r.to_string()).collect(),
                },
            },
        },
        api_keys: HashMap::new(),
    }
}

fn session(rules: &[&str], mode: PermissionMode) -> Session {
    Session::new(
        &config(rules),
        "model-x",
        "/work".to_string(),
        "system".to_string(),
        None,
        Toolset::builtin(),
        mode,
    )
}

fn bash_call(id: &str, command: &str) -> (ToolCall, Option<ToolInput>) {
    (
        ToolCall {
            call_id: id.to_string(),
            fn_name: "Bash".to_string(),
            fn_arguments: format!("{{\"command\":{:?}}}", command),
        },
        Some(ToolInput::Bash(BashInput {
            command: command.to_string(),
        })),
    )
}

fn record(s: &mut Session, calls: Vec<(ToolCall, Option<ToolInput>)>) -> bool {
    let (calls, inputs): (Vec<_>, Vec<_>) = calls.into_iter().unzip();
    s.record_reply("thinking".to_string(), calls, inputs, Some(42))
}

/// Runs a batch the way a driver does: only `Run` actions reach the tool.
fn drive_batch(s: &mut Session, actions: &[CallAction], runs: &mut u32) {
    let outcomes = actions
        .iter()
        .map(|a| match a {
            CallAction::Run => {
                *runs += 1;
                Some(Ok::<String, ToolError>("ran".to_string()))
            }
            _ => None,
        })
        .collect();
    s.complete_batch(outcomes);
}

fn last_content(s: &Session) -> String {
    match s.messages.last().unwrap() {
        ChatMessage::ToolResponse { content, .. } => content.clone(),
        _ => panic!("last message is not a tool result"),
    }
}

#[test]
fn new_session_starts_with_system_prompt() {
    let s = session(&[], PermissionMode::Manual);
    assert_eq!(s.model, "model-x");
    assert_eq!(s.messages.len(), 1);
    assert!(matches!(&s.messages[0], ChatMessage::System(p) if p == "system"));
    assert!(matches!(s.next_step(), Step::QueryModel));
}

#[test]
fn configured_model_and_notes() {
    let mut cfg = config(&[]);
    cfg.base.default_model = Some("m2".to_string());
    let s = Session::new(
        &cfg,
        "model-x",
        "/w".to_string(),
        "sys".to_string(),
        Some("notes".to_string()),
        Toolset::builtin(),
        PermissionMode::Manual,
    );
    assert_eq!(s.model, "m2");
    assert_eq!(s.messages.len(), 2);
}

#[test]
fn reply_without_calls_is_done() {
    let mut s = session(&[], PermissionMode::Manual);
    s.message("hello".to_string());
    assert!(record(&mut s, vec![]));
    assert_eq!(s.total_tokens, Some(42));
    assert_eq!(s.messages.len(), 3);
    assert!(matches!(s.next_step(), Step::QueryModel));
}

#[test]
fn safe_command_runs_without_prompt() {
    let mut s = session(&[], PermissionMode::Manual);
    assert!(!record(&mut s, vec![bash_call("c1", "ls -la")]));
    assert_eq!(
        s.pending_calls()[0].permission_requirement,
        Permission::Implicit
    );
    assert!(!s.has_pending_permissions());
    let mut runs = 0;
    match s.next_step() {
        Step::Execute(actions) => {
            assert_eq!(actions, vec![CallAction::Run]);
            drive_batch(&mut s, &actions, &mut runs);
        }
        _ => panic!("expected execution"),
    }
    assert_eq!(runs, 1);
    assert_eq!(last_content(&s), "ran");
    assert!(matches!(s.next_step(), Step::QueryModel));
}

#[test]
fn allowlisted_command_prompts_only_in_manual_mode() {
    let mut auto = session(&["cargo build"], PermissionMode::Automatic);
    record(&mut auto, vec![bash_call("c1", "cargo build")]);
    assert!(matches!(auto.next_step(), Step::Execute(a) if a == vec![CallAction::Run]));

    let mut manual = session(&["cargo build"], PermissionMode::Manual);
    record(&mut manual, vec![bash_call("c1", "cargo build")]);
    match manual.next_step() {
        Step::AwaitApproval(waiting) => assert_eq!(waiting, vec![0]),
        _ => panic!("expected a prompt"),
    }
    manual.approve_permission("c1");
    assert!(matches!(manual.next_step(), Step::Execute(a) if a == vec![CallAction::Run]));
}

#[test]
fn unlisted_unsafe_command_prompts_except_in_yolo() {
    for mode in [PermissionMode::Manual, PermissionMode::Automatic] {
        let mut s = session(&[], mode);
        record(&mut s, vec![bash_call("c1", "rm -rf /")]);
        assert_eq!(
            s.pending_calls()[0].permission_requirement,
            Permission::RequireApproval
        );
        assert!(matches!(s.next_step(), Step::AwaitApproval(w) if w == vec![0]));
    }
    let mut yolo = session(&[], PermissionMode::Yolo);
    record(&mut yolo, vec![bash_call("c1", "rm -rf /")]);
    assert!(matches!(yolo.next_step(), Step::Execute(a) if a == vec![CallAction::Run]));
}

#[test]
fn denied_call_is_never_run() {
    let mut s = session(&[], PermissionMode::Manual);
    record(
        &mut s,
        vec![bash_call("c1", "rm -rf /"), bash_call("c2", "ls")],
    );
    let requests = match s.next_step() {
        Step::AwaitApproval(waiting) => {
            let previews = waiting.iter().map(|_| None).collect();
            s.permission_requests(&waiting, previews)
        }
        _ => panic!("expected a prompt"),
    };
    assert_eq!(requests.len(), 1);
    assert_eq!(requests[0].call_id, "c1");
    assert_eq!(requests[0].description, "Bash(rm -rf /)");
    s.deny_permission("c1");
    let mut runs = 0;
    match s.next_step() {
        Step::Execute(actions) => {
            assert_eq!(actions, vec![CallAction::Denied, CallAction::Run]);
            drive_batch(&mut s, &actions, &mut runs);
        }
        _ => panic!("expected execution"),
    }
    assert_eq!(runs, 1);
    let n = s.messages.len();
    match &s.messages[n - 2] {
        ChatMessage::ToolResponse { call_id, content } => {
            assert_eq!(call_id, "c1");
            assert_eq!(content, "Error: Permission denied by user");
        }
        _ => panic!("expected a tool result"),
    }
    assert_eq!(last_content(&s), "ran");
    assert!(s.approved_calls.is_empty() && s.denied_calls.is_empty());
}

#[test]
fn approving_twice_is_approving_once() {
    let mut s = session(&[], PermissionMode::Manual);
    record(&mut s, vec![bash_call("c1", "rm -rf /")]);
    s.approve_permission("c1");
    s.approve_permission("c1");
    assert_eq!(s.approved_calls, vec!["c1".to_string()]);
    assert!(s.denied_calls.is_empty());
    s.deny_permission("c1");
    assert!(s.approved_calls.is_empty());
    assert_eq!(s.denied_calls, vec!["c1".to_string()]);
    s.approve_permission("c1");
    assert_eq!(s.approved_calls, vec!["c1".to_string()]);
    assert!(s.denied_calls.is_empty());
}

#[test]
fn unknown_tool_needs_no_permission() {
    let mut s = session(&[], PermissionMode::Manual);
    let call = ToolCall {
        call_id: "c9".to_string(),
        fn_name: "Nope".to_string(),
        fn_arguments: "{}".to_string(),
    };
    record(&mut s, vec![(call, None)]);
    assert_eq!(
        s.pending_calls()[0].permission_requirement,
        Permission::Implicit
    );
    s.complete_batch(vec![Some(Err(ToolError::ToolNotFound))]);
    assert_eq!(last_content(&s), "Error: Tool not found");
}

#[test]
fn malformed_shell_command_is_asked_about() {
    let mut s = session(&[], PermissionMode::Automatic);
    record(&mut s, vec![bash_call("c1", "ls > x")]);
    assert_eq!(
        s.pending_calls()[0].permission_requirement,
        Permission::RequireApproval
    );
}

#[test]
fn edits_are_automatic_outside_manual_mode() {
    let mut s = session(&[], PermissionMode::Manual);
    let call = ToolCall {
        call_id: "e1".to_string(),
        fn_name: "Edit".to_string(),
        fn_arguments: "{}".to_string(),
    };
    record(&mut s, vec![(call, None)]);
    assert_eq!(
        s.pending_calls()[0].permission_requirement,
        Permission::AllowAutomatic
    );
    assert!(s.has_pending_permissions());
    assert_eq!(s.calls_awaiting_approval(), vec![0]);
}

#[test]
fn tool_results_keep_request_order() {
    let mut s = session(&[], PermissionMode::Yolo);
    record(
        &mut s,
        vec![bash_call("a", "ls"), bash_call("b", "pwd"), bash_call("c", "wc")],
    );
    s.complete_batch(vec![
        Some(Ok("1".to_string())),
        Some(Err(ToolError::Error {
            message: "boom".to_string(),
        })),
        Some(Ok("3".to_string())),
    ]);
    let n = s.messages.len();
    let ids: Vec<(String, String)> = s.messages[n - 3..]
        .iter()
        .map(|m| match m {
            ChatMessage::ToolResponse { call_id, content } => (call_id.clone(), content.clone()),
            _ => panic!("expected tool results"),
        })
        .collect();
    assert_eq!(
        ids,
        vec![
            ("a".to_string(), "1".to_string()),
            ("b".to_string(), "Error: boom".to_string()),
            ("c".to_string(), "3".to_string()),
        ]
    );
}
