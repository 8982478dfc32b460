use enchant::config::BashConfig;
use enchant::permission::Permission;
use enchant::shell::{AndOr, Command, Expression};
use enchant::shell_parse::parse_bash_expr;
use enchant::tool_error::ToolError;
use enchant::tools::{Bash, BashInput};

fn cmd(program: &str, args: &[&str]) -> Command {
    Command {
        program: program.to_string(),
        args: args.iter().map(|a| a.to_string()).collect(),
    }
}

fn allow(rules: &[&str]) -> BashConfig {
    BashConfig {
        allow: rules.iter().map(|r| r.to_string()).collect(),
    }
}

fn is_bash_error(r: Result<Expression, ToolError>) -> bool {
    matches!(r, Err(ToolError::BashError(_)))
}

#[test]
fn test_parsing_2() {
    parse_bash_expr("ls && pwd || echo 'hi there' | wc -l").unwrap();
}

#[test]
fn parse_and_or_pipeline_structure() {
    let e = parse_bash_expr("a && b || c | d").unwrap();
    assert_eq!(e.first, vec![cmd("a", &[])]);
    assert_eq!(
        e.rest,
        vec![
            (AndOr::And, vec![cmd("b", &[])]),
            (AndOr::Or, vec![cmd("c", &[]), cmd("d", &[])]),
        ]
    );
}

#[test]
fn parse_keeps_quoted_words_and_arguments() {
    let e = parse_bash_expr("ls && pwd || echo 'hi there' | wc -l").unwrap();
    assert_eq!(e.first, vec![cmd("ls", &[])]);
    assert_eq!(e.rest.len(), 2);
    assert_eq!(e.rest[0], (AndOr::And, vec![cmd("pwd", &[])]));
    assert_eq!(
        e.rest[1],
        (AndOr::Or, vec![cmd("echo", &["'hi there'"]), cmd("wc", &["-l"])])
    );
}

#[test]
fn parse_rejects_unsupported_constructs() {
    assert!(is_bash_error(parse_bash_expr("(ls)")));
    assert!(is_bash_error(parse_bash_expr("ls > out.txt")));
    assert!(is_bash_error(parse_bash_expr("sleep 1 &")));
    assert!(is_bash_error(parse_bash_expr("! ls")));
    assert!(is_bash_error(parse_bash_expr("time ls")));
    assert!(is_bash_error(parse_bash_expr("ls; rm -rf /")));
    assert!(is_bash_error(parse_bash_expr("echo $(rm -rf /)")));
    assert!(is_bash_error(parse_bash_expr("echo `rm -rf /`")));
    assert!(is_bash_error(parse_bash_expr("A=1 ls")));
    assert!(is_bash_error(parse_bash_expr("if true; then ls; fi")));
    assert!(is_bash_error(parse_bash_expr("")));
    assert!(is_bash_error(parse_bash_expr("ls &&")));
    assert!(is_bash_error(parse_bash_expr("| ls")));
}

fn refusal(input: &str) -> String {
    match parse_bash_expr(input) {
        Err(ToolError::BashError(m)) => m,
        other => panic!("expected a refusal, got {:?}", other),
    }
}

#[test]
fn refusals_name_the_construct() {
    assert_eq!(refusal("(ls)"), "Subshells are not supported");
    assert_eq!(refusal("ls > out.txt"), "Redirections are not supported");
    assert_eq!(refusal("sleep 1 &"), "Background execution with '&' is not supported");
    assert_eq!(refusal("! ls"), "Negation with '!' is not supported");
    assert_eq!(refusal("time ls"), "Timed pipelines are not supported");
    assert_eq!(
        refusal("ls; rm -rf /"),
        "Command sequences are not supported: only &&, || and | may join commands"
    );
    assert_eq!(
        refusal("echo $(rm -rf /)"),
        "Command substitution and process substitution are not supported"
    );
    assert_eq!(refusal("A=1 ls"), "Variable assignments are not supported");
    assert_eq!(refusal("while true"), "Compound commands are not supported");
    assert_eq!(refusal(""), "Expected a command");
    assert_eq!(refusal("ls &&"), "Expected a command");
    assert_eq!(refusal("| ls"), "An operator must follow a command");
}

#[test]
fn exact_rule_needs_same_arguments() {
    let cfg = allow(&["cargo build"]);
    assert!(cmd("cargo", &["build"]).is_allowed(&cfg));
    assert!(!cmd("cargo", &["build", "--release"]).is_allowed(&cfg));
    assert!(!cmd("cargo", &[]).is_allowed(&cfg));
    assert!(!cmd("cargo", &["test"]).is_allowed(&cfg));
    assert!(!cmd("cargox", &["build"]).is_allowed(&cfg));
}

#[test]
fn wildcard_rule_accepts_extra_arguments() {
    let cfg = allow(&["git log *"]);
    assert!(cmd("git", &["log"]).is_allowed(&cfg));
    assert!(cmd("git", &["log", "--oneline", "-5"]).is_allowed(&cfg));
    assert!(!cmd("git", &["push"]).is_allowed(&cfg));
    assert!(!cmd("git", &[]).is_allowed(&cfg));
}

#[test]
fn program_only_wildcard_rule() {
    let cfg = allow(&["make *"]);
    assert!(cmd("make", &[]).is_allowed(&cfg));
    assert!(cmd("make", &["all", "install"]).is_allowed(&cfg));
}

#[test]
fn expression_allowed_needs_every_command() {
    let cfg = allow(&["cargo build", "cargo test *"]);
    let ok = parse_bash_expr("cargo build && cargo test --all | cargo build").unwrap();
    assert!(ok.is_allowed(&cfg));
    let bad = parse_bash_expr("cargo build && rm -rf /").unwrap();
    assert!(!bad.is_allowed(&cfg));
    let empty = Expression {
        first: vec![],
        rest: vec![],
    };
    assert!(empty.is_allowed(&allow(&[])));
}

#[test]
fn safety_ignores_arguments() {
    assert!(cmd("ls", &[]).is_safe());
    assert!(cmd("ls", &["-la", "/etc"]).is_safe());
    assert!(cmd("grep", &["-r", "x"]).is_safe());
    assert!(!cmd("rm", &[]).is_safe());
    assert!(!cmd("rm", &["-rf", "/"]).is_safe());
    assert!(!cmd("LS", &[]).is_safe());
}

#[test]
fn safe_command_is_implicit() {
    let input = BashInput {
        command: "ls -la".to_string(),
    };
    assert_eq!(Bash::requires_permission(&input).unwrap(), Permission::Implicit);
}

#[test]
fn unsafe_allowlisted_command_requires_approval_but_is_allowed() {
    let input = BashInput {
        command: "cargo build".to_string(),
    };
    assert_eq!(
        Bash::requires_permission(&input).unwrap(),
        Permission::RequireApproval
    );
    let e = parse_bash_expr("cargo build").unwrap();
    assert!(e.is_allowed(&allow(&["cargo build"])));
    assert_eq!(
        Bash::effective_permission(&input, &allow(&["cargo build"])).unwrap(),
        Permission::AllowAutomatic
    );
}

#[test]
fn unsafe_unlisted_command_requires_approval() {
    let input = BashInput {
        command: "rm -rf /".to_string(),
    };
    assert_eq!(
        Bash::requires_permission(&input).unwrap(),
        Permission::RequireApproval
    );
    let e = parse_bash_expr("rm -rf /").unwrap();
    assert!(!e.is_allowed(&allow(&[])));
    assert_eq!(
        Bash::effective_permission(&input, &allow(&[])).unwrap(),
        Permission::RequireApproval
    );
}

#[test]
fn unparsable_command_is_an_error() {
    let input = BashInput {
        command: "ls > x".to_string(),
    };
    assert!(matches!(
        Bash::requires_permission(&input),
        Err(ToolError::BashError(_))
    ));
}
