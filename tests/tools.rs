use enchant::config::{BashConfig, Config, Permissions};
use enchant::models::{default_color_rules, Color, ColorRule, ModelInfo, ModelInfoMap};
use enchant::paths::glob_root;
use enchant::permission::{Gate, Permission, PermissionMode};
use enchant::prompt::build_system_prompt;
use enchant::tool_error::ToolError;
use enchant::tools::{
    assert_working_directory, format_path, BashInput, BuiltinTool, Edit, EditInput, GrepInput,
    ToolHandle, ToolInfo, ToolInput, ToolPreview, Toolset, Write, WriteInput, Grep, Ls,
};

fn bash_cfg(rules: &[&str]) -> BashConfig {
    BashConfig {
        allow: rules.iter().map(|r| r.to_string()).collect(),
    }
}

#[test]
fn gate_truth_table() {
    let table = [
        (Permission::Implicit, [Gate::Proceed, Gate::Proceed, Gate::Proceed]),
        (Permission::AllowAutomatic, [Gate::Ask, Gate::Proceed, Gate::Proceed]),
        (Permission::RequireApproval, [Gate::Ask, Gate::Ask, Gate::Proceed]),
        (Permission::Never, [Gate::Refuse, Gate::Refuse, Gate::Refuse]),
    ];
    for (p, gates) in table {
        for (m, g) in [PermissionMode::Manual, PermissionMode::Automatic, PermissionMode::Yolo].into_iter().zip(gates) {
            assert_eq!(p.gate(m), g);
            assert_eq!(p.needs_approval(m), g == Gate::Ask);
        }
    }
}

#[test]
fn config_merge_prefers_overlay() {
    let base = Config {
        default_model: Some("a".to_string()),
        permissions: Permissions {
            bash: bash_cfg(&["ls", "pwd"]),
        },
    };
    let overlay = Config {
        default_model: None,
        permissions: Permissions {
            bash: bash_cfg(&["cargo build"]),
        },
    };
    let merged = base.clone().merge(overlay);
    assert_eq!(merged.default_model.as_deref(), Some("a"));
    assert_eq!(merged.permissions.bash.allow, vec!["ls", "pwd", "cargo build"]);
    let overlay2 = Config {
        default_model: Some("b".to_string()),
        permissions: Permissions::default(),
    };
    assert_eq!(base.merge(overlay2).default_model.as_deref(), Some("b"));
    assert!(Config::default().permissions.bash.allow.is_empty());
}

#[test]
fn registry_order_and_lookup() {
    let set = Toolset::builtin();
    let names: Vec<String> = set.list_tools().iter().map(|t| t.name.clone()).collect();
    assert_eq!(names, vec!["Read", "Glob", "Grep", "LS", "Edit", "Write", "Bash"]);
    assert_eq!(set.lookup("Bash"), Some(6));
    assert_eq!(set.lookup("bash"), None);
    let dup = Toolset::new(vec![
        ToolHandle::Builtin(BuiltinTool::Ls),
        ToolHandle::Builtin(BuiltinTool::Read),
        ToolHandle::Builtin(BuiltinTool::Ls),
    ]);
    assert_eq!(dup.list_tools().len(), 2);
}

#[test]
fn registry_permissions() {
    let set = Toolset::builtin();
    let none = bash_cfg(&[]);
    assert_eq!(set.requires_permission("Read", None, &none), Ok(Permission::Implicit));
    assert_eq!(set.requires_permission("Edit", None, &none), Ok(Permission::AllowAutomatic));
    assert_eq!(set.requires_permission("Missing", None, &none), Ok(Permission::Implicit));
    let cargo = ToolInput::Bash(BashInput {
        command: "cargo build".to_string(),
    });
    assert_eq!(
        set.requires_permission("Bash", Some(&cargo), &none),
        Ok(Permission::RequireApproval)
    );
    assert_eq!(
        set.requires_permission("Bash", Some(&cargo), &bash_cfg(&["cargo *"])),
        Ok(Permission::AllowAutomatic)
    );
    assert!(set.requires_permission("Bash", None, &none).is_err());
}

#[test]
fn descriptions() {
    let set = Toolset::builtin();
    let grep = ToolInput::Grep(GrepInput {
        pattern: "fn main".to_string(),
        path: "/work/src".to_string(),
    });
    assert_eq!(
        set.describe_action("Grep", Some(&grep), "{}", "/work"),
        "Grep(src, pattern: fn main)"
    );
    let edit = ToolInput::Edit(EditInput {
        path: "/elsewhere/a.rs".to_string(),
        old_string: String::new(),
        new_string: String::new(),
    });
    assert_eq!(set.describe_action("Edit", Some(&edit), "{}", "/work"), "Edit(/elsewhere/a.rs)");
    assert_eq!(set.describe_action("Edit", None, "{}", "/work"), "Execute Edit");
    assert_eq!(set.describe_action("LS", None, "{}", "/work"), "Execute LS");
    assert_eq!(set.describe_action("Nope", None, "{}", "/work"), "Execute Nope");
}

#[test]
fn paths_relative_to_working_directory() {
    assert_eq!(format_path("/work/src/main.rs", "/work"), "src/main.rs");
    assert_eq!(format_path("/workshop/a", "/work"), "/workshop/a");
    assert!(assert_working_directory("/work/a", "/work").is_ok());
    assert_eq!(
        assert_working_directory("/etc/passwd", "/work"),
        Err(ToolError::OutsideWorkingDirectory)
    );
}

#[test]
fn glob_roots() {
    assert_eq!(glob_root("/a/b/*.rs"), "/a/b");
    assert_eq!(glob_root("/a/b/**/c?.rs"), "/a/b");
    assert_eq!(glob_root("/a/{x,y}/z"), "/a");
    assert_eq!(glob_root("*.rs"), "");
    assert_eq!(glob_root("/a/b/c.rs"), "/a/b/c.rs");
}

#[test]
fn edit_preview_and_apply() {
    let input = EditInput {
        path: "f".to_string(),
        old_string: "b".to_string(),
        new_string: "X".to_string(),
    };
    assert_eq!(Edit::apply("abcb", &input), "aXcb");
    assert_eq!(
        Edit::generate_preview("abcb".to_string(), &input),
        Some(ToolPreview::Edit {
            old_file: "abcb".to_string(),
            new_file: "aXcb".to_string()
        })
    );
    assert_eq!(Edit::generate_preview("zzz".to_string(), &input), None);
    let w = WriteInput {
        path: "f".to_string(),
        content: "hello".to_string(),
    };
    assert_eq!(
        Write::generate_preview(&w),
        Some(ToolPreview::Write {
            content: "hello".to_string()
        })
    );
}

#[test]
fn error_texts() {
    assert_eq!(ToolError::ToolNotFound.to_string(), "Tool not found");
    assert_eq!(
        ToolError::Error {
            message: "m".to_string()
        }
        .to_string(),
        "m"
    );
    assert_eq!(ToolError::BashError("x".to_string()).to_string(), "Bash error: x");
    assert_eq!(ToolError::IOError("gone".to_string()).to_string(), "I/O error: gone");
}

#[test]
fn tool_info_builders() {
    let info = ToolInfo::new("T").with_description("d");
    assert_eq!(info.name, "T");
    assert_eq!(info.description.as_deref(), Some("d"));
    assert_eq!(info.config, None);
}

#[test]
fn model_colours_and_lookup() {
    let rules = vec![
        ColorRule {
            prefix: "Alpha".to_string(),
            color: Color::Rgb { r: 1, g: 2, b: 3 },
        },
        ColorRule {
            prefix: "Al".to_string(),
            color: Color::Rgb { r: 9, g: 9, b: 9 },
        },
    ];
    let m = ModelInfo {
        name: Some("Alpha 2".to_string()),
        max_context: Some(1000),
    };
    assert_eq!(m.get_color(&rules), Color::Rgb { r: 1, g: 2, b: 3 });
    let other = ModelInfo {
        name: Some("Beta".to_string()),
        max_context: None,
    };
    assert_eq!(other.get_color(&rules), Color::White);
    assert_eq!(ModelInfo::default().get_color(&rules), Color::White);
    let map = ModelInfoMap {
        entries: vec![("a-1".to_string(), m)],
    };
    assert_eq!(map.get_model_info("a-1").max_context, Some(1000));
    assert_eq!(map.get_model_info("zzz").max_context, None);
}

#[test]
fn system_prompt_fills_working_directory() {
    assert_eq!(
        build_system_prompt("cwd={{workingDirectory}}.", "/work").unwrap(),
        "cwd=/work."
    );
    assert!(build_system_prompt("{{#if}}", "/w").is_err());
}

#[test]
fn dispatch_unknown_tool_is_not_found() {
    let set = Toolset::builtin();
    assert!(matches!(set.dispatch("Read"), Ok(ToolHandle::Builtin(BuiltinTool::Read))));
    assert!(matches!(set.dispatch("read"), Err(ToolError::ToolNotFound)));
}

#[test]
fn listing_and_search_reports() {
    assert_eq!(Ls::entry_label("src".to_string(), true), "src/");
    assert_eq!(Ls::entry_label("a.rs".to_string(), false), "a.rs");
    assert_eq!(Ls::listing(&vec![]), "(empty directory)");
    assert_eq!(Ls::listing(&vec!["a".to_string(), "b/".to_string()]), "a\nb/");
    assert_eq!(Grep::report(&vec![]), "No matches found.");
    assert_eq!(Grep::report(&vec!["f:1  x".to_string()]), "f:1  x");
}

#[test]
fn default_family_colours() {
    let rules = default_color_rules();
    let gpt = ModelInfo {
        name: Some("GPT-5".to_string()),
        max_context: None,
    };
    assert_eq!(gpt.get_color(&rules), Color::Rgb { r: 46, g: 255, b: 137 });
    let other = ModelInfo {
        name: Some("Other".to_string()),
        max_context: None,
    };
    assert_eq!(other.get_color(&rules), Color::White);
}
