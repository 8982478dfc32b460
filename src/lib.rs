//! Core of an autonomous coding-agent runtime: permission policy, shell-command
//! sandbox, capability-server protocol logic, tool registry and the session
//! controller that alternates between the model and tool execution.
pub mod config;
pub mod mcp;
pub mod models;
pub mod paths;
pub mod permission;
pub mod prompt;
pub mod session;
pub mod shell;
pub mod shell_parse;
pub mod text;
pub mod tool_error;
pub mod tools;
