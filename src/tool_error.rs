//! Errors that a tool reports back to the model as text.
use vstd::prelude::*;
use vstd::string::StringExecFns;

verus! {

/// Why a tool call failed.
#[derive(Clone, Debug, PartialEq, Eq)]
pub enum ToolError {
    /// An input/output failure, with the system's message.
    IOError(String),
    Error { message: String },
    ToolNotFound,
    OutsideWorkingDirectory,
    /// A shell command outside the supported subset, or one that does not lex.
    BashError(String),
}

/// The text of an error as the model receives it.
pub open spec fn error_text(e: ToolError) -> Seq<char> {
    match e {
        ToolError::IOError(m) => "I/O error: "@ + m@,
        ToolError::Error { message } => message@,
        ToolError::ToolNotFound => "Tool not found"@,
        ToolError::OutsideWorkingDirectory => "Path is outside the working directory"@,
        ToolError::BashError(m) => "Bash error: "@ + m@,
    }
}

impl ToolError {
    /// The error as text.
    pub fn to_string(&self) -> (r: String)
        ensures
            r@ == error_text(*self),
    {
        match self {
            ToolError::IOError(m) => String::from_str("I/O error: ").concat(m.as_str()),
            ToolError::Error { message } => message.clone(),
            ToolError::ToolNotFound => String::from_str("Tool not found"),
            ToolError::OutsideWorkingDirectory => String::from_str(
                "Path is outside the working directory",
            ),
            ToolError::BashError(m) => String::from_str("Bash error: ").concat(m.as_str()),
        }
    }
}

} // verus!
