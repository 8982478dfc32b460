//! Trust levels of tool calls and the operating modes that modulate them.
use vstd::prelude::*;

verus! {

/// How much trust a single tool call needs before it may run.
#[derive(Debug, Clone, Copy, PartialEq, Eq, Structural)]
pub enum Permission {
    /// Never ask the user.
    Implicit,
    /// Ask in manual mode; allowed automatically in the other modes.
    AllowAutomatic,
    /// Ask unless the session runs in the most permissive mode.
    RequireApproval,
    /// Always refused, whatever the mode.
    Never,
}

/// The session-wide policy.
#[derive(Debug, Clone, Copy, PartialEq, Eq, Structural)]
pub enum PermissionMode {
    Manual,
    Automatic,
    /// The most permissive mode: only `Never` still stops a call. A shell command
    /// that is neither intrinsically safe nor allowlisted needs `RequireApproval`,
    /// and runs without asking here.
    Yolo,
}

/// What the session does with a call before running it.
#[derive(Debug, Clone, Copy, PartialEq, Eq, Structural)]
pub enum Gate {
    /// Run without asking.
    Proceed,
    /// Ask the user first.
    Ask,
    /// Do not run; report a refusal.
    Refuse,
}

/// The truth table of permission levels against modes.
pub open spec fn gate_of(p: Permission, m: PermissionMode) -> Gate {
    match p {
        Permission::Implicit => Gate::Proceed,
        Permission::AllowAutomatic => if m == PermissionMode::Manual {
            Gate::Ask
        } else {
            Gate::Proceed
        },
        Permission::RequireApproval => if m == PermissionMode::Yolo {
            Gate::Proceed
        } else {
            Gate::Ask
        },
        Permission::Never => Gate::Refuse,
    }
}

impl Permission {
    /// Decides whether a call with this permission runs, is asked for, or is refused
    /// under `mode`.
    pub fn gate(&self, mode: PermissionMode) -> (r: Gate)
        ensures
            r == gate_of(*self, mode),
    {
        match self {
            Permission::Implicit => Gate::Proceed,
            Permission::AllowAutomatic => match mode {
                PermissionMode::Manual => Gate::Ask,
                _ => Gate::Proceed,
            },
            Permission::RequireApproval => match mode {
                PermissionMode::Yolo => Gate::Proceed,
                _ => Gate::Ask,
            },
            Permission::Never => Gate::Refuse,
        }
    }

    /// True when the user has to be asked about a call with this permission under
    /// `mode`.
    pub fn needs_approval(&self, mode: PermissionMode) -> (r: bool)
        ensures
            r == (gate_of(*self, mode) == Gate::Ask),
    {
        match self.gate(mode) {
            Gate::Ask => true,
            _ => false,
        }
    }
}

} // verus!
