//! The tool registry: descriptors in a stable order, lookup by name, and what each
//! tool decides before it runs (permission, description, preview).
use crate::mcp::McpTool;
use crate::permission::{gate_of, Gate, Permission, PermissionMode};
use crate::config::BashConfig;
use crate::shell::{expression_allowed, expression_safe, Expression};
use crate::shell_parse::{
    expression_tokens, expression_well_formed, parse_bash_expr, shell_lex, tokens_accepted,
};
use crate::text::{join_lines, joined_lines, replace_first, replace_first_spec, str_eq, views};
use crate::tool_error::ToolError;
use vstd::prelude::*;
use vstd::string::StringExecFns;

verus! {

/// Preview content for permission prompts.
#[derive(Clone, Debug, PartialEq, Eq)]
pub enum ToolPreview {
    /// The file before and after an edit.
    Edit { old_file: String, new_file: String },
    /// The content a write would create.
    Write { content: String },
}

/// A tool's descriptor: name, description and, as JSON text, its input schema.
#[derive(Clone, Debug)]
pub struct ToolInfo {
    pub name: String,
    pub description: Option<String>,
    /// The input schema as JSON text, when the registry knows it; the schemas of the
    /// built-in tools come from their input types.
    pub schema: Option<String>,
    pub config: Option<String>,
}

impl ToolInfo {
    pub fn new(name: &str) -> (r: Self)
        ensures
            r.name@ == name@,
            r.description is None,
            r.schema is None,
            r.config is None,
    {
        ToolInfo { name: String::from_str(name), description: None, schema: None, config: None }
    }

    pub fn with_description(self, description: &str) -> (r: Self)
        ensures
            r.name == self.name,
            r.description matches Some(d) && d@ == description@,
            r.schema == self.schema,
            r.config == self.config,
    {
        ToolInfo {
            name: self.name,
            description: Some(String::from_str(description)),
            schema: self.schema,
            config: self.config,
        }
    }
}

/// A request for the user's permission to run one tool call.
#[derive(Clone, Debug)]
pub struct PermissionRequest {
    pub call_id: String,
    pub tool_name: String,
    pub description: String,
    /// The call's arguments as JSON text.
    pub input: String,
    pub preview: Option<ToolPreview>,
}

pub struct Bash;

pub struct Edit;

pub struct Glob;

pub struct Grep;

pub struct Ls;

pub struct Read;

pub struct Write;

#[derive(Clone, Debug)]
pub struct BashInput {
    /// Bash command to run.
    pub command: String,
}

#[derive(Clone, Debug)]
pub struct EditInput {
    pub path: String,
    pub old_string: String,
    pub new_string: String,
}

#[derive(Clone, Debug)]
pub struct GlobInput {
    /// Glob pattern; an absolute path.
    pub pattern: String,
}

#[derive(Clone, Debug)]
pub struct GrepInput {
    /// The regex pattern to search for.
    pub pattern: String,
    /// The directory or file to search in; an absolute path.
    pub path: String,
}

#[derive(Clone, Debug)]
pub struct LsInput {
    /// The directory to list; an absolute path.
    pub path: String,
}

#[derive(Clone, Debug)]
pub struct ReadInput {
    pub path: String,
}

#[derive(Clone, Debug)]
pub struct WriteInput {
    /// Absolute path of the file to create.
    pub path: String,
    /// Content of the new file.
    pub content: String,
}

/// The decoded arguments of a call to a built-in tool.
#[derive(Clone, Debug)]
pub enum ToolInput {
    Read(ReadInput),
    Glob(GlobInput),
    Grep(GrepInput),
    Ls(LsInput),
    Edit(EditInput),
    Write(WriteInput),
    Bash(BashInput),
}

/// The built-in tools.
#[derive(Clone, Copy, Debug, PartialEq, Eq, Structural)]
pub enum BuiltinTool {
    Read,
    Glob,
    Grep,
    Ls,
    Edit,
    Write,
    Bash,
}

/// Any registered tool.
#[derive(Clone, Debug)]
pub enum ToolHandle {
    Builtin(BuiltinTool),
    Mcp(McpTool),
}

pub open spec fn builtin_name(t: BuiltinTool) -> Seq<char> {
    match t {
        BuiltinTool::Read => "Read"@,
        BuiltinTool::Glob => "Glob"@,
        BuiltinTool::Grep => "Grep"@,
        BuiltinTool::Ls => "LS"@,
        BuiltinTool::Edit => "Edit"@,
        BuiltinTool::Write => "Write"@,
        BuiltinTool::Bash => "Bash"@,
    }
}

/// The name under which a tool is registered.
pub open spec fn handle_name(h: ToolHandle) -> Seq<char> {
    match h {
        ToolHandle::Builtin(t) => builtin_name(t),
        ToolHandle::Mcp(m) => m.fq_name_spec(),
    }
}

impl BuiltinTool {
    pub fn name(&self) -> (r: String)
        ensures
            r@ == builtin_name(*self),
    {
        match self {
            BuiltinTool::Read => String::from_str("Read"),
            BuiltinTool::Glob => String::from_str("Glob"),
            BuiltinTool::Grep => String::from_str("Grep"),
            BuiltinTool::Ls => String::from_str("LS"),
            BuiltinTool::Edit => String::from_str("Edit"),
            BuiltinTool::Write => String::from_str("Write"),
            BuiltinTool::Bash => String::from_str("Bash"),
        }
    }

    /// The descriptor shown to the model; the input schema comes from the input
    /// type.
    pub fn get_info(&self) -> (r: ToolInfo)
        ensures
            r.name@ == builtin_name(*self),
            r.description matches Some(d) && d@ == builtin_description(*self),
            r.schema is None,
            r.config is None,
    {
        let info = ToolInfo::new(self.name().as_str());
        match self {
            BuiltinTool::Read => info.with_description(
                "Reads a file from the local filesystem. You can access any file directly by using this tool. Assume this tool is able to read all files on the machine. If the User provides a path to a file assume that path is valid. It is okay to read a file that does not exist; an error will be returned.",
            ),
            BuiltinTool::Glob => info.with_description(
                "Lists the files that match a glob pattern. The pattern must be an absolute path.",
            ),
            BuiltinTool::Grep => info.with_description(
                "Searches files under a path for lines that match a regular expression.",
            ),
            BuiltinTool::Ls => info.with_description(
                "Lists the entries of a directory.",
            ),
            BuiltinTool::Edit => info.with_description(
                "Replaces the first occurrence of a string in a file with another string.",
            ),
            BuiltinTool::Write => info.with_description(
                "Creates or overwrites a file with the given content.",
            ),
            BuiltinTool::Bash => info.with_description(
                "Runs a shell command made of simple commands joined by |, && and ||.",
            ),
        }
    }
}

/// What the model is told each built-in tool does.
pub open spec fn builtin_description(t: BuiltinTool) -> Seq<char> {
    match t {
        BuiltinTool::Read => "Reads a file from the local filesystem. You can access any file directly by using this tool. Assume this tool is able to read all files on the machine. If the User provides a path to a file assume that path is valid. It is okay to read a file that does not exist; an error will be returned."@,
        BuiltinTool::Glob => "Lists the files that match a glob pattern. The pattern must be an absolute path."@,
        BuiltinTool::Grep => "Searches files under a path for lines that match a regular expression."@,
        BuiltinTool::Ls => "Lists the entries of a directory."@,
        BuiltinTool::Edit => "Replaces the first occurrence of a string in a file with another string."@,
        BuiltinTool::Write => "Creates or overwrites a file with the given content."@,
        BuiltinTool::Bash => "Runs a shell command made of simple commands joined by |, && and ||."@,
    }
}

/// The sandbox's classification of a shell command that parses into `e`: implicit
/// when every command in it is intrinsically safe, else it needs approval.
pub open spec fn expression_classification(e: Expression) -> Permission {
    if expression_safe(e) {
        Permission::Implicit
    } else {
        Permission::RequireApproval
    }
}

/// The permission the session applies to such a command: a command that needs
/// approval but is covered by the allowlist runs without asking outside manual mode.
pub open spec fn expression_permission(e: Expression, allow: Seq<String>) -> Permission {
    if expression_safe(e) {
        Permission::Implicit
    } else if expression_allowed(e, allow) {
        Permission::AllowAutomatic
    } else {
        Permission::RequireApproval
    }
}

/// `p` is the classification of the expression that `command` is written as.
pub open spec fn bash_classified_as(command: Seq<char>, p: Permission) -> bool {
    exists|e: Expression|
        expression_tokens(e) == shell_lex(command)->Ok_0 && expression_well_formed(e) && p
            == expression_classification(e)
}

/// `p` is the permission applied to the expression that `command` is written as.
pub open spec fn bash_permission_is(command: Seq<char>, allow: Seq<String>, p: Permission) -> bool {
    exists|e: Expression|
        expression_tokens(e) == shell_lex(command)->Ok_0 && expression_well_formed(e) && p
            == expression_permission(e, allow)
}

pub open spec fn bash_accepted(command: Seq<char>) -> bool {
    shell_lex(command) is Ok && tokens_accepted(shell_lex(command)->Ok_0)
}

impl Bash {
    /// Classifies a shell command: `Implicit` when every command in it is
    /// intrinsically safe, `RequireApproval` otherwise; a command outside the
    /// supported syntax is an error.
    pub fn requires_permission(input: &BashInput) -> (r: Result<Permission, ToolError>)
        ensures
            r is Ok <==> bash_accepted(input.command@),
            r is Err ==> r->Err_0 is BashError,
            r matches Ok(p) ==> bash_classified_as(input.command@, p),
    {
        match parse_bash_expr(input.command.as_str()) {
            Ok(e) => if e.is_safe() {
                Ok(Permission::Implicit)
            } else {
                Ok(Permission::RequireApproval)
            },
            Err(err) => Err(err),
        }
    }

    /// The permission the session applies to a shell command: its classification,
    /// except that a command needing approval which the allowlist covers is allowed
    /// automatically outside manual mode.
    pub fn effective_permission(input: &BashInput, cfg: &BashConfig) -> (r: Result<Permission, ToolError>)
        ensures
            r is Ok <==> bash_accepted(input.command@),
            r is Err ==> r->Err_0 is BashError,
            r matches Ok(p) ==> bash_permission_is(input.command@, cfg.allow@, p),
    {
        match parse_bash_expr(input.command.as_str()) {
            Ok(e) => if e.is_safe() {
                Ok(Permission::Implicit)
            } else if e.is_allowed(cfg) {
                Ok(Permission::AllowAutomatic)
            } else {
                Ok(Permission::RequireApproval)
            },
            Err(err) => Err(err),
        }
    }
}

pub uninterp spec fn path_relative_to(path: Seq<char>, base: Seq<char>) -> Option<Seq<char>>;

/// Relies on std::path::Path::strip_prefix: when `base` is a leading run of whole
/// components of `path`, the path that remains, displayed; the result depends on
/// the two texts alone.
#[verifier::external_body]
fn strip_path_prefix(path: &str, base: &str) -> (r: Option<String>)
    ensures
        r matches Some(s) ==> path_relative_to(path@, base@) == Some(s@),
        r is None ==> path_relative_to(path@, base@) is None,
{
    std::path::Path::new(path).strip_prefix(base).ok().map(|p| p.display().to_string())
}

/// How a path is shown: relative to the working directory when it lies below it.
pub open spec fn shown_path(path: Seq<char>, working_directory: Seq<char>) -> Seq<char> {
    match path_relative_to(path, working_directory) {
        Some(rel) => rel,
        None => path,
    }
}

pub fn format_path(path: &str, working_directory: &str) -> (r: String)
    ensures
        r@ == shown_path(path@, working_directory@),
{
    match strip_path_prefix(path, working_directory) {
        Some(rel) => rel,
        None => String::from_str(path),
    }
}

/// Refuses a path that does not lie below the working directory.
pub fn assert_working_directory(path: &str, working_directory: &str) -> (r: Result<(), ToolError>)
    ensures
        r is Ok <==> path_relative_to(path@, working_directory@) is Some,
        r is Err ==> r->Err_0 is OutsideWorkingDirectory,
{
    match strip_path_prefix(path, working_directory) {
        Some(_) => Ok(()),
        None => Err(ToolError::OutsideWorkingDirectory),
    }
}

/// The generic description of a call to the tool named `name`.
pub open spec fn generic_description(name: Seq<char>) -> Seq<char> {
    "Execute "@ + name
}

/// The description of a call for prompts and history.
pub open spec fn description_of(
    h: ToolHandle,
    input: Option<ToolInput>,
    raw: Seq<char>,
    wd: Seq<char>,
) -> Seq<char> {
    match h {
        ToolHandle::Mcp(m) => m.fq_name_spec() + "("@ + raw + ")"@,
        ToolHandle::Builtin(t) => match (t, input) {
            (BuiltinTool::Bash, Some(ToolInput::Bash(b))) => "Bash("@ + b.command@ + ")"@,
            (BuiltinTool::Edit, Some(ToolInput::Edit(e))) => "Edit("@ + shown_path(e.path@, wd)
                + ")"@,
            (BuiltinTool::Glob, Some(ToolInput::Glob(g))) => "Glob("@ + shown_path(g.pattern@, wd)
                + ")"@,
            (BuiltinTool::Grep, Some(ToolInput::Grep(g))) => "Grep("@ + shown_path(g.path@, wd)
                + ", pattern: "@ + g.pattern@ + ")"@,
            (BuiltinTool::Write, Some(ToolInput::Write(w))) => "Write("@ + shown_path(w.path@, wd)
                + ")"@,
            _ => generic_description(builtin_name(t)),
        },
    }
}

/// The permission a call needs: reading, listing and searching never ask; edits and
/// writes are allowed automatically outside manual mode; a shell command by its
/// classification and the allowlist `allow`; a server's tool by its server's policy. `Err(())` stands for
/// arguments of the wrong shape or a shell command outside the supported syntax.
pub open spec fn permission_of(
    h: ToolHandle,
    input: Option<ToolInput>,
    allow: Seq<String>,
    p: Result<Permission, ()>,
) -> bool {
    match h {
        ToolHandle::Mcp(m) => p == Ok::<Permission, ()>(m.permission),
        ToolHandle::Builtin(t) => match t {
            BuiltinTool::Edit | BuiltinTool::Write => p == Ok::<Permission, ()>(Permission::AllowAutomatic),
            BuiltinTool::Bash => match input {
                Some(ToolInput::Bash(b)) => if bash_accepted(b.command@) {
                    p matches Ok(q) && bash_permission_is(b.command@, allow, q)
                } else {
                    p is Err
                },
                _ => p is Err,
            },
            _ => p == Ok::<Permission, ()>(Permission::Implicit),
        },
    }
}

pub open spec fn tool_names(s: Seq<ToolHandle>) -> Seq<Seq<char>> {
    s.map_values(|h: ToolHandle| handle_name(h))
}

/// `s` with every handle whose name an earlier one already has left out.
pub open spec fn first_of_each_name(s: Seq<ToolHandle>) -> Seq<ToolHandle>
    decreases s.len(),
{
    if s.len() == 0 {
        seq![]
    } else {
        let prev = first_of_each_name(s.drop_last());
        if tool_names(prev).contains(handle_name(s.last())) {
            prev
        } else {
            prev.push(s.last())
        }
    }
}

/// Of several tools with one name only the first is kept: the kept tools have
/// distinct names, every name offered is kept, and each kept tool is the first
/// offered under its name (so a lookup by that name reaches it), in the order
/// offered.
pub proof fn lemma_first_of_each_name(s: Seq<ToolHandle>)
    ensures
        ({
            let r = first_of_each_name(s);
            &&& forall|a: int, b: int|
                0 <= a < r.len() && 0 <= b < r.len() && a != b ==> handle_name(#[trigger] r[a])
                    != handle_name(#[trigger] r[b])
            &&& forall|i: int| 0 <= i < s.len() ==> tool_names(r).contains(handle_name(#[trigger] s[i]))
            &&& forall|i: int|
                0 <= i < s.len() && (forall|j: int| 0 <= j < i ==> handle_name(s[j]) != handle_name(s[i]))
                    ==> r.contains(#[trigger] s[i])
            &&& forall|k: int|
                0 <= k < r.len() ==> exists|i: int|
                    0 <= i < s.len() && s[i] == #[trigger] r[k] && forall|j: int|
                        0 <= j < i ==> handle_name(s[j]) != handle_name(s[i])
        }),
    decreases s.len(),
{
    if s.len() > 0 {
        let q = s.drop_last();
        let prev = first_of_each_name(q);
        let last = s.last();
        let n = s.len() - 1;
        lemma_first_of_each_name(q);
        let r = first_of_each_name(s);
        assert forall|i: int| 0 <= i < n implies s[i] == q[i] by {}
        if tool_names(prev).contains(handle_name(last)) {
            assert(r == prev);
            assert forall|i: int| 0 <= i < s.len() implies tool_names(r).contains(handle_name(#[trigger] s[i])) by {
                if i < n {
                    assert(s[i] == q[i]);
                }
            }
            assert forall|i: int|
                0 <= i < s.len() && (forall|j: int| 0 <= j < i ==> handle_name(s[j]) != handle_name(s[i]))
                implies r.contains(#[trigger] s[i]) by {
                if i < n {
                    assert(s[i] == q[i]);
                    assert forall|j: int| 0 <= j < i implies handle_name(q[j]) != handle_name(q[i]) by {
                        assert(s[j] == q[j]);
                    }
                } else {
                    let m = choose|m: int| 0 <= m < prev.len() && tool_names(prev)[m] == handle_name(last);
                    assert(handle_name(prev[m]) == handle_name(last));
                    let i2 = choose|i2: int|
                        0 <= i2 < q.len() && q[i2] == prev[m] && forall|j: int|
                            0 <= j < i2 ==> handle_name(q[j]) != handle_name(q[i2]);
                    assert(s[i2] == q[i2]);
                    assert(handle_name(s[i2]) == handle_name(s[i]));
                }
            }
            assert forall|k: int| 0 <= k < r.len() implies exists|i: int|
                0 <= i < s.len() && s[i] == #[trigger] r[k] && forall|j: int|
                    0 <= j < i ==> handle_name(s[j]) != handle_name(s[i]) by {
                let i = choose|i: int|
                    0 <= i < q.len() && q[i] == prev[k] && forall|j: int|
                        0 <= j < i ==> handle_name(q[j]) != handle_name(q[i]);
                assert(s[i] == q[i]);
                assert forall|j: int| 0 <= j < i implies handle_name(s[j]) != handle_name(s[i]) by {
                    assert(s[j] == q[j]);
                }
            }
        } else {
            assert(r == prev.push(last));
            assert forall|a: int, b: int|
                0 <= a < r.len() && 0 <= b < r.len() && a != b implies handle_name(#[trigger] r[a])
                    != handle_name(#[trigger] r[b]) by {
                if a == prev.len() {
                    assert(tool_names(prev)[b] == handle_name(prev[b]));
                } else if b == prev.len() {
                    assert(tool_names(prev)[a] == handle_name(prev[a]));
                } else {
                    assert(r[a] == prev[a]);
                    assert(r[b] == prev[b]);
                }
            }
            assert forall|i: int| 0 <= i < s.len() implies tool_names(r).contains(handle_name(#[trigger] s[i])) by {
                if i < n {
                    assert(s[i] == q[i]);
                    let m = choose|m: int| 0 <= m < prev.len() && tool_names(prev)[m] == handle_name(q[i]);
                    assert(tool_names(r)[m] == tool_names(prev)[m]);
                } else {
                    assert(tool_names(r)[prev.len() as int] == handle_name(last));
                }
            }
            assert forall|i: int|
                0 <= i < s.len() && (forall|j: int| 0 <= j < i ==> handle_name(s[j]) != handle_name(s[i]))
                implies r.contains(#[trigger] s[i]) by {
                if i < n {
                    assert(s[i] == q[i]);
                    assert forall|j: int| 0 <= j < i implies handle_name(q[j]) != handle_name(q[i]) by {
                        assert(s[j] == q[j]);
                    }
                    let m = choose|m: int| 0 <= m < prev.len() && prev[m] == q[i];
                    assert(r[m] == prev[m]);
                } else {
                    assert(r[prev.len() as int] == last);
                }
            }
            assert forall|k: int| 0 <= k < r.len() implies exists|i: int|
                0 <= i < s.len() && s[i] == #[trigger] r[k] && forall|j: int|
                    0 <= j < i ==> handle_name(s[j]) != handle_name(s[i]) by {
                if k < prev.len() {
                    assert(r[k] == prev[k]);
                    let i = choose|i: int|
                        0 <= i < q.len() && q[i] == prev[k] && forall|j: int|
                            0 <= j < i ==> handle_name(q[j]) != handle_name(q[i]);
                    assert(s[i] == q[i]);
                    assert forall|j: int| 0 <= j < i implies handle_name(s[j]) != handle_name(s[i]) by {
                        assert(s[j] == q[j]);
                    }
                } else {
                    assert(r[k] == s[n]);
                    assert forall|j: int| 0 <= j < n implies handle_name(s[j]) != handle_name(s[n]) by {
                        assert(s[j] == q[j]);
                        if handle_name(s[j]) == handle_name(s[n]) {
                            assert(tool_names(prev).contains(handle_name(q[j])));
                        }
                    }
                }
            }
        }
    }
}

pub fn handle_name_of(h: &ToolHandle) -> (r: String)
    ensures
        r@ == handle_name(*h),
{
    match h {
        ToolHandle::Builtin(t) => t.name(),
        ToolHandle::Mcp(m) => m.fq_name(),
    }
}

/// The registered tools, in the order given to the model, and their descriptors.
pub struct Toolset {
    order: Vec<ToolInfo>,
    tools: Vec<ToolHandle>,
}

impl Toolset {
    pub closed spec fn handles(&self) -> Seq<ToolHandle> {
        self.tools@
    }

    pub closed spec fn infos(&self) -> Seq<ToolInfo> {
        self.order@
    }

    /// The descriptors match the tools one for one, and names are unique.
    pub closed spec fn wf(&self) -> bool {
        &&& self.order@.len() == self.tools@.len()
        &&& forall|i: int| 0 <= i < self.tools@.len() ==> (#[trigger] self.order@[i]).name@ == handle_name(self.tools@[i])
        &&& forall|i: int, j: int|
            0 <= i < self.tools@.len() && 0 <= j < self.tools@.len() && i != j ==> handle_name(
                #[trigger] self.tools@[i],
            ) != handle_name(#[trigger] self.tools@[j])
    }

    pub proof fn lemma_wf_names(&self)
        requires
            self.wf(),
        ensures
            self.infos().len() == self.handles().len(),
            forall|i: int| 0 <= i < self.handles().len() ==> (#[trigger] self.infos()[i]).name@ == handle_name(self.handles()[i]),
            forall|i: int, j: int|
                0 <= i < self.handles().len() && 0 <= j < self.handles().len() && i != j ==> handle_name(
                    #[trigger] self.handles()[i],
                ) != handle_name(#[trigger] self.handles()[j]),
    {
    }

    /// The descriptor of a tool as the model sees it.
    fn info_of(h: &ToolHandle) -> (r: ToolInfo)
        ensures
            r.name@ == handle_name(*h),
    {
        match h {
            ToolHandle::Builtin(t) => t.get_info(),
            ToolHandle::Mcp(m) => ToolInfo {
                name: m.fq_name(),
                description: m.description.clone(),
                schema: Some(m.input_schema.clone()),
                config: None,
            },
        }
    }

    /// A registry of `tools` in the given order; of several tools with one name only
    /// the first is kept.
    pub fn new(tools: Vec<ToolHandle>) -> (r: Self)
        ensures
            r.wf(),
            r.handles() == first_of_each_name(tools@),
    {
        let ghost all = tools@;
        let n = tools.len();
        let mut rest = tools;
        let mut order: Vec<ToolInfo> = Vec::new();
        let mut kept: Vec<ToolHandle> = Vec::new();
        let mut i: usize = 0;
        proof {
            assert(all.subrange(0, 0) == Seq::<ToolHandle>::empty());
        }
        while rest.len() > 0
            invariant
                all.len() == n,
                i + rest@.len() == all.len(),
                rest@ == all.subrange(i as int, all.len() as int),
                kept@ == first_of_each_name(all.subrange(0, i as int)),
                order@.len() == kept@.len(),
                forall|k: int| 0 <= k < kept@.len() ==> (#[trigger] order@[k]).name@ == handle_name(kept@[k]),
                forall|a: int, b: int|
                    0 <= a < kept@.len() && 0 <= b < kept@.len() && a != b ==> handle_name(
                        #[trigger] kept@[a],
                    ) != handle_name(#[trigger] kept@[b]),
            decreases rest@.len(),
        {
            let h = rest.remove(0);
            let name = handle_name_of(&h);
            let ghost pre = all.subrange(0, i + 1);
            proof {
                assert(pre.drop_last() == all.subrange(0, i as int));
                assert(pre.last() == h);
            }
            let mut seen = false;
            let mut k: usize = 0;
            while k < order.len()
                invariant
                    k <= order@.len(),
                    order@.len() == kept@.len(),
                    forall|m: int| 0 <= m < kept@.len() ==> (#[trigger] order@[m]).name@ == handle_name(kept@[m]),
                    name@ == handle_name(h),
                    seen == exists|m: int| 0 <= m < k && handle_name(kept@[m]) == name@,
                decreases order@.len() - k,
            {
                if order[k].name == name {
                    seen = true;
                }
                k = k + 1;
            }
            proof {
                if seen {
                    let m = choose|m: int| 0 <= m < k && handle_name(kept@[m]) == name@;
                    assert(tool_names(kept@)[m] == name@);
                }
                if tool_names(kept@).contains(name@) {
                    let m = choose|m: int| 0 <= m < kept@.len() && tool_names(kept@)[m] == name@;
                    assert(handle_name(kept@[m]) == name@);
                }
            }
            if !seen {
                let ghost old_kept = kept@;
                let ghost old_order = order@;
                order.push(Self::info_of(&h));
                kept.push(h);
                proof {
                    assert forall|a: int, b: int|
                        0 <= a < kept@.len() && 0 <= b < kept@.len() && a != b implies handle_name(
                            #[trigger] kept@[a],
                        ) != handle_name(#[trigger] kept@[b]) by {
                        if a < old_kept.len() && b < old_kept.len() {
                            assert(kept@[a] == old_kept[a]);
                            assert(kept@[b] == old_kept[b]);
                        } else if a < old_kept.len() {
                            assert(kept@[a] == old_kept[a]);
                        } else {
                            assert(kept@[b] == old_kept[b]);
                        }
                    }
                    assert forall|m: int| 0 <= m < kept@.len() implies (#[trigger] order@[m]).name@ == handle_name(kept@[m]) by {
                        if m < old_kept.len() {
                            assert(order@[m] == old_order[m]);
                        }
                    }
                }
            }
            i = i + 1;
            proof {
                assert(rest@ == all.subrange(i as int, all.len() as int));
            }
        }
        proof {
            assert(all.subrange(0, all.len() as int) == all);
        }
        Toolset { order, tools: kept }
    }

    /// The built-in tools, in the order the model sees them.
    pub fn builtin() -> (r: Self)
        ensures
            r.wf(),
            r.handles() == first_of_each_name(
                seq![
                    ToolHandle::Builtin(BuiltinTool::Read),
                    ToolHandle::Builtin(BuiltinTool::Glob),
                    ToolHandle::Builtin(BuiltinTool::Grep),
                    ToolHandle::Builtin(BuiltinTool::Ls),
                    ToolHandle::Builtin(BuiltinTool::Edit),
                    ToolHandle::Builtin(BuiltinTool::Write),
                    ToolHandle::Builtin(BuiltinTool::Bash),
                ],
            ),
    {
        let mut v: Vec<ToolHandle> = Vec::new();
        v.push(ToolHandle::Builtin(BuiltinTool::Read));
        v.push(ToolHandle::Builtin(BuiltinTool::Glob));
        v.push(ToolHandle::Builtin(BuiltinTool::Grep));
        v.push(ToolHandle::Builtin(BuiltinTool::Ls));
        v.push(ToolHandle::Builtin(BuiltinTool::Edit));
        v.push(ToolHandle::Builtin(BuiltinTool::Write));
        v.push(ToolHandle::Builtin(BuiltinTool::Bash));
        assert(v@ == seq![
            ToolHandle::Builtin(BuiltinTool::Read),
            ToolHandle::Builtin(BuiltinTool::Glob),
            ToolHandle::Builtin(BuiltinTool::Grep),
            ToolHandle::Builtin(BuiltinTool::Ls),
            ToolHandle::Builtin(BuiltinTool::Edit),
            ToolHandle::Builtin(BuiltinTool::Write),
            ToolHandle::Builtin(BuiltinTool::Bash),
        ]);
        Toolset::new(v)
    }

    /// The descriptors of the registered tools, in registration order.
    pub fn list_tools(&self) -> (r: &Vec<ToolInfo>)
        ensures
            r@ == self.infos(),
    {
        &self.order
    }

    /// The position of the tool named `name`.
    pub fn lookup(&self, name: &str) -> (r: Option<usize>)
        requires
            self.wf(),
        ensures
            r matches Some(i) ==> i < self.handles().len() && handle_name(self.handles()[i as int]) == name@,
            r is None ==> forall|i: int| 0 <= i < self.handles().len() ==> handle_name(#[trigger] self.handles()[i]) != name@,
    {
        let mut i: usize = 0;
        while i < self.order.len()
            invariant
                self.wf(),
                i <= self.order@.len(),
                forall|k: int| 0 <= k < i ==> handle_name(#[trigger] self.tools@[k]) != name@,
            decreases self.order@.len() - i,
        {
            if str_eq(self.order[i].name.as_str(), name) {
                return Some(i);
            }
            i = i + 1;
        }
        None
    }

    /// The tool a call to `name` goes to; an unknown name is a `ToolNotFound` error,
    /// which the model receives as the call's result.
    pub fn dispatch(&self, name: &str) -> (r: Result<&ToolHandle, ToolError>)
        requires
            self.wf(),
        ensures
            r matches Ok(h) ==> exists|i: int|
                0 <= i < self.handles().len() && self.handles()[i] == *h && handle_name(*h) == name@,
            r is Err ==> r == Err::<&ToolHandle, ToolError>(ToolError::ToolNotFound) && forall|i: int|
                0 <= i < self.handles().len() ==> handle_name(#[trigger] self.handles()[i]) != name@,
    {
        match self.lookup(name) {
            Some(i) => Ok(&self.tools[i]),
            None => Err(ToolError::ToolNotFound),
        }
    }

    /// The tool at a position.
    pub fn handle(&self, i: usize) -> (r: &ToolHandle)
        requires
            i < self.handles().len(),
        ensures
            *r == self.handles()[i as int],
    {
        &self.tools[i]
    }

    /// The permission a call to the tool named `name` needs. A name that is not
    /// registered needs none: the call fails without running anything.
    pub fn requires_permission(&self, name: &str, input: Option<&ToolInput>, allow: &BashConfig) -> (r: Result<
        Permission,
        ToolError,
    >)
        requires
            self.wf(),
        ensures
            (forall|i: int| 0 <= i < self.handles().len() ==> handle_name(#[trigger] self.handles()[i]) != name@)
                ==> r == Ok::<Permission, ToolError>(Permission::Implicit),
            forall|i: int|
                0 <= i < self.handles().len() && handle_name(#[trigger] self.handles()[i]) == name@
                    ==> permission_of(
                    self.handles()[i],
                    match input {
                        Some(x) => Some(*x),
                        None => None,
                    },
                    allow.allow@,
                    match r {
                        Ok(p) => Ok(p),
                        Err(_) => Err(()),
                    },
                ),
    {
        let i = match self.lookup(name) {
            Some(i) => i,
            None => return Ok(Permission::Implicit),
        };
        match &self.tools[i] {
            ToolHandle::Mcp(m) => Ok(m.permission),
            ToolHandle::Builtin(t) => match t {
                BuiltinTool::Edit | BuiltinTool::Write => Ok(Permission::AllowAutomatic),
                BuiltinTool::Bash => match input {
                    Some(ToolInput::Bash(b)) => Bash::effective_permission(b, allow),
                    _ => Err(
                        ToolError::Error {
                            message: String::from_str("Bash expects a command argument"),
                        },
                    ),
                },
                _ => Ok(Permission::Implicit),
            },
        }
    }

    /// The description of a call to the tool named `name` for prompts and history;
    /// `raw` is its arguments as JSON text. It never fails: an unknown tool, or
    /// arguments of another shape, give "Execute <name>".
    pub fn describe_action(&self, name: &str, input: Option<&ToolInput>, raw: &str, working_directory: &str) -> (r: String)
        requires
            self.wf(),
        ensures
            (forall|i: int| 0 <= i < self.handles().len() ==> handle_name(#[trigger] self.handles()[i]) != name@)
                ==> r@ == generic_description(name@),
            forall|i: int|
                0 <= i < self.handles().len() && handle_name(#[trigger] self.handles()[i]) == name@
                    ==> r@ == description_of(
                    self.handles()[i],
                    match input {
                        Some(x) => Some(*x),
                        None => None,
                    },
                    raw@,
                    working_directory@,
                ),
    {
        let i = match self.lookup(name) {
            Some(i) => i,
            None => return String::from_str("Execute ").concat(name),
        };
        match &self.tools[i] {
            ToolHandle::Mcp(m) => m.describe_action(raw),
            ToolHandle::Builtin(t) => match (t, input) {
                (BuiltinTool::Bash, Some(ToolInput::Bash(b))) => String::from_str("Bash(").concat(
                    b.command.as_str(),
                ).concat(")"),
                (BuiltinTool::Edit, Some(ToolInput::Edit(e))) => String::from_str("Edit(").concat(
                    format_path(e.path.as_str(), working_directory).as_str(),
                ).concat(")"),
                (BuiltinTool::Glob, Some(ToolInput::Glob(g))) => String::from_str("Glob(").concat(
                    format_path(g.pattern.as_str(), working_directory).as_str(),
                ).concat(")"),
                (BuiltinTool::Grep, Some(ToolInput::Grep(g))) => String::from_str("Grep(").concat(
                    format_path(g.path.as_str(), working_directory).as_str(),
                ).concat(", pattern: ").concat(g.pattern.as_str()).concat(")"),
                (BuiltinTool::Write, Some(ToolInput::Write(w))) => String::from_str("Write(").concat(
                    format_path(w.path.as_str(), working_directory).as_str(),
                ).concat(")"),
                _ => String::from_str("Execute ").concat(t.name().as_str()),
            },
        }
    }
}

/// The preview of an edit of a file whose current content is `old_file`: none when
/// the edit would change nothing.
pub open spec fn edit_preview_of(old_file: Seq<char>, input: EditInput) -> Option<(Seq<char>, Seq<char>)> {
    let new_file = replace_first_spec(old_file, input.old_string@, input.new_string@);
    if new_file == old_file {
        None
    } else {
        Some((old_file, new_file))
    }
}

impl Edit {
    /// The edit's preview from the file's current content.
    pub fn generate_preview(old_file: String, input: &EditInput) -> (r: Option<ToolPreview>)
        ensures
            match edit_preview_of(old_file@, *input) {
                None => r is None,
                Some((o, n)) => r matches Some(ToolPreview::Edit { old_file: a, new_file: b }) && a@ == o
                    && b@ == n,
            },
    {
        let new_file = replace_first(old_file.as_str(), input.old_string.as_str(), input.new_string.as_str());
        if new_file == old_file {
            None
        } else {
            Some(ToolPreview::Edit { old_file, new_file })
        }
    }

    /// The file's content after the edit.
    pub fn apply(old_file: &str, input: &EditInput) -> (r: String)
        ensures
            r@ == replace_first_spec(old_file@, input.old_string@, input.new_string@),
    {
        replace_first(old_file, input.old_string.as_str(), input.new_string.as_str())
    }
}

impl Write {
    /// A write always previews its content.
    pub fn generate_preview(input: &WriteInput) -> (r: Option<ToolPreview>)
        ensures
            r matches Some(ToolPreview::Write { content }) && content == input.content,
    {
        Some(ToolPreview::Write { content: input.content.clone() })
    }
}

/// How a directory entry is listed: directories end in `/`.
pub open spec fn entry_label_of(name: Seq<char>, is_dir: bool) -> Seq<char> {
    if is_dir {
        name + "/"@
    } else {
        name
    }
}

/// What a listing reports for its sorted entry labels.
pub open spec fn listing_text(labels: Seq<Seq<char>>) -> Seq<char> {
    if labels.len() == 0 {
        "(empty directory)"@
    } else {
        joined_lines(labels)
    }
}

/// What a search reports for its matching lines.
pub open spec fn search_text(matches: Seq<Seq<char>>) -> Seq<char> {
    if matches.len() == 0 {
        "No matches found."@
    } else {
        joined_lines(matches)
    }
}

impl Ls {
    pub fn entry_label(name: String, is_dir: bool) -> (r: String)
        ensures
            r@ == entry_label_of(name@, is_dir),
    {
        if is_dir {
            name.concat("/")
        } else {
            name
        }
    }

    /// The listing of a directory from its entry labels, already sorted.
    pub fn listing(labels: &Vec<String>) -> (r: String)
        ensures
            r@ == listing_text(views(labels@)),
    {
        if labels.len() == 0 {
            String::from_str("(empty directory)")
        } else {
            join_lines(labels)
        }
    }
}

impl Grep {
    /// The report of a search from its matching lines, in the order found.
    pub fn report(matches: &Vec<String>) -> (r: String)
        ensures
            r@ == search_text(views(matches@)),
    {
        if matches.len() == 0 {
            String::from_str("No matches found.")
        } else {
            join_lines(matches)
        }
    }
}

/// A shell command that is not intrinsically safe is asked about in manual mode
/// whether or not the allowlist covers it; in automatic mode it runs without asking
/// exactly when the allowlist covers it; in the most permissive mode it always runs.
pub proof fn lemma_allowlist_skips_prompt(e: Expression, allow: Seq<String>, m: PermissionMode)
    requires
        !expression_safe(e),
    ensures
        gate_of(expression_permission(e, allow), m) != Gate::Refuse,
        m == PermissionMode::Manual ==> gate_of(expression_permission(e, allow), m) == Gate::Ask,
        m == PermissionMode::Automatic ==> (gate_of(expression_permission(e, allow), m) == Gate::Ask
            <==> !expression_allowed(e, allow)),
        m == PermissionMode::Yolo ==> gate_of(expression_permission(e, allow), m) == Gate::Proceed,
{
}

} // verus!
