//! Capability servers: configuration checks, tool naming and permission policy,
//! request ids, and the reading of JSON-RPC responses once they are decoded.
use crate::permission::Permission;
use crate::text::{is_blank, is_blank_spec, str_eq};
use crate::tools::{first_of_each_name, handle_name, tool_names, ToolHandle};
use crate::tool_error::ToolError;
use std::collections::HashMap;
use vstd::prelude::*;
use vstd::string::StringExecFns;

verus! {

/// The protocol version sent in the handshake.
pub const PROTOCOL_VERSION: &'static str = "2024-11-05";

/// The client name sent in the handshake.
pub const CLIENT_NAME: &'static str = "enchant";

/// A capability server started over stdio.
#[derive(Clone, Debug)]
pub struct McpServerConfig {
    pub name: String,
    pub command: String,
    pub args: Vec<String>,
    pub env: HashMap<String, String>,
    /// Permission policy for every tool of this server: one of "implicit",
    /// "allow_automatic", "require_approval", "never".
    pub permission: Option<String>,
}

/// A tool as a server describes it.
#[derive(Clone, Debug)]
pub struct McpToolDef {
    pub server: String,
    pub name: String,
    pub description: Option<String>,
    /// The input schema as JSON text.
    pub input_schema: String,
}

/// A registered tool backed by a capability server.
#[derive(Clone, Debug)]
pub struct McpTool {
    pub server_name: String,
    pub tool_name: String,
    pub description: Option<String>,
    /// The input schema as JSON text.
    pub input_schema: String,
    pub permission: Permission,
}

/// The fully qualified name of a server's tool: `<server>.<tool>`.
pub open spec fn fq_name_of(server: Seq<char>, tool: Seq<char>) -> Seq<char> {
    server + "."@ + tool
}

pub fn tool_fq_name(server_name: &str, tool_name: &str) -> (r: String)
    ensures
        r@ == fq_name_of(server_name@, tool_name@),
{
    String::from_str(server_name).concat(".").concat(tool_name)
}

/// The permission that a server's policy name stands for; no name, or an unknown
/// one, means `RequireApproval`.
pub open spec fn permission_named(s: Option<Seq<char>>) -> Permission {
    match s {
        Some(n) => if n == "implicit"@ {
            Permission::Implicit
        } else if n == "allow_automatic"@ {
            Permission::AllowAutomatic
        } else if n == "never"@ {
            Permission::Never
        } else {
            Permission::RequireApproval
        },
        None => Permission::RequireApproval,
    }
}

pub fn parse_permission(s: Option<&str>) -> (r: Permission)
    ensures
        r == permission_named(
            match s {
                Some(n) => Some(n@),
                None => None,
            },
        ),
{
    match s {
        Some(n) => if str_eq(n, "implicit") {
            Permission::Implicit
        } else if str_eq(n, "allow_automatic") {
            Permission::AllowAutomatic
        } else if str_eq(n, "never") {
            Permission::Never
        } else {
            Permission::RequireApproval
        },
        None => Permission::RequireApproval,
    }
}

/// A server's configuration is usable when its name and its command are not blank
/// (empty, or white space only).
pub open spec fn config_error(cfg: McpServerConfig) -> Option<Seq<char>> {
    if is_blank_spec(cfg.name@) {
        Some("MCP server config missing 'name'"@)
    } else if is_blank_spec(cfg.command@) {
        Some("MCP server '"@ + cfg.name@ + "' missing 'command'"@)
    } else {
        None
    }
}

/// Checks a server's configuration before it is started.
pub fn check_server_config(cfg: &McpServerConfig) -> (r: Result<(), ToolError>)
    ensures
        match config_error(*cfg) {
            None => r is Ok,
            Some(m) => r matches Err(ToolError::Error { message }) && message@ == m,
        },
{
    if is_blank(cfg.name.as_str()) {
        return Err(ToolError::Error { message: String::from_str("MCP server config missing 'name'") });
    }
    if is_blank(cfg.command.as_str()) {
        let message = String::from_str("MCP server '").concat(cfg.name.as_str()).concat(
            "' missing 'command'",
        );
        return Err(ToolError::Error { message });
    }
    Ok(())
}

/// The position of the first server whose name an earlier server already has.
pub fn first_repeated_server(servers: &Vec<McpServerConfig>) -> (r: Option<usize>)
    ensures
        r matches Some(i) ==> i < servers@.len() && (exists|j: int|
            0 <= j < i && (#[trigger] servers@[j]).name@ == servers@[i as int].name@) && forall|a: int, b: int|
            0 <= a < b < i ==> (#[trigger] servers@[a]).name@ != (#[trigger] servers@[b]).name@,
        r is None ==> forall|a: int, b: int|
            0 <= a < b < servers@.len() ==> (#[trigger] servers@[a]).name@ != (#[trigger] servers@[b]).name@,
{
    let mut i: usize = 0;
    while i < servers.len()
        invariant
            i <= servers@.len(),
            forall|a: int, b: int|
                0 <= a < b < i ==> (#[trigger] servers@[a]).name@ != (#[trigger] servers@[b]).name@,
        decreases servers@.len() - i,
    {
        let mut j: usize = 0;
        while j < i
            invariant
                i < servers@.len(),
                j <= i,
                forall|a: int, b: int|
                    0 <= a < b < i ==> (#[trigger] servers@[a]).name@ != (#[trigger] servers@[b]).name@,
                forall|a: int| 0 <= a < j ==> (#[trigger] servers@[a]).name@ != servers@[i as int].name@,
            decreases i - j,
        {
            if servers[j].name == servers[i].name {
                assert(servers@[j as int].name@ == servers@[i as int].name@);
                return Some(i);
            }
            j = j + 1;
        }
        i = i + 1;
    }
    None
}

impl McpTool {
    pub open spec fn fq_name_spec(&self) -> Seq<char> {
        fq_name_of(self.server_name@, self.tool_name@)
    }

    /// A registered tool for a server's tool description, under the server's policy.
    pub fn new(def: McpToolDef, server_cfg: &McpServerConfig) -> (r: Self)
        ensures
            r.server_name == def.server,
            r.tool_name == def.name,
            r.description == def.description,
            r.input_schema == def.input_schema,
            r.permission == permission_named(
                match server_cfg.permission {
                    Some(p) => Some(p@),
                    None => None,
                },
            ),
    {
        let permission = match &server_cfg.permission {
            Some(p) => parse_permission(Some(p.as_str())),
            None => parse_permission(None),
        };
        McpTool {
            server_name: def.server,
            tool_name: def.name,
            description: def.description,
            input_schema: def.input_schema,
            permission,
        }
    }

    pub fn fq_name(&self) -> (r: String)
        ensures
            r@ == self.fq_name_spec(),
    {
        tool_fq_name(self.server_name.as_str(), self.tool_name.as_str())
    }

    /// The description of a call for prompts and history: the tool's name and its
    /// arguments.
    pub fn describe_action(&self, input: &str) -> (r: String)
        ensures
            r@ == self.fq_name_spec() + "("@ + input@ + ")"@,
    {
        self.fq_name().concat("(").concat(input).concat(")")
    }
}

/// The protocol state of one connection: the server's name and the id the next
/// request will carry. The process and its streams are held by the caller, which
/// sends one request at a time.
#[derive(Clone, Debug)]
pub struct McpConnection {
    pub server_name: String,
    pub next_id: u64,
}

impl McpConnection {
    /// A fresh connection; its first request carries id 1.
    pub fn new(server_name: String) -> (r: Self)
        ensures
            r.server_name == server_name,
            r.next_id == 1,
    {
        McpConnection { server_name, next_id: 1 }
    }

    /// Whether another request id can be issued.
    pub fn can_issue(&self) -> (r: bool)
        ensures
            r == (self.next_id < u64::MAX),
    {
        self.next_id < u64::MAX
    }

    /// Hands out the id of the next request; ids strictly increase.
    pub fn issue_id(&mut self) -> (r: u64)
        requires
            old(self).next_id < u64::MAX,
        ensures
            r == old(self).next_id,
            final(self).next_id == r + 1,
            final(self).server_name == old(self).server_name,
    {
        let id = self.next_id;
        self.next_id = id + 1;
        id
    }

    /// What to do with a decoded line while awaiting the response to `expected`: skip
    /// it when it carries another id (or none), fail when it carries an error, and
    /// take it otherwise.
    pub fn response_disposition(&self, expected: u64, id: Option<u64>, error: Option<String>) -> (r:
        Disposition)
        ensures
            id != Some(expected) ==> r is Skip,
            id == Some(expected) && error is None ==> r is Accept,
            id == Some(expected) && error is Some ==> (r matches Disposition::Fail(
                ToolError::Error { message },
            ) && message@ == "MCP error from '"@ + self.server_name@ + "': "@ + error->Some_0@),
    {
        if id != Some(expected) {
            return Disposition::Skip;
        }
        match error {
            Some(e) => Disposition::Fail(
                ToolError::Error {
                    message: String::from_str("MCP error from '").concat(
                        self.server_name.as_str(),
                    ).concat("': ").concat(e.as_str()),
                },
            ),
            None => Disposition::Accept,
        }
    }

    /// The error when the server's output ends while a response is awaited.
    pub fn closed_error(&self) -> (r: ToolError)
        ensures
            r matches ToolError::Error { message } && message@ == "MCP server '"@ + self.server_name@
                + "' closed stdout"@,
    {
        ToolError::Error {
            message: String::from_str("MCP server '").concat(self.server_name.as_str()).concat(
                "' closed stdout",
            ),
        }
    }
}

/// What becomes of one line read while a response is awaited.
#[derive(Clone, Debug)]
pub enum Disposition {
    /// Not the awaited response; read the next line.
    Skip,
    /// The awaited response carries an error.
    Fail(ToolError),
    /// The awaited response; its result is the answer.
    Accept,
}

/// One entry of a `tools/list` result, as decoded from the server's JSON.
#[derive(Clone, Debug)]
pub struct ListedTool {
    /// The `name` field, when it is a string.
    pub name: Option<String>,
    /// The `description` field, when it is a string.
    pub description: Option<String>,
    /// The `inputSchema` field as JSON text, when present.
    pub input_schema: Option<String>,
    /// The whole entry as JSON text.
    pub raw: String,
}

/// A `tools/list` result, as decoded from the server's JSON.
#[derive(Clone, Debug)]
pub struct ToolListing {
    /// The `tools` field, when it is an array.
    pub tools: Option<Vec<ListedTool>>,
    /// The whole result as JSON text.
    pub raw: String,
}

/// The schema given to a tool whose server declares none: an open object.
pub open spec fn default_schema() -> Seq<char> {
    "{\"type\":\"object\"}"@
}

/// The description of a listed tool, once it has a name.
pub open spec fn def_matches(d: McpToolDef, server: Seq<char>, t: ListedTool) -> bool {
    &&& d.server@ == server
    &&& t.name matches Some(n) && d.name@ == n@
    &&& d.description == t.description
    &&& d.input_schema@ == match t.input_schema {
        Some(sch) => sch@,
        None => default_schema(),
    }
}

impl McpConnection {
    /// Reads a `tools/list` result into tool descriptions: fails when it has no
    /// `tools` array, or at the first entry without a name.
    pub fn tool_defs(&self, listing: &ToolListing) -> (r: Result<Vec<McpToolDef>, ToolError>)
        ensures
            listing.tools is None ==> (r matches Err(ToolError::Error { message }) && message@
                == "MCP '"@ + self.server_name@ + "' tools/list returned unexpected shape: "@
                + listing.raw@),
            listing.tools matches Some(ts) ==> {
                &&& (forall|i: int| 0 <= i < ts@.len() ==> (#[trigger] ts@[i]).name is Some)
                    ==> (r matches Ok(defs) && defs@.len() == ts@.len() && forall|i: int|
                    0 <= i < ts@.len() ==> def_matches(#[trigger] defs@[i], self.server_name@, ts@[i]))
                &&& forall|k: int|
                    0 <= k < ts@.len() && (#[trigger] ts@[k]).name is None && (forall|i: int|
                        0 <= i < k ==> (#[trigger] ts@[i]).name is Some) ==> (r matches Err(
                        ToolError::Error { message },
                    ) && message@ == "MCP '"@ + self.server_name@ + "' tool missing name: "@
                        + ts@[k].raw@)
            },
    {
        let ts = match &listing.tools {
            Some(ts) => ts,
            None => {
                let message = String::from_str("MCP '").concat(self.server_name.as_str()).concat(
                    "' tools/list returned unexpected shape: ",
                ).concat(listing.raw.as_str());
                return Err(ToolError::Error { message });
            },
        };
        let mut defs: Vec<McpToolDef> = Vec::new();
        let mut i: usize = 0;
        while i < ts.len()
            invariant
                listing.tools == Some(*ts),
                i <= ts@.len(),
                defs@.len() == i,
                forall|k: int| 0 <= k < i ==> (#[trigger] ts@[k]).name is Some,
                forall|k: int|
                    0 <= k < i ==> def_matches(#[trigger] defs@[k], self.server_name@, ts@[k]),
            decreases ts@.len() - i,
        {
            let t = &ts[i];
            let name = match &t.name {
                Some(n) => n.clone(),
                None => {
                    let message = String::from_str("MCP '").concat(self.server_name.as_str()).concat(
                        "' tool missing name: ",
                    ).concat(t.raw.as_str());
                    return Err(ToolError::Error { message });
                },
            };
            let input_schema = match &t.input_schema {
                Some(sch) => sch.clone(),
                None => String::from_str("{\"type\":\"object\"}"),
            };
            let description = match &t.description {
                Some(d) => Some(d.clone()),
                None => None,
            };
            defs.push(
                McpToolDef {
                    server: self.server_name.clone(),
                    name,
                    description,
                    input_schema,
                },
            );
            i = i + 1;
        }
        Ok(defs)
    }
}

/// One content block of a `tools/call` result, as decoded.
#[derive(Clone, Debug)]
pub struct ContentBlock {
    /// The `type` field, when it is a string.
    pub kind: Option<String>,
    /// The `text` field, when it is a string.
    pub text: Option<String>,
}

/// The `content` field of a `tools/call` result, as decoded.
#[derive(Clone, Debug)]
pub struct CallContent {
    /// The blocks, when `content` is an array.
    pub blocks: Option<Vec<ContentBlock>>,
    /// `content` as JSON text.
    pub raw: String,
}

/// A `tools/call` result, as decoded.
#[derive(Clone, Debug)]
pub struct CallResult {
    pub content: Option<CallContent>,
    /// The whole result as JSON text.
    pub raw: String,
}

/// The text a block contributes: its `text`, when its type is "text".
pub open spec fn block_text(b: ContentBlock) -> Option<Seq<char>> {
    match (b.kind, b.text) {
        (Some(k), Some(t)) => if k@ == "text"@ {
            Some(t@)
        } else {
            None
        },
        _ => None,
    }
}

/// The texts of the blocks, in order, joined with newlines (an empty text adds no
/// separator while nothing has been written yet).
pub open spec fn joined_text(blocks: Seq<ContentBlock>) -> Seq<char>
    decreases blocks.len(),
{
    if blocks.len() == 0 {
        Seq::empty()
    } else {
        let prev = joined_text(blocks.drop_last());
        match block_text(blocks.last()) {
            Some(t) => if prev.len() == 0 {
                t
            } else {
                prev + "\n"@ + t
            },
            None => prev,
        }
    }
}

/// The textual answer of a `tools/call` result.
pub open spec fn call_text(r: CallResult) -> Seq<char> {
    match r.content {
        Some(c) => match c.blocks {
            Some(bs) => if joined_text(bs@).len() > 0 {
                joined_text(bs@)
            } else {
                c.raw@
            },
            None => c.raw@,
        },
        None => r.raw@,
    }
}

/// The text of a tool call's result: the text blocks joined with newlines, or,
/// when there is no text, the content (or the whole result) as JSON text.
pub fn call_result_text(result: &CallResult) -> (r: String)
    ensures
        r@ == call_text(*result),
{
    let c = match &result.content {
        Some(c) => c,
        None => return result.raw.clone(),
    };
    let bs = match &c.blocks {
        Some(bs) => bs,
        None => return c.raw.clone(),
    };
    let mut out = String::new();
    let mut i: usize = 0;
    while i < bs.len()
        invariant
            i <= bs@.len(),
            out@ == joined_text(bs@.subrange(0, i as int)),
        decreases bs@.len() - i,
    {
        let b = &bs[i];
        proof {
            let pre = bs@.subrange(0, i + 1);
            assert(pre.drop_last() == bs@.subrange(0, i as int));
            assert(pre.last() == bs@[i as int]);
            reveal_strlit("text");
        }
        match (&b.kind, &b.text) {
            (Some(k), Some(t)) => {
                if str_eq(k.as_str(), "text") {
                    if out.as_str().is_empty() {
                        out = t.clone();
                    } else {
                        out.append("\n");
                        out.append(t.as_str());
                    }
                }
            },
            _ => {},
        }
        i = i + 1;
    }
    proof {
        assert(bs@.subrange(0, bs@.len() as int) == bs@);
    }
    if out.as_str().is_empty() {
        c.raw.clone()
    } else {
        out
    }
}

/// Whether a tool with the fully qualified name `name` is among `tools`.
pub open spec fn has_tool_named(tools: Seq<McpTool>, name: Seq<char>) -> bool {
    exists|i: int| 0 <= i < tools.len() && (#[trigger] tools[i]).fq_name_spec() == name
}

/// No two tools share a fully qualified name.
pub open spec fn names_unique(tools: Seq<McpTool>) -> bool {
    forall|i: int, j: int|
        0 <= i < tools.len() && 0 <= j < tools.len() && i != j ==> (#[trigger] tools[i]).fq_name_spec()
            != (#[trigger] tools[j]).fq_name_spec()
}

/// The tools after offering `t`: unchanged when its name is taken, else `t` appended.
pub open spec fn registered_after(tools: Seq<McpTool>, t: McpTool) -> Seq<McpTool> {
    if has_tool_named(tools, t.fq_name_spec()) {
        tools
    } else {
        tools.push(t)
    }
}

/// The tools discovered on the configured servers, in discovery order, one per
/// fully qualified name.
#[derive(Clone, Debug)]
pub struct McpRegistry {
    pub tools: Vec<McpTool>,
}

impl McpRegistry {
    pub open spec fn wf(&self) -> bool {
        names_unique(self.tools@)
    }

    pub fn new() -> (r: Self)
        ensures
            r.tools@.len() == 0,
            r.wf(),
    {
        McpRegistry { tools: Vec::new() }
    }

    /// Offers a discovered tool: it is registered unless a tool of the same fully
    /// qualified name already is, in which case the first one stays.
    pub fn add(&mut self, tool: McpTool) -> (added: bool)
        requires
            old(self).wf(),
        ensures
            final(self).wf(),
            added == !has_tool_named(old(self).tools@, tool.fq_name_spec()),
            final(self).tools@ == registered_after(old(self).tools@, tool),
    {
        let name = tool.fq_name();
        let mut i: usize = 0;
        while i < self.tools.len()
            invariant
                *self == *old(self),
                old(self).wf(),
                i <= self.tools@.len(),
                name@ == tool.fq_name_spec(),
                forall|k: int| 0 <= k < i ==> (#[trigger] self.tools@[k]).fq_name_spec() != name@,
            decreases self.tools@.len() - i,
        {
            if self.tools[i].fq_name() == name {
                return false;
            }
            i = i + 1;
        }
        self.tools.push(tool);
        proof {
            let ts = self.tools@;
            assert forall|a: int, b: int|
                0 <= a < ts.len() && 0 <= b < ts.len() && a != b implies (#[trigger] ts[a]).fq_name_spec()
                != (#[trigger] ts[b]).fq_name_spec() by {
                if a < ts.len() - 1 && b < ts.len() - 1 {
                    assert(ts[a] == old(self).tools@[a]);
                    assert(ts[b] == old(self).tools@[b]);
                }
            }
        }
        true
    }
}

/// The tools after offering each of `s` in turn.
pub open spec fn registered_all(tools: Seq<McpTool>, s: Seq<McpTool>) -> Seq<McpTool>
    decreases s.len(),
{
    if s.len() == 0 {
        tools
    } else {
        registered_after(registered_all(tools, s.drop_last()), s.last())
    }
}

pub open spec fn as_handles(s: Seq<McpTool>) -> Seq<ToolHandle> {
    s.map_values(|t: McpTool| ToolHandle::Mcp(t))
}

impl McpRegistry {
    /// Offers one server's catalogue, tool by tool, in order.
    pub fn add_all(&mut self, tools: Vec<McpTool>)
        requires
            old(self).wf(),
        ensures
            final(self).wf(),
            final(self).tools@ == registered_all(old(self).tools@, tools@),
    {
        let ghost all = tools@;
        let n = tools.len();
        let mut rest = tools;
        let mut i: usize = 0;
        proof {
            assert(all.subrange(0, 0) == Seq::<McpTool>::empty());
        }
        while rest.len() > 0
            invariant
                self.wf(),
                all.len() == n,
                i + rest@.len() == n,
                rest@ == all.subrange(i as int, n as int),
                self.tools@ == registered_all(old(self).tools@, all.subrange(0, i as int)),
            decreases rest@.len(),
        {
            let t = rest.remove(0);
            proof {
                let pre = all.subrange(0, i + 1);
                assert(pre.drop_last() == all.subrange(0, i as int));
                assert(pre.last() == t);
            }
            self.add(t);
            i = i + 1;
            proof {
                assert(rest@ == all.subrange(i as int, n as int));
            }
        }
        proof {
            assert(all.subrange(0, n as int) == all);
        }
    }
}

proof fn lemma_registered_all_concat(tools: Seq<McpTool>, a: Seq<McpTool>, b: Seq<McpTool>)
    ensures
        registered_all(registered_all(tools, a), b) == registered_all(tools, a + b),
    decreases b.len(),
{
    if b.len() == 0 {
        assert(a + b == a);
    } else {
        lemma_registered_all_concat(tools, a, b.drop_last());
        assert((a + b).drop_last() == a + b.drop_last());
        assert((a + b).last() == b.last());
    }
}

proof fn lemma_registry_pass(s: Seq<McpTool>)
    ensures
        as_handles(registered_all(seq![], s)) == first_of_each_name(as_handles(s)),
    decreases s.len(),
{
    if s.len() > 0 {
        let q = s.drop_last();
        let last = s.last();
        lemma_registry_pass(q);
        assert(as_handles(s).drop_last() == as_handles(q));
        assert(as_handles(s).last() == ToolHandle::Mcp(last));
        let pm = registered_all(seq![], q);
        let ph = first_of_each_name(as_handles(q));
        assert(handle_name(ToolHandle::Mcp(last)) == last.fq_name_spec());
        if has_tool_named(pm, last.fq_name_spec()) {
            let i = choose|i: int| 0 <= i < pm.len() && (#[trigger] pm[i]).fq_name_spec() == last.fq_name_spec();
            assert(tool_names(ph)[i] == handle_name(as_handles(pm)[i]));
            assert(tool_names(ph).contains(handle_name(ToolHandle::Mcp(last))));
        } else {
            if tool_names(ph).contains(handle_name(ToolHandle::Mcp(last))) {
                let i = choose|i: int| 0 <= i < ph.len() && tool_names(ph)[i] == handle_name(ToolHandle::Mcp(last));
                assert(ph[i] == ToolHandle::Mcp(pm[i]));
                assert(pm[i].fq_name_spec() == last.fq_name_spec());
            }
            assert(as_handles(pm.push(last)) == as_handles(pm).push(ToolHandle::Mcp(last)));
        }
    }
}

/// Discovering two catalogues in turn, from one server or from two, registers the
/// first tool of each fully qualified name over both, in discovery order: exactly
/// what the registry keeps of their concatenation.
pub proof fn lemma_discovery_keeps_first(a: Seq<McpTool>, b: Seq<McpTool>)
    ensures
        as_handles(registered_all(registered_all(seq![], a), b)) == first_of_each_name(
            as_handles(a + b),
        ),
{
    lemma_registered_all_concat(seq![], a, b);
    lemma_registry_pass(a + b);
}

/// Offering two tools of the same fully qualified name, from one server's
/// catalogue or from two servers, registers exactly one of them: the first, unless
/// the name was already taken.
pub proof fn lemma_first_tool_wins(tools: Seq<McpTool>, a: McpTool, b: McpTool)
    requires
        names_unique(tools),
        a.fq_name_spec() == b.fq_name_spec(),
    ensures
        names_unique(registered_after(registered_after(tools, a), b)),
        !has_tool_named(tools, a.fq_name_spec()) ==> registered_after(registered_after(tools, a), b)
            == tools.push(a),
        has_tool_named(tools, a.fq_name_spec()) ==> registered_after(registered_after(tools, a), b)
            == tools,
{
    let t1 = registered_after(tools, a);
    if !has_tool_named(tools, a.fq_name_spec()) {
        assert(t1[tools.len() as int] == a);
        assert(has_tool_named(t1, b.fq_name_spec()));
        assert forall|i: int, j: int|
            0 <= i < t1.len() && 0 <= j < t1.len() && i != j implies (#[trigger] t1[i]).fq_name_spec()
            != (#[trigger] t1[j]).fq_name_spec() by {
            if i < tools.len() && j < tools.len() {
                assert(t1[i] == tools[i]);
                assert(t1[j] == tools[j]);
            } else if i < tools.len() {
                assert(t1[i] == tools[i]);
            } else {
                assert(t1[j] == tools[j]);
            }
        }
    }
}

} // verus!
