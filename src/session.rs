//! The session controller: conversation history, the batch of tool calls the
//! model asked for, the approval ledger, and the decisions of each step. The caller
//! queries the model and runs the tools; the session decides what comes next.
use crate::config::ConfigState;
use crate::permission::{gate_of, Gate, Permission, PermissionMode};
use crate::tool_error::{error_text, ToolError};
use crate::tools::{
    description_of, generic_description, handle_name, permission_of, PermissionRequest, ToolHandle, ToolInput, ToolPreview, Toolset,
};
use crate::text::str_eq;
use vstd::prelude::*;
use vstd::string::StringExecFns;

verus! {

/// A tool call requested by the model; its arguments as JSON text.
#[derive(Clone, Debug)]
pub struct ToolCall {
    pub call_id: String,
    pub fn_name: String,
    pub fn_arguments: String,
}

/// A message of the conversation.
#[derive(Clone, Debug)]
pub enum ChatMessage {
    System(String),
    User(String),
    /// The model's reply, with the tool calls it requested.
    Assistant { text: String, tool_calls: Vec<ToolCall> },
    /// The textual result of one tool call.
    ToolResponse { call_id: String, content: String },
}

/// A tool call of the current batch, with its decoded arguments (for a built-in
/// tool) and the permission it needs, fixed when the batch was recorded.
#[derive(Clone, Debug)]
pub struct PendingToolCall {
    pub call: ToolCall,
    pub input: Option<ToolInput>,
    pub permission_requirement: Permission,
}

/// The result of one step, as the driver sees it.
#[derive(Clone, Debug)]
pub enum ThinkResult {
    /// The model answered without tool calls.
    Done,
    /// Some calls of the batch need the user's decision.
    NeedsPermission(Vec<PermissionRequest>),
    /// The batch ran; the model should be queried again.
    Continue,
}

/// What to do with one call of a batch once every call is resolved.
#[derive(Clone, Copy, Debug, PartialEq, Eq, Structural)]
pub enum CallAction {
    /// Run the tool and report its result.
    Run,
    /// The user denied it: report a denial without running the tool.
    Denied,
    /// Its permission is `Never`: report a refusal without running the tool.
    Refused,
}

/// What the driver has to do next.
#[derive(Clone, Debug)]
pub enum Step {
    /// No batch is pending: send the conversation to the model.
    QueryModel,
    /// These calls of the batch (by position) await the user's decision.
    AwaitApproval(Vec<usize>),
    /// Every call is resolved: carry out these actions, one per call, in order.
    Execute(Vec<CallAction>),
}

/// The result text of a call the user denied.
pub open spec fn denied_text() -> Seq<char> {
    "Error: Permission denied by user"@
}

/// The result text of a call whose permission is `Never`.
pub open spec fn refused_text() -> Seq<char> {
    "Error: Permission refused by policy"@
}

pub open spec fn in_ledger(v: Seq<String>, id: Seq<char>) -> bool {
    exists|i: int| 0 <= i < v.len() && (#[trigger] v[i])@ == id
}

/// The ledger after approving `id`: approved, and no longer denied.
pub open spec fn approve_spec(approved: Set<Seq<char>>, denied: Set<Seq<char>>, id: Seq<char>) -> (
    Set<Seq<char>>,
    Set<Seq<char>>,
) {
    (approved.insert(id), denied.remove(id))
}

/// The ledger after denying `id`: denied, and no longer approved.
pub open spec fn deny_spec(approved: Set<Seq<char>>, denied: Set<Seq<char>>, id: Seq<char>) -> (
    Set<Seq<char>>,
    Set<Seq<char>>,
) {
    (approved.remove(id), denied.insert(id))
}

/// The permission recorded for a call: what the registry says, and `RequireApproval`
/// when the registry reports arguments it cannot classify.
pub open spec fn recorded_permission(
    h: ToolHandle,
    input: Option<ToolInput>,
    allow: Seq<String>,
    p: Permission,
) -> bool {
    permission_of(h, input, allow, Ok(p)) || (permission_of(h, input, allow, Err(())) && p
        == Permission::RequireApproval)
}

/// The permission recorded for a call to the tool named `name`.
pub open spec fn call_permission(
    tools: Seq<ToolHandle>,
    name: Seq<char>,
    input: Option<ToolInput>,
    allow: Seq<String>,
    p: Permission,
) -> bool {
    &&& (forall|i: int| 0 <= i < tools.len() ==> handle_name(#[trigger] tools[i]) != name) ==> p
        == Permission::Implicit
    &&& forall|i: int|
        0 <= i < tools.len() && handle_name(#[trigger] tools[i]) == name ==> recorded_permission(
            tools[i],
            input,
            allow,
            p,
        )
}

/// The result text of a call from its action and, when it ran, its outcome.
pub open spec fn result_text(action: CallAction, outcome: Option<Result<String, ToolError>>) -> Seq<
    char,
> {
    match action {
        CallAction::Denied => denied_text(),
        CallAction::Refused => refused_text(),
        CallAction::Run => match outcome {
            Some(Ok(s)) => s@,
            Some(Err(e)) => "Error: "@ + error_text(e),
            None => Seq::empty(),
        },
    }
}

/// One conversation with the model.
pub struct Session {
    pub model: String,
    pub working_directory: String,
    pub messages: Vec<ChatMessage>,
    pub tools: Toolset,
    pub mode: PermissionMode,
    /// The most recent total of tokens the model reported.
    pub total_tokens: Option<i32>,
    /// The calls of the current batch, in the order the model requested them.
    pub pending_calls: Vec<PendingToolCall>,
    /// Ids approved by the user in the current batch.
    pub approved_calls: Vec<String>,
    /// Ids denied by the user in the current batch.
    pub denied_calls: Vec<String>,
    pub config: ConfigState,
}

impl Session {
    pub open spec fn pending(&self) -> Seq<PendingToolCall> {
        self.pending_calls@
    }

    pub open spec fn approved(&self) -> Set<Seq<char>> {
        Set::new(|id: Seq<char>| in_ledger(self.approved_calls@, id))
    }

    pub open spec fn denied(&self) -> Set<Seq<char>> {
        Set::new(|id: Seq<char>| in_ledger(self.denied_calls@, id))
    }

    /// The registry is well formed, and no call is both approved and denied.
    pub open spec fn wf(&self) -> bool {
        &&& self.tools.wf()
        &&& self.approved().disjoint(self.denied())
    }

    /// Pending call `i` waits for the user: its permission asks under the current
    /// mode and it is neither approved nor denied.
    pub open spec fn awaiting(&self, i: int) -> bool {
        let c = self.pending()[i];
        &&& gate_of(c.permission_requirement, self.mode) == Gate::Ask
        &&& !self.approved().contains(c.call.call_id@)
        &&& !self.denied().contains(c.call.call_id@)
    }

    /// What happens to pending call `i` once nothing awaits the user.
    pub open spec fn action_of(&self, i: int) -> CallAction {
        let c = self.pending()[i];
        if self.denied().contains(c.call.call_id@) {
            CallAction::Denied
        } else if gate_of(c.permission_requirement, self.mode) == Gate::Refuse {
            CallAction::Refused
        } else {
            CallAction::Run
        }
    }

    /// A session with the system prompt, and the project's notes when there are
    /// any, as its first messages. It uses the configured model, or `default_model`
    /// when the configuration names none.
    pub fn new(
        config: &ConfigState,
        default_model: &str,
        working_directory: String,
        system_prompt: String,
        project_notes: Option<String>,
        tools: Toolset,
        mode: PermissionMode,
    ) -> (r: Self)
        requires
            tools.wf(),
        ensures
            r.wf(),
            r.model@ == match config.base.default_model {
                Some(m) => m@,
                None => default_model@,
            },
            r.working_directory == working_directory,
            r.messages@ == match project_notes {
                Some(n) => seq![ChatMessage::System(system_prompt), ChatMessage::System(n)],
                None => seq![ChatMessage::System(system_prompt)],
            },
            r.tools == tools,
            r.mode == mode,
            r.total_tokens is None,
            r.pending().len() == 0,
            r.approved().is_empty(),
            r.denied().is_empty(),
    {
        let mut messages: Vec<ChatMessage> = Vec::new();
        messages.push(ChatMessage::System(system_prompt));
        match project_notes {
            Some(n) => messages.push(ChatMessage::System(n)),
            None => {},
        }
        let model = match &config.base.default_model {
            Some(m) => m.clone(),
            None => String::from_str(default_model),
        };
        let r = Session {
            model,
            working_directory,
            messages,
            tools,
            mode,
            total_tokens: None,
            pending_calls: Vec::new(),
            approved_calls: Vec::new(),
            denied_calls: Vec::new(),
            config: config.clone(),
        };
        proof {
            assert(r.approved() =~= Set::empty());
            assert(r.denied() =~= Set::empty());
        }
        r
    }

    /// The configuration the session was created with.
    pub fn config(&self) -> (r: &ConfigState)
        ensures
            *r == self.config,
    {
        &self.config
    }

    /// The calls of the current batch.
    pub fn pending_calls(&self) -> (r: &Vec<PendingToolCall>)
        ensures
            r@ == self.pending(),
    {
        &self.pending_calls
    }

    /// Appends the user's message to the conversation.
    pub fn message(&mut self, message: String)
        ensures
            final(self).messages@ == old(self).messages@.push(ChatMessage::User(message)),
            final(self).pending() == old(self).pending(),
            final(self).approved() == old(self).approved(),
            final(self).denied() == old(self).denied(),
            final(self).tools == old(self).tools,
            final(self).mode == old(self).mode,
    {
        self.messages.push(ChatMessage::User(message));
    }

    /// Whether a batch of calls is pending.
    pub fn has_pending_calls(&self) -> (r: bool)
        ensures
            r == (self.pending().len() > 0),
    {
        self.pending_calls.len() > 0
    }

    /// Approves the call `call_id`: it is approved and no longer denied. Approving
    /// twice is the same as approving once.
    pub fn approve_permission(&mut self, call_id: &str)
        requires
            old(self).wf(),
        ensures
            final(self).wf(),
            (final(self).approved(), final(self).denied()) == approve_spec(
                old(self).approved(),
                old(self).denied(),
                call_id@,
            ),
            final(self).pending() == old(self).pending(),
            final(self).messages == old(self).messages,
            final(self).tools == old(self).tools,
            final(self).mode == old(self).mode,
    {
        ledger_insert(&mut self.approved_calls, call_id);
        let kept = ledger_remove(&self.denied_calls, call_id);
        self.denied_calls = kept;
        proof {
            assert(self.approved() =~= old(self).approved().insert(call_id@));
            assert(self.denied() =~= old(self).denied().remove(call_id@));
        }
    }

    /// Denies the call `call_id`: it is denied and no longer approved.
    pub fn deny_permission(&mut self, call_id: &str)
        requires
            old(self).wf(),
        ensures
            final(self).wf(),
            (final(self).approved(), final(self).denied()) == deny_spec(
                old(self).approved(),
                old(self).denied(),
                call_id@,
            ),
            final(self).pending() == old(self).pending(),
            final(self).messages == old(self).messages,
            final(self).tools == old(self).tools,
            final(self).mode == old(self).mode,
    {
        ledger_insert(&mut self.denied_calls, call_id);
        let kept = ledger_remove(&self.approved_calls, call_id);
        self.approved_calls = kept;
        proof {
            assert(self.denied() =~= old(self).denied().insert(call_id@));
            assert(self.approved() =~= old(self).approved().remove(call_id@));
        }
    }

    /// Whether pending call `i` waits for the user.
    fn is_awaiting(&self, i: usize) -> (r: bool)
        requires
            i < self.pending().len(),
        ensures
            r == self.awaiting(i as int),
    {
        let c = &self.pending_calls[i];
        let asks = c.permission_requirement.needs_approval(self.mode);
        asks && !ledger_contains(&self.approved_calls, c.call.call_id.as_str()) && !ledger_contains(
            &self.denied_calls,
            c.call.call_id.as_str(),
        )
    }

    /// The positions of the pending calls that wait for the user, in order.
    pub fn calls_awaiting_approval(&self) -> (r: Vec<usize>)
        ensures
            forall|k: int| 0 <= k < r@.len() ==> r@[k] < self.pending().len() && self.awaiting(#[trigger] r@[k] as int),
            forall|i: int| 0 <= i < self.pending().len() && self.awaiting(i) ==> r@.contains(i as usize),
            forall|a: int, b: int| 0 <= a < b < r@.len() ==> r@[a] < r@[b],
    {
        let mut r: Vec<usize> = Vec::new();
        let mut i: usize = 0;
        while i < self.pending_calls.len()
            invariant
                i <= self.pending().len(),
                forall|k: int| 0 <= k < r@.len() ==> r@[k] < i && self.awaiting(#[trigger] r@[k] as int),
                forall|j: int| 0 <= j < i && self.awaiting(j) ==> r@.contains(j as usize),
                forall|a: int, b: int| 0 <= a < b < r@.len() ==> r@[a] < r@[b],
            decreases self.pending().len() - i,
        {
            if self.is_awaiting(i) {
                let ghost old_r = r@;
                r.push(i);
                proof {
                    assert forall|j: int| 0 <= j <= i && self.awaiting(j) implies r@.contains(j as usize) by {
                        if j < i {
                            let k = choose|k: int| 0 <= k < old_r.len() && old_r[k] == j as usize;
                            assert(r@[k] == j as usize);
                        } else {
                            assert(r@[old_r.len() as int] == j as usize);
                        }
                    }
                }
            }
            i = i + 1;
        }
        r
    }

    /// Whether some pending call waits for the user.
    pub fn has_pending_permissions(&self) -> (r: bool)
        ensures
            r == exists|i: int| 0 <= i < self.pending().len() && self.awaiting(i),
    {
        let mut i: usize = 0;
        while i < self.pending_calls.len()
            invariant
                i <= self.pending().len(),
                forall|j: int| 0 <= j < i ==> !self.awaiting(j),
            decreases self.pending().len() - i,
        {
            if self.is_awaiting(i) {
                return true;
            }
            i = i + 1;
        }
        false
    }

    /// The action for each pending call, in order.
    fn actions(&self) -> (r: Vec<CallAction>)
        ensures
            r@.len() == self.pending().len(),
            forall|i: int| 0 <= i < r@.len() ==> r@[i] == self.action_of(i),
    {
        let mut r: Vec<CallAction> = Vec::new();
        let mut i: usize = 0;
        while i < self.pending_calls.len()
            invariant
                i <= self.pending().len(),
                r@.len() == i,
                forall|k: int| 0 <= k < i ==> r@[k] == self.action_of(k),
            decreases self.pending().len() - i,
        {
            let c = &self.pending_calls[i];
            let a = if ledger_contains(&self.denied_calls, c.call.call_id.as_str()) {
                CallAction::Denied
            } else {
                match c.permission_requirement.gate(self.mode) {
                    Gate::Refuse => CallAction::Refused,
                    _ => CallAction::Run,
                }
            };
            r.push(a);
            i = i + 1;
        }
        r
    }

    /// What the driver does next: query the model when no batch is pending; else
    /// ask the user about the calls that wait; else carry out the batch.
    pub fn next_step(&self) -> (r: Step)
        ensures
            self.pending().len() == 0 ==> r is QueryModel,
            self.pending().len() > 0 && (exists|i: int| 0 <= i < self.pending().len() && self.awaiting(i))
                ==> (r matches Step::AwaitApproval(v) && v@.len() > 0 && (forall|k: int|
                0 <= k < v@.len() ==> v@[k] < self.pending().len() && self.awaiting(
                    #[trigger] v@[k] as int,
                )) && (forall|i: int| 0 <= i < self.pending().len() && self.awaiting(i) ==> v@.contains(i as usize))
                && (forall|a: int, b: int| 0 <= a < b < v@.len() ==> v@[a] < v@[b])),
            self.pending().len() > 0 && !(exists|i: int| 0 <= i < self.pending().len() && self.awaiting(i))
                ==> (r matches Step::Execute(v) && v@.len() == self.pending().len() && forall|i: int|
                0 <= i < v@.len() ==> v@[i] == self.action_of(i)),
    {
        if self.pending_calls.len() == 0 {
            return Step::QueryModel;
        }
        let waiting = self.calls_awaiting_approval();
        if waiting.len() > 0 {
            proof {
                assert(self.awaiting(waiting@[0] as int));
            }
            Step::AwaitApproval(waiting)
        } else {
            proof {
                assert forall|i: int| 0 <= i < self.pending().len() implies !self.awaiting(i) by {
                    if self.awaiting(i) {
                        assert(waiting@.contains(i as usize));
                    }
                }
            }
            Step::Execute(self.actions())
        }
    }

    /// Records the model's reply. Without tool calls the turn is done; otherwise the
    /// calls become the pending batch, each with the permission it needs, computed
    /// now and kept until the batch completes. `inputs[i]` holds the decoded
    /// arguments of `calls[i]` when it names a built-in tool. The approval ledger
    /// starts empty for every batch.
    pub fn record_reply(
        &mut self,
        text: String,
        calls: Vec<ToolCall>,
        inputs: Vec<Option<ToolInput>>,
        usage_total: Option<i32>,
    ) -> (done: bool)
        requires
            old(self).wf(),
            old(self).pending().len() == 0,
            inputs@.len() == calls@.len(),
        ensures
            final(self).wf(),
            done == (calls@.len() == 0),
            final(self).messages@ == old(self).messages@.push(
                ChatMessage::Assistant { text, tool_calls: calls },
            ),
            final(self).total_tokens == match usage_total {
                Some(t) => Some(t),
                None => old(self).total_tokens,
            },
            final(self).pending().len() == calls@.len(),
            forall|i: int|
                0 <= i < calls@.len() ==> {
                    &&& (#[trigger] final(self).pending()[i]).call == calls@[i]
                    &&& final(self).pending()[i].input == inputs@[i]
                    &&& call_permission(
                        old(self).tools.handles(),
                        calls@[i].fn_name@,
                        inputs@[i],
                        old(self).config.base.permissions.bash.allow@,
                        final(self).pending()[i].permission_requirement,
                    )
                },
            final(self).approved().is_empty(),
            final(self).denied().is_empty(),
            final(self).tools == old(self).tools,
            final(self).mode == old(self).mode,
    {
        match usage_total {
            Some(t) => self.total_tokens = Some(t),
            None => {},
        }
        let ghost all_inputs = inputs@;
        let mut rest = inputs;
        let mut pending: Vec<PendingToolCall> = Vec::new();
        let mut i: usize = 0;
        while i < calls.len()
            invariant
                self.tools.wf(),
                self.tools == old(self).tools,
                self.config == old(self).config,
                i <= calls@.len(),
                all_inputs.len() == calls@.len(),
                rest@ == all_inputs.subrange(i as int, all_inputs.len() as int),
                pending@.len() == i,
                forall|k: int|
                    0 <= k < i ==> {
                        &&& (#[trigger] pending@[k]).call == calls@[k]
                        &&& pending@[k].input == all_inputs[k]
                        &&& call_permission(
                            self.tools.handles(),
                            calls@[k].fn_name@,
                            all_inputs[k],
                            self.config.base.permissions.bash.allow@,
                            pending@[k].permission_requirement,
                        )
                    },
            decreases calls@.len() - i,
        {
            let input = rest.remove(0);
            let call = clone_call(&calls[i]);
            let permission = match self.tools.requires_permission(
                call.fn_name.as_str(),
                input.as_ref(),
                &self.config.base.permissions.bash,
            ) {
                Ok(p) => p,
                Err(_) => Permission::RequireApproval,
            };
            pending.push(PendingToolCall { call, input, permission_requirement: permission });
            i = i + 1;
            proof {
                assert(rest@ == all_inputs.subrange(i as int, all_inputs.len() as int));
            }
        }
        let done = calls.len() == 0;
        self.messages.push(ChatMessage::Assistant { text, tool_calls: calls });
        self.pending_calls = pending;
        self.approved_calls = Vec::new();
        self.denied_calls = Vec::new();
        proof {
            assert(self.approved() =~= Set::empty());
            assert(self.denied() =~= Set::empty());
        }
        done
    }

    /// The request shown to the user for pending call `i`, with the preview the
    /// caller computed for it.
    pub fn permission_request(&self, i: usize, preview: Option<ToolPreview>) -> (r: PermissionRequest)
        requires
            self.wf(),
            i < self.pending().len(),
        ensures
            r.call_id == self.pending()[i as int].call.call_id,
            r.tool_name == self.pending()[i as int].call.fn_name,
            r.input == self.pending()[i as int].call.fn_arguments,
            r.preview == preview,
            call_description(
                self.tools.handles(),
                self.pending()[i as int].call.fn_name@,
                self.pending()[i as int].input,
                self.pending()[i as int].call.fn_arguments@,
                self.working_directory@,
                r.description@,
            ),
    {
        let c = &self.pending_calls[i];
        let description = self.tools.describe_action(
            c.call.fn_name.as_str(),
            c.input.as_ref(),
            c.call.fn_arguments.as_str(),
            self.working_directory.as_str(),
        );
        PermissionRequest {
            call_id: c.call.call_id.clone(),
            tool_name: c.call.fn_name.clone(),
            description,
            input: c.call.fn_arguments.clone(),
            preview,
        }
    }

    /// The requests for every call that waits for the user, with the previews the
    /// caller computed for them, in order.
    pub fn permission_requests(&self, waiting: &Vec<usize>, previews: Vec<Option<ToolPreview>>) -> (r: Vec<PermissionRequest>)
        requires
            self.wf(),
            previews@.len() == waiting@.len(),
            forall|k: int| 0 <= k < waiting@.len() ==> #[trigger] waiting@[k] < self.pending().len(),
        ensures
            r@.len() == waiting@.len(),
            forall|k: int|
                0 <= k < waiting@.len() ==> {
                    &&& (#[trigger] r@[k]).call_id == self.pending()[waiting@[k] as int].call.call_id
                    &&& r@[k].tool_name == self.pending()[waiting@[k] as int].call.fn_name
                    &&& r@[k].input == self.pending()[waiting@[k] as int].call.fn_arguments
                    &&& r@[k].preview == previews@[k]
                    &&& call_description(
                        self.tools.handles(),
                        self.pending()[waiting@[k] as int].call.fn_name@,
                        self.pending()[waiting@[k] as int].input,
                        self.pending()[waiting@[k] as int].call.fn_arguments@,
                        self.working_directory@,
                        r@[k].description@,
                    )
                },
    {
        let ghost all = previews@;
        let mut rest = previews;
        let mut r: Vec<PermissionRequest> = Vec::new();
        let mut k: usize = 0;
        while k < waiting.len()
            invariant
                self.wf(),
                k <= waiting@.len(),
                all.len() == waiting@.len(),
                forall|m: int| 0 <= m < waiting@.len() ==> #[trigger] waiting@[m] < self.pending().len(),
                rest@ == all.subrange(k as int, all.len() as int),
                r@.len() == k,
                forall|m: int|
                    0 <= m < k ==> {
                        &&& (#[trigger] r@[m]).call_id == self.pending()[waiting@[m] as int].call.call_id
                        &&& r@[m].tool_name == self.pending()[waiting@[m] as int].call.fn_name
                        &&& r@[m].input == self.pending()[waiting@[m] as int].call.fn_arguments
                        &&& r@[m].preview == all[m]
                        &&& call_description(
                            self.tools.handles(),
                            self.pending()[waiting@[m] as int].call.fn_name@,
                            self.pending()[waiting@[m] as int].input,
                            self.pending()[waiting@[m] as int].call.fn_arguments@,
                            self.working_directory@,
                            r@[m].description@,
                        )
                    },
            decreases waiting@.len() - k,
        {
            let preview = rest.remove(0);
            r.push(self.permission_request(waiting[k], preview));
            k = k + 1;
            proof {
                assert(rest@ == all.subrange(k as int, all.len() as int));
            }
        }
        r
    }

    /// Completes the batch once nothing waits for the user: appends one tool result
    /// per call, in the order the calls were requested, then clears the batch and
    /// the ledger. `outcomes[i]` is what running call `i` gave, present exactly for
    /// the calls whose action is `Run`; denied and refused calls get a fixed text and
    /// were never run.
    pub fn complete_batch(&mut self, outcomes: Vec<Option<Result<String, ToolError>>>)
        requires
            old(self).wf(),
            outcomes@.len() == old(self).pending().len(),
            forall|i: int| 0 <= i < old(self).pending().len() ==> !old(self).awaiting(i),
            forall|i: int|
                0 <= i < outcomes@.len() ==> ((old(self).action_of(i) == CallAction::Run) == (
                #[trigger] outcomes@[i]) is Some),
        ensures
            final(self).wf(),
            final(self).pending().len() == 0,
            final(self).approved().is_empty(),
            final(self).denied().is_empty(),
            final(self).messages@.len() == old(self).messages@.len() + outcomes@.len(),
            forall|k: int|
                0 <= k < old(self).messages@.len() ==> #[trigger] final(self).messages@[k]
                    == old(self).messages@[k],
            forall|i: int|
                0 <= i < outcomes@.len() ==> (#[trigger] final(self).messages@[old(
                    self,
                ).messages@.len() + i] matches ChatMessage::ToolResponse { call_id, content }
                    && call_id == old(self).pending()[i].call.call_id && content@ == result_text(
                    old(self).action_of(i),
                    outcomes@[i],
                )),
            final(self).tools == old(self).tools,
            final(self).mode == old(self).mode,
            final(self).total_tokens == old(self).total_tokens,
    {
        let actions = self.actions();
        let n0 = self.messages.len();
        let mut i: usize = 0;
        while i < outcomes.len()
            invariant
                self.pending() == old(self).pending(),
                self.approved() == old(self).approved(),
                self.denied() == old(self).denied(),
                self.mode == old(self).mode,
                self.tools == old(self).tools,
                self.total_tokens == old(self).total_tokens,
                n0 == old(self).messages@.len(),
                actions@.len() == old(self).pending().len(),
                forall|j: int| 0 <= j < actions@.len() ==> actions@[j] == old(self).action_of(j),
                outcomes@.len() == actions@.len(),
                i <= outcomes@.len(),
                self.messages@.len() == n0 + i,
                forall|k: int| 0 <= k < n0 ==> #[trigger] self.messages@[k] == old(self).messages@[k],
                forall|j: int|
                    0 <= j < i ==> (#[trigger] self.messages@[n0 + j] matches ChatMessage::ToolResponse {
                        call_id,
                        content,
                    } && call_id == old(self).pending()[j].call.call_id && content@ == result_text(
                        old(self).action_of(j),
                        outcomes@[j],
                    )),
            decreases outcomes@.len() - i,
        {
            let content = match actions[i] {
                CallAction::Denied => String::from_str("Error: Permission denied by user"),
                CallAction::Refused => String::from_str("Error: Permission refused by policy"),
                CallAction::Run => match &outcomes[i] {
                    Some(Ok(s)) => s.clone(),
                    Some(Err(e)) => String::from_str("Error: ").concat(e.to_string().as_str()),
                    None => String::new(),
                },
            };
            let call_id = self.pending_calls[i].call.call_id.clone();
            self.messages.push(ChatMessage::ToolResponse { call_id, content });
            i = i + 1;
        }
        self.pending_calls = Vec::new();
        self.approved_calls = Vec::new();
        self.denied_calls = Vec::new();
        proof {
            assert(self.approved() =~= Set::empty());
            assert(self.denied() =~= Set::empty());
        }
    }
}

fn clone_call(c: &ToolCall) -> (r: ToolCall)
    ensures
        r == *c,
{
    ToolCall {
        call_id: c.call_id.clone(),
        fn_name: c.fn_name.clone(),
        fn_arguments: c.fn_arguments.clone(),
    }
}

/// `d` is the description of a call to the tool named `name`.
pub open spec fn call_description(
    tools: Seq<ToolHandle>,
    name: Seq<char>,
    input: Option<ToolInput>,
    raw: Seq<char>,
    wd: Seq<char>,
    d: Seq<char>,
) -> bool {
    &&& (forall|i: int| 0 <= i < tools.len() ==> handle_name(#[trigger] tools[i]) != name) ==> d
        == generic_description(name)
    &&& forall|i: int|
        0 <= i < tools.len() && handle_name(#[trigger] tools[i]) == name ==> d == description_of(
            tools[i],
            input,
            raw,
            wd,
        )
}

/// Approving a call twice has the effect of approving it once, and approvals and
/// denials keep a ledger in which no call is both approved and denied.
pub proof fn lemma_resolution_idempotent(approved: Set<Seq<char>>, denied: Set<Seq<char>>, id: Seq<char>)
    ensures
        ({
            let once = approve_spec(approved, denied, id);
            approve_spec(once.0, once.1, id) == once
        }),
        ({
            let once = deny_spec(approved, denied, id);
            deny_spec(once.0, once.1, id) == once
        }),
        approved.disjoint(denied) ==> approve_spec(approved, denied, id).0.disjoint(
            approve_spec(approved, denied, id).1,
        ),
        approved.disjoint(denied) ==> deny_spec(approved, denied, id).0.disjoint(
            deny_spec(approved, denied, id).1,
        ),
        !approve_spec(approved, denied, id).1.contains(id),
        !deny_spec(approved, denied, id).0.contains(id),
{
    assert(approved.insert(id).insert(id) =~= approved.insert(id));
    assert(denied.remove(id).remove(id) =~= denied.remove(id));
    assert(denied.insert(id).insert(id) =~= denied.insert(id));
    assert(approved.remove(id).remove(id) =~= approved.remove(id));
}

fn ledger_contains(v: &Vec<String>, id: &str) -> (r: bool)
    ensures
        r == in_ledger(v@, id@),
{
    let mut i: usize = 0;
    while i < v.len()
        invariant
            i <= v@.len(),
            forall|k: int| 0 <= k < i ==> (#[trigger] v@[k])@ != id@,
        decreases v@.len() - i,
    {
        if str_eq(v[i].as_str(), id) {
            return true;
        }
        i = i + 1;
    }
    false
}

fn ledger_insert(v: &mut Vec<String>, id: &str)
    ensures
        forall|x: Seq<char>| in_ledger(final(v)@, x) == (in_ledger(old(v)@, x) || x == id@),
{
    if !ledger_contains(v, id) {
        let ghost before = v@;
        v.push(String::from_str(id));
        proof {
            assert forall|x: Seq<char>| in_ledger(v@, x) == (in_ledger(before, x) || x == id@) by {
                if in_ledger(before, x) {
                    let i = choose|i: int| 0 <= i < before.len() && (#[trigger] before[i])@ == x;
                    assert(v@[i] == before[i]);
                }
                if x == id@ {
                    assert(v@[before.len() as int]@ == x);
                }
                if in_ledger(v@, x) {
                    let i = choose|i: int| 0 <= i < v@.len() && (#[trigger] v@[i])@ == x;
                    if i < before.len() {
                        assert(v@[i] == before[i]);
                    }
                }
            }
        }
    }
}

fn ledger_remove(v: &Vec<String>, id: &str) -> (r: Vec<String>)
    ensures
        forall|x: Seq<char>| in_ledger(r@, x) == (in_ledger(v@, x) && x != id@),
{
    let mut r: Vec<String> = Vec::new();
    let mut i: usize = 0;
    while i < v.len()
        invariant
            i <= v@.len(),
            forall|x: Seq<char>| in_ledger(r@, x) == (in_ledger(v@.subrange(0, i as int), x) && x != id@),
        decreases v@.len() - i,
    {
        let ghost before = r@;
        let ghost pre = v@.subrange(0, i as int);
        let ghost next = v@.subrange(0, i + 1);
        if !str_eq(v[i].as_str(), id) {
            r.push(v[i].clone());
        }
        proof {
            assert forall|x: Seq<char>| in_ledger(r@, x) == (in_ledger(next, x) && x != id@) by {
                if in_ledger(next, x) {
                    let k = choose|k: int| 0 <= k < next.len() && (#[trigger] next[k])@ == x;
                    if k < i {
                        assert(pre[k] == next[k]);
                    }
                }
                if in_ledger(pre, x) {
                    let k = choose|k: int| 0 <= k < pre.len() && (#[trigger] pre[k])@ == x;
                    assert(next[k] == pre[k]);
                }
                if in_ledger(before, x) {
                    let k = choose|k: int| 0 <= k < before.len() && (#[trigger] before[k])@ == x;
                    assert(r@[k] == before[k]);
                }
                if in_ledger(r@, x) {
                    let k = choose|k: int| 0 <= k < r@.len() && (#[trigger] r@[k])@ == x;
                    if k < before.len() {
                        assert(r@[k] == before[k]);
                    } else {
                        assert(x == v@[i as int]@);
                        assert(next[i as int] == v@[i as int]);
                    }
                }
                if x == v@[i as int]@ {
                    assert(next[i as int] == v@[i as int]);
                    if x != id@ {
                        assert(r@[before.len() as int]@ == x);
                    }
                }
            }
        }
        i = i + 1;
    }
    proof {
        assert(v@.subrange(0, v@.len() as int) == v@);
    }
    r
}

} // verus!
