//! The events of a run, how they are written down, and the run state that accepts or rejects them.
use crate::json;
use crate::json::{Json, JsonView, ObjectBuilder};
use crate::replay;
use crate::text;
use platonic_core::{EffectClass as CoreEffect, Error as KernelError, PolicyDecision as CorePolicy};
use platonic_core::{RecordedEvent as CoreRecord, RunState};
use vstd::prelude::*;

verus! {

/// The class of effect that a tool may have.
#[derive(Clone, Copy, Debug, PartialEq, Eq, Structural)]
pub enum EffectClass {
    ReadOnly,
    WorkspaceWrite,
    Network,
    ExternalSideEffect,
    SecretAccess,
}

/// What policy says of a tool call.
#[derive(Debug, PartialEq, Eq)]
pub enum PolicyDecision {
    Allow,
    RequireApproval { reason: String },
    Deny { reason: String },
}

/// What a policy decision stands for.
pub enum PolicyView {
    Allow,
    RequireApproval { reason: Seq<char> },
    Deny { reason: Seq<char> },
}

impl PolicyDecision {
    /// The decision that `self` stands for.
    pub open spec fn view(&self) -> PolicyView {
        match self {
            PolicyDecision::Allow => PolicyView::Allow,
            PolicyDecision::RequireApproval { reason } => PolicyView::RequireApproval {
                reason: reason@,
            },
            PolicyDecision::Deny { reason } => PolicyView::Deny { reason: reason@ },
        }
    }
}

impl Clone for PolicyDecision {
    fn clone(&self) -> (r: PolicyDecision)
        ensures
            r == *self,
    {
        match self {
            PolicyDecision::Allow => PolicyDecision::Allow,
            PolicyDecision::RequireApproval { reason } => PolicyDecision::RequireApproval {
                reason: reason.clone(),
            },
            PolicyDecision::Deny { reason } => PolicyDecision::Deny { reason: reason.clone() },
        }
    }
}

impl EffectClass {
    /// The name of the class in events.
    pub open spec fn wire(self) -> Seq<char> {
        match self {
            EffectClass::ReadOnly => "read_only"@,
            EffectClass::WorkspaceWrite => "workspace_write"@,
            EffectClass::Network => "network"@,
            EffectClass::ExternalSideEffect => "external_side_effect"@,
            EffectClass::SecretAccess => "secret_access"@,
        }
    }

    /// The name of the class in events.
    pub fn as_str(self) -> (r: &'static str)
        ensures
            r@ == self.wire(),
    {
        match self {
            EffectClass::ReadOnly => "read_only",
            EffectClass::WorkspaceWrite => "workspace_write",
            EffectClass::Network => "network",
            EffectClass::ExternalSideEffect => "external_side_effect",
            EffectClass::SecretAccess => "secret_access",
        }
    }
}

/// What the kernel says of a call of each class where nothing else is said: reading is allowed,
/// writing and network access need approval, and everything else is denied.
pub open spec fn baseline_policy(effect: EffectClass) -> PolicyView {
    match effect {
        EffectClass::ReadOnly => PolicyView::Allow,
        EffectClass::WorkspaceWrite | EffectClass::Network => PolicyView::RequireApproval {
            reason: "mutable or networked tool call requires explicit policy allowance"@,
        },
        EffectClass::ExternalSideEffect | EffectClass::SecretAccess => PolicyView::Deny {
            reason: "external side effects and secret access fail closed by default"@,
        },
    }
}

/// `platonic_core::EffectClass::default_policy`: the baseline decision for the class, with the
/// reason that the kernel gives.
#[verifier::external_body]
pub(crate) fn default_policy(effect: EffectClass) -> (r: PolicyDecision)
    ensures
        r@ == baseline_policy(effect),
{
    let class = match effect {
        EffectClass::ReadOnly => CoreEffect::ReadOnly,
        EffectClass::WorkspaceWrite => CoreEffect::WorkspaceWrite,
        EffectClass::Network => CoreEffect::Network,
        EffectClass::ExternalSideEffect => CoreEffect::ExternalSideEffect,
        EffectClass::SecretAccess => CoreEffect::SecretAccess,
    };
    match class.default_policy() {
        CorePolicy::Allow => PolicyDecision::Allow,
        CorePolicy::RequireApproval { reason } => PolicyDecision::RequireApproval { reason },
        CorePolicy::Deny { reason } => PolicyDecision::Deny { reason },
    }
}

/// The part of the context that a fragment belongs to.
#[derive(Clone, Copy, Debug, PartialEq, Eq, Structural)]
pub enum ContextLane {
    SystemContract,
    RecentTurns,
    ToolSchemas,
}

impl ContextLane {
    /// The name of the lane in events.
    pub open spec fn wire(self) -> Seq<char> {
        match self {
            ContextLane::SystemContract => "system_contract"@,
            ContextLane::RecentTurns => "recent_turns"@,
            ContextLane::ToolSchemas => "tool_schemas"@,
        }
    }

    fn as_str(self) -> (r: &'static str)
        ensures
            r@ == self.wire(),
    {
        match self {
            ContextLane::SystemContract => "system_contract",
            ContextLane::RecentTurns => "recent_turns",
            ContextLane::ToolSchemas => "tool_schemas",
        }
    }
}

/// One piece of the context of a turn.
#[derive(Debug, PartialEq, Eq)]
pub struct ContextFragment {
    pub lane: ContextLane,
    pub source: String,
    pub content: String,
    pub estimated_tokens: u32,
}

/// What a fragment stands for.
pub struct FragmentView {
    pub lane: ContextLane,
    pub source: Seq<char>,
    pub content: Seq<char>,
    pub estimated_tokens: u32,
}

impl ContextFragment {
    /// The fragment that `self` stands for.
    pub open spec fn view(&self) -> FragmentView {
        FragmentView {
            lane: self.lane,
            source: self.source@,
            content: self.content@,
            estimated_tokens: self.estimated_tokens,
        }
    }

    fn to_json(&self) -> (r: Json)
        ensures
            r@ == fragment_json(self@),
    {
        ObjectBuilder::new().text("lane", self.lane.as_str()).text(
            "source",
            self.source.as_str(),
        ).text("content", self.content.as_str()).number(
            "estimated_tokens",
            self.estimated_tokens as u64,
        ).build()
    }
}

/// The context of a turn and the tokens that it may take.
#[derive(Debug, PartialEq, Eq)]
pub struct ContextPack {
    pub token_budget: u32,
    pub fragments: Vec<ContextFragment>,
}

/// What a context pack stands for.
pub struct PackView {
    pub token_budget: u32,
    pub fragments: Seq<FragmentView>,
}

impl ContextPack {
    /// The pack that `self` stands for.
    pub open spec fn view(&self) -> PackView {
        PackView {
            token_budget: self.token_budget,
            fragments: Seq::new(self.fragments@.len(), |i: int| self.fragments@[i]@),
        }
    }

    fn to_json(&self) -> (r: Json)
        ensures
            r@ == pack_json(self@),
    {
        let mut items: Vec<Json> = Vec::new();
        let mut i: usize = 0;
        while i < self.fragments.len()
            invariant
                0 <= i <= self.fragments@.len(),
                items@.len() == i,
                forall|k: int|
                    0 <= k < i ==> (#[trigger] items@[k])@ == fragment_json(self.fragments@[k]@),
            decreases self.fragments@.len() - i,
        {
            items.push(self.fragments[i].to_json());
            i += 1;
        }
        assert(json::json_views(items@) =~= Seq::new(
            self@.fragments.len(),
            |i: int| fragment_json(self@.fragments[i]),
        ));
        ObjectBuilder::new().number("token_budget", self.token_budget as u64).with(
            "fragments",
            Json::array(items),
        ).build()
    }
}

/// A tool that the model proposes to call.
#[derive(Debug, PartialEq, Eq)]
pub struct ToolProposal {
    pub tool: String,
    pub input: Json,
}

/// A tool call with its class of effect.
#[derive(Debug, PartialEq, Eq)]
pub struct ToolCall {
    pub id: String,
    pub tool: String,
    pub effect: EffectClass,
    pub input: Json,
}

/// What a tool call stands for.
pub struct CallView {
    pub id: Seq<char>,
    pub tool: Seq<char>,
    pub effect: EffectClass,
    pub input: JsonView,
}

impl ToolCall {
    /// The call that `self` stands for.
    pub open spec fn view(&self) -> CallView {
        CallView { id: self.id@, tool: self.tool@, effect: self.effect, input: self.input@ }
    }

    fn to_json(&self) -> (r: Json)
        ensures
            r@ == call_json(self@),
    {
        ObjectBuilder::new().text("id", self.id.as_str()).text("tool", self.tool.as_str()).text(
            "effect",
            self.effect.as_str(),
        ).with("input", self.input.clone()).build()
    }
}

impl Clone for ToolCall {
    fn clone(&self) -> (r: ToolCall)
        ensures
            r@ == self@,
    {
        ToolCall {
            id: self.id.clone(),
            tool: self.tool.clone(),
            effect: self.effect,
            input: self.input.clone(),
        }
    }
}

/// What a tool gave back.
#[derive(Debug, PartialEq, Eq)]
pub struct ToolResult {
    pub call_id: String,
    pub summary: String,
    pub data: Json,
}

/// What a tool result stands for.
pub struct ResultView {
    pub call_id: Seq<char>,
    pub summary: Seq<char>,
    pub data: JsonView,
}

impl ToolResult {
    /// The result that `self` stands for.
    pub open spec fn view(&self) -> ResultView {
        ResultView { call_id: self.call_id@, summary: self.summary@, data: self.data@ }
    }

    fn to_json(&self) -> (r: Json)
        ensures
            r@ == result_json(self@),
    {
        let artifacts: Vec<Json> = Vec::new();
        assert(json::json_views(artifacts@) =~= Seq::<JsonView>::empty());
        ObjectBuilder::new().text("call_id", self.call_id.as_str()).text(
            "summary",
            self.summary.as_str(),
        ).with("data", self.data.clone()).with("artifacts", Json::array(artifacts)).text(
            "visibility",
            "both",
        ).build()
    }
}

/// The tokens that a model call took.
#[derive(Clone, Copy, Debug, PartialEq, Eq, Structural)]
pub struct ModelUsage {
    pub input_tokens: u32,
    pub output_tokens: u32,
}

/// What happened in a run.
#[derive(Debug, PartialEq, Eq)]
pub enum HarnessEvent {
    RunStarted { run_id: String, agent_id: String },
    ContextBuilt { run_id: String, turn_id: String, context: ContextPack },
    ModelRequested { run_id: String, turn_id: String, step: u32, model: String },
    ModelResponded {
        run_id: String,
        turn_id: String,
        step: u32,
        output: String,
        proposed_calls: Vec<ToolProposal>,
        usage: ModelUsage,
    },
    ToolCallProposed { run_id: String, turn_id: String, call: ToolCall },
    PolicyEvaluated { run_id: String, call_id: String, decision: PolicyDecision },
    ApprovalGranted { run_id: String, call_id: String, actor_id: String },
    ApprovalDenied { run_id: String, call_id: String, actor_id: String, reason: String },
    ToolStarted { run_id: String, call_id: String },
    ToolFinished { run_id: String, result: ToolResult },
    ToolFailed { run_id: String, call_id: String, reason: String },
    RunFinished { run_id: String },
    RunFailed { run_id: String, reason: String },
}

/// What an event stands for.
pub enum EventView {
    RunStarted { run_id: Seq<char>, agent_id: Seq<char> },
    ContextBuilt { run_id: Seq<char>, turn_id: Seq<char>, context: PackView },
    ModelRequested { run_id: Seq<char>, turn_id: Seq<char>, step: u32, model: Seq<char> },
    ModelResponded {
        run_id: Seq<char>,
        turn_id: Seq<char>,
        step: u32,
        output: Seq<char>,
        proposed_calls: Seq<(Seq<char>, JsonView)>,
        usage: ModelUsage,
    },
    ToolCallProposed { run_id: Seq<char>, turn_id: Seq<char>, call: CallView },
    PolicyEvaluated { run_id: Seq<char>, call_id: Seq<char>, decision: PolicyView },
    ApprovalGranted { run_id: Seq<char>, call_id: Seq<char>, actor_id: Seq<char> },
    ApprovalDenied {
        run_id: Seq<char>,
        call_id: Seq<char>,
        actor_id: Seq<char>,
        reason: Seq<char>,
    },
    ToolStarted { run_id: Seq<char>, call_id: Seq<char> },
    ToolFinished { run_id: Seq<char>, result: ResultView },
    ToolFailed { run_id: Seq<char>, call_id: Seq<char>, reason: Seq<char> },
    RunFinished { run_id: Seq<char> },
    RunFailed { run_id: Seq<char>, reason: Seq<char> },
}

/// What proposals stand for.
pub open spec fn proposal_views(proposals: Seq<ToolProposal>) -> Seq<(Seq<char>, JsonView)> {
    Seq::new(proposals.len(), |i: int| (proposals[i].tool@, proposals[i].input@))
}

impl HarnessEvent {
    /// The event that `self` stands for.
    pub open spec fn view(&self) -> EventView {
        match self {
            HarnessEvent::RunStarted { run_id, agent_id } => EventView::RunStarted {
                run_id: run_id@,
                agent_id: agent_id@,
            },
            HarnessEvent::ContextBuilt { run_id, turn_id, context } => EventView::ContextBuilt {
                run_id: run_id@,
                turn_id: turn_id@,
                context: context@,
            },
            HarnessEvent::ModelRequested { run_id, turn_id, step, model } =>
                EventView::ModelRequested {
                run_id: run_id@,
                turn_id: turn_id@,
                step: *step,
                model: model@,
            },
            HarnessEvent::ModelResponded {
                run_id,
                turn_id,
                step,
                output,
                proposed_calls,
                usage,
            } => EventView::ModelResponded {
                run_id: run_id@,
                turn_id: turn_id@,
                step: *step,
                output: output@,
                proposed_calls: proposal_views(proposed_calls@),
                usage: *usage,
            },
            HarnessEvent::ToolCallProposed { run_id, turn_id, call } =>
                EventView::ToolCallProposed { run_id: run_id@, turn_id: turn_id@, call: call@ },
            HarnessEvent::PolicyEvaluated { run_id, call_id, decision } =>
                EventView::PolicyEvaluated {
                run_id: run_id@,
                call_id: call_id@,
                decision: decision@,
            },
            HarnessEvent::ApprovalGranted { run_id, call_id, actor_id } =>
                EventView::ApprovalGranted {
                run_id: run_id@,
                call_id: call_id@,
                actor_id: actor_id@,
            },
            HarnessEvent::ApprovalDenied { run_id, call_id, actor_id, reason } =>
                EventView::ApprovalDenied {
                run_id: run_id@,
                call_id: call_id@,
                actor_id: actor_id@,
                reason: reason@,
            },
            HarnessEvent::ToolStarted { run_id, call_id } => EventView::ToolStarted {
                run_id: run_id@,
                call_id: call_id@,
            },
            HarnessEvent::ToolFinished { run_id, result } => EventView::ToolFinished {
                run_id: run_id@,
                result: result@,
            },
            HarnessEvent::ToolFailed { run_id, call_id, reason } => EventView::ToolFailed {
                run_id: run_id@,
                call_id: call_id@,
                reason: reason@,
            },
            HarnessEvent::RunFinished { run_id } => EventView::RunFinished { run_id: run_id@ },
            HarnessEvent::RunFailed { run_id, reason } => EventView::RunFailed {
                run_id: run_id@,
                reason: reason@,
            },
        }
    }
}

/// A fragment as it stands in an event.
pub open spec fn fragment_json(fragment: FragmentView) -> JsonView {
    JsonView::Object(json::no_members()
        .push(("lane"@, JsonView::Text(fragment.lane.wire())))
        .push(("source"@, JsonView::Text(fragment.source)))
        .push(("content"@, JsonView::Text(fragment.content)))
        .push((
                "estimated_tokens"@,
                JsonView::Number(text::decimal(fragment.estimated_tokens as nat)),
            )))
}

/// A context pack as it stands in an event.
pub open spec fn pack_json(pack: PackView) -> JsonView {
    JsonView::Object(json::no_members()
        .push(("token_budget"@, JsonView::Number(text::decimal(pack.token_budget as nat))))
        .push((
                "fragments"@,
                JsonView::Array(
                    Seq::new(pack.fragments.len(), |i: int| fragment_json(pack.fragments[i])),
                ),
            )))
}

/// A tool call as it stands in an event.
pub open spec fn call_json(call: CallView) -> JsonView {
    JsonView::Object(json::no_members()
        .push(("id"@, JsonView::Text(call.id)))
        .push(("tool"@, JsonView::Text(call.tool)))
        .push(("effect"@, JsonView::Text(call.effect.wire())))
        .push(("input"@, call.input)))
}

/// A tool result as it stands in an event.
pub open spec fn result_json(result: ResultView) -> JsonView {
    JsonView::Object(json::no_members()
        .push(("call_id"@, JsonView::Text(result.call_id)))
        .push(("summary"@, JsonView::Text(result.summary)))
        .push(("data"@, result.data))
        .push(("artifacts"@, JsonView::Array(Seq::empty())))
        .push(("visibility"@, JsonView::Text("both"@))))
}

/// A proposal as it stands in an event.
pub open spec fn proposal_json(proposal: (Seq<char>, JsonView)) -> JsonView {
    JsonView::Object(json::no_members()
        .push(("tool"@, JsonView::Text(proposal.0)))
        .push(("input"@, proposal.1)))
}

/// A policy decision as it stands in an event.
pub open spec fn policy_json(decision: PolicyView) -> JsonView {
    match decision {
        PolicyView::Allow => JsonView::Object(json::no_members().push(("decision"@, JsonView::Text("allow"@)))),
        PolicyView::RequireApproval { reason } => JsonView::Object(json::no_members()
            .push(("decision"@, JsonView::Text("require_approval"@)))
            .push(("reason"@, JsonView::Text(reason)))),
        PolicyView::Deny { reason } => JsonView::Object(json::no_members()
            .push(("decision"@, JsonView::Text("deny"@)))
            .push(("reason"@, JsonView::Text(reason)))),
    }
}

/// An event as it is written down.
pub open spec fn event_json(event: EventView) -> JsonView {
    match event {
        EventView::RunStarted { run_id, agent_id } => JsonView::Object(json::no_members()
            .push(("event"@, JsonView::Text("run_started"@)))
            .push(("run_id"@, JsonView::Text(run_id)))
            .push(("agent_id"@, JsonView::Text(agent_id)))),
        EventView::ContextBuilt { run_id, turn_id, context } => JsonView::Object(json::no_members()
            .push(("event"@, JsonView::Text("context_built"@)))
            .push(("run_id"@, JsonView::Text(run_id)))
            .push(("turn_id"@, JsonView::Text(turn_id)))
            .push(("context"@, pack_json(context)))),
        EventView::ModelRequested { run_id, turn_id, step, model } => JsonView::Object(json::no_members()
            .push(("event"@, JsonView::Text("model_requested"@)))
            .push(("run_id"@, JsonView::Text(run_id)))
            .push(("turn_id"@, JsonView::Text(turn_id)))
            .push(("step"@, JsonView::Number(text::decimal(step as nat))))
            .push(("model"@, JsonView::Text(model)))),
        EventView::ModelResponded { run_id, turn_id, step, output, proposed_calls, usage } =>
            JsonView::Object(json::no_members()
                .push(("event"@, JsonView::Text("model_responded"@)))
                .push(("run_id"@, JsonView::Text(run_id)))
                .push(("turn_id"@, JsonView::Text(turn_id)))
                .push(("step"@, JsonView::Number(text::decimal(step as nat))))
                .push((
                    "output"@,
                    JsonView::Object(json::no_members().push(("role"@, JsonView::Text("assistant"@))).push(("content"@, JsonView::Text(output)))),
                ))
                .push((
                    "proposed_calls"@,
                    JsonView::Array(
                        Seq::new(proposed_calls.len(), |i: int| proposal_json(proposed_calls[i])),
                    ),
                ))
                .push((
                    "usage"@,
                    JsonView::Object(json::no_members().push((
                                "input_tokens"@,
                                JsonView::Number(text::decimal(usage.input_tokens as nat)),
                            )).push((
                                "output_tokens"@,
                                JsonView::Number(text::decimal(usage.output_tokens as nat)),
                            ))),
                ))),
        EventView::ToolCallProposed { run_id, turn_id, call } => JsonView::Object(json::no_members()
            .push(("event"@, JsonView::Text("tool_call_proposed"@)))
            .push(("run_id"@, JsonView::Text(run_id)))
            .push(("turn_id"@, JsonView::Text(turn_id)))
            .push(("call"@, call_json(call)))),
        EventView::PolicyEvaluated { run_id, call_id, decision } => JsonView::Object(json::no_members()
            .push(("event"@, JsonView::Text("policy_evaluated"@)))
            .push(("run_id"@, JsonView::Text(run_id)))
            .push(("call_id"@, JsonView::Text(call_id)))
            .push(("decision"@, policy_json(decision)))),
        EventView::ApprovalGranted { run_id, call_id, actor_id } => JsonView::Object(json::no_members()
            .push(("event"@, JsonView::Text("approval_granted"@)))
            .push(("run_id"@, JsonView::Text(run_id)))
            .push(("call_id"@, JsonView::Text(call_id)))
            .push(("actor_id"@, JsonView::Text(actor_id)))),
        EventView::ApprovalDenied { run_id, call_id, actor_id, reason } => JsonView::Object(json::no_members()
            .push(("event"@, JsonView::Text("approval_denied"@)))
            .push(("run_id"@, JsonView::Text(run_id)))
            .push(("call_id"@, JsonView::Text(call_id)))
            .push(("actor_id"@, JsonView::Text(actor_id)))
            .push(("reason"@, JsonView::Text(reason)))),
        EventView::ToolStarted { run_id, call_id } => JsonView::Object(json::no_members()
            .push(("event"@, JsonView::Text("tool_started"@)))
            .push(("run_id"@, JsonView::Text(run_id)))
            .push(("call_id"@, JsonView::Text(call_id)))),
        EventView::ToolFinished { run_id, result } => JsonView::Object(json::no_members()
            .push(("event"@, JsonView::Text("tool_finished"@)))
            .push(("run_id"@, JsonView::Text(run_id)))
            .push(("result"@, result_json(result)))),
        EventView::ToolFailed { run_id, call_id, reason } => JsonView::Object(json::no_members()
            .push(("event"@, JsonView::Text("tool_failed"@)))
            .push(("run_id"@, JsonView::Text(run_id)))
            .push(("call_id"@, JsonView::Text(call_id)))
            .push(("reason"@, JsonView::Text(reason)))),
        EventView::RunFinished { run_id } => JsonView::Object(json::no_members()
            .push(("event"@, JsonView::Text("run_finished"@)))
            .push(("run_id"@, JsonView::Text(run_id)))),
        EventView::RunFailed { run_id, reason } => JsonView::Object(json::no_members()
            .push(("event"@, JsonView::Text("run_failed"@)))
            .push(("run_id"@, JsonView::Text(run_id)))
            .push(("reason"@, JsonView::Text(reason)))),
    }
}

impl PolicyDecision {
    fn to_json(&self) -> (r: Json)
        ensures
            r@ == policy_json(self@),
    {
        match self {
            PolicyDecision::Allow => ObjectBuilder::new().text("decision", "allow").build(),
            PolicyDecision::RequireApproval { reason } => ObjectBuilder::new().text(
                "decision",
                "require_approval",
            ).text("reason", reason.as_str()).build(),
            PolicyDecision::Deny { reason } => ObjectBuilder::new().text("decision", "deny").text(
                "reason",
                reason.as_str(),
            ).build(),
        }
    }
}

fn proposals_json(proposals: &Vec<ToolProposal>) -> (r: Json)
    ensures
        r@ == JsonView::Array(
            Seq::new(
                proposal_views(proposals@).len(),
                |i: int| proposal_json(proposal_views(proposals@)[i]),
            ),
        ),
{
    let mut items: Vec<Json> = Vec::new();
    let mut i: usize = 0;
    while i < proposals.len()
        invariant
            0 <= i <= proposals@.len(),
            items@.len() == i,
            forall|k: int|
                0 <= k < i ==> (#[trigger] items@[k])@ == proposal_json(
                    proposal_views(proposals@)[k],
                ),
        decreases proposals@.len() - i,
    {
        items.push(
            ObjectBuilder::new().text("tool", proposals[i].tool.as_str()).with(
                "input",
                proposals[i].input.clone(),
            ).build(),
        );
        i += 1;
    }
    assert(json::json_views(items@) =~= Seq::new(
        proposal_views(proposals@).len(),
        |i: int| proposal_json(proposal_views(proposals@)[i]),
    ));
    Json::array(items)
}

fn event_start(name: &str, run_id: &str) -> (r: ObjectBuilder)
    ensures
        r@ == json::no_members().push(("event"@, JsonView::Text(name@))).push(
            ("run_id"@, JsonView::Text(run_id@)),
        ),
{
    ObjectBuilder::new().text("event", name).text("run_id", run_id)
}

impl HarnessEvent {
    /// The event as it is written down.
    pub fn to_json(&self) -> (r: Json)
        ensures
            r@ == event_json(self@),
    {
        match self {
            HarnessEvent::RunStarted { run_id, agent_id } => event_start(
                "run_started",
                run_id.as_str(),
            ).text("agent_id", agent_id.as_str()).build(),
            HarnessEvent::ContextBuilt { run_id, turn_id, context } => event_start(
                "context_built",
                run_id.as_str(),
            ).text("turn_id", turn_id.as_str()).with("context", context.to_json()).build(),
            HarnessEvent::ModelRequested { run_id, turn_id, step, model } => event_start(
                "model_requested",
                run_id.as_str(),
            ).text("turn_id", turn_id.as_str()).number("step", *step as u64).text(
                "model",
                model.as_str(),
            ).build(),
            HarnessEvent::ModelResponded {
                run_id,
                turn_id,
                step,
                output,
                proposed_calls,
                usage,
            } => event_start("model_responded", run_id.as_str()).text(
                "turn_id",
                turn_id.as_str(),
            ).number("step", *step as u64).with(
                "output",
                ObjectBuilder::new().text("role", "assistant").text(
                    "content",
                    output.as_str(),
                ).build(),
            ).with("proposed_calls", proposals_json(proposed_calls)).with(
                "usage",
                ObjectBuilder::new().number("input_tokens", usage.input_tokens as u64).number(
                    "output_tokens",
                    usage.output_tokens as u64,
                ).build(),
            ).build(),
            HarnessEvent::ToolCallProposed { run_id, turn_id, call } => event_start(
                "tool_call_proposed",
                run_id.as_str(),
            ).text("turn_id", turn_id.as_str()).with("call", call.to_json()).build(),
            HarnessEvent::PolicyEvaluated { run_id, call_id, decision } => event_start(
                "policy_evaluated",
                run_id.as_str(),
            ).text("call_id", call_id.as_str()).with("decision", decision.to_json()).build(),
            HarnessEvent::ApprovalGranted { run_id, call_id, actor_id } => event_start(
                "approval_granted",
                run_id.as_str(),
            ).text("call_id", call_id.as_str()).text("actor_id", actor_id.as_str()).build(),
            HarnessEvent::ApprovalDenied { run_id, call_id, actor_id, reason } => event_start(
                "approval_denied",
                run_id.as_str(),
            ).text("call_id", call_id.as_str()).text("actor_id", actor_id.as_str()).text(
                "reason",
                reason.as_str(),
            ).build(),
            HarnessEvent::ToolStarted { run_id, call_id } => event_start(
                "tool_started",
                run_id.as_str(),
            ).text("call_id", call_id.as_str()).build(),
            HarnessEvent::ToolFinished { run_id, result } => event_start(
                "tool_finished",
                run_id.as_str(),
            ).with("result", result.to_json()).build(),
            HarnessEvent::ToolFailed { run_id, call_id, reason } => event_start(
                "tool_failed",
                run_id.as_str(),
            ).text("call_id", call_id.as_str()).text("reason", reason.as_str()).build(),
            HarnessEvent::RunFinished { run_id } => event_start(
                "run_finished",
                run_id.as_str(),
            ).build(),
            HarnessEvent::RunFailed { run_id, reason } => event_start(
                "run_failed",
                run_id.as_str(),
            ).text("reason", reason.as_str()).build(),
        }
    }
}

/// Why the kernel turned something down.
#[derive(Debug, PartialEq, Eq)]
pub enum CoreError {
    /// An identifier of the named kind is blank.
    EmptyIdentifier(String),
    /// The context of a turn takes more tokens than it may.
    ContextBudgetExceeded { used: u32, budget: u32 },
    /// Any other reason, in the kernel's words.
    Rejected(String),
}

/// What a kernel error stands for.
pub enum CoreErrorView {
    EmptyIdentifier(Seq<char>),
    ContextBudgetExceeded { used: u32, budget: u32 },
    Rejected(Seq<char>),
}

impl CoreError {
    /// The error that `self` stands for.
    pub open spec fn view(&self) -> CoreErrorView {
        match self {
            CoreError::EmptyIdentifier(kind) => CoreErrorView::EmptyIdentifier(kind@),
            CoreError::ContextBudgetExceeded { used, budget } =>
                CoreErrorView::ContextBudgetExceeded { used: *used, budget: *budget },
            CoreError::Rejected(message) => CoreErrorView::Rejected(message@),
        }
    }

    /// The error in words.
    pub fn message(&self) -> (r: String)
        ensures
            r@ == core_message(self@),
    {
        match self {
            CoreError::EmptyIdentifier(kind) => {
                let mut r = kind.clone();
                r.append(" cannot be empty");
                r
            },
            CoreError::ContextBudgetExceeded { used, budget } => {
                let mut r = "context budget exceeded: used ".to_owned();
                r.append(text::decimal_u64(*used as u64).as_str());
                r.append(", budget ");
                r.append(text::decimal_u64(*budget as u64).as_str());
                r
            },
            CoreError::Rejected(message) => message.clone(),
        }
    }
}

impl Clone for CoreError {
    fn clone(&self) -> (r: CoreError)
        ensures
            r == *self,
    {
        match self {
            CoreError::EmptyIdentifier(kind) => CoreError::EmptyIdentifier(kind.clone()),
            CoreError::ContextBudgetExceeded { used, budget } => CoreError::ContextBudgetExceeded {
                used: *used,
                budget: *budget,
            },
            CoreError::Rejected(message) => CoreError::Rejected(message.clone()),
        }
    }
}

/// A kernel error in words.
pub open spec fn core_message(error: CoreErrorView) -> Seq<char> {
    match error {
        CoreErrorView::EmptyIdentifier(kind) => kind + " cannot be empty"@,
        CoreErrorView::ContextBudgetExceeded { used, budget } =>
            "context budget exceeded: used "@ + text::decimal(used as nat) + ", budget "@
            + text::decimal(budget as nat),
        CoreErrorView::Rejected(message) => message,
    }
}

/// Checks an identifier as the kernel does: a blank one is turned down under the name of its kind.
pub fn check_identifier(kind: &str, value: &str) -> (r: Result<(), CoreError>)
    ensures
        r is Ok <==> !text::is_blank(value@),
        r is Err ==> r->Err_0@ == CoreErrorView::EmptyIdentifier(kind@),
{
    if text::blank(value) {
        Err(CoreError::EmptyIdentifier(kind.to_owned()))
    } else {
        Ok(())
    }
}

/// The run state of `platonic_core`.
#[verifier::external_type_specification]
#[verifier::external_body]
pub struct ExRunState(platonic_core::RunState);

/// The events that a run state has accepted, each as its JSON text, oldest first.
pub uninterp spec fn run_history(state: RunState) -> Seq<Seq<char>>;

/// Why `platonic_core::RunState::apply` turns the next event down once `history` has been accepted;
/// nothing where it accepts the event.
pub uninterp spec fn apply_error(history: Seq<Seq<char>>, event: Seq<char>) -> Option<
    CoreErrorView,
>;

/// What an answer of the kernel stands for: the error, if it is one.
pub open spec fn error_in<T>(answer: Result<T, CoreError>) -> Option<CoreErrorView> {
    match answer {
        Ok(_) => None,
        Err(error) => Some(error@),
    }
}

/// Why `serde_json::from_str` reads no `platonic_core::HarnessEvent` in a text; nothing where it
/// reads one.
pub uninterp spec fn event_complaint(event: Seq<char>) -> Option<Seq<char>>;

/// `serde_json::from_str` into a `platonic_core::HarnessEvent`: whether the text is an event of the
/// kernel, and if not, what the parser says. It depends on the text alone.
#[verifier::external_body]
pub(crate) fn check_event(event: &str) -> (r: Option<String>)
    ensures
        text::opt_view(r) == event_complaint(event@),
{
    serde_json::from_str::<platonic_core::HarnessEvent>(event).err().map(|error| error.to_string())
}

/// Whether two texts are those of one value, but for the order of members.
pub open spec fn same_text(a: Seq<char>, b: Seq<char>) -> bool {
    exists|value: JsonView| a == #[trigger] json::json_text(value) && json::is_text_of(value, b)
}

/// Whether texts are, one by one, those of the same values, but for the order of members.
pub open spec fn same_texts(a: Seq<Seq<char>>, b: Seq<Seq<char>>) -> bool {
    a.len() == b.len() && forall|i: int| 0 <= i < a.len() ==> same_text(#[trigger] a[i], b[i])
}

/// Whether the kernel reads and takes the events of a history, also where their members stand in
/// another order.
pub open spec fn durable(history: Seq<Seq<char>>) -> bool {
    forall|other: Seq<Seq<char>>| #[trigger]
        same_texts(history, other) ==> replay::accepted(other) && forall|i: int|
            0 <= i < other.len() ==> event_complaint(#[trigger] other[i]) is None
}

proof fn lemma_durable_grows(history: Seq<Seq<char>>, event: Seq<char>)
    requires
        durable(history),
        forall|other: Seq<Seq<char>>, again: Seq<char>|
            #![trigger apply_error(other, again)]
            same_texts(history, other) && same_text(event, again) ==> apply_error(other, again)
                is None,
        forall|again: Seq<char>| #[trigger]
            same_text(event, again) ==> event_complaint(again) is None,
    ensures
        durable(history.push(event)),
{
    let after = history.push(event);
    assert forall|other: Seq<Seq<char>>| #[trigger]
        same_texts(after, other) implies replay::accepted(other) && forall|i: int|
        0 <= i < other.len() ==> event_complaint(#[trigger] other[i]) is None by {
        let before = other.drop_last();
        let again = other.last();
        assert forall|i: int| 0 <= i < history.len() implies same_text(
            #[trigger] history[i],
            before[i],
        ) by {
            assert(same_text(after[i], other[i]));
        }
        assert(same_texts(history, before));
        assert(same_text(after[history.len() as int], again));
        assert(apply_error(before, again) is None);
        replay::law_histories_grow(before, again);
        assert(before.push(again) =~= other);
        assert forall|i: int| 0 <= i < other.len() implies event_complaint(#[trigger] other[i])
            is None by {
            if i < history.len() {
                assert(other[i] == before[i]);
            } else {
                assert(other[i] == again);
            }
        }
    }
}

/// `platonic_core::RunState::new`: a state that has accepted nothing.
#[verifier::external_body]
fn new_run_state() -> (r: RunState)
    ensures
        run_history(r) == Seq::<Seq<char>>::empty(),
{
    RunState::new()
}

/// `platonic_core::RunState::next_seq`: the number of events accepted so far.
#[verifier::external_body]
fn next_seq(state: &RunState) -> (r: u64)
    ensures
        r == run_history(*state).len(),
{
    state.next_seq()
}

/// `platonic_core::RunState::apply` on the event that `serde_json::from_str` reads in `event`,
/// under the next sequence number. What it answers depends on the events accepted so far and on
/// this one. An accepted event joins the history; a rejected one leaves the state as it was. The
/// parser takes members in any order, so that what is accepted is read and accepted in any order of
/// its members, after events that are the same but for the order of theirs.
#[verifier::external_body]
fn apply_event(state: &mut RunState, occurred_at_ms: u64, event: &str) -> (r: Result<
    (),
    CoreError,
>)
    ensures
        error_in(r) == apply_error(run_history(*old(state)), event@),
        r is Ok ==> run_history(*final(state)) == run_history(*old(state)).push(event@),
        r is Err ==> run_history(*final(state)) == run_history(*old(state)),
        r is Ok ==> forall|other: Seq<Seq<char>>, again: Seq<char>|
            #![trigger apply_error(other, again)]
            same_texts(run_history(*old(state)), other) && same_text(event@, again) ==> apply_error(
                other,
                again,
            ) is None,
        r is Ok ==> forall|again: Seq<char>| #[trigger]
            same_text(event@, again) ==> event_complaint(again) is None,
{
    let event = serde_json::from_str(event).map_err(|e| CoreError::Rejected(e.to_string()))?;
    let record = CoreRecord { seq: state.next_seq(), occurred_at_ms, event };
    state.apply(&record).map_err(
        |error| match error {
            KernelError::EmptyIdentifier(kind) => CoreError::EmptyIdentifier(kind.to_owned()),
            KernelError::ContextBudgetExceeded { used, budget } =>
                CoreError::ContextBudgetExceeded { used, budget },
            other => CoreError::Rejected(other.to_string()),
        },
    )
}

/// One event of a run with its place and its time.
#[derive(Debug, PartialEq, Eq)]
pub struct RecordedEvent {
    pub seq: u64,
    pub occurred_at_ms: u64,
    pub event: HarnessEvent,
}

/// A record as it is written down.
pub open spec fn record_json(seq: u64, occurred_at_ms: u64, event: EventView) -> JsonView {
    JsonView::Object(json::no_members()
        .push(("seq"@, JsonView::Number(text::decimal(seq as nat))))
        .push(("occurred_at_ms"@, JsonView::Number(text::decimal(occurred_at_ms as nat))))
        .push(("event"@, event_json(event))))
}

impl RecordedEvent {
    /// The record as it is written down.
    pub fn to_json(&self) -> (r: Json)
        ensures
            r@ == record_json(self.seq, self.occurred_at_ms, self.event@),
    {
        ObjectBuilder::new().number("seq", self.seq).number(
            "occurred_at_ms",
            self.occurred_at_ms,
        ).with("event", self.event.to_json()).build()
    }
}

/// The run state behind a ledger: it numbers the events of one run and takes only those that the
/// kernel accepts.
pub struct RunLog {
    state: RunState,
}

impl RunLog {
    /// The events accepted so far, each as its JSON text.
    pub closed spec fn view(&self) -> Seq<Seq<char>> {
        run_history(self.state)
    }

    /// A log without events.
    pub fn new() -> (r: RunLog)
        ensures
            r@ == Seq::<Seq<char>>::empty(),
            replay::accepted(r@),
            durable(r@),
    {
        RunLog { state: new_run_state() }
    }

    /// Offers `event` to the kernel. Accepted, it becomes the next record; turned down, it changes
    /// nothing. Either way the log holds a history that the kernel takes.
    pub fn next_record(&mut self, occurred_at_ms: u64, event: HarnessEvent) -> (r: Result<
        RecordedEvent,
        CoreError,
    >)
        ensures
            error_in(r) == apply_error(old(self)@, json::json_text(event_json(event@))),
            r matches Ok(record) ==> {
                &&& record.seq == old(self)@.len()
                &&& record.occurred_at_ms == occurred_at_ms
                &&& record.event == event
                &&& final(self)@ == old(self)@.push(json::json_text(event_json(event@)))
            },
            r is Err ==> final(self)@ == old(self)@,
            replay::accepted(old(self)@) ==> replay::accepted(final(self)@),
            durable(old(self)@) ==> durable(final(self)@),
    {
        let ghost history = self@;
        let seq: u64 = next_seq(&self.state);
        let line = event.to_json().render();
        match apply_event(&mut self.state, occurred_at_ms, line.as_str()) {
            Ok(_) => {
                proof {
                    if replay::accepted(history) {
                        replay::law_histories_grow(history, line@);
                    }
                    if durable(history) {
                        lemma_durable_grows(history, line@);
                    }
                }
                Ok(RecordedEvent { seq, occurred_at_ms, event })
            },
            Err(error) => Err(error),
        }
    }
}

/// The events of a run name the run and tell their kind: that it began, that it finished, and that it
/// failed, with the reason.
pub proof fn law_events_of_a_run_are_written_by_name(run_id: Seq<char>, other: Seq<char>)
    ensures
        event_json(EventView::RunStarted { run_id, agent_id: other }) matches JsonView::Object(m)
            && m.len() == 3
            && m[0] == ("event"@, JsonView::Text("run_started"@))
            && m[1] == ("run_id"@, JsonView::Text(run_id))
            && m[2] == ("agent_id"@, JsonView::Text(other)),
        event_json(EventView::RunFinished { run_id }) matches JsonView::Object(m)
            && m.len() == 2
            && m[0] == ("event"@, JsonView::Text("run_finished"@))
            && m[1] == ("run_id"@, JsonView::Text(run_id)),
        event_json(EventView::RunFailed { run_id, reason: other }) matches JsonView::Object(m)
            && m.len() == 3
            && m[0] == ("event"@, JsonView::Text("run_failed"@))
            && m[1] == ("run_id"@, JsonView::Text(run_id))
            && m[2] == ("reason"@, JsonView::Text(other)),
{
    let m0 = event_json(EventView::RunStarted { run_id, agent_id: other })->Object_0;
    assert(m0[0] == ("event"@, JsonView::Text("run_started"@)));
    assert(m0[1] == ("run_id"@, JsonView::Text(run_id)));
    assert(m0[2] == ("agent_id"@, JsonView::Text(other)));
    let m1 = event_json(EventView::RunFinished { run_id })->Object_0;
    assert(m1[0] == ("event"@, JsonView::Text("run_finished"@)));
    assert(m1[1] == ("run_id"@, JsonView::Text(run_id)));
    let m2 = event_json(EventView::RunFailed { run_id, reason: other })->Object_0;
    assert(m2[0] == ("event"@, JsonView::Text("run_failed"@)));
    assert(m2[1] == ("run_id"@, JsonView::Text(run_id)));
    assert(m2[2] == ("reason"@, JsonView::Text(other)));
}

/// The events of a turn name the run and the turn, and tell their kind: the context that was built, the
/// model that was asked at which step, and the call that was proposed.
pub proof fn law_events_of_a_turn_are_written_by_name(
    run_id: Seq<char>,
    turn_id: Seq<char>,
    step: u32,
    model: Seq<char>,
    context: PackView,
    call: CallView,
)
    ensures
        event_json(EventView::ContextBuilt { run_id, turn_id, context }) matches JsonView::Object(m)
            && m.len() == 4
            && m[0] == ("event"@, JsonView::Text("context_built"@))
            && m[1] == ("run_id"@, JsonView::Text(run_id))
            && m[2] == ("turn_id"@, JsonView::Text(turn_id))
            && m[3] == ("context"@, pack_json(context)),
        event_json(EventView::ModelRequested { run_id, turn_id, step, model }) matches JsonView::Object(m)
            && m.len() == 5
            && m[0] == ("event"@, JsonView::Text("model_requested"@))
            && m[1] == ("run_id"@, JsonView::Text(run_id))
            && m[2] == ("turn_id"@, JsonView::Text(turn_id))
            && m[3] == ("step"@, JsonView::Number(text::decimal(step as nat)))
            && m[4] == ("model"@, JsonView::Text(model)),
        event_json(EventView::ToolCallProposed { run_id, turn_id, call }) matches JsonView::Object(m)
            && m.len() == 4
            && m[0] == ("event"@, JsonView::Text("tool_call_proposed"@))
            && m[1] == ("run_id"@, JsonView::Text(run_id))
            && m[2] == ("turn_id"@, JsonView::Text(turn_id))
            && m[3] == ("call"@, call_json(call)),
{
    let m0 = event_json(EventView::ContextBuilt { run_id, turn_id, context })->Object_0;
    assert(m0[0] == ("event"@, JsonView::Text("context_built"@)));
    assert(m0[1] == ("run_id"@, JsonView::Text(run_id)));
    assert(m0[2] == ("turn_id"@, JsonView::Text(turn_id)));
    assert(m0[3] == ("context"@, pack_json(context)));
    let m1 = event_json(EventView::ModelRequested { run_id, turn_id, step, model })->Object_0;
    assert(m1[0] == ("event"@, JsonView::Text("model_requested"@)));
    assert(m1[1] == ("run_id"@, JsonView::Text(run_id)));
    assert(m1[2] == ("turn_id"@, JsonView::Text(turn_id)));
    assert(m1[3] == ("step"@, JsonView::Number(text::decimal(step as nat))));
    assert(m1[4] == ("model"@, JsonView::Text(model)));
    let m2 = event_json(EventView::ToolCallProposed { run_id, turn_id, call })->Object_0;
    assert(m2[0] == ("event"@, JsonView::Text("tool_call_proposed"@)));
    assert(m2[1] == ("run_id"@, JsonView::Text(run_id)));
    assert(m2[2] == ("turn_id"@, JsonView::Text(turn_id)));
    assert(m2[3] == ("call"@, call_json(call)));
}

/// The events of a call name the run and the call, and tell their kind: what the policy said, whether an
/// approver granted or denied it, who and why, that the tool began, what it gave, and why it failed.
pub proof fn law_events_of_a_call_are_written_by_name(
    run_id: Seq<char>,
    call_id: Seq<char>,
    actor_id: Seq<char>,
    reason: Seq<char>,
    decision: PolicyView,
    result: ResultView,
)
    ensures
        event_json(EventView::PolicyEvaluated { run_id, call_id, decision }) matches JsonView::Object(m)
            && m.len() == 4
            && m[0] == ("event"@, JsonView::Text("policy_evaluated"@))
            && m[1] == ("run_id"@, JsonView::Text(run_id))
            && m[2] == ("call_id"@, JsonView::Text(call_id))
            && m[3] == ("decision"@, policy_json(decision)),
        event_json(EventView::ApprovalGranted { run_id, call_id, actor_id }) matches JsonView::Object(m)
            && m.len() == 4
            && m[0] == ("event"@, JsonView::Text("approval_granted"@))
            && m[1] == ("run_id"@, JsonView::Text(run_id))
            && m[2] == ("call_id"@, JsonView::Text(call_id))
            && m[3] == ("actor_id"@, JsonView::Text(actor_id)),
        event_json(EventView::ApprovalDenied { run_id, call_id, actor_id, reason }) matches JsonView::Object(m)
            && m.len() == 5
            && m[0] == ("event"@, JsonView::Text("approval_denied"@))
            && m[1] == ("run_id"@, JsonView::Text(run_id))
            && m[2] == ("call_id"@, JsonView::Text(call_id))
            && m[3] == ("actor_id"@, JsonView::Text(actor_id))
            && m[4] == ("reason"@, JsonView::Text(reason)),
        event_json(EventView::ToolStarted { run_id, call_id }) matches JsonView::Object(m)
            && m.len() == 3
            && m[0] == ("event"@, JsonView::Text("tool_started"@))
            && m[1] == ("run_id"@, JsonView::Text(run_id))
            && m[2] == ("call_id"@, JsonView::Text(call_id)),
        event_json(EventView::ToolFinished { run_id, result }) matches JsonView::Object(m)
            && m.len() == 3
            && m[0] == ("event"@, JsonView::Text("tool_finished"@))
            && m[1] == ("run_id"@, JsonView::Text(run_id))
            && m[2] == ("result"@, result_json(result)),
        event_json(EventView::ToolFailed { run_id, call_id, reason }) matches JsonView::Object(m)
            && m.len() == 4
            && m[0] == ("event"@, JsonView::Text("tool_failed"@))
            && m[1] == ("run_id"@, JsonView::Text(run_id))
            && m[2] == ("call_id"@, JsonView::Text(call_id))
            && m[3] == ("reason"@, JsonView::Text(reason)),
{
    let m0 = event_json(EventView::PolicyEvaluated { run_id, call_id, decision })->Object_0;
    assert(m0[0] == ("event"@, JsonView::Text("policy_evaluated"@)));
    assert(m0[1] == ("run_id"@, JsonView::Text(run_id)));
    assert(m0[2] == ("call_id"@, JsonView::Text(call_id)));
    assert(m0[3] == ("decision"@, policy_json(decision)));
    let m1 = event_json(EventView::ApprovalGranted { run_id, call_id, actor_id })->Object_0;
    assert(m1[0] == ("event"@, JsonView::Text("approval_granted"@)));
    assert(m1[1] == ("run_id"@, JsonView::Text(run_id)));
    assert(m1[2] == ("call_id"@, JsonView::Text(call_id)));
    assert(m1[3] == ("actor_id"@, JsonView::Text(actor_id)));
    let m2 = event_json(EventView::ApprovalDenied { run_id, call_id, actor_id, reason })->Object_0;
    assert(m2[0] == ("event"@, JsonView::Text("approval_denied"@)));
    assert(m2[1] == ("run_id"@, JsonView::Text(run_id)));
    assert(m2[2] == ("call_id"@, JsonView::Text(call_id)));
    assert(m2[3] == ("actor_id"@, JsonView::Text(actor_id)));
    assert(m2[4] == ("reason"@, JsonView::Text(reason)));
    let m3 = event_json(EventView::ToolStarted { run_id, call_id })->Object_0;
    assert(m3[0] == ("event"@, JsonView::Text("tool_started"@)));
    assert(m3[1] == ("run_id"@, JsonView::Text(run_id)));
    assert(m3[2] == ("call_id"@, JsonView::Text(call_id)));
    let m4 = event_json(EventView::ToolFinished { run_id, result })->Object_0;
    assert(m4[0] == ("event"@, JsonView::Text("tool_finished"@)));
    assert(m4[1] == ("run_id"@, JsonView::Text(run_id)));
    assert(m4[2] == ("result"@, result_json(result)));
    let m5 = event_json(EventView::ToolFailed { run_id, call_id, reason })->Object_0;
    assert(m5[0] == ("event"@, JsonView::Text("tool_failed"@)));
    assert(m5[1] == ("run_id"@, JsonView::Text(run_id)));
    assert(m5[2] == ("call_id"@, JsonView::Text(call_id)));
    assert(m5[3] == ("reason"@, JsonView::Text(reason)));
}

/// The answer of the model is written with what it said, what it proposed, in order, and what it used.
pub proof fn law_answers_are_written_by_name(
    run_id: Seq<char>,
    turn_id: Seq<char>,
    step: u32,
    output: Seq<char>,
    proposed_calls: Seq<(Seq<char>, JsonView)>,
    usage: ModelUsage,
    i: int,
)
    requires
        0 <= i < proposed_calls.len(),
    ensures
        event_json(
            EventView::ModelResponded { run_id, turn_id, step, output, proposed_calls, usage },
        ) matches JsonView::Object(m) && m.len() == 7 && m[0] == (
            "event"@,
            JsonView::Text("model_responded"@),
        ) && m[1] == ("run_id"@, JsonView::Text(run_id)) && m[2] == (
            "turn_id"@,
            JsonView::Text(turn_id),
        ) && m[3] == ("step"@, JsonView::Number(text::decimal(step as nat))) && m[4].0 == "output"@
            && (m[4].1 matches JsonView::Object(o) && o.len() == 2 && o[0] == (
            "role"@,
            JsonView::Text("assistant"@),
        ) && o[1] == ("content"@, JsonView::Text(output))) && m[5].0 == "proposed_calls"@ && (
        m[5].1 matches JsonView::Array(calls) && calls.len() == proposed_calls.len() && (
        calls[i] matches JsonView::Object(c) && c.len() == 2 && c[0] == (
            "tool"@,
            JsonView::Text(proposed_calls[i].0),
        ) && c[1] == ("input"@, proposed_calls[i].1))) && m[6].0 == "usage"@ && (
        m[6].1 matches JsonView::Object(u) && u.len() == 2 && u[0] == (
            "input_tokens"@,
            JsonView::Number(text::decimal(usage.input_tokens as nat)),
        ) && u[1] == (
            "output_tokens"@,
            JsonView::Number(text::decimal(usage.output_tokens as nat)),
        )),
{
    let m = event_json(
        EventView::ModelResponded { run_id, turn_id, step, output, proposed_calls, usage },
    )->Object_0;
    assert(m[0] == ("event"@, JsonView::Text("model_responded"@)));
    assert(m[1] == ("run_id"@, JsonView::Text(run_id)));
    assert(m[2] == ("turn_id"@, JsonView::Text(turn_id)));
    assert(m[3] == ("step"@, JsonView::Number(text::decimal(step as nat))));
    let o = m[4].1->Object_0;
    assert(o[0] == ("role"@, JsonView::Text("assistant"@)));
    assert(o[1] == ("content"@, JsonView::Text(output)));
    let c = proposal_json(proposed_calls[i])->Object_0;
    assert(c[0] == ("tool"@, JsonView::Text(proposed_calls[i].0)));
    assert(c[1] == ("input"@, proposed_calls[i].1));
    let u = m[6].1->Object_0;
    assert(u[0].0 == "input_tokens"@ && u[1].0 == "output_tokens"@);
}

/// What the policy said is written as it was: an allowance alone, a demand for approval and a refusal
/// with their reasons.
pub proof fn law_policies_are_written_by_name(reason: Seq<char>)
    ensures
        policy_json(PolicyView::Allow) == JsonView::Object(
            seq![("decision"@, JsonView::Text("allow"@))],
        ),
        policy_json(PolicyView::RequireApproval { reason }) == JsonView::Object(
            seq![
                ("decision"@, JsonView::Text("require_approval"@)),
                ("reason"@, JsonView::Text(reason)),
            ],
        ),
        policy_json(PolicyView::Deny { reason }) == JsonView::Object(
            seq![("decision"@, JsonView::Text("deny"@)), ("reason"@, JsonView::Text(reason))],
        ),
{
    assert(policy_json(PolicyView::Allow)->Object_0 =~= seq![
        ("decision"@, JsonView::Text("allow"@)),
    ]);
    assert(policy_json(PolicyView::RequireApproval { reason })->Object_0 =~= seq![
        ("decision"@, JsonView::Text("require_approval"@)),
        ("reason"@, JsonView::Text(reason)),
    ]);
    assert(policy_json(PolicyView::Deny { reason })->Object_0 =~= seq![
        ("decision"@, JsonView::Text("deny"@)),
        ("reason"@, JsonView::Text(reason)),
    ]);
}

/// A call, what it gave, a part of a context and a record are written whole, under their names.
pub proof fn law_calls_and_results_are_written_by_name(
    call: CallView,
    result: ResultView,
    fragment: FragmentView,
    pack: PackView,
    seq: u64,
    at: u64,
    event: EventView,
)
    ensures
        call_json(call) matches JsonView::Object(m)
            && m.len() == 4
            && m[0] == ("id"@, JsonView::Text(call.id))
            && m[1] == ("tool"@, JsonView::Text(call.tool))
            && m[2] == ("effect"@, JsonView::Text(call.effect.wire()))
            && m[3] == ("input"@, call.input),
        result_json(result) matches JsonView::Object(m)
            && m.len() == 5
            && m[0] == ("call_id"@, JsonView::Text(result.call_id))
            && m[1] == ("summary"@, JsonView::Text(result.summary))
            && m[2] == ("data"@, result.data)
            && m[3] == ("artifacts"@, JsonView::Array(Seq::empty()))
            && m[4] == ("visibility"@, JsonView::Text("both"@)),
        fragment_json(fragment) matches JsonView::Object(m)
            && m.len() == 4
            && m[0] == ("lane"@, JsonView::Text(fragment.lane.wire()))
            && m[1] == ("source"@, JsonView::Text(fragment.source))
            && m[2] == ("content"@, JsonView::Text(fragment.content))
            && m[3] == (
                "estimated_tokens"@,
                JsonView::Number(text::decimal(fragment.estimated_tokens as nat)),
            ),
        pack_json(pack) matches JsonView::Object(m)
            && m.len() == 2
            && m[0] == ("token_budget"@, JsonView::Number(text::decimal(pack.token_budget as nat)))
            && m[1] == (
                "fragments"@,
                JsonView::Array(Seq::new(pack.fragments.len(), |i: int| fragment_json(pack.fragments[i]))),
            ),
        record_json(seq, at, event) matches JsonView::Object(m)
            && m.len() == 3
            && m[0] == ("seq"@, JsonView::Number(text::decimal(seq as nat)))
            && m[1] == ("occurred_at_ms"@, JsonView::Number(text::decimal(at as nat)))
            && m[2] == ("event"@, event_json(event)),
{
    let m0 = call_json(call)->Object_0;
    assert(m0[0] == ("id"@, JsonView::Text(call.id)));
    assert(m0[1] == ("tool"@, JsonView::Text(call.tool)));
    assert(m0[2] == ("effect"@, JsonView::Text(call.effect.wire())));
    assert(m0[3] == ("input"@, call.input));
    let m1 = result_json(result)->Object_0;
    assert(m1[0] == ("call_id"@, JsonView::Text(result.call_id)));
    assert(m1[1] == ("summary"@, JsonView::Text(result.summary)));
    assert(m1[2] == ("data"@, result.data));
    assert(m1[3] == ("artifacts"@, JsonView::Array(Seq::empty())));
    assert(m1[4] == ("visibility"@, JsonView::Text("both"@)));
    let m2 = fragment_json(fragment)->Object_0;
    assert(m2[0] == ("lane"@, JsonView::Text(fragment.lane.wire())));
    assert(m2[1] == ("source"@, JsonView::Text(fragment.source)));
    assert(m2[2] == ("content"@, JsonView::Text(fragment.content)));
    assert(m2[3] == (
        "estimated_tokens"@,
        JsonView::Number(text::decimal(fragment.estimated_tokens as nat)),
    ));
    let m3 = pack_json(pack)->Object_0;
    assert(m3[0] == ("token_budget"@, JsonView::Number(text::decimal(pack.token_budget as nat))));
    assert(m3[1] == (
        "fragments"@,
        JsonView::Array(Seq::new(pack.fragments.len(), |i: int| fragment_json(pack.fragments[i]))),
    ));
    let m4 = record_json(seq, at, event)->Object_0;
    assert(m4[0] == ("seq"@, JsonView::Number(text::decimal(seq as nat))));
    assert(m4[1] == ("occurred_at_ms"@, JsonView::Number(text::decimal(at as nat))));
    assert(m4[2] == ("event"@, event_json(event)));
}

/// What the kernel says of an error names what is empty, or tells both sizes; what it says itself is told
/// as it is.
pub proof fn law_kernel_errors_are_told(kind: Seq<char>, used: u32, budget: u32)
    ensures
        core_message(CoreErrorView::EmptyIdentifier(kind)) == kind + " cannot be empty"@,
        core_message(CoreErrorView::ContextBudgetExceeded { used, budget })
            == "context budget exceeded: used "@ + text::decimal(used as nat) + ", budget "@
            + text::decimal(budget as nat),
        core_message(CoreErrorView::Rejected(kind)) == kind,
{
}

} // verus!
