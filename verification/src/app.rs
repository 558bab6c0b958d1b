//! What surrounds a run: its session, its approvals, its policy and the context of its turns.
use crate::config::{Config, ProviderKind};
use crate::error::{AppError, AppResult};
use crate::harness;
use crate::harness::{
    CallView, ContextFragment, ContextLane, ContextPack, CoreError, CoreErrorView, EffectClass,
    FragmentView, PackView, PolicyDecision, PolicyView, RecordedEvent, ToolCall, ToolProposal,
};
use crate::json;
use crate::json::{Json, JsonView};
use crate::ledger::SessionTurn;
use crate::model;
use crate::model::{
    BlockView, MessageView, ModelBlock, ModelMessage, ModelResponse, ModelRole, ResponseView,
};
use crate::text;
use crate::tool_catalog;
use crate::tool_catalog::{ToolSpec, ToolSpecView};
use vstd::prelude::*;

verus! {

/// The session that a run belongs to: a new one, or one that it continues.
#[derive(Clone, Debug, PartialEq, Eq)]
pub enum RunSession {
    Fresh { session_id: String },
    Continue { session_id: String },
}

impl RunSession {
    /// The session's id.
    pub open spec fn id(self) -> Seq<char> {
        match self {
            RunSession::Fresh { session_id } => session_id@,
            RunSession::Continue { session_id } => session_id@,
        }
    }

    /// The session's id.
    pub fn session_id(&self) -> (r: &str)
        ensures
            r@ == self.id(),
    {
        match self {
            RunSession::Fresh { session_id } => session_id.as_str(),
            RunSession::Continue { session_id } => session_id.as_str(),
        }
    }

    /// Whether the session is to be created.
    pub fn create_session(&self) -> (r: bool)
        ensures
            r == (*self is Fresh),
    {
        match self {
            RunSession::Fresh { .. } => true,
            RunSession::Continue { .. } => false,
        }
    }
}

/// Where the events of a run are written: the path of a JSON-lines file or of a database.
#[derive(Clone, Debug, PartialEq, Eq)]
pub enum RunLedger {
    Jsonl(String),
    Sqlite(String),
}

/// What a run came to.
#[derive(Clone, Debug, PartialEq, Eq)]
pub struct RunOutcome {
    pub run_id: String,
    pub final_answer: String,
}

/// A question must hold more than white space.
pub fn check_question(question: &str) -> (r: AppResult<()>)
    ensures
        text::is_blank(question@) <==> r == Err::<(), AppError>(AppError::EmptyQuestion),
        !text::is_blank(question@) <==> r == Ok::<(), AppError>(()),
{
    if text::blank(question) {
        Err(AppError::EmptyQuestion)
    } else {
        Ok(())
    }
}

/// Only a database holds sessions.
pub fn check_session_ledger(ledger: &RunLedger, session: &Option<RunSession>) -> (r: AppResult<()>)
    ensures
        r is Err <==> *ledger is Jsonl && *session is Some,
        r matches Err(error) ==> error matches AppError::Config(detail) && detail@
            == "sessions require a SQLite ledger"@,
{
    match (ledger, session) {
        (RunLedger::Jsonl(_), Some(_)) => Err(
            AppError::Config("sessions require a SQLite ledger".to_owned()),
        ),
        _ => Ok(()),
    }
}

/// How approvals are come by.
#[derive(Clone, Copy, Debug, PartialEq, Eq)]
pub enum ApprovalMode {
    /// By asking on the terminal.
    Prompt,
    /// By granting what may be granted unasked.
    AutoApprove,
    /// By denying everything, in the name of the actor.
    Deny { actor: &'static str },
    /// By asking someone else, the actor.
    External { actor: &'static str },
}

impl Default for ApprovalMode {
    fn default() -> (r: ApprovalMode)
        ensures
            r == ApprovalMode::Prompt,
    {
        ApprovalMode::Prompt
    }
}

/// Whether a call is granted unasked: in the mode for it, where policy wants approval, and only for
/// writes inside the workspace.
pub open spec fn auto_granted(mode: ApprovalMode, effect: EffectClass, policy: PolicyView) -> bool {
    mode is AutoApprove && policy is RequireApproval && effect == EffectClass::WorkspaceWrite
}

impl ApprovalMode {
    /// The mode for a run that grants unasked, or for one that asks.
    pub fn from_yolo(enabled: bool) -> (r: ApprovalMode)
        ensures
            r == if enabled {
                ApprovalMode::AutoApprove
            } else {
                ApprovalMode::Prompt
            },
    {
        if enabled {
            ApprovalMode::AutoApprove
        } else {
            ApprovalMode::Prompt
        }
    }

    /// The mode in which `actor` is asked.
    pub fn external(actor: &'static str) -> (r: ApprovalMode)
        ensures
            r == (ApprovalMode::External { actor }),
    {
        ApprovalMode::External { actor }
    }

    /// Who grants the call unasked, if anyone does.
    pub fn auto_grant_actor(&self, call: &ToolCall, policy: &PolicyDecision) -> (r: Option<
        &'static str,
    >)
        ensures
            r is Some <==> auto_granted(*self, call.effect, policy@),
            r matches Some(actor) ==> actor@ == "yolo"@,
    {
        match (self, policy) {
            (ApprovalMode::AutoApprove, PolicyDecision::RequireApproval { .. }) => if call.effect
                == EffectClass::WorkspaceWrite {
                Some("yolo")
            } else {
                None
            },
            _ => None,
        }
    }

    /// Who denies the call unasked, if anyone does.
    pub fn deny_actor(&self, policy: &PolicyDecision) -> (r: Option<&'static str>)
        ensures
            r is Some <==> *self is Deny && policy@ is RequireApproval,
            r matches Some(actor) ==> self->Deny_actor == actor,
    {
        match (self, policy) {
            (ApprovalMode::Deny { actor }, PolicyDecision::RequireApproval { .. }) => Some(*actor),
            _ => None,
        }
    }

    /// Who answers where approval is asked for.
    pub open spec fn answering(self) -> Seq<char> {
        match self {
            ApprovalMode::External { actor } => actor@,
            _ => "stdin"@,
        }
    }

    /// Who answers where approval is asked for: the actor, or the terminal.
    pub fn answering_actor(&self) -> (r: &'static str)
        ensures
            r@ == self.answering(),
    {
        match self {
            ApprovalMode::External { actor } => *actor,
            _ => "stdin",
        }
    }
}

/// What a run reports while it is under way.
#[derive(Debug, PartialEq, Eq)]
pub enum RunEvent {
    /// What was written to the ledger.
    Ledger(RecordedEvent),
    /// A piece of an answer.
    AssistantDelta(AssistantDeltaEvent),
}

/// A piece of an answer.
#[derive(Clone, Debug, PartialEq, Eq)]
pub struct AssistantDeltaEvent {
    pub run_id: String,
    pub turn_id: String,
    pub step: u32,
    pub delta_index: u64,
    pub text: String,
}

/// What a piece of an answer stands for.
pub struct DeltaView {
    pub run_id: Seq<char>,
    pub turn_id: Seq<char>,
    pub step: u32,
    pub delta_index: u64,
    pub text: Seq<char>,
}

impl AssistantDeltaEvent {
    /// The piece that `self` stands for.
    pub open spec fn view(&self) -> DeltaView {
        DeltaView {
            run_id: self.run_id@,
            turn_id: self.turn_id@,
            step: self.step,
            delta_index: self.delta_index,
            text: self.text@,
        }
    }
}

/// The pieces of the answer of one turn: they are numbered as they come in.
#[derive(Debug, PartialEq, Eq)]
pub struct DeltaStream {
    pub run_id: String,
    pub turn_id: String,
    pub step: u32,
    pub emitted: u64,
}

impl DeltaStream {
    /// The next piece; one without text is none.
    pub fn take(&mut self, text: &str) -> (r: Option<AssistantDeltaEvent>)
        requires
            old(self).emitted < u64::MAX,
        ensures
            text@.len() == 0 ==> r is None && *final(self) == *old(self),
            text@.len() > 0 ==> (r matches Some(delta) && delta@ == (DeltaView {
                run_id: old(self).run_id@,
                turn_id: old(self).turn_id@,
                step: old(self).step,
                delta_index: old(self).emitted,
                text: text@,
            })) && *final(self) == (DeltaStream {
                emitted: (old(self).emitted + 1) as u64,
                ..*old(self)
            }),
    {
        if text.is_empty() {
            return None;
        }
        let delta_index: u64 = self.emitted;
        self.emitted = delta_index + 1;
        Some(
            AssistantDeltaEvent {
                run_id: self.run_id.clone(),
                turn_id: self.turn_id.clone(),
                step: self.step,
                delta_index,
                text: text.to_owned(),
            },
        )
    }
}

/// What an approver is told.
#[derive(Clone, Debug, PartialEq, Eq)]
pub struct ApprovalRequest {
    pub run_id: String,
    pub call_id: String,
    pub tool_name: String,
    pub effect: EffectClass,
    pub reason: String,
    pub approval_preview: Option<String>,
    pub diff_preview: Option<String>,
}

/// What policy says of a call: a tool that is not enabled is denied, a shell command always needs
/// approval, and for the rest the baseline of the tool's effect holds.
pub open spec fn policy_for(enabled: Seq<Seq<char>>, call: CallView) -> PolicyView {
    if !enabled.contains(call.tool) {
        PolicyView::Deny { reason: "tool is not enabled: "@ + call.tool }
    } else if call.tool == tool_catalog::SHELL_EXEC@ {
        PolicyView::RequireApproval { reason: "shell.exec requires explicit local approval"@ }
    } else {
        harness::baseline_policy(call.effect)
    }
}

/// What policy says of a call.
pub fn evaluate_policy(enabled_tools: &Vec<String>, call: &ToolCall) -> (r: PolicyDecision)
    ensures
        r@ == policy_for(text::views(enabled_tools@), call@),
{
    let enabled = text::contains(enabled_tools, call.tool.as_str());
    proof {
        let names = text::views(enabled_tools@);
        if enabled {
            let i = choose|i: int|
                0 <= i < enabled_tools@.len() && (#[trigger] enabled_tools@[i])@ == call.tool@;
            assert(names[i] == call.tool@);
        } else if names.contains(call.tool@) {
            let i = choose|i: int| 0 <= i < names.len() && names[i] == call.tool@;
            assert(enabled_tools@[i]@ == call.tool@);
        }
    }
    if enabled {
        if text::same_text(call.tool.as_str(), tool_catalog::SHELL_EXEC) {
            PolicyDecision::RequireApproval {
                reason: "shell.exec requires explicit local approval".to_owned(),
            }
        } else {
            harness::default_policy(call.effect)
        }
    } else {
        PolicyDecision::Deny { reason: text::text2("tool is not enabled: ", call.tool.as_str()) }
    }
}

/// A shell command is never granted unasked, whatever the mode, and needs approval wherever it is
/// not denied.
pub proof fn law_shell_always_asks(mode: ApprovalMode, enabled: Seq<Seq<char>>, call: CallView)
    requires
        call.tool == tool_catalog::SHELL_EXEC@,
        call.effect == tool_catalog::effect_of(call.tool),
    ensures
        policy_for(enabled, call) !is Allow,
        !auto_granted(mode, call.effect, policy_for(enabled, call)),
{
    tool_catalog::law_names_find_their_tool(tool_catalog::Tool::ShellExec);
}

/// A tool that the catalogue does not have is never allowed unasked, even where it is enabled.
pub proof fn law_unknown_tools_fail_closed(
    mode: ApprovalMode,
    enabled: Seq<Seq<char>>,
    call: CallView,
)
    requires
        tool_catalog::named(call.tool) is None,
        call.effect == tool_catalog::effect_of(call.tool),
    ensures
        policy_for(enabled, call) is Deny,
        !auto_granted(mode, call.effect, policy_for(enabled, call)),
{
}

/// The call of the named tool with its class of effect.
pub open spec fn call_of(id: Seq<char>, name: Seq<char>, input: JsonView) -> CallView {
    CallView { id, tool: name, effect: tool_catalog::effect_of(name), input }
}

/// The call of the named tool with its class of effect.
pub fn tool_call(call_id: String, name: String, input: Json) -> (r: Result<ToolCall, CoreError>)
    ensures
        r is Ok <==> !text::is_blank(name@),
        r matches Ok(call) ==> call@ == call_of(call_id@, name@, input@),
        r matches Err(error) ==> error@ == CoreErrorView::EmptyIdentifier("ToolName"@),
{
    match harness::check_identifier("ToolName", name.as_str()) {
        Ok(_) => {
            let effect = tool_catalog::effect_for_tool(name.as_str());
            Ok(ToolCall { id: call_id, tool: name, effect, input })
        },
        Err(error) => Err(error),
    }
}

/// What an answer proposes: the tools that it uses, each with its input.
pub open spec fn proposals_of(response: ResponseView) -> Seq<(Seq<char>, JsonView)> {
    let uses = model::uses_among(response.content);
    Seq::new(uses.len(), |i: int| (uses[i].1, uses[i].2))
}

/// Whether every tool that an answer uses has a name.
pub open spec fn all_named(proposals: Seq<(Seq<char>, JsonView)>) -> bool {
    forall|i: int| 0 <= i < proposals.len() ==> !text::is_blank((#[trigger] proposals[i]).0)
}

/// What an answer proposes; an answer that uses a tool without a name is turned down.
pub fn proposals_from_response(response: &ModelResponse) -> (r: Result<
    Vec<ToolProposal>,
    CoreError,
>)
    ensures
        r is Ok <==> all_named(proposals_of(response@)),
        r matches Ok(proposals) ==> harness::proposal_views(proposals@) == proposals_of(response@),
        r matches Err(error) ==> error@ == CoreErrorView::EmptyIdentifier("ToolName"@),
{
    let uses = response.tool_uses();
    let ghost all = proposals_of(response@);
    let mut proposals: Vec<ToolProposal> = Vec::new();
    let mut i: usize = 0;
    while i < uses.len()
        invariant
            0 <= i <= uses@.len(),
            model::use_views(uses@) == model::uses_among(response@.content),
            all == proposals_of(response@),
            proposals@.len() == i,
            forall|k: int|
                0 <= k < i ==> (#[trigger] proposals@[k]).tool@ == all[k].0
                    && proposals@[k].input@ == all[k].1,
            forall|k: int| 0 <= k < i ==> !text::is_blank((#[trigger] all[k]).0),
        decreases uses@.len() - i,
    {
        proof {
            assert(model::use_views(uses@)[i as int].1 == uses@[i as int].1@);
            assert(all[i as int].0 == uses@[i as int].1@);
            assert(all[i as int].1 == uses@[i as int].2@);
        }
        match harness::check_identifier("ToolName", uses[i].1.as_str()) {
            Ok(_) => {},
            Err(error) => {
                return Err(error);
            },
        }
        proposals.push(ToolProposal { tool: uses[i].1.clone(), input: uses[i].2.clone() });
        i += 1;
    }
    assert(model::use_views(uses@).len() == uses@.len());
    assert(harness::proposal_views(proposals@) =~= all);
    Ok(proposals)
}

/// Whether the data that a tool gave back tell of a failure: a shell command did not exit with 0.
pub open spec fn is_failure(tool: Seq<char>, data: JsonView) -> bool {
    tool == tool_catalog::SHELL_EXEC@ && json::member_of(data, "exit_code"@) is Some
        && json::u64_in(json::member_of(data, "exit_code"@)) != Some(0u64)
}

/// Whether the data that a tool gave back tell of a failure.
pub fn tool_result_is_error(tool_name: &str, data: &Json) -> (r: bool)
    ensures
        r == is_failure(tool_name@, data@),
{
    if !text::same_text(tool_name, tool_catalog::SHELL_EXEC) {
        return false;
    }
    match data.get("exit_code") {
        Some(exit_code) => match exit_code.as_u64() {
            Some(code) => code != 0,
            None => true,
        },
        None => false,
    }
}

/// The request field that limits a model's output.
#[derive(Clone, Copy, Debug, PartialEq, Eq, Structural)]
pub enum TokenLimitField {
    MaxCompletionTokens,
    MaxTokens,
}

/// The request field that limits a model's output, by provider.
pub fn token_limit_field(kind: &ProviderKind) -> (r: TokenLimitField)
    ensures
        r == match *kind {
            ProviderKind::OpenAi => TokenLimitField::MaxCompletionTokens,
            ProviderKind::OpenRouter => TokenLimitField::MaxTokens,
        },
{
    match kind {
        ProviderKind::OpenAi => TokenLimitField::MaxCompletionTokens,
        ProviderKind::OpenRouter => TokenLimitField::MaxTokens,
    }
}

/// The tokens that a text is taken to have: one for every four characters, and one more.
pub open spec fn estimate(content: Seq<char>) -> u32 {
    if content.len() / 4 + 1 > u32::MAX {
        u32::MAX
    } else {
        (content.len() / 4 + 1) as u32
    }
}

/// The tokens that a text is taken to have.
pub fn estimate_tokens(content: &str) -> (r: u32)
    ensures
        r == estimate(content@),
{
    let n: usize = content.unicode_len() / 4;
    let limit: usize = u32::MAX as usize;
    if n >= limit {
        u32::MAX
    } else {
        (n as u32) + 1
    }
}

/// The sum, or the largest number where the sum does not fit.
pub open spec fn saturated(a: u32, b: u32) -> u32 {
    if a + b > u32::MAX {
        u32::MAX
    } else {
        (a + b) as u32
    }
}

/// The tokens that a request is taken to have: the prompt, the messages and the tools.
pub open spec fn context_tokens(messages: Seq<MessageView>, tools: Seq<ToolSpecView>) -> u32 {
    saturated(
        saturated(
            estimate(model::prompt()),
            estimate(json::json_text(model::messages_json(messages))),
        ),
        estimate(json::json_text(tool_catalog::specs_json(tools))),
    )
}

/// The tokens that a request is taken to have.
pub fn estimated_context_tokens(messages: &Vec<ModelMessage>, tools: &Vec<ToolSpec>) -> (r: u32)
    ensures
        r == context_tokens(model::message_views(messages@), tool_catalog::spec_views(tools@)),
{
    let messages_text = model::messages_to_json(messages).render();
    let tools_text = tool_catalog::tools_to_json(tools).render();
    estimate_tokens(model::system_prompt()).saturating_add(
        estimate_tokens(messages_text.as_str()),
    ).saturating_add(estimate_tokens(tools_text.as_str()))
}

/// What stands in for the turns that were left out.
pub const SESSION_TRUNCATION_MARKER: &'static str =
    "[older session turns omitted to fit the context budget]";

/// The messages of earlier turns: each question, then its answer.
pub open spec fn turn_messages(turns: Seq<SessionTurn>) -> Seq<MessageView>
    decreases turns.len(),
{
    if turns.len() == 0 {
        Seq::empty()
    } else {
        turn_messages(turns.drop_last()).push(
            model::user_message(turns.last().question@),
        ).push(model::assistant_message(turns.last().final_answer@))
    }
}

/// The messages that a run of a session starts with: a marker where turns were left out, the
/// earlier turns, and the question.
pub open spec fn session_messages(
    turns: Seq<SessionTurn>,
    question: Seq<char>,
    truncated: bool,
) -> Seq<MessageView> {
    let marker = if truncated {
        seq![model::user_message(SESSION_TRUNCATION_MARKER@)]
    } else {
        Seq::empty()
    };
    (marker + turn_messages(turns)).push(model::user_message(question))
}

/// The messages that a run of a session starts with, from the turn `first` on.
pub fn session_messages_from(
    turns: &Vec<SessionTurn>,
    first: usize,
    question: &str,
    truncated: bool,
) -> (r: Vec<ModelMessage>)
    requires
        first <= turns@.len(),
    ensures
        model::message_views(r@) == session_messages(turns@.skip(first as int), question@, truncated),
{
    let ghost kept = turns@.skip(first as int);
    let ghost marker = if truncated {
        seq![model::user_message(SESSION_TRUNCATION_MARKER@)]
    } else {
        Seq::<MessageView>::empty()
    };
    let mut messages: Vec<ModelMessage> = Vec::new();
    if truncated {
        messages.push(ModelMessage::user_text(SESSION_TRUNCATION_MARKER.to_owned()));
    }
    assert(model::message_views(messages@) =~= marker);
    let mut i: usize = first;
    assert(kept.take(0) =~= Seq::<SessionTurn>::empty());
    assert(marker + turn_messages(kept.take(0)) =~= marker);
    while i < turns.len()
        invariant
            first <= i <= turns@.len(),
            kept == turns@.skip(first as int),
            model::message_views(messages@) == marker + turn_messages(kept.take(i - first)),
        decreases turns@.len() - i,
    {
        let ghost before = model::message_views(messages@);
        let mut blocks: Vec<ModelBlock> = Vec::new();
        blocks.push(ModelBlock::Text { text: turns[i].final_answer.clone() });
        proof {
            assert(kept.take(i - first + 1).drop_last() =~= kept.take(i - first));
            assert(kept.take(i - first + 1).last() == turns@[i as int]);
            assert(model::block_views(blocks@) =~= seq![
                BlockView::Text { text: turns@[i as int].final_answer@ },
            ]);
        }
        messages.push(ModelMessage::user_text(turns[i].question.clone()));
        messages.push(ModelMessage::assistant_blocks(blocks));
        proof {
            let q = model::user_message(turns@[i as int].question@);
            let a = model::assistant_message(turns@[i as int].final_answer@);
            assert(model::message_views(messages@) =~= before.push(q).push(a));
            assert(before.push(q).push(a) =~= marker + turn_messages(
                kept.take(i - first),
            ).push(q).push(a));
        }
        i += 1;
    }
    assert(kept.take(turns@.len() - first) =~= kept);
    let ghost before = model::message_views(messages@);
    messages.push(ModelMessage::user_text(question.to_owned()));
    assert(model::message_views(messages@) =~= before.push(model::user_message(question@)));
    messages
}

/// Whether the messages fit the budget when the turns before `first` are left out.
pub open spec fn fits_from(
    turns: Seq<SessionTurn>,
    question: Seq<char>,
    budget: u32,
    tools: Seq<ToolSpecView>,
    first: nat,
) -> bool {
    context_tokens(session_messages(turns.skip(first as int), question, first > 0), tools) <= budget
}

/// The first turn that is kept: no more are left out than the budget asks for.
pub open spec fn first_kept(
    turns: Seq<SessionTurn>,
    question: Seq<char>,
    budget: u32,
    tools: Seq<ToolSpecView>,
    first: nat,
) -> nat
    decreases turns.len() - first,
{
    if first >= turns.len() || fits_from(turns, question, budget, tools, first) {
        first
    } else {
        first_kept(turns, question, budget, tools, first + 1)
    }
}

/// The messages that a run of a session starts with: as many of the latest turns as fit the budget,
/// and the question.
pub fn hydrated_messages(
    turns: &Vec<SessionTurn>,
    question: &str,
    config: &Config,
    tools: &Vec<ToolSpec>,
) -> (r: Vec<ModelMessage>)
    ensures
        ({
            let first = first_kept(
                turns@,
                question@,
                config.limits.token_budget,
                tool_catalog::spec_views(tools@),
                0,
            );
            model::message_views(r@) == session_messages(
                turns@.skip(first as int),
                question@,
                first > 0,
            )
        }),
{
    let ghost specs = tool_catalog::spec_views(tools@);
    let mut first: usize = 0;
    loop
        invariant
            first <= turns@.len(),
            specs == tool_catalog::spec_views(tools@),
            first_kept(turns@, question@, config.limits.token_budget, specs, 0) == first_kept(
                turns@,
                question@,
                config.limits.token_budget,
                specs,
                first as nat,
            ),
        decreases turns@.len() - first,
    {
        let messages = session_messages_from(turns, first, question, first > 0);
        if estimated_context_tokens(&messages, tools) <= config.limits.token_budget || first
            == turns.len() {
            return messages;
        }
        first += 1;
    }
}

/// The latest turns are kept, and no turn is left out needlessly: what is kept fits the budget or
/// is nothing at all, and one turn more would not have fitted.
pub proof fn law_hydration_keeps_what_fits(
    turns: Seq<SessionTurn>,
    question: Seq<char>,
    budget: u32,
    tools: Seq<ToolSpecView>,
)
    ensures
        ({
            let first = first_kept(turns, question, budget, tools, 0);
            &&& first <= turns.len()
            &&& first < turns.len() ==> fits_from(turns, question, budget, tools, first)
            &&& forall|k: nat| k < first ==> !#[trigger] fits_from(turns, question, budget, tools, k)
        }),
{
    lemma_first_kept(turns, question, budget, tools, 0);
}

proof fn lemma_first_kept(
    turns: Seq<SessionTurn>,
    question: Seq<char>,
    budget: u32,
    tools: Seq<ToolSpecView>,
    from: nat,
)
    requires
        from <= turns.len(),
    ensures
        ({
            let first = first_kept(turns, question, budget, tools, from);
            &&& from <= first <= turns.len()
            &&& first < turns.len() ==> fits_from(turns, question, budget, tools, first)
            &&& forall|k: nat|
                from <= k < first ==> !#[trigger] fits_from(turns, question, budget, tools, k)
        }),
    decreases turns.len() - from,
{
    if from < turns.len() && !fits_from(turns, question, budget, tools, from) {
        lemma_first_kept(turns, question, budget, tools, from + 1);
    }
}

/// The question always stands last in what the model is told, whatever was left out.
pub proof fn law_question_comes_last(turns: Seq<SessionTurn>, question: Seq<char>, truncated: bool)
    ensures
        session_messages(turns, question, truncated).last() == model::user_message(question),
        !truncated ==> session_messages(turns, question, truncated).len() == 2 * turns.len() + 1,
        truncated ==> session_messages(turns, question, truncated).len() == 2 * turns.len() + 2,
{
    lemma_turn_messages_len(turns);
}

proof fn lemma_turn_messages_len(turns: Seq<SessionTurn>)
    ensures
        turn_messages(turns).len() == 2 * turns.len(),
    decreases turns.len(),
{
    if turns.len() > 0 {
        lemma_turn_messages_len(turns.drop_last());
    }
}

/// The context of a turn: the prompt, the messages and the tools.
pub open spec fn pack_of(
    system: Seq<char>,
    messages: Seq<MessageView>,
    tools: Seq<ToolSpecView>,
    token_budget: u32,
) -> PackView {
    let messages_text = json::json_text(model::messages_json(messages));
    let tools_text = json::json_text(tool_catalog::specs_json(tools));
    PackView {
        token_budget,
        fragments: seq![
            FragmentView {
                lane: ContextLane::SystemContract,
                source: "system_prompt"@,
                content: system,
                estimated_tokens: estimate(system),
            },
            FragmentView {
                lane: ContextLane::RecentTurns,
                source: "model.messages"@,
                content: messages_text,
                estimated_tokens: estimate(messages_text),
            },
            FragmentView {
                lane: ContextLane::ToolSchemas,
                source: "model.tools"@,
                content: tools_text,
                estimated_tokens: estimate(tools_text),
            },
        ],
    }
}

/// The context of a turn.
pub fn context_pack(
    system: &str,
    messages: &Vec<ModelMessage>,
    tools: &Vec<ToolSpec>,
    token_budget: u32,
) -> (r: ContextPack)
    ensures
        r@ == pack_of(
            system@,
            model::message_views(messages@),
            tool_catalog::spec_views(tools@),
            token_budget,
        ),
{
    let messages_text = model::messages_to_json(messages).render();
    let tools_text = tool_catalog::tools_to_json(tools).render();
    let messages_tokens: u32 = estimate_tokens(messages_text.as_str());
    let tools_tokens: u32 = estimate_tokens(tools_text.as_str());
    let r = ContextPack {
        token_budget,
        fragments: vec![
            ContextFragment {
                lane: ContextLane::SystemContract,
                source: "system_prompt".to_owned(),
                content: system.to_owned(),
                estimated_tokens: estimate_tokens(system),
            },
            ContextFragment {
                lane: ContextLane::RecentTurns,
                source: "model.messages".to_owned(),
                content: messages_text,
                estimated_tokens: messages_tokens,
            },
            ContextFragment {
                lane: ContextLane::ToolSchemas,
                source: "model.tools".to_owned(),
                content: tools_text,
                estimated_tokens: tools_tokens,
            },
        ],
    };
    assert(r@.fragments =~= pack_of(
        system@,
        model::message_views(messages@),
        tool_catalog::spec_views(tools@),
        token_budget,
    ).fragments);
    r
}

/// The id of a run that starts at a time in a process.
pub fn new_run_id(millis: u64, process_id: u32) -> (r: String)
    ensures
        r@ == "run_"@ + text::decimal(millis as nat) + "_"@ + text::decimal(process_id as nat),
{
    text::text4(
        "run_",
        text::decimal_u64(millis).as_str(),
        "_",
        text::decimal_u64(process_id as u64).as_str(),
    )
}

/// The id of a session that starts at a time in a process.
pub fn new_session_id(millis: u64, process_id: u32) -> (r: String)
    ensures
        r@ == "session_"@ + text::decimal(millis as nat) + "_"@ + text::decimal(process_id as nat),
{
    text::text4(
        "session_",
        text::decimal_u64(millis).as_str(),
        "_",
        text::decimal_u64(process_id as u64).as_str(),
    )
}

/// What the policy says of a call goes by whether its tool is enabled and by what it may do: a tool that
/// is not enabled is refused by name, a shell command asks, and of the others reading is allowed, writing
/// and network access ask, and everything else is refused.
pub proof fn law_policy_goes_by_effect(enabled: Seq<Seq<char>>, call: CallView)
    ensures
        ({
            let policy = policy_for(enabled, call);
            let shell = call.tool == "shell.exec"@;
            let asked_class = call.effect == EffectClass::WorkspaceWrite || call.effect
                == EffectClass::Network;
            &&& policy is Allow <==> enabled.contains(call.tool) && !shell && call.effect
                == EffectClass::ReadOnly
            &&& policy is RequireApproval <==> enabled.contains(call.tool) && (shell || asked_class)
            &&& !enabled.contains(call.tool) ==> policy == (PolicyView::Deny {
                reason: "tool is not enabled: "@ + call.tool,
            })
        }),
{
}

/// Of the tools of the catalogue that are enabled, reading and listing are allowed, and writing, editing
/// and running commands ask first.
pub proof fn law_enabled_tools_ask_before_they_change(
    enabled: Seq<Seq<char>>,
    id: Seq<char>,
    name: Seq<char>,
    input: JsonView,
)
    requires
        enabled.contains(name),
    ensures
        ({
            let policy = policy_for(enabled, call_of(id, name, input));
            let known = name == "file.read"@ || name == "file.list"@ || name == "file.write"@ || name
                == "file.edit"@ || name == "shell.exec"@;
            &&& policy is Allow <==> name == "file.read"@ || name == "file.list"@
            &&& policy is RequireApproval <==> name == "file.write"@ || name == "file.edit"@ || name
                == "shell.exec"@
            &&& policy is Deny <==> !known
        }),
{
    tool_catalog::law_tools_go_by_their_names(name);
}

/// The call of a tool keeps its name and its input.
pub proof fn law_calls_keep_what_was_proposed(id: Seq<char>, name: Seq<char>, input: JsonView)
    ensures
        call_of(id, name, input).id == id,
        call_of(id, name, input).tool == name,
        call_of(id, name, input).input == input,
{
}

/// An answer proposes one call for each tool that it uses, in their order, with the same input.
pub proof fn law_answers_propose_what_they_use(
    response: ResponseView,
    id: Seq<char>,
    name: Seq<char>,
    input: JsonView,
)
    ensures
        ({
            let more = ResponseView {
                content: response.content.push(BlockView::ToolUse { id, name, input }),
                ..response
            };
            proposals_of(more) == proposals_of(response).push((name, input))
        }),
{
    let block = BlockView::ToolUse { id, name, input };
    let more = ResponseView { content: response.content.push(block), ..response };
    assert(response.content.push(block).drop_last() =~= response.content);
    assert(proposals_of(more) =~= proposals_of(response).push((name, input)));
}

/// A result tells of a failure exactly where a command gave back an exit code that is not zero, or one
/// that is no number at all.
pub proof fn law_only_commands_fail_by_their_data(tool: Seq<char>, data: JsonView)
    ensures
        is_failure(tool, data) ==> tool == "shell.exec"@,
        json::member_of(data, "exit_code"@) is None ==> !is_failure(tool, data),
        tool == "shell.exec"@ && json::u64_in(json::member_of(data, "exit_code"@)) == Some(0u64)
            ==> !is_failure(tool, data),
        tool == "shell.exec"@ && json::member_of(data, "exit_code"@) is Some && json::u64_in(
            json::member_of(data, "exit_code"@),
        ) != Some(0u64) ==> is_failure(tool, data),
{
}

/// A text is taken to have one token for every four characters, and one more: the estimate is never
/// zero, and grows with the text.
pub proof fn law_estimates_follow_length(content: Seq<char>, longer: Seq<char>)
    requires
        content.len() <= longer.len(),
        longer.len() < 4_000_000_000,
    ensures
        4 * (estimate(content) - 1) <= content.len() < 4 * estimate(content),
        estimate(content) <= estimate(longer),
        estimate(content) > 0,
{
}

/// The tokens of a request are those of its prompt, its messages and its tools, added up as far as the
/// number goes.
pub proof fn law_context_tokens_add_up(
    messages: Seq<MessageView>,
    tools: Seq<ToolSpecView>,
    budget: u32,
)
    ensures
        ({
            let pack = pack_of(model::prompt(), messages, tools, budget);
            let sum = pack.fragments[0].estimated_tokens + pack.fragments[1].estimated_tokens
                + pack.fragments[2].estimated_tokens;
            &&& sum <= u32::MAX ==> context_tokens(messages, tools) == sum
            &&& sum > u32::MAX ==> context_tokens(messages, tools) == u32::MAX
        }),
{
}

/// The context of a turn holds its prompt, its messages and its tools, each in its lane and under its
/// source, and each with the tokens that its own text is taken to have; its budget is the one given.
pub proof fn law_contexts_hold_the_whole_request(
    system: Seq<char>,
    messages: Seq<MessageView>,
    tools: Seq<ToolSpecView>,
    budget: u32,
)
    ensures
        ({
            let pack = pack_of(system, messages, tools, budget);
            &&& pack.token_budget == budget
            &&& pack.fragments.len() == 3
            &&& pack.fragments[0].lane == ContextLane::SystemContract && pack.fragments[0].source
                == "system_prompt"@ && pack.fragments[0].content == system
            &&& pack.fragments[1].lane == ContextLane::RecentTurns && pack.fragments[1].source
                == "model.messages"@ && pack.fragments[1].content == json::json_text(
                model::messages_json(messages),
            )
            &&& pack.fragments[2].lane == ContextLane::ToolSchemas && pack.fragments[2].source
                == "model.tools"@ && pack.fragments[2].content == json::json_text(
                tool_catalog::specs_json(tools),
            )
            &&& forall|i: int|
                0 <= i < 3 ==> (#[trigger] pack.fragments[i]).estimated_tokens == estimate(
                    pack.fragments[i].content,
                )
        }),
{
}

/// Earlier turns are told in their order: each question as the user's, directly followed by its answer
/// as the model's.
pub proof fn law_turns_are_told_in_order(turns: Seq<SessionTurn>, i: int)
    requires
        0 <= i < turns.len(),
    ensures
        turn_messages(turns).len() == 2 * turns.len(),
        turn_messages(turns)[2 * i] == (MessageView {
            role: ModelRole::User,
            content: seq![BlockView::Text { text: turns[i].question@ }],
        }),
        turn_messages(turns)[2 * i + 1] == (MessageView {
            role: ModelRole::Assistant,
            content: seq![BlockView::Text { text: turns[i].final_answer@ }],
        }),
    decreases turns.len(),
{
    let rest = turns.drop_last();
    lemma_turn_messages_len(turns);
    lemma_turn_messages_len(rest);
    if i < rest.len() {
        law_turns_are_told_in_order(rest, i);
        assert(rest[i] == turns[i]);
        assert(turn_messages(turns)[2 * i] == turn_messages(rest)[2 * i]);
        assert(turn_messages(turns)[2 * i + 1] == turn_messages(rest)[2 * i + 1]);
    }
}

/// A run of a session starts with the turns that are kept, in between a marker, exactly where turns were
/// left out, and the question; all of the turns that are kept are there.
pub proof fn law_runs_start_with_their_session(
    turns: Seq<SessionTurn>,
    question: Seq<char>,
    truncated: bool,
)
    ensures
        ({
            let messages = session_messages(turns, question, truncated);
            let marker = MessageView {
                role: ModelRole::User,
                content: seq![
                    BlockView::Text {
                        text: "[older session turns omitted to fit the context budget]"@,
                    },
                ],
            };
            let skipped: int = if truncated {
                1
            } else {
                0
            };
            &&& truncated ==> messages[0] == marker
            &&& messages.subrange(skipped, messages.len() - 1) == turn_messages(turns)
            &&& messages.last() == (MessageView {
                role: ModelRole::User,
                content: seq![BlockView::Text { text: question }],
            })
        }),
{
    let messages = session_messages(turns, question, truncated);
    let skipped: int = if truncated {
        1
    } else {
        0
    };
    assert(messages.subrange(skipped, messages.len() - 1) =~= turn_messages(turns));
}

/// The actor who is asked answers where one is; else it is the terminal.
pub proof fn law_the_asked_actor_answers(mode: ApprovalMode)
    ensures
        mode matches ApprovalMode::External { actor } ==> mode.answering() == actor@,
        !(mode is External) ==> mode.answering() == "stdin"@,
{
}

} // verus!
