//! The loop of a run, as a machine. Each step takes what came of the last action and says what to
//! do next; who drives the machine records events, calls the model, asks for approval and runs
//! tools.
use crate::app;
use crate::app::{ApprovalMode, DeltaStream};
use crate::config::LimitsConfig;
use crate::harness;
use crate::harness::{
    CallView, CoreError, CoreErrorView, EventView, HarnessEvent, PolicyDecision, PolicyView,
    ResultView, ToolCall, ToolResult,
};
use crate::json;
use crate::model;
use crate::model::{MessageView, ModelMessage, ModelRequest, ModelResponse, ModelStop, ResponseView};
use crate::text;
use crate::tool_catalog;
use crate::tool_catalog::{ToolSpec, ToolSpecView};
use crate::tools::ApprovalOutcome;
use vstd::prelude::*;

verus! {

/// Why a run ended without an answer.
#[derive(Debug, PartialEq, Eq)]
pub enum RunError {
    /// The model call failed; the caller knows how.
    Model,
    /// The kernel turned an event or an identifier down.
    Core(CoreError),
    /// The run itself failed, for the reason given.
    Failed(String),
}

/// What a run error stands for.
pub enum RunErrorView {
    Model,
    Core(CoreErrorView),
    Failed(Seq<char>),
}

impl RunError {
    /// The error that `self` stands for.
    pub open spec fn view(&self) -> RunErrorView {
        match self {
            RunError::Model => RunErrorView::Model,
            RunError::Core(error) => RunErrorView::Core(error@),
            RunError::Failed(reason) => RunErrorView::Failed(reason@),
        }
    }
}

/// How the run's entry in its session is closed where the run ends without an answer.
#[derive(Debug, PartialEq, Eq)]
pub enum SessionClose {
    /// As failed, for the reason given.
    Failed(String),
    /// Not by the run: whoever holds the entry marks it as ended before it was closed.
    Left,
}

/// What a way of closing stands for.
pub enum CloseView {
    Failed(Seq<char>),
    Left,
}

impl SessionClose {
    /// The way of closing that `self` stands for.
    pub open spec fn view(&self) -> CloseView {
        match self {
            SessionClose::Failed(reason) => CloseView::Failed(reason@),
            SessionClose::Left => CloseView::Left,
        }
    }
}

/// What the machine is waiting for.
#[derive(Debug, PartialEq, Eq)]
pub enum Stage {
    /// That the start of the run is recorded.
    Starting,
    /// That the context of the turn is recorded.
    BuildingContext,
    /// That the failure for want of budget is recorded.
    OverBudget { used: u32, budget: u32 },
    /// That the request is recorded.
    Requesting,
    /// The model.
    AwaitingModel,
    /// That the answer is recorded.
    RecordingAnswer { response: ModelResponse, streamed: bool },
    /// That the failure of the run is recorded.
    Failing { error: RunError, close: SessionClose },
    /// That the end of the run is recorded.
    Finishing { answer: String },
    /// That the proposed call is recorded.
    Proposing { call: ToolCall },
    /// That the decision of policy is recorded.
    Deciding { call: ToolCall, policy: PolicyDecision },
    /// An approver.
    AwaitingApproval { call: ToolCall, reason: String },
    /// That the approval is recorded.
    Granting { call: ToolCall },
    /// That the denial is recorded.
    Denying { call_id: String, reason: String },
    /// That the start of the tool is recorded.
    StartingTool { call: ToolCall },
    /// The tool.
    AwaitingTool { call: ToolCall },
    /// That what came of the tool is recorded.
    RecordingResult { call_id: String, content: String, is_error: bool },
    /// Nothing: the run is over.
    Done,
}

/// What a stage stands for.
pub enum StageView {
    Starting,
    BuildingContext,
    OverBudget { used: u32, budget: u32 },
    Requesting,
    AwaitingModel,
    RecordingAnswer { response: ResponseView, streamed: bool },
    Failing { error: RunErrorView, close: CloseView },
    Finishing { answer: Seq<char> },
    Proposing { call: CallView },
    Deciding { call: CallView, policy: PolicyView },
    AwaitingApproval { call: CallView, reason: Seq<char> },
    Granting { call: CallView },
    Denying { call_id: Seq<char>, reason: Seq<char> },
    StartingTool { call: CallView },
    AwaitingTool { call: CallView },
    RecordingResult { call_id: Seq<char>, content: Seq<char>, is_error: bool },
    Done,
}

impl Stage {
    /// The stage that `self` stands for.
    pub open spec fn view(&self) -> StageView {
        match self {
            Stage::Starting => StageView::Starting,
            Stage::BuildingContext => StageView::BuildingContext,
            Stage::OverBudget { used, budget } => StageView::OverBudget {
                used: *used,
                budget: *budget,
            },
            Stage::Requesting => StageView::Requesting,
            Stage::AwaitingModel => StageView::AwaitingModel,
            Stage::RecordingAnswer { response, streamed } => StageView::RecordingAnswer {
                response: response@,
                streamed: *streamed,
            },
            Stage::Failing { error, close } => StageView::Failing { error: error@, close: close@ },
            Stage::Finishing { answer } => StageView::Finishing { answer: answer@ },
            Stage::Proposing { call } => StageView::Proposing { call: call@ },
            Stage::Deciding { call, policy } => StageView::Deciding {
                call: call@,
                policy: policy@,
            },
            Stage::AwaitingApproval { call, reason } => StageView::AwaitingApproval {
                call: call@,
                reason: reason@,
            },
            Stage::Granting { call } => StageView::Granting { call: call@ },
            Stage::Denying { call_id, reason } => StageView::Denying {
                call_id: call_id@,
                reason: reason@,
            },
            Stage::StartingTool { call } => StageView::StartingTool { call: call@ },
            Stage::AwaitingTool { call } => StageView::AwaitingTool { call: call@ },
            Stage::RecordingResult { call_id, content, is_error } => StageView::RecordingResult {
                call_id: call_id@,
                content: content@,
                is_error: *is_error,
            },
            Stage::Done => StageView::Done,
        }
    }
}

impl StageView {
    /// Whether the machine waits for an event to be recorded.
    pub open spec fn recording(self) -> bool {
        self !is AwaitingModel && self !is AwaitingApproval && self !is AwaitingTool && self !is Done
    }
}

/// What to do next.
#[derive(Debug, PartialEq, Eq)]
pub enum RunAction {
    /// Record the event.
    Record(HarnessEvent),
    /// Call the model.
    CallModel(ModelRequest),
    /// Ask for approval of the call, which is needed for the reason given.
    AskApproval { call: ToolCall, reason: String },
    /// Run the tool.
    RunTool(ToolCall),
    /// Close the session's entry with the answer: the run has finished.
    Finish { answer: String },
    /// Close the session's entry: the run has ended without an answer.
    Fail { error: RunError, close: SessionClose },
}

/// What is asked of a model.
pub struct RequestView {
    pub model: Seq<char>,
    pub system: Seq<char>,
    pub max_output_tokens: u32,
    pub messages: Seq<MessageView>,
    pub tools: Seq<ToolSpecView>,
}

/// What an action stands for.
pub enum ActionView {
    Record(EventView),
    CallModel(RequestView),
    AskApproval { call: CallView, reason: Seq<char> },
    RunTool(CallView),
    Finish { answer: Seq<char> },
    Fail { error: RunErrorView, close: CloseView },
}

/// What a request stands for.
pub open spec fn request_view(request: ModelRequest) -> RequestView {
    RequestView {
        model: request.model@,
        system: request.system@,
        max_output_tokens: request.max_output_tokens,
        messages: model::message_views(request.messages@),
        tools: tool_catalog::spec_views(request.tools@),
    }
}

impl RunAction {
    /// The action that `self` stands for.
    pub open spec fn view(&self) -> ActionView {
        match self {
            RunAction::Record(event) => ActionView::Record(event@),
            RunAction::CallModel(request) => ActionView::CallModel(request_view(*request)),
            RunAction::AskApproval { call, reason } => ActionView::AskApproval {
                call: call@,
                reason: reason@,
            },
            RunAction::RunTool(call) => ActionView::RunTool(call@),
            RunAction::Finish { answer } => ActionView::Finish { answer: answer@ },
            RunAction::Fail { error, close } => ActionView::Fail { error: error@, close: close@ },
        }
    }
}

/// One step: what to tell the user first, if anything, and what to do next.
#[derive(Debug, PartialEq, Eq)]
pub struct RunStep {
    pub notice: Option<String>,
    pub action: RunAction,
}

/// What a step stands for.
pub struct StepView {
    pub notice: Option<Seq<char>>,
    pub action: ActionView,
}

impl RunStep {
    /// The step that `self` stands for.
    pub open spec fn view(&self) -> StepView {
        StepView { notice: text::opt_view(self.notice), action: self.action@ }
    }
}

/// The state of a run.
#[derive(Debug, PartialEq, Eq)]
pub struct RunMachine {
    run_id: String,
    model: String,
    limits: LimitsConfig,
    enabled: Vec<String>,
    tools: Vec<ToolSpec>,
    approval: ApprovalMode,
    messages: Vec<ModelMessage>,
    turn: u32,
    stage: Stage,
}

/// What the state of a run stands for.
pub struct RunView {
    pub run_id: Seq<char>,
    pub model: Seq<char>,
    pub limits: LimitsConfig,
    pub enabled: Seq<Seq<char>>,
    pub tools: Seq<ToolSpecView>,
    pub approval: ApprovalMode,
    pub messages: Seq<MessageView>,
    pub turn: u32,
    pub stage: StageView,
}

impl RunView {
    /// The same run in another stage.
    pub open spec fn at(self, stage: StageView) -> RunView {
        RunView { stage, ..self }
    }

    /// What always holds of a run: it takes no more turns than it may, what policy decided is what
    /// it says of the call, and a call that is about to run or running is one that policy does not
    /// deny.
    pub open spec fn wf(self) -> bool {
        &&& self.turn <= self.limits.max_turns
        &&& match self.stage {
            StageView::Deciding { call, policy } => policy == app::policy_for(self.enabled, call),
            StageView::AwaitingApproval { call, .. } | StageView::Granting { call } =>
                app::policy_for(self.enabled, call) is RequireApproval,
            StageView::StartingTool { call } | StageView::AwaitingTool { call } =>
                app::policy_for(self.enabled, call) !is Deny,
            StageView::BuildingContext
            | StageView::Requesting
            | StageView::AwaitingModel
            | StageView::RecordingAnswer { .. } => self.turn < self.limits.max_turns,
            _ => true,
        }
        &&& match self.stage {
            StageView::Proposing { .. }
            | StageView::Deciding { .. }
            | StageView::AwaitingApproval { .. }
            | StageView::Granting { .. }
            | StageView::Denying { .. }
            | StageView::StartingTool { .. }
            | StageView::AwaitingTool { .. }
            | StageView::RecordingResult { .. } => self.turn < self.limits.max_turns,
            _ => true,
        }
    }
}

/// A step without a notice.
pub open spec fn quiet(action: ActionView) -> StepView {
    StepView { notice: None, action }
}

/// The id of the current turn.
pub open spec fn turn_id(turn: u32) -> Seq<char> {
    "turn_"@ + text::decimal((turn + 1) as nat)
}

/// What a canceled run gives as its reason.
pub open spec fn canceled_reason() -> Seq<char> {
    "run canceled"@
}

/// The run fails for `reason`: that is recorded first.
pub open spec fn failing(
    run: RunView,
    reason: Seq<char>,
    error: RunErrorView,
    close: CloseView,
) -> (RunView, StepView) {
    (
        run.at(StageView::Failing { error, close }),
        quiet(ActionView::Record(EventView::RunFailed { run_id: run.run_id, reason })),
    )
}

/// The run fails for a reason of its own, and its session's entry is closed with it.
pub open spec fn failing_closed(run: RunView, reason: Seq<char>) -> (RunView, StepView) {
    failing(run, reason, RunErrorView::Failed(reason), CloseView::Failed(reason))
}

/// The run is canceled.
pub open spec fn canceling(run: RunView) -> (RunView, StepView) {
    failing(run, canceled_reason(), RunErrorView::Failed(canceled_reason()), CloseView::Left)
}

/// The run ends at once, for an error of the kernel.
pub open spec fn rejected(run: RunView, error: CoreErrorView) -> (RunView, StepView) {
    (
        run.at(StageView::Done),
        quiet(ActionView::Fail { error: RunErrorView::Core(error), close: CloseView::Left }),
    )
}

/// The next turn begins, unless the run has had its turns or is canceled.
pub open spec fn begin_turn(run: RunView, canceled: bool) -> (RunView, StepView) {
    if run.turn >= run.limits.max_turns {
        failing_closed(
            run,
            "exceeded maximum turn count of "@ + text::decimal(run.limits.max_turns as nat),
        )
    } else if canceled {
        canceling(run)
    } else {
        (
            run.at(StageView::BuildingContext),
            quiet(
                ActionView::Record(
                    EventView::ContextBuilt {
                        run_id: run.run_id,
                        turn_id: turn_id(run.turn),
                        context: app::pack_of(
                            model::prompt(),
                            run.messages,
                            run.tools,
                            run.limits.token_budget,
                        ),
                    },
                ),
            ),
        )
    }
}

/// A tool is started, unless the run is canceled.
pub open spec fn start_tool(run: RunView, call: CallView, canceled: bool) -> (RunView, StepView) {
    if canceled {
        canceling(run)
    } else {
        (
            run.at(StageView::StartingTool { call }),
            quiet(
                ActionView::Record(
                    EventView::ToolStarted { run_id: run.run_id, call_id: call.id },
                ),
            ),
        )
    }
}

/// What came of a call is told to the model, and the next turn begins.
pub open spec fn conclude_call(
    run: RunView,
    call_id: Seq<char>,
    content: Seq<char>,
    is_error: bool,
    canceled: bool,
) -> (RunView, StepView) {
    begin_turn(
        RunView {
            messages: run.messages.push(model::tool_message(call_id, content, is_error)),
            turn: (run.turn + 1) as u32,
            ..run
        },
        canceled,
    )
}

/// The denial of a call is recorded.
pub open spec fn denying(
    run: RunView,
    call: CallView,
    actor: Seq<char>,
    reason: Seq<char>,
) -> (RunView, StepView) {
    (
        run.at(StageView::Denying { call_id: call.id, reason }),
        quiet(
            ActionView::Record(
                EventView::ApprovalDenied {
                    run_id: run.run_id,
                    call_id: call.id,
                    actor_id: actor,
                    reason,
                },
            ),
        ),
    )
}

/// The approval of a call is recorded.
pub open spec fn granting(run: RunView, call: CallView, actor: Seq<char>) -> (RunView, StepView) {
    (
        run.at(StageView::Granting { call }),
        quiet(
            ActionView::Record(
                EventView::ApprovalGranted {
                    run_id: run.run_id,
                    call_id: call.id,
                    actor_id: actor,
                },
            ),
        ),
    )
}

/// What follows once an answer is recorded: the run fails on an answer that was cut off or that
/// cannot be followed, finishes on one without tools, and goes on to propose the one tool of any
/// other.
pub open spec fn after_answer(
    run: RunView,
    response: ResponseView,
    streamed: bool,
    canceled: bool,
) -> (RunView, StepView) {
    let uses = model::uses_among(response.content);
    let answer = model::response_text(response);
    if response.stop == ModelStop::MaxOutput {
        failing_closed(run, "model reached max output tokens"@)
    } else if response.stop == ModelStop::ContentFilter {
        failing_closed(run, "model response was stopped by content filter"@)
    } else if canceled {
        canceling(run)
    } else if uses.len() == 0 && response.stop == ModelStop::ToolUse {
        failing_closed(run, "provider reported tool use without tool calls"@)
    } else if uses.len() == 0 {
        (
            run.at(StageView::Finishing { answer }),
            quiet(ActionView::Record(EventView::RunFinished { run_id: run.run_id })),
        )
    } else if uses.len() > 1 {
        failing_closed(run, "model requested multiple tools in one response"@)
    } else {
        let notice = if !streamed && !text::is_blank(answer) {
            Some(answer)
        } else {
            None
        };
        let told = RunView {
            messages: run.messages.push(
                MessageView { role: model::ModelRole::Assistant, content: response.content },
            ),
            ..run
        };
        if text::is_blank(uses[0].0) {
            (
                told.at(StageView::Done),
                StepView {
                    notice,
                    action: ActionView::Fail {
                        error: RunErrorView::Core(CoreErrorView::EmptyIdentifier("ToolCallId"@)),
                        close: CloseView::Left,
                    },
                },
            )
        } else if text::is_blank(uses[0].1) {
            (
                told.at(StageView::Done),
                StepView {
                    notice,
                    action: ActionView::Fail {
                        error: RunErrorView::Core(CoreErrorView::EmptyIdentifier("ToolName"@)),
                        close: CloseView::Left,
                    },
                },
            )
        } else {
            let call = app::call_of(uses[0].0, uses[0].1, uses[0].2);
            (
                told.at(StageView::Proposing { call }),
                StepView {
                    notice,
                    action: ActionView::Record(
                        EventView::ToolCallProposed {
                            run_id: run.run_id,
                            turn_id: turn_id(run.turn),
                            call,
                        },
                    ),
                },
            )
        }
    }
}

/// What follows once the decision of policy is recorded: a call that is allowed runs, one that is
/// denied is over, and one that needs approval is granted or denied unasked, or asked about.
pub open spec fn after_policy(
    run: RunView,
    call: CallView,
    policy: PolicyView,
    canceled: bool,
) -> (RunView, StepView) {
    match policy {
        PolicyView::Allow => start_tool(run, call, canceled),
        PolicyView::Deny { reason } => conclude_call(run, call.id, reason, true, canceled),
        PolicyView::RequireApproval { reason } => if app::auto_granted(
            run.approval,
            call.effect,
            policy,
        ) {
            granting(run, call, "yolo"@)
        } else {
            match run.approval {
                ApprovalMode::Deny { actor } => denying(
                    run,
                    call,
                    actor@,
                    "approval required but no approval channel is available: "@ + reason,
                ),
                _ => (
                    run.at(StageView::AwaitingApproval { call, reason }),
                    quiet(ActionView::AskApproval { call, reason }),
                ),
            }
        },
    }
}

/// What follows once the kernel has accepted an event.
pub open spec fn after_record(run: RunView, canceled: bool) -> (RunView, StepView) {
    match run.stage {
        StageView::Starting => begin_turn(run, canceled),
        StageView::BuildingContext => (
            run.at(StageView::Requesting),
            quiet(
                ActionView::Record(
                    EventView::ModelRequested {
                        run_id: run.run_id,
                        turn_id: turn_id(run.turn),
                        step: run.turn,
                        model: run.model,
                    },
                ),
            ),
        ),
        StageView::OverBudget { used, budget } => rejected(
            run,
            CoreErrorView::ContextBudgetExceeded { used, budget },
        ),
        StageView::Requesting => (
            run.at(StageView::AwaitingModel),
            quiet(
                ActionView::CallModel(
                    RequestView {
                        model: run.model,
                        system: model::prompt(),
                        max_output_tokens: run.limits.max_output_tokens,
                        messages: run.messages,
                        tools: run.tools,
                    },
                ),
            ),
        ),
        StageView::RecordingAnswer { response, streamed } => after_answer(
            run,
            response,
            streamed,
            canceled,
        ),
        StageView::Failing { error, close } => (
            run.at(StageView::Done),
            quiet(ActionView::Fail { error, close }),
        ),
        StageView::Finishing { answer } => (
            run.at(StageView::Done),
            quiet(ActionView::Finish { answer }),
        ),
        StageView::Proposing { call } => {
            let policy = app::policy_for(run.enabled, call);
            (
                run.at(StageView::Deciding { call, policy }),
                quiet(
                    ActionView::Record(
                        EventView::PolicyEvaluated {
                            run_id: run.run_id,
                            call_id: call.id,
                            decision: policy,
                        },
                    ),
                ),
            )
        },
        StageView::Deciding { call, policy } => after_policy(run, call, policy, canceled),
        StageView::Granting { call } => start_tool(run, call, canceled),
        StageView::Denying { call_id, reason } => conclude_call(
            run,
            call_id,
            reason,
            true,
            canceled,
        ),
        StageView::StartingTool { call } => (
            run.at(StageView::AwaitingTool { call }),
            quiet(ActionView::RunTool(call)),
        ),
        StageView::RecordingResult { call_id, content, is_error } => conclude_call(
            run,
            call_id,
            content,
            is_error,
            canceled,
        ),
        _ => (run, quiet(ActionView::Fail { error: RunErrorView::Model, close: CloseView::Left })),
    }
}

/// What follows once the kernel has answered an event: a context over budget fails the run, any
/// other rejection ends it, and what is accepted carries it on.
pub open spec fn on_recorded(
    run: RunView,
    error: Option<CoreErrorView>,
    canceled: bool,
) -> (RunView, StepView) {
    match error {
        None => after_record(run, canceled),
        Some(e) => match (run.stage, e) {
            (
                StageView::BuildingContext,
                CoreErrorView::ContextBudgetExceeded { used, budget },
            ) => (
                run.at(StageView::OverBudget { used, budget }),
                quiet(
                    ActionView::Record(
                        EventView::RunFailed {
                            run_id: run.run_id,
                            reason: harness::core_message(e),
                        },
                    ),
                ),
            ),
            _ => rejected(run, e),
        },
    }
}

/// What follows on an answer of the model: it is recorded, unless it uses a tool without a name.
pub open spec fn on_answer(run: RunView, response: ResponseView, streamed: bool) -> (
    RunView,
    StepView,
) {
    let proposals = app::proposals_of(response);
    if !app::all_named(proposals) {
        rejected(run, CoreErrorView::EmptyIdentifier("ToolName"@))
    } else {
        (
            run.at(StageView::RecordingAnswer { response, streamed }),
            quiet(
                ActionView::Record(
                    EventView::ModelResponded {
                        run_id: run.run_id,
                        turn_id: turn_id(run.turn),
                        step: run.turn,
                        output: model::response_text(response),
                        proposed_calls: proposals,
                        usage: response.usage,
                    },
                ),
            ),
        )
    }
}

/// What an approver's answer stands for: nothing where the call is granted, else the reason.
pub open spec fn denial_in(outcome: ApprovalOutcome) -> Option<Seq<char>> {
    match outcome {
        ApprovalOutcome::Granted => None,
        ApprovalOutcome::Denied { reason } => Some(reason@),
    }
}

/// What follows on an approver's answer: it is recorded in the name of who gave it.
pub open spec fn on_approval(run: RunView, call: CallView, denial: Option<Seq<char>>) -> (
    RunView,
    StepView,
) {
    match denial {
        None => granting(run, call, run.approval.answering()),
        Some(reason) => denying(run, call, run.approval.answering(), reason),
    }
}

/// What follows on what a tool gave back: it is recorded.
pub open spec fn on_result(run: RunView, call: CallView, result: ResultView) -> (
    RunView,
    StepView,
) {
    (
        run.at(
            StageView::RecordingResult {
                call_id: call.id,
                content: json::json_text(result.data),
                is_error: app::is_failure(call.tool, result.data),
            },
        ),
        quiet(ActionView::Record(EventView::ToolFinished { run_id: run.run_id, result })),
    )
}

/// What follows on a tool that failed: that is recorded.
pub open spec fn on_tool_failure(run: RunView, call: CallView, reason: Seq<char>) -> (
    RunView,
    StepView,
) {
    (
        run.at(
            StageView::RecordingResult { call_id: call.id, content: reason, is_error: true },
        ),
        quiet(
            ActionView::Record(
                EventView::ToolFailed { run_id: run.run_id, call_id: call.id, reason },
            ),
        ),
    )
}

fn record(event: HarnessEvent) -> (r: RunStep)
    ensures
        r@ == quiet(ActionView::Record(event@)),
{
    RunStep { notice: None, action: RunAction::Record(event) }
}

fn turn_name(turn: u32) -> (r: String)
    ensures
        r@ == turn_id(turn),
{
    text::text2("turn_", text::decimal_u64(turn as u64 + 1).as_str())
}

impl RunMachine {
    /// The state that `self` stands for.
    pub closed spec fn view(&self) -> RunView {
        RunView {
            run_id: self.run_id@,
            model: self.model@,
            limits: self.limits,
            enabled: text::views(self.enabled@),
            tools: tool_catalog::spec_views(self.tools@),
            approval: self.approval,
            messages: model::message_views(self.messages@),
            turn: self.turn,
            stage: self.stage@,
        }
    }

    /// A run that has `messages` to tell, and its first step: its start is recorded. The model must
    /// have a name.
    pub fn start(
        run_id: String,
        model: String,
        limits: LimitsConfig,
        enabled: Vec<String>,
        approval: ApprovalMode,
        messages: Vec<ModelMessage>,
    ) -> (r: Result<(RunMachine, RunStep), CoreError>)
        ensures
            r is Ok <==> !text::is_blank(model@),
            r matches Err(error) ==> error@ == CoreErrorView::EmptyIdentifier("ModelName"@),
            r matches Ok((machine, step)) ==> {
                &&& machine@.wf()
                &&& machine@ == (RunView {
                    run_id: run_id@,
                    model: model@,
                    limits,
                    enabled: text::views(enabled@),
                    tools: tool_catalog::specs_of(text::views(enabled@)),
                    approval,
                    messages: model::message_views(messages@),
                    turn: 0,
                    stage: StageView::Starting,
                })
                &&& step@ == quiet(
                    ActionView::Record(
                        EventView::RunStarted { run_id: run_id@, agent_id: "plato"@ },
                    ),
                )
            },
    {
        match harness::check_identifier("ModelName", model.as_str()) {
            Ok(_) => {},
            Err(error) => {
                return Err(error);
            },
        }
        let tools = tool_catalog::tool_specs(&enabled);
        let step = record(
            HarnessEvent::RunStarted { run_id: run_id.clone(), agent_id: "plato".to_owned() },
        );
        let machine = RunMachine {
            run_id,
            model,
            limits,
            enabled,
            tools,
            approval,
            messages,
            turn: 0,
            stage: Stage::Starting,
        };
        Ok((machine, step))
    }

    /// The pieces of the answer that the run waits for, before the first comes in.
    pub fn deltas(&self) -> (r: DeltaStream)
        ensures
            r.run_id@ == self@.run_id,
            r.turn_id@ == turn_id(self@.turn),
            r.step == self@.turn,
            r.emitted == 0,
    {
        DeltaStream {
            run_id: self.run_id.clone(),
            turn_id: turn_name(self.turn),
            step: self.turn,
            emitted: 0,
        }
    }

    fn at(self, stage: Stage) -> (r: RunMachine)
        ensures
            r@ == self@.at(stage@),
    {
        let mut machine = self;
        machine.stage = stage;
        machine
    }

    fn failing(self, reason: String, error: RunError, close: SessionClose) -> (r: (
        RunMachine,
        RunStep,
    ))
        ensures
            (r.0@, r.1@) == failing(self@, reason@, error@, close@),
    {
        let step = record(HarnessEvent::RunFailed { run_id: self.run_id.clone(), reason });
        (self.at(Stage::Failing { error, close }), step)
    }

    fn failing_closed(self, reason: String) -> (r: (RunMachine, RunStep))
        ensures
            (r.0@, r.1@) == failing_closed(self@, reason@),
    {
        let error = RunError::Failed(reason.clone());
        let close = SessionClose::Failed(reason.clone());
        self.failing(reason, error, close)
    }

    fn canceling(self) -> (r: (RunMachine, RunStep))
        ensures
            (r.0@, r.1@) == canceling(self@),
    {
        self.failing(
            "run canceled".to_owned(),
            RunError::Failed("run canceled".to_owned()),
            SessionClose::Left,
        )
    }

    fn rejected(self, error: CoreError) -> (r: (RunMachine, RunStep))
        ensures
            (r.0@, r.1@) == rejected(self@, error@),
    {
        let step = RunStep {
            notice: None,
            action: RunAction::Fail { error: RunError::Core(error), close: SessionClose::Left },
        };
        (self.at(Stage::Done), step)
    }

    fn begin_turn(self, canceled: bool) -> (r: (RunMachine, RunStep))
        ensures
            (r.0@, r.1@) == begin_turn(self@, canceled),
    {
        if self.turn >= self.limits.max_turns {
            let reason = text::text2(
                "exceeded maximum turn count of ",
                text::decimal_u64(self.limits.max_turns as u64).as_str(),
            );
            self.failing_closed(reason)
        } else if canceled {
            self.canceling()
        } else {
            let context = app::context_pack(
                model::system_prompt(),
                &self.messages,
                &self.tools,
                self.limits.token_budget,
            );
            let step = record(
                HarnessEvent::ContextBuilt {
                    run_id: self.run_id.clone(),
                    turn_id: turn_name(self.turn),
                    context,
                },
            );
            (self.at(Stage::BuildingContext), step)
        }
    }

    fn start_tool(self, call: ToolCall, canceled: bool) -> (r: (RunMachine, RunStep))
        ensures
            (r.0@, r.1@) == start_tool(self@, call@, canceled),
    {
        if canceled {
            self.canceling()
        } else {
            let step = record(
                HarnessEvent::ToolStarted {
                    run_id: self.run_id.clone(),
                    call_id: call.id.clone(),
                },
            );
            (self.at(Stage::StartingTool { call }), step)
        }
    }

    fn conclude_call(
        self,
        call_id: String,
        content: String,
        is_error: bool,
        canceled: bool,
    ) -> (r: (RunMachine, RunStep))
        requires
            self@.turn < self@.limits.max_turns,
        ensures
            (r.0@, r.1@) == conclude_call(self@, call_id@, content@, is_error, canceled),
    {
        let mut machine = self;
        let ghost before = model::message_views(machine.messages@);
        let message = ModelMessage::tool_result(call_id, content, is_error);
        machine.messages.push(message);
        assert(model::message_views(machine.messages@) =~= before.push(message@));
        machine.turn = machine.turn + 1;
        machine.begin_turn(canceled)
    }

    fn denying(self, call: ToolCall, actor: &str, reason: String) -> (r: (RunMachine, RunStep))
        ensures
            (r.0@, r.1@) == denying(self@, call@, actor@, reason@),
    {
        let step = record(
            HarnessEvent::ApprovalDenied {
                run_id: self.run_id.clone(),
                call_id: call.id.clone(),
                actor_id: actor.to_owned(),
                reason: reason.clone(),
            },
        );
        (self.at(Stage::Denying { call_id: call.id, reason }), step)
    }

    fn granting(self, call: ToolCall, actor: &str) -> (r: (RunMachine, RunStep))
        ensures
            (r.0@, r.1@) == granting(self@, call@, actor@),
    {
        let step = record(
            HarnessEvent::ApprovalGranted {
                run_id: self.run_id.clone(),
                call_id: call.id.clone(),
                actor_id: actor.to_owned(),
            },
        );
        (self.at(Stage::Granting { call }), step)
    }

    fn after_answer(self, response: ModelResponse, streamed: bool, canceled: bool) -> (r: (
        RunMachine,
        RunStep,
    ))
        ensures
            (r.0@, r.1@) == after_answer(self@, response@, streamed, canceled),
    {
        if response.stop == ModelStop::MaxOutput {
            return self.failing_closed("model reached max output tokens".to_owned());
        }
        if response.stop == ModelStop::ContentFilter {
            return self.failing_closed("model response was stopped by content filter".to_owned());
        }
        if canceled {
            return self.canceling();
        }
        let mut uses = response.tool_uses();
        let ghost all = model::uses_among(response@.content);
        assert(model::use_views(uses@).len() == uses@.len());
        if uses.len() == 0 && response.stop == ModelStop::ToolUse {
            return self.failing_closed("provider reported tool use without tool calls".to_owned());
        }
        let answer = response.text();
        if uses.len() == 0 {
            let step = record(HarnessEvent::RunFinished { run_id: self.run_id.clone() });
            return (self.at(Stage::Finishing { answer }), step);
        }
        if uses.len() > 1 {
            return self.failing_closed("model requested multiple tools in one response".to_owned());
        }
        let notice = if !streamed && !text::blank(answer.as_str()) {
            Some(answer)
        } else {
            None
        };
        let mut machine = self;
        let ghost before = model::message_views(machine.messages@);
        let message = ModelMessage::assistant_blocks(response.content);
        machine.messages.push(message);
        assert(model::message_views(machine.messages@) =~= before.push(message@));
        assert(model::use_views(uses@)[0] == (uses@[0].0@, uses@[0].1@, uses@[0].2@));
        let (id, name, input) = uses.swap_remove(0);
        match harness::check_identifier("ToolCallId", id.as_str()) {
            Ok(_) => {},
            Err(error) => {
                let action = RunAction::Fail {
                    error: RunError::Core(error),
                    close: SessionClose::Left,
                };
                return (machine.at(Stage::Done), RunStep { notice, action });
            },
        }
        match app::tool_call(id, name, input) {
            Ok(call) => {
                let event = HarnessEvent::ToolCallProposed {
                    run_id: machine.run_id.clone(),
                    turn_id: turn_name(machine.turn),
                    call: call.clone(),
                };
                let step = RunStep { notice, action: RunAction::Record(event) };
                (machine.at(Stage::Proposing { call }), step)
            },
            Err(error) => {
                let action = RunAction::Fail {
                    error: RunError::Core(error),
                    close: SessionClose::Left,
                };
                (machine.at(Stage::Done), RunStep { notice, action })
            },
        }
    }

    fn after_policy(self, call: ToolCall, policy: PolicyDecision, canceled: bool) -> (r: (
        RunMachine,
        RunStep,
    ))
        requires
            self@.turn < self@.limits.max_turns,
        ensures
            (r.0@, r.1@) == after_policy(self@, call@, policy@, canceled),
    {
        if let Some(actor) = self.approval.auto_grant_actor(&call, &policy) {
            return self.granting(call, actor);
        }
        let deny_actor = self.approval.deny_actor(&policy);
        match policy {
            PolicyDecision::Allow => self.start_tool(call, canceled),
            PolicyDecision::Deny { reason } => self.conclude_call(call.id, reason, true, canceled),
            PolicyDecision::RequireApproval { reason } => match deny_actor {
                Some(actor) => {
                    let denial = text::text2(
                        "approval required but no approval channel is available: ",
                        reason.as_str(),
                    );
                    self.denying(call, actor, denial)
                },
                None => {
                    let action = RunAction::AskApproval {
                        call: call.clone(),
                        reason: reason.clone(),
                    };
                    (
                        self.at(Stage::AwaitingApproval { call, reason }),
                        RunStep { notice: None, action },
                    )
                },
            },
        }
    }

    fn after_record(self, canceled: bool) -> (r: (RunMachine, RunStep))
        requires
            self@.wf(),
            self@.stage.recording(),
        ensures
            (r.0@, r.1@) == after_record(self@, canceled),
    {
        let mut machine = self;
        let mut stage = Stage::Done;
        std::mem::swap(&mut machine.stage, &mut stage);
        let ghost taken = machine@;
        assert(taken == self@.at(StageView::Done));
        match stage {
            Stage::Starting => {
                let machine = machine.at(Stage::Starting);
                machine.begin_turn(canceled)
            },
            Stage::BuildingContext => {
                let step = record(
                    HarnessEvent::ModelRequested {
                        run_id: machine.run_id.clone(),
                        turn_id: turn_name(machine.turn),
                        step: machine.turn,
                        model: machine.model.clone(),
                    },
                );
                (machine.at(Stage::Requesting), step)
            },
            Stage::OverBudget { used, budget } => machine.rejected(
                CoreError::ContextBudgetExceeded { used, budget },
            ),
            Stage::Requesting => {
                let mut tools: Vec<ToolSpec> = Vec::new();
                let mut i: usize = 0;
                while i < machine.tools.len()
                    invariant
                        0 <= i <= machine.tools@.len(),
                        tools@.len() == i,
                        forall|k: int| 0 <= k < i ==> (#[trigger] tools@[k])@ == machine.tools@[k]@,
                    decreases machine.tools@.len() - i,
                {
                    tools.push(machine.tools[i].clone());
                    i += 1;
                }
                assert(tool_catalog::spec_views(tools@) =~= tool_catalog::spec_views(
                    machine.tools@,
                ));
                let request = ModelRequest {
                    model: machine.model.clone(),
                    system: model::system_prompt().to_owned(),
                    max_output_tokens: machine.limits.max_output_tokens,
                    messages: model::copy_messages(&machine.messages),
                    tools,
                };
                let step = RunStep { notice: None, action: RunAction::CallModel(request) };
                (machine.at(Stage::AwaitingModel), step)
            },
            Stage::RecordingAnswer { response, streamed } => machine.after_answer(
                response,
                streamed,
                canceled,
            ),
            Stage::Failing { error, close } => (
                machine,
                RunStep { notice: None, action: RunAction::Fail { error, close } },
            ),
            Stage::Finishing { answer } => (
                machine,
                RunStep { notice: None, action: RunAction::Finish { answer } },
            ),
            Stage::Proposing { call } => {
                let policy = app::evaluate_policy(&machine.enabled, &call);
                let step = record(
                    HarnessEvent::PolicyEvaluated {
                        run_id: machine.run_id.clone(),
                        call_id: call.id.clone(),
                        decision: policy.clone(),
                    },
                );
                (machine.at(Stage::Deciding { call, policy }), step)
            },
            Stage::Deciding { call, policy } => machine.after_policy(call, policy, canceled),
            Stage::Granting { call } => machine.start_tool(call, canceled),
            Stage::Denying { call_id, reason } => machine.conclude_call(
                call_id,
                reason,
                true,
                canceled,
            ),
            Stage::StartingTool { call } => {
                let step = RunStep { notice: None, action: RunAction::RunTool(call.clone()) };
                (machine.at(Stage::AwaitingTool { call }), step)
            },
            Stage::RecordingResult { call_id, content, is_error } => machine.conclude_call(
                call_id,
                content,
                is_error,
                canceled,
            ),
            other => (
                machine.at(other),
                RunStep {
                    notice: None,
                    action: RunAction::Fail { error: RunError::Model, close: SessionClose::Left },
                },
            ),
        }
    }

    /// The kernel has answered the event that was to be recorded.
    pub fn recorded(self, answer: Result<(), CoreError>, canceled: bool) -> (r: (
        RunMachine,
        RunStep,
    ))
        requires
            self@.wf(),
            self@.stage.recording(),
        ensures
            r.0@.wf(),
            (r.0@, r.1@) == on_recorded(self@, harness::error_in(answer), canceled),
    {
        proof {
            law_steps_keep_the_run_sound(self@, harness::error_in(answer), canceled);
        }
        match answer {
            Ok(_) => self.after_record(canceled),
            Err(error) => {
                let over_budget = match (&self.stage, &error) {
                    (Stage::BuildingContext, CoreError::ContextBudgetExceeded { used, budget }) =>
                        Some((*used, *budget)),
                    _ => None,
                };
                match over_budget {
                    Some((used, budget)) => {
                        let step = record(
                            HarnessEvent::RunFailed {
                                run_id: self.run_id.clone(),
                                reason: error.message(),
                            },
                        );
                        (self.at(Stage::OverBudget { used, budget }), step)
                    },
                    None => self.rejected(error),
                }
            },
        }
    }

    /// The model has answered; `streamed` where the answer was shown as it came.
    pub fn model_answered(self, response: ModelResponse, streamed: bool) -> (r: (
        RunMachine,
        RunStep,
    ))
        requires
            self@.wf(),
            self@.stage is AwaitingModel,
        ensures
            r.0@.wf(),
            (r.0@, r.1@) == on_answer(self@, response@, streamed),
    {
        match app::proposals_from_response(&response) {
            Ok(proposed_calls) => {
                let step = record(
                    HarnessEvent::ModelResponded {
                        run_id: self.run_id.clone(),
                        turn_id: turn_name(self.turn),
                        step: self.turn,
                        output: response.text(),
                        proposed_calls,
                        usage: response.usage,
                    },
                );
                (self.at(Stage::RecordingAnswer { response, streamed }), step)
            },
            Err(error) => self.rejected(error),
        }
    }

    /// The model call has failed for `reason`.
    pub fn model_failed(self, reason: String) -> (r: (RunMachine, RunStep))
        requires
            self@.wf(),
            self@.stage is AwaitingModel,
        ensures
            r.0@.wf(),
            (r.0@, r.1@) == failing(
                self@,
                reason@,
                RunErrorView::Model,
                CloseView::Failed(reason@),
            ),
    {
        let close = SessionClose::Failed(reason.clone());
        self.failing(reason, RunError::Model, close)
    }

    /// An approver has answered.
    pub fn approval_decided(self, outcome: ApprovalOutcome) -> (r: (RunMachine, RunStep))
        requires
            self@.wf(),
            self@.stage is AwaitingApproval,
        ensures
            r.0@.wf(),
            (r.0@, r.1@) == on_approval(
                self@,
                self@.stage->AwaitingApproval_call,
                denial_in(outcome),
            ),
    {
        let mut machine = self;
        let mut stage = Stage::Done;
        std::mem::swap(&mut machine.stage, &mut stage);
        assert(machine@ == self@.at(StageView::Done));
        match stage {
            Stage::AwaitingApproval { call, .. } => {
                let actor = machine.approval.answering_actor();
                match outcome {
                    ApprovalOutcome::Granted => machine.granting(call, actor),
                    ApprovalOutcome::Denied { reason } => machine.denying(call, actor, reason),
                }
            },
            other => (
                machine.at(other),
                RunStep {
                    notice: None,
                    action: RunAction::Fail { error: RunError::Model, close: SessionClose::Left },
                },
            ),
        }
    }

    /// The tool has given something back.
    pub fn tool_returned(self, result: ToolResult) -> (r: (RunMachine, RunStep))
        requires
            self@.wf(),
            self@.stage is AwaitingTool,
        ensures
            r.0@.wf(),
            (r.0@, r.1@) == on_result(self@, self@.stage->AwaitingTool_call, result@),
    {
        let mut machine = self;
        let mut stage = Stage::Done;
        std::mem::swap(&mut machine.stage, &mut stage);
        assert(machine@ == self@.at(StageView::Done));
        match stage {
            Stage::AwaitingTool { call } => {
                let content = result.data.render();
                let is_error = app::tool_result_is_error(call.tool.as_str(), &result.data);
                let step = record(
                    HarnessEvent::ToolFinished { run_id: machine.run_id.clone(), result },
                );
                (machine.at(Stage::RecordingResult { call_id: call.id, content, is_error }), step)
            },
            other => (
                machine.at(other),
                RunStep {
                    notice: None,
                    action: RunAction::Fail { error: RunError::Model, close: SessionClose::Left },
                },
            ),
        }
    }

    /// The tool has failed for `reason`.
    pub fn tool_failed(self, reason: String) -> (r: (RunMachine, RunStep))
        requires
            self@.wf(),
            self@.stage is AwaitingTool,
        ensures
            r.0@.wf(),
            (r.0@, r.1@) == on_tool_failure(self@, self@.stage->AwaitingTool_call, reason@),
    {
        let mut machine = self;
        let mut stage = Stage::Done;
        std::mem::swap(&mut machine.stage, &mut stage);
        assert(machine@ == self@.at(StageView::Done));
        match stage {
            Stage::AwaitingTool { call } => {
                let step = record(
                    HarnessEvent::ToolFailed {
                        run_id: machine.run_id.clone(),
                        call_id: call.id.clone(),
                        reason: reason.clone(),
                    },
                );
                (
                    machine.at(
                        Stage::RecordingResult {
                            call_id: call.id,
                            content: reason,
                            is_error: true,
                        },
                    ),
                    step,
                )
            },
            other => (
                machine.at(other),
                RunStep {
                    notice: None,
                    action: RunAction::Fail { error: RunError::Model, close: SessionClose::Left },
                },
            ),
        }
    }
}

/// Every answer of the kernel leaves the run sound: within its turns, and with no call under way
/// that policy denies.
pub proof fn law_steps_keep_the_run_sound(
    run: RunView,
    error: Option<CoreErrorView>,
    canceled: bool,
)
    requires
        run.wf(),
        run.stage.recording(),
    ensures
        on_recorded(run, error, canceled).0.wf(),
{
}

/// A tool is run only where its call was started, a call is started only where policy allows it or
/// an approval was recorded for it, and an approval is recorded only where one was given, or where
/// the mode grants writes inside the workspace unasked.
pub proof fn law_tools_run_only_with_leave(
    run: RunView,
    error: Option<CoreErrorView>,
    canceled: bool,
)
    requires
        run.wf(),
        run.stage.recording(),
    ensures
        ({
            let (next, step) = on_recorded(run, error, canceled);
            &&& step.action matches ActionView::RunTool(call) ==> {
                &&& run.stage == StageView::StartingTool { call }
                &&& run.enabled.contains(call.tool)
            }
            &&& next.stage matches StageView::StartingTool { call } ==> {
                ||| run.stage == (StageView::Granting { call })
                ||| run.stage == (StageView::Deciding { call, policy: PolicyView::Allow })
            }
            &&& next.stage matches StageView::Granting { call } ==> {
                &&& run.stage is Deciding
                &&& run.approval is AutoApprove
                &&& call.effect == harness::EffectClass::WorkspaceWrite
            }
        }),
{
}

/// The model is called only within the turns that the run may have, and each call concluded brings
/// the run one turn closer to its end.
pub proof fn law_turns_are_bounded(run: RunView, error: Option<CoreErrorView>, canceled: bool)
    requires
        run.wf(),
        run.stage.recording(),
    ensures
        ({
            let (next, step) = on_recorded(run, error, canceled);
            &&& step.action is CallModel ==> run.turn < run.limits.max_turns
            &&& run.turn <= next.turn <= run.turn + 1
            &&& run.turn < next.turn ==> {
                ||| run.stage is Deciding
                ||| run.stage is Denying
                ||| run.stage is RecordingResult
            }
        }),
{
}

/// A canceled run calls the model no more and starts no tool: from the next turn, answer or call on
/// it records the cancellation and ends.
pub proof fn law_cancel_stops_the_run(run: RunView)
    requires
        run.wf(),
        run.stage is Starting || run.stage is Granting || run.stage is RecordingResult
            || run.stage is Denying,
        run.stage is Starting || run.stage is Granting || run.turn + 1 < run.limits.max_turns,
        run.stage is Starting ==> run.turn < run.limits.max_turns,
    ensures
        ({
            let (next, step) = on_recorded(run, None, true);
            &&& next.stage == StageView::Failing {
                error: RunErrorView::Failed(canceled_reason()),
                close: CloseView::Left,
            }
            &&& step.action == ActionView::Record(
                EventView::RunFailed { run_id: run.run_id, reason: canceled_reason() },
            )
        }),
{
}

/// Whether a run is told, after all that it was told before, what came of a call.
pub open spec fn is_told(
    before: RunView,
    after: RunView,
    call_id: Seq<char>,
    content: Seq<char>,
    is_error: bool,
) -> bool {
    &&& after.messages.len() == before.messages.len() + 1
    &&& after.messages.drop_last() == before.messages
    &&& after.messages.last().role == model::ModelRole::Tool
    &&& after.messages.last().content.len() == 1
    &&& after.messages.last().content[0] == model::BlockView::ToolResult {
        tool_call_id: call_id,
        content,
        is_error,
    }
}

/// The model is told what came of each of its calls, under the name of the call: a failure by its
/// reason, a denial by policy or by an approver by its reason, each as an error; and what a tool gave
/// back as its data, as an error exactly where the data tell of a failure.
pub proof fn law_the_model_is_told_what_came_of_a_call(
    run: RunView,
    call: CallView,
    reason: Seq<char>,
    result: ResultView,
    canceled: bool,
)
    requires
        run.turn < run.limits.max_turns,
    ensures
        is_told(
            run,
            on_recorded(on_tool_failure(run, call, reason).0, None, canceled).0,
            call.id,
            reason,
            true,
        ),
        is_told(
            run,
            on_recorded(on_result(run, call, result).0, None, canceled).0,
            call.id,
            json::json_text(result.data),
            app::is_failure(call.tool, result.data),
        ),
        is_told(
            run,
            on_recorded(on_approval(run, call, Some(reason)).0, None, canceled).0,
            call.id,
            reason,
            true,
        ),
        is_told(
            run,
            on_recorded(
                run.at(StageView::Deciding { call, policy: PolicyView::Deny { reason } }),
                None,
                canceled,
            ).0,
            call.id,
            reason,
            true,
        ),
{
    assert forall|after: RunView, content: Seq<char>, is_error: bool|
        after.messages == run.messages.push(
            #[trigger] model::tool_message(call.id, content, is_error),
        ) implies #[trigger] is_told(run, after, call.id, content, is_error) by {
        assert(after.messages.drop_last() =~= run.messages);
    }
    let failed = on_recorded(on_tool_failure(run, call, reason).0, None, canceled).0;
    assert(failed.messages == run.messages.push(model::tool_message(call.id, reason, true)));
    let given = on_recorded(on_result(run, call, result).0, None, canceled).0;
    assert(given.messages == run.messages.push(
        model::tool_message(
            call.id,
            json::json_text(result.data),
            app::is_failure(call.tool, result.data),
        ),
    ));
    let denied = on_recorded(on_approval(run, call, Some(reason)).0, None, canceled).0;
    assert(denied.messages == run.messages.push(model::tool_message(call.id, reason, true)));
    let refused = on_recorded(
        run.at(StageView::Deciding { call, policy: PolicyView::Deny { reason } }),
        None,
        canceled,
    ).0;
    assert(refused.messages == run.messages.push(model::tool_message(call.id, reason, true)));
}

/// Where there is no one to ask, a call that needs approval is denied, and the model is told so, with
/// the reason for which approval was needed.
pub proof fn law_without_an_approver_calls_are_denied(
    run: RunView,
    call: CallView,
    reason: Seq<char>,
    canceled: bool,
)
    requires
        run.turn < run.limits.max_turns,
        run.approval is Deny,
    ensures
        ({
            let policy = PolicyView::RequireApproval { reason };
            let (denied, step) = on_recorded(
                run.at(StageView::Deciding { call, policy }),
                None,
                canceled,
            );
            let next = on_recorded(denied, None, canceled).0;
            &&& step.action matches ActionView::Record(
                EventView::ApprovalDenied { run_id, call_id, actor_id, reason: why },
            ) && run_id == run.run_id && call_id == call.id && actor_id == run.approval->Deny_actor@
                && why == "approval required but no approval channel is available: "@ + reason
                && is_told(run, next, call.id, why, true)
        }),
{
    let policy = PolicyView::RequireApproval { reason };
    let denied = on_recorded(run.at(StageView::Deciding { call, policy }), None, canceled).0;
    let next = on_recorded(denied, None, canceled).0;
    assert(next.messages.drop_last() =~= run.messages);
}

/// What is recorded of a call is what came of it, under the run and the call that it belongs to: a
/// failure is no result, and a denial is no approval. Both name who answered.
pub proof fn law_records_tell_what_came_of_a_call(
    run: RunView,
    call: CallView,
    reason: Seq<char>,
    result: ResultView,
)
    ensures
        on_tool_failure(run, call, reason).1.action == ActionView::Record(
            EventView::ToolFailed { run_id: run.run_id, call_id: call.id, reason },
        ),
        on_result(run, call, result).1.action == ActionView::Record(
            EventView::ToolFinished { run_id: run.run_id, result },
        ),
        on_approval(run, call, Some(reason)).1.action matches ActionView::Record(
            EventView::ApprovalDenied { run_id, call_id, actor_id, reason: why },
        ) && run_id == run.run_id && call_id == call.id && why == reason && (
        run.approval matches ApprovalMode::External { actor } ==> actor_id == actor@) && (
        run.approval == ApprovalMode::Prompt ==> actor_id == "stdin"@),
        on_approval(run, call, None).1.action matches ActionView::Record(
            EventView::ApprovalGranted { run_id, call_id, actor_id },
        ) && run_id == run.run_id && call_id == call.id && (
        run.approval matches ApprovalMode::External { actor } ==> actor_id == actor@) && (
        run.approval == ApprovalMode::Prompt ==> actor_id == "stdin"@),
{
}

/// A call that was granted is the call that is started and run; one that was denied is not run.
pub proof fn law_granted_calls_are_run(run: RunView, call: CallView, reason: Seq<char>)
    requires
        run.turn < run.limits.max_turns,
    ensures
        ({
            let (started, step) = on_recorded(on_approval(run, call, None).0, None, false);
            &&& step.action == ActionView::Record(
                EventView::ToolStarted { run_id: run.run_id, call_id: call.id },
            )
            &&& on_recorded(started, None, false).1.action == ActionView::RunTool(call)
            &&& on_recorded(started, None, false).0.messages == run.messages
        }),
        ({
            let (started, step) = on_recorded(
                run.at(StageView::Deciding { call, policy: PolicyView::Allow }),
                None,
                false,
            );
            &&& step.action == ActionView::Record(
                EventView::ToolStarted { run_id: run.run_id, call_id: call.id },
            )
            &&& on_recorded(started, None, false).1.action == ActionView::RunTool(call)
        }),
        ({
            let step = on_recorded(on_approval(run, call, Some(reason)).0, None, false).1;
            step.action !is RunTool && (step.action matches ActionView::Record(event)
                ==> event !is ToolStarted)
        }),
{
}

/// A call that needs approval is asked about, unless the mode answers for it: where approvals are
/// asked for, neither a grant nor a denial is recorded before an answer came.
pub proof fn law_calls_are_asked_about(run: RunView, call: CallView, reason: Seq<char>)
    requires
        run.approval == ApprovalMode::Prompt || run.approval is External,
    ensures
        ({
            let policy = PolicyView::RequireApproval { reason };
            let (next, step) = on_recorded(run.at(StageView::Deciding { call, policy }), None, false);
            &&& step.action == (ActionView::AskApproval { call, reason })
            &&& next == run.at(StageView::AwaitingApproval { call, reason })
        }),
{
}

/// In the mode for it, a write inside the workspace is granted unasked; whatever else needs approval is
/// asked about all the same.
pub proof fn law_only_writes_are_granted_unasked(run: RunView, call: CallView, reason: Seq<char>)
    requires
        run.approval == ApprovalMode::AutoApprove,
    ensures
        ({
            let policy = PolicyView::RequireApproval { reason };
            let step = on_recorded(run.at(StageView::Deciding { call, policy }), None, false).1;
            if call.effect == harness::EffectClass::WorkspaceWrite {
                step.action == ActionView::Record(
                    EventView::ApprovalGranted {
                        run_id: run.run_id,
                        call_id: call.id,
                        actor_id: "yolo"@,
                    },
                )
            } else {
                step.action == (ActionView::AskApproval { call, reason })
            }
        }),
{
}

/// A proposed call is judged by policy, and what policy said is recorded for it.
pub proof fn law_proposed_calls_are_judged(run: RunView, call: CallView, canceled: bool)
    requires
        run.stage == (StageView::Proposing { call }),
    ensures
        ({
            let (next, step) = on_recorded(run, None, canceled);
            &&& next.stage matches StageView::Deciding { call: judged, policy } && judged == call
                && step.action == ActionView::Record(
                EventView::PolicyEvaluated {
                    run_id: run.run_id,
                    call_id: call.id,
                    decision: policy,
                },
            ) && (!run.enabled.contains(call.tool) ==> policy is Deny)
        }),
{
}

/// What a run says of itself stays: nothing that happens changes its name, its model, its limits, its
/// tools or its mode, and of what the model was told nothing is taken back. At most one message comes
/// to it.
pub proof fn law_conversations_only_grow(
    run: RunView,
    error: Option<CoreErrorView>,
    canceled: bool,
)
    requires
        run.wf(),
        run.stage.recording(),
    ensures
        ({
            let next = on_recorded(run, error, canceled).0;
            &&& next.run_id == run.run_id
            &&& next.model == run.model
            &&& next.limits == run.limits
            &&& next.enabled == run.enabled
            &&& next.tools == run.tools
            &&& next.approval == run.approval
            &&& run.messages.len() <= next.messages.len() <= run.messages.len() + 1
            &&& next.messages.take(run.messages.len() as int) == run.messages
            &&& error is Some ==> next.messages == run.messages
        }),
{
    let next = on_recorded(run, error, canceled).0;
    assert(next.messages.take(run.messages.len() as int) =~= run.messages);
}

/// What the model answers with, what an approver says and what a tool comes to changes the run in
/// nothing but what it waits for.
pub proof fn law_answers_change_nothing_yet(
    run: RunView,
    response: ResponseView,
    streamed: bool,
    call: CallView,
    denial: Option<Seq<char>>,
    result: ResultView,
    reason: Seq<char>,
)
    ensures
        on_answer(run, response, streamed).0.at(run.stage) == run,
        on_approval(run, call, denial).0.at(run.stage) == run,
        on_result(run, call, result).0.at(run.stage) == run,
        on_tool_failure(run, call, reason).0.at(run.stage) == run,
{
}

/// Where a turn is due and the run is not canceled, the model is called with all that was said, with
/// the tools and the model of the run and within its limit, once the context and the request are
/// recorded.
pub proof fn law_each_turn_calls_the_model(run: RunView)
    requires
        run.stage is Starting,
        run.turn < run.limits.max_turns,
    ensures
        ({
            let (packed, context) = on_recorded(run, None, false);
            let (asked, request) = on_recorded(packed, None, false);
            let (waiting, call) = on_recorded(asked, None, false);
            &&& context.action matches ActionView::Record(
                EventView::ContextBuilt { run_id, turn_id: _, context: pack },
            ) && run_id == run.run_id && pack.token_budget == run.limits.token_budget
            &&& request.action matches ActionView::Record(
                EventView::ModelRequested { run_id, turn_id: _, step, model },
            ) && run_id == run.run_id && step == run.turn && model == run.model
            &&& call.action matches ActionView::CallModel(sent) && sent.messages == run.messages
                && sent.tools == run.tools && sent.model == run.model && sent.max_output_tokens
                == run.limits.max_output_tokens && sent.system == model::prompt()
            &&& waiting == run.at(StageView::AwaitingModel)
        }),
{
}

/// What came of a call begins the next turn, one further on, with the model told of it; and where the
/// run has had its turns, it fails with their number instead.
pub proof fn law_calls_lead_to_the_next_turn(
    run: RunView,
    call_id: Seq<char>,
    content: Seq<char>,
    is_error: bool,
)
    requires
        run.turn < run.limits.max_turns,
        run.stage == (StageView::RecordingResult { call_id, content, is_error }),
    ensures
        ({
            let (packed, context) = on_recorded(run, None, false);
            let (asked, request) = on_recorded(packed, None, false);
            let (waiting, call) = on_recorded(asked, None, false);
            if run.turn + 1 < run.limits.max_turns {
                &&& waiting.turn == run.turn + 1
                &&& call.action matches ActionView::CallModel(sent) && sent.messages
                    == waiting.messages && is_told(run, waiting, call_id, content, is_error)
            } else {
                &&& context.action matches ActionView::Record(EventView::RunFailed { run_id, reason })
                    && run_id == run.run_id && reason == "exceeded maximum turn count of "@
                    + text::decimal(run.limits.max_turns as nat) && request.action
                    == (ActionView::Fail {
                    error: RunErrorView::Failed(reason),
                    close: CloseView::Failed(reason),
                })
            }
        }),
{
    let next = on_recorded(run, None, false).0;
    assert(next.messages.drop_last() =~= run.messages);
}

/// An answer without tools ends the run with its text, once that is recorded.
pub proof fn law_answers_without_tools_end_the_run(
    run: RunView,
    response: ResponseView,
    streamed: bool,
)
    requires
        response.stop == ModelStop::EndTurn,
        forall|i: int|
            0 <= i < response.content.len() ==> (#[trigger] response.content[i]) is Text,
    ensures
        ({
            let (answered, told) = on_answer(run, response, streamed);
            let (finishing, step) = on_recorded(answered, None, false);
            &&& told.action matches ActionView::Record(
                EventView::ModelResponded { run_id, output, proposed_calls, usage, .. },
            ) && run_id == run.run_id && output == model::response_text(response)
                && proposed_calls.len() == 0 && usage == response.usage
            &&& step.action == ActionView::Record(EventView::RunFinished { run_id: run.run_id })
            &&& on_recorded(finishing, None, false).1.action == ActionView::Finish {
                answer: model::response_text(response),
            }
            &&& on_recorded(finishing, None, false).0.stage == StageView::Done
        }),
{
    model::lemma_uses_in_texts(response.content);
}

/// An answer that uses one tool leads to the proposal of just that call, with the input that the model
/// gave, and the model's words come to what was said.
pub proof fn law_tool_uses_are_proposed(
    run: RunView,
    response: ResponseView,
    streamed: bool,
    at: int,
)
    requires
        response.stop == ModelStop::EndTurn || response.stop == ModelStop::ToolUse,
        0 <= at < response.content.len(),
        response.content[at] is ToolUse,
        !text::is_blank(response.content[at]->ToolUse_id),
        !text::is_blank(response.content[at]->ToolUse_name),
        forall|i: int|
            0 <= i < response.content.len() && i != at ==> (#[trigger] response.content[i]) !is ToolUse,
    ensures
        ({
            let answered = on_answer(run, response, streamed).0;
            let (proposing, step) = on_recorded(answered, None, false);
            let block = response.content[at];
            &&& step.action matches ActionView::Record(
                EventView::ToolCallProposed { run_id, turn_id: _, call },
            ) && run_id == run.run_id && call.id == block->ToolUse_id && call.tool
                == block->ToolUse_name && call.input == block->ToolUse_input && call.effect
                == tool_catalog::effect_of(call.tool) && proposing.stage == (StageView::Proposing {
                call,
            })
            &&& proposing.messages.len() == run.messages.len() + 1
            &&& proposing.messages.drop_last() == run.messages
            &&& proposing.messages.last() == (MessageView {
                role: model::ModelRole::Assistant,
                content: response.content,
            })
            &&& proposing.turn == run.turn
        }),
{
    model::lemma_only_use(response.content, at);
    let uses = model::uses_among(response.content);
    let proposals = app::proposals_of(response);
    assert(proposals.len() == 1);
    assert(proposals[0].0 == uses[0].1);
    let answered = on_answer(run, response, streamed).0;
    assert(answered.stage is RecordingAnswer);
    let proposing = on_recorded(answered, None, false).0;
    assert(proposing.messages.drop_last() =~= run.messages);
}

/// An answer that was cut off, that was filtered or that uses two tools at once is no answer and runs
/// nothing: the run fails, says so, and its session's entry is closed with the reason.
pub proof fn law_answers_that_cannot_be_followed_fail_the_run(
    run: RunView,
    response: ResponseView,
    streamed: bool,
    first: int,
    second: int,
)
    requires
        run.stage == (StageView::RecordingAnswer { response, streamed }),
        response.stop == ModelStop::MaxOutput || response.stop == ModelStop::ContentFilter || (0
            <= first < second < response.content.len() && response.content[first] is ToolUse
            && response.content[second] is ToolUse),
    ensures
        ({
            let (failing, step) = on_recorded(run, None, false);
            let (over, end) = on_recorded(failing, None, false);
            &&& step.action matches ActionView::Record(EventView::RunFailed { run_id, reason })
                && run_id == run.run_id && end.action == (ActionView::Fail {
                error: RunErrorView::Failed(reason),
                close: CloseView::Failed(reason),
            }) && (response.stop == ModelStop::MaxOutput ==> reason
                == "model reached max output tokens"@) && (response.stop
                == ModelStop::ContentFilter ==> reason
                == "model response was stopped by content filter"@)
            &&& over.stage == StageView::Done
            &&& over.messages == run.messages
        }),
{
    if 0 <= first < second < response.content.len() && response.content[first] is ToolUse
        && response.content[second] is ToolUse {
        model::lemma_two_uses(response.content, first, second);
    }
}

/// Whether an event belongs to a run.
pub open spec fn belongs_to(event: EventView, id: Seq<char>) -> bool {
    match event {
        EventView::RunStarted { run_id, .. } => run_id == id,
        EventView::ContextBuilt { run_id, .. } => run_id == id,
        EventView::ModelRequested { run_id, .. } => run_id == id,
        EventView::ModelResponded { run_id, .. } => run_id == id,
        EventView::ToolCallProposed { run_id, .. } => run_id == id,
        EventView::PolicyEvaluated { run_id, .. } => run_id == id,
        EventView::ApprovalGranted { run_id, .. } => run_id == id,
        EventView::ApprovalDenied { run_id, .. } => run_id == id,
        EventView::ToolStarted { run_id, .. } => run_id == id,
        EventView::ToolFinished { run_id, .. } => run_id == id,
        EventView::ToolFailed { run_id, .. } => run_id == id,
        EventView::RunFinished { run_id } => run_id == id,
        EventView::RunFailed { run_id, .. } => run_id == id,
    }
}

/// A run ends once: it is over exactly where it gives its end, it gives an answer only where its end is
/// recorded and no failure, and whatever it has recorded belongs to it.
pub proof fn law_runs_end_once(run: RunView, error: Option<CoreErrorView>, canceled: bool)
    requires
        run.wf(),
        run.stage.recording(),
    ensures
        ({
            let (next, step) = on_recorded(run, error, canceled);
            &&& next.stage is Done <==> (step.action is Finish || step.action is Fail)
            &&& step.action matches ActionView::Record(event) ==> belongs_to(event, run.run_id)
                && next.stage.recording()
            &&& step.action matches ActionView::Finish { answer } ==> error is None && run.stage == (
            StageView::Finishing { answer })
            &&& step.action is CallModel <==> next.stage is AwaitingModel
            &&& step.action is AskApproval <==> next.stage is AwaitingApproval
            &&& step.action is RunTool <==> next.stage is AwaitingTool
            &&& error matches Some(e) ==> {
                ||| step.action == (ActionView::Fail {
                    error: RunErrorView::Core(e),
                    close: CloseView::Left,
                })
                ||| e is ContextBudgetExceeded && run.stage is BuildingContext && step.action
                    == ActionView::Record(
                    EventView::RunFailed {
                        run_id: run.run_id,
                        reason: harness::core_message(e),
                    },
                ) && on_recorded(next, None, canceled).1.action == (ActionView::Fail {
                    error: RunErrorView::Core(e),
                    close: CloseView::Left,
                })
            }
        }),
{
}

/// A run that failed ends with the error and the close that it failed with, and what is recorded of it
/// is the reason.
pub proof fn law_failures_are_kept(
    run: RunView,
    reason: Seq<char>,
    error: RunErrorView,
    close: CloseView,
    canceled: bool,
)
    ensures
        ({
            let (next, step) = failing(run, reason, error, close);
            &&& step.action == ActionView::Record(
                EventView::RunFailed { run_id: run.run_id, reason },
            )
            &&& on_recorded(next, None, canceled).1.action == (ActionView::Fail { error, close })
            &&& on_recorded(next, None, canceled).0.stage == StageView::Done
            &&& next.messages == run.messages
        }),
{
}

/// Turns are numbered from one on, and no two have the same name.
pub proof fn law_turns_have_their_own_names(first: u32, second: u32)
    ensures
        turn_id(first) == "turn_"@ + text::decimal((first + 1) as nat),
        first != second ==> turn_id(first) != turn_id(second),
{
    json::lemma_decimal_is_read_back((first + 1) as nat);
    json::lemma_decimal_is_read_back((second + 1) as nat);
    let prefix = "turn_"@;
    assert((prefix + text::decimal((first + 1) as nat)).skip(prefix.len() as int) =~= text::decimal(
        (first + 1) as nat,
    ));
    assert((prefix + text::decimal((second + 1) as nat)).skip(prefix.len() as int)
        =~= text::decimal((second + 1) as nat));
}

} // verus!
