//! Plans: asking the model for one, and carrying it out step by step.
use toml::Value;
use vstd::prelude::*;
use crate::cli::approval::{file_segment, sanitize_file_segment};
use crate::clock::unix_millis;
use crate::message::{message_views, plain_message, Message, MessageRole};
use crate::number::{decimal, render_u64, render_usize};
use crate::path::{join as join_path, joined_path};
use crate::provider::{ProviderRequest, ProviderResponse, ProviderResponseView};
use crate::session::{context_of, Session};
use crate::store::SessionStore;
use crate::text::{
    begins, copy_opt, find, join, joined, lemma_views_push, lines, matches_at, occurs_at, opt_view, owned,
    same, search, slice_string, split_lines, starts_with, to_chars, trim, trimmed, views,
};

verus! {

/// One step of a plan.
#[derive(Debug, PartialEq, Eq)]
pub struct WorkflowStep {
    /// Counted from 1.
    pub index: usize,
    pub instruction: String,
    pub status: PlanStepStatus,
}

/// The value of a `WorkflowStep`.
pub struct WorkflowStepView {
    pub index: usize,
    pub instruction: Seq<char>,
    pub status: PlanStepStatus,
}

impl View for WorkflowStep {
    type V = WorkflowStepView;

    open spec fn view(&self) -> WorkflowStepView {
        WorkflowStepView {
            index: self.index,
            instruction: self.instruction@,
            status: self.status,
        }
    }
}

impl Clone for WorkflowStep {
    fn clone(&self) -> (r: Self)
        ensures
            r@ == self@,
    {
        WorkflowStep {
            index: self.index,
            instruction: self.instruction.clone(),
            status: self.status,
        }
    }
}

/// The values of a list of `WorkflowStep`.
pub open spec fn workflow_step_views(s: Seq<WorkflowStep>) -> Seq<WorkflowStepView> {
    Seq::new(s.len(), |i: int| s[i]@)
}

/// A copy of a list of `WorkflowStep`.
pub fn copy_workflow_steps(v: &Vec<WorkflowStep>) -> (r: Vec<WorkflowStep>)
    ensures
        workflow_step_views(r@) == workflow_step_views(v@),
{
    let mut r: Vec<WorkflowStep> = Vec::new();
    let mut i: usize = 0;
    let ghost all = workflow_step_views(v@);
    while i < v.len()
        invariant
            i <= v@.len(),
            all == workflow_step_views(v@),
            workflow_step_views(r@) == all.take(i as int),
        decreases v.len() - i,
    {
        let x = v[i].clone();
        proof {
            assert(workflow_step_views(r@.push(x)) =~= workflow_step_views(r@).push(x@));
            assert(all.take(i + 1) =~= all.take(i as int).push(v@[i as int]@));
        }
        r.push(x);
        i += 1;
    }
    proof {
        assert(all.take(v@.len() as int) =~= all);
    }
    r
}

/// A plan: a goal and the steps to it.
#[derive(Debug, PartialEq, Eq)]
pub struct WorkflowPlan {
    pub id: String,
    pub goal: String,
    pub steps: Vec<WorkflowStep>,
    pub created_at_ms: u64,
    pub updated_at_ms: u64,
}

/// The value of a `WorkflowPlan`.
pub struct WorkflowPlanView {
    pub id: Seq<char>,
    pub goal: Seq<char>,
    pub steps: Seq<WorkflowStepView>,
    pub created_at_ms: u64,
    pub updated_at_ms: u64,
}

impl View for WorkflowPlan {
    type V = WorkflowPlanView;

    open spec fn view(&self) -> WorkflowPlanView {
        WorkflowPlanView {
            id: self.id@,
            goal: self.goal@,
            steps: workflow_step_views(self.steps@),
            created_at_ms: self.created_at_ms,
            updated_at_ms: self.updated_at_ms,
        }
    }
}

impl Clone for WorkflowPlan {
    fn clone(&self) -> (r: Self)
        ensures
            r@ == self@,
    {
        WorkflowPlan {
            id: self.id.clone(),
            goal: self.goal.clone(),
            steps: copy_workflow_steps(&self.steps),
            created_at_ms: self.created_at_ms,
            updated_at_ms: self.updated_at_ms,
        }
    }
}

/// The value of an optional `WorkflowPlan`.
pub open spec fn opt_workflow_plan(x: Option<WorkflowPlan>) -> Option<WorkflowPlanView> {
    match x {
        Some(v) => Some(v@),
        None => None,
    }
}

/// Why there is no plan.
#[derive(Debug, PartialEq, Eq)]
pub enum PlanError {
    NoSteps,
    TooManySteps { count: usize },
    TooFewSteps,
    /// The text is no TOML, for this reason.
    BadToml { reason: String },
    /// The text is TOML, but its steps do not have the form of steps.
    BadSteps { text: String },
    NoToml,
    ToolCalls,
    /// The reply of the model is no plan, for this reason.
    BadReply { content: String, reason: String },
    /// The steps in the TOML text of a reply of the model do not have the form of steps.
    UnfitReply { content: String, text: String },
}

/// The value of a `PlanError`.
pub enum PlanErrorView {
    NoSteps,
    TooManySteps { count: usize },
    TooFewSteps,
    BadToml { reason: Seq<char> },
    BadSteps { text: Seq<char> },
    NoToml,
    ToolCalls,
    BadReply { content: Seq<char>, reason: Seq<char> },
    UnfitReply { content: Seq<char>, text: Seq<char> },
}

impl View for PlanError {
    type V = PlanErrorView;

    open spec fn view(&self) -> PlanErrorView {
        match self {
            PlanError::NoSteps => PlanErrorView::NoSteps,
            PlanError::TooManySteps { count } => PlanErrorView::TooManySteps {
                count: *count,
            },
            PlanError::TooFewSteps => PlanErrorView::TooFewSteps,
            PlanError::BadToml { reason } => PlanErrorView::BadToml {
                reason: reason@,
            },
            PlanError::BadSteps { text } => PlanErrorView::BadSteps {
                text: text@,
            },
            PlanError::NoToml => PlanErrorView::NoToml,
            PlanError::ToolCalls => PlanErrorView::ToolCalls,
            PlanError::BadReply { content, reason } => PlanErrorView::BadReply {
                content: content@,
                reason: reason@,
            },
            PlanError::UnfitReply { content, text } => PlanErrorView::UnfitReply {
                content: content@,
                text: text@,
            },
        }
    }
}

impl Clone for PlanError {
    fn clone(&self) -> (r: Self)
        ensures
            r@ == self@,
    {
        match self {
            PlanError::NoSteps => PlanError::NoSteps,
            PlanError::TooManySteps { count } => PlanError::TooManySteps {
                count: *count,
            },
            PlanError::TooFewSteps => PlanError::TooFewSteps,
            PlanError::BadToml { reason } => PlanError::BadToml {
                reason: reason.clone(),
            },
            PlanError::BadSteps { text } => PlanError::BadSteps {
                text: text.clone(),
            },
            PlanError::NoToml => PlanError::NoToml,
            PlanError::ToolCalls => PlanError::ToolCalls,
            PlanError::BadReply { content, reason } => PlanError::BadReply {
                content: content.clone(),
                reason: reason.clone(),
            },
            PlanError::UnfitReply { content, text } => PlanError::UnfitReply {
                content: content.clone(),
                text: text.clone(),
            },
        }
    }
}

/// What a plan command asks for.
#[derive(Debug, PartialEq, Eq)]
pub enum PlanCommand {
    Status,
    Clear,
    RunAll,
    RunNext,
    Help,
    Create { goal: String },
}

/// The value of a `PlanCommand`.
pub enum PlanCommandView {
    Status,
    Clear,
    RunAll,
    RunNext,
    Help,
    Create { goal: Seq<char> },
}

impl View for PlanCommand {
    type V = PlanCommandView;

    open spec fn view(&self) -> PlanCommandView {
        match self {
            PlanCommand::Status => PlanCommandView::Status,
            PlanCommand::Clear => PlanCommandView::Clear,
            PlanCommand::RunAll => PlanCommandView::RunAll,
            PlanCommand::RunNext => PlanCommandView::RunNext,
            PlanCommand::Help => PlanCommandView::Help,
            PlanCommand::Create { goal } => PlanCommandView::Create {
                goal: goal@,
            },
        }
    }
}

/// How far a step is.
#[derive(Debug, Clone, Copy, PartialEq, Eq, Structural)]
pub enum PlanStepStatus {
    Pending,
    Running,
    Done,
    Failed,
}

/// How many steps a plan may have.
pub const MAX_PLAN_STEPS: usize = 8;

/// The prompt that asks the model for a plan.
pub const PLAN_SYSTEM_PROMPT: &'static str = r#"You are the planning mode of a coding CLI agent.
Create a practical execution plan for the user's coding task.

Rules:
- Do not call tools.
- Do not modify files.
- Produce only TOML, with no markdown fence and no explanation.
- Use 3 to 6 steps unless the task clearly needs more.
- Each step must be independently executable by a coding agent.
- Each instruction should be specific, concrete, and mention relevant files or checks when possible.
- Include verification as the final step.

Output schema:
[[steps]]
instruction = "Inspect the relevant files and identify the change points."

[[steps]]
instruction = "Implement the first concrete change."
"#;

/// What is shown where there is no plan.
pub const NO_PLAN: &'static str = "当前没有计划。可以用 /计划 <任务> 创建。\n";

/// What is shown of a status.
pub open spec fn status_label(status: PlanStepStatus) -> Seq<char> {
    match status {
        PlanStepStatus::Pending => "待执行"@,
        PlanStepStatus::Running => "执行中"@,
        PlanStepStatus::Done => "已完成"@,
        PlanStepStatus::Failed => "失败"@,
    }
}

impl PlanStepStatus {
    /// What is shown of the status.
    pub fn label(self) -> (r: &'static str)
        ensures
            r@ == status_label(self),
    {
        match self {
            PlanStepStatus::Pending => "待执行",
            PlanStepStatus::Running => "执行中",
            PlanStepStatus::Done => "已完成",
            PlanStepStatus::Failed => "失败",
        }
    }
}

/// The text of a plan error.
pub open spec fn plan_error_text(e: PlanErrorView) -> Seq<char> {
    match e {
        PlanErrorView::NoSteps => "模型没有返回计划步骤"@,
        PlanErrorView::TooManySteps { count } => "模型返回了 "@ + decimal(count as nat)
            + " 个计划步骤，最多只能有 8 个"@,
        PlanErrorView::TooFewSteps => "模型计划至少需要包含 2 个非空步骤"@,
        PlanErrorView::BadToml { reason } => "模型计划不是合法的 TOML"@ + ": "@ + reason,
        PlanErrorView::BadSteps { text } => "模型计划不是合法的 TOML"@,
        PlanErrorView::NoToml => "模型回复中没有找到 [[steps]] TOML"@,
        PlanErrorView::ToolCalls => "模型在计划模式下返回了工具调用，期望的是 TOML 文本"@,
        PlanErrorView::BadReply { content, reason } => "无法解析模型返回的计划："@ + content
            + ": "@ + reason,
        PlanErrorView::UnfitReply { content, text } => "无法解析模型返回的计划："@ + content
            + ": "@ + "模型计划不是合法的 TOML"@,
    }
}

/// The error with the cause that a typed reading of its TOML text gives.
pub open spec fn caused_by(e: PlanErrorView, cause: Seq<char>) -> PlanErrorView {
    match e {
        PlanErrorView::BadSteps { text } => PlanErrorView::BadToml { reason: cause },
        PlanErrorView::UnfitReply { content, text } => PlanErrorView::BadReply {
            content,
            reason: plan_error_text(PlanErrorView::BadToml { reason: cause }),
        },
        _ => e,
    }
}

/// The TOML text whose steps do not have the form of steps, if that is the error.
pub open spec fn unfit_part(e: PlanErrorView) -> Option<Seq<char>> {
    match e {
        PlanErrorView::BadSteps { text } => Some(text),
        PlanErrorView::UnfitReply { content, text } => Some(text),
        _ => None,
    }
}

/// The cause of an error is shown behind the error, and other errors have none to be shown.
pub proof fn causes_are_shown_last(e: PlanErrorView, cause: Seq<char>)
    ensures
        plan_error_text(caused_by(e, cause)) == if unfit_part(e) is Some {
            plan_error_text(e) + ": "@ + cause
        } else {
            plan_error_text(e)
        },
        unfit_part(caused_by(e, cause)) is None,
{
    match e {
        PlanErrorView::UnfitReply { content, text } => {
            let start = "无法解析模型返回的计划："@ + content + ": "@;
            let toml = "模型计划不是合法的 TOML"@;
            assert(start + (toml + ": "@ + cause) =~= start + toml + ": "@ + cause);
        },
        _ => {},
    }
}

impl PlanError {
    /// The TOML text whose steps do not have the form of steps, if that is the error.
    pub fn unfit_text(&self) -> (r: Option<String>)
        ensures
            opt_view(r) == unfit_part(self@),
    {
        match self {
            PlanError::BadSteps { text } => Some(text.clone()),
            PlanError::UnfitReply { content, text } => Some(text.clone()),
            _ => None,
        }
    }

    /// The error with the cause that a typed reading of its TOML text gives.
    pub fn with_cause(self, cause: &str) -> (r: PlanError)
        ensures
            r@ == caused_by(self@, cause@),
    {
        match self {
            PlanError::BadSteps { text } => PlanError::BadToml { reason: owned(cause) },
            PlanError::UnfitReply { content, text } => {
                let inner = PlanError::BadToml { reason: owned(cause) };
                PlanError::BadReply { content, reason: inner.message() }
            },
            _ => self,
        }
    }

    /// The text of the error.
    pub fn message(&self) -> (r: String)
        ensures
            r@ == plan_error_text(self@),
    {
        match self {
            PlanError::NoSteps => owned("模型没有返回计划步骤"),
            PlanError::TooManySteps { count } => owned("模型返回了 ").concat(
                render_usize(*count).as_str(),
            ).concat(" 个计划步骤，最多只能有 8 个"),
            PlanError::TooFewSteps => owned("模型计划至少需要包含 2 个非空步骤"),
            PlanError::BadToml { reason } => owned("模型计划不是合法的 TOML").concat(": ").concat(
                reason.as_str(),
            ),
            PlanError::BadSteps { text } => owned("模型计划不是合法的 TOML"),
            PlanError::NoToml => owned("模型回复中没有找到 [[steps]] TOML"),
            PlanError::ToolCalls => owned(
                "模型在计划模式下返回了工具调用，期望的是 TOML 文本",
            ),
            PlanError::BadReply { content, reason } => owned("无法解析模型返回的计划：").concat(
                content.as_str(),
            ).concat(": ").concat(reason.as_str()),
            PlanError::UnfitReply { content, text } => owned("无法解析模型返回的计划：").concat(
                content.as_str(),
            ).concat(": ").concat("模型计划不是合法的 TOML"),
        }
    }
}

// ---------------------------------------------------------------------------
// Plans
// ---------------------------------------------------------------------------

/// Steps that wait for their turn.
pub open spec fn pending_steps(instructions: Seq<Seq<char>>) -> Seq<WorkflowStepView> {
    Seq::new(
        instructions.len(),
        |i: int|
            WorkflowStepView {
                index: (i + 1) as usize,
                instruction: instructions[i],
                status: PlanStepStatus::Pending,
            },
    )
}

/// The plan that is made of instructions at `now`.
pub open spec fn plan_of(goal: Seq<char>, instructions: Seq<Seq<char>>, now: u64) -> Result<
    WorkflowPlanView,
    PlanErrorView,
> {
    if instructions.len() == 0 {
        Err(PlanErrorView::NoSteps)
    } else if instructions.len() > MAX_PLAN_STEPS {
        Err(PlanErrorView::TooManySteps { count: instructions.len() as usize })
    } else {
        Ok(
            WorkflowPlanView {
                id: "plan-"@ + decimal(now as nat),
                goal,
                steps: pending_steps(instructions),
                created_at_ms: now,
                updated_at_ms: now,
            },
        )
    }
}

/// The value of a result that is a plan.
pub open spec fn plan_result(r: Result<WorkflowPlan, PlanError>) -> Result<
    WorkflowPlanView,
    PlanErrorView,
> {
    match r {
        Ok(x) => Ok(x@),
        Err(e) => Err(e@),
    }
}

/// Whether a step can be run.
pub open spec fn can_run(step: WorkflowStepView) -> bool {
    step.status is Pending || step.status is Failed
}

/// The first step from `i` on that can be run.
pub open spec fn first_runnable(steps: Seq<WorkflowStepView>, i: int) -> Option<int>
    decreases steps.len() - i,
{
    if i >= steps.len() {
        None
    } else if can_run(steps[i]) {
        Some(i)
    } else {
        first_runnable(steps, i + 1)
    }
}

/// Whether all steps are done.
pub open spec fn all_done(steps: Seq<WorkflowStepView>) -> bool {
    forall|i: int| 0 <= i < steps.len() ==> (#[trigger] steps[i]).status is Done
}

/// The plan with one step in another status.
pub open spec fn with_status(
    plan: WorkflowPlanView,
    pos: int,
    status: PlanStepStatus,
    now: u64,
) -> WorkflowPlanView {
    WorkflowPlanView {
        steps: if 0 <= pos < plan.steps.len() {
            plan.steps.update(pos, WorkflowStepView { status, ..plan.steps[pos] })
        } else {
            plan.steps
        },
        updated_at_ms: now,
        ..plan
    }
}

/// The status of a step that has run.
pub open spec fn outcome_status(succeeded: bool) -> PlanStepStatus {
    if succeeded {
        PlanStepStatus::Done
    } else {
        PlanStepStatus::Failed
    }
}

impl WorkflowPlan {
    /// The plan that is made of instructions at `now`.
    pub fn from_instructions_at(goal: String, instructions: Vec<String>, now: u64) -> (r: Result<
        WorkflowPlan,
        PlanError,
    >)
        ensures
            plan_result(r) == plan_of(goal@, views(instructions@), now),
    {
        proof {
            assert(views(instructions@).len() == instructions@.len());
        }
        if instructions.len() == 0 {
            return Err(PlanError::NoSteps);
        }
        if instructions.len() > MAX_PLAN_STEPS {
            return Err(PlanError::TooManySteps { count: instructions.len() });
        }
        let mut steps: Vec<WorkflowStep> = Vec::new();
        let mut i: usize = 0;
        let ghost all = pending_steps(views(instructions@));
        while i < instructions.len()
            invariant
                i <= instructions@.len(),
                instructions@.len() <= MAX_PLAN_STEPS,
                all == pending_steps(views(instructions@)),
                workflow_step_views(steps@) == all.take(i as int),
            decreases instructions.len() - i,
        {
            let step = WorkflowStep {
                index: i + 1,
                instruction: instructions[i].clone(),
                status: PlanStepStatus::Pending,
            };
            proof {
                assert(views(instructions@)[i as int] == instructions@[i as int]@);
                assert(step@ == all[i as int]);
                assert(workflow_step_views(steps@.push(step)) =~= workflow_step_views(steps@).push(
                    step@,
                ));
                assert(all.take(i + 1) =~= all.take(i as int).push(all[i as int]));
            }
            steps.push(step);
            i += 1;
        }
        proof {
            assert(all.take(instructions@.len() as int) =~= all);
        }
        Ok(
            WorkflowPlan {
                id: owned("plan-").concat(render_u64(now).as_str()),
                goal,
                steps,
                created_at_ms: now,
                updated_at_ms: now,
            },
        )
    }

    /// The plan that is made of instructions now.
    pub fn from_instructions(goal: String, instructions: Vec<String>) -> (r: Result<
        WorkflowPlan,
        PlanError,
    >)
        ensures
            exists|now: u64|
                plan_result(r) == #[trigger] plan_of(goal@, views(instructions@), now),
    {
        WorkflowPlan::from_instructions_at(goal, instructions, unix_millis())
    }

    /// The first step that can be run.
    pub fn next_step_pos(&self) -> (r: Option<usize>)
        ensures
            match r {
                Some(i) => first_runnable(self@.steps, 0) == Some(i as int) && i
                    < self.steps@.len(),
                None => first_runnable(self@.steps, 0) is None,
            },
    {
        let ghost all = self@.steps;
        let mut i: usize = 0;
        while i < self.steps.len()
            invariant
                i <= self.steps@.len(),
                all == workflow_step_views(self.steps@),
                first_runnable(all, 0) == first_runnable(all, i as int),
            decreases self.steps.len() - i,
        {
            proof {
                assert(all[i as int] == self.steps@[i as int]@);
            }
            match self.steps[i].status {
                PlanStepStatus::Pending | PlanStepStatus::Failed => {
                    return Some(i);
                },
                _ => {},
            }
            i += 1;
        }
        None
    }

    /// Whether all steps are done.
    pub fn is_complete(&self) -> (r: bool)
        ensures
            r == all_done(self@.steps),
    {
        let ghost all = self@.steps;
        let mut i: usize = 0;
        while i < self.steps.len()
            invariant
                i <= self.steps@.len(),
                all == workflow_step_views(self.steps@),
                forall|k: int| 0 <= k < i ==> (#[trigger] all[k]).status is Done,
            decreases self.steps.len() - i,
        {
            proof {
                assert(all[i as int] == self.steps@[i as int]@);
            }
            if self.steps[i].status != PlanStepStatus::Done {
                return false;
            }
            i += 1;
        }
        true
    }

    /// Puts one step in another status, at `now`.
    pub fn set_status_at(&mut self, pos: usize, status: PlanStepStatus, now: u64)
        ensures
            final(self)@ == with_status(old(self)@, pos as int, status, now),
    {
        let ghost all = workflow_step_views(self.steps@);
        if pos < self.steps.len() {
            let step = WorkflowStep {
                index: self.steps[pos].index,
                instruction: self.steps[pos].instruction.clone(),
                status,
            };
            proof {
                assert(all[pos as int] == self.steps@[pos as int]@);
                assert(workflow_step_views(self.steps@.update(pos as int, step)) =~= all.update(
                    pos as int,
                    step@,
                ));
            }
            self.steps.set(pos, step);
        }
        self.updated_at_ms = now;
    }

}

// ---------------------------------------------------------------------------
// Reading the reply of the model
// ---------------------------------------------------------------------------

/// The last position up to `to` where `needle` stands in `hay`.
pub open spec fn find_last(hay: Seq<char>, needle: Seq<char>, to: int) -> Option<int>
    decreases to + 1,
{
    if to < 0 {
        None
    } else if occurs_at(hay, needle, to) {
        Some(to)
    } else {
        find_last(hay, needle, to - 1)
    }
}

/// A text without the code fence around it.
pub open spec fn without_fence(raw: Seq<char>) -> Seq<char> {
    let text = trimmed(raw);
    if !begins(text, "```"@) {
        text
    } else {
        let all = lines(text);
        let body = joined(
            if all.len() > 0 {
                all.drop_first()
            } else {
                all
            },
            "\n"@,
        );
        trimmed(
            match find_last(body, "```"@, body.len() as int) {
                Some(pos) => body.take(pos),
                None => body,
            },
        )
    }
}

/// A text without the code fence around it.
pub fn strip_code_fence(raw: &str) -> (r: String)
    ensures
        r@ == without_fence(raw@),
{
    let text = trim(raw);
    if !starts_with(text.as_str(), "```") {
        return text;
    }
    let mut all = split_lines(text.as_str());
    proof {
        assert(views(all@).len() == all@.len());
    }
    if all.len() > 0 {
        proof {
            assert(views(all@.remove(0)) =~= views(all@).drop_first());
        }
        all.remove(0);
    }
    let body = join(&all, "\n");
    let v = to_chars(body.as_str());
    let fence = to_chars("```");
    let mut to: usize = v.len();
    loop
        invariant
            to <= v@.len(),
            v@ == body@,
            fence@ == "```"@,
            find_last(body@, "```"@, body@.len() as int) == find_last(body@, "```"@, to as int),
            without_fence(raw@) == trimmed(
                match find_last(body@, "```"@, body@.len() as int) {
                    Some(pos) => body@.take(pos),
                    None => body@,
                },
            ),
        decreases to,
    {
        if matches_at(&v, &fence, to) {
            proof {
                assert(v@.subrange(0, to as int) =~= body@.take(to as int));
            }
            return trim(slice_string(&v, 0, to).as_str());
        }
        if to == 0 {
            proof {
                assert(find_last(body@, "```"@, -1) is None);
            }
            return trim(body.as_str());
        }
        to -= 1;
    }
}

/// A field of a TOML table: its text, none where its value is no text.
#[derive(Debug, PartialEq, Eq)]
pub struct TomlField {
    pub key: String,
    pub text: Option<String>,
}

/// The value of a `TomlField`.
pub struct TomlFieldView {
    pub key: Seq<char>,
    pub text: Option<Seq<char>>,
}

impl View for TomlField {
    type V = TomlFieldView;

    open spec fn view(&self) -> TomlFieldView {
        TomlFieldView { key: self.key@, text: opt_view(self.text) }
    }
}

/// The values of a list of `TomlField`.
pub open spec fn toml_field_views(s: Seq<TomlField>) -> Seq<TomlFieldView> {
    Seq::new(s.len(), |i: int| s[i]@)
}

/// The values of a list of optional texts.
pub open spec fn opt_text_views(s: Seq<Option<String>>) -> Seq<Option<Seq<char>>> {
    Seq::new(s.len(), |i: int| opt_view(s[i]))
}

/// An entry of a TOML array.
#[derive(Debug, PartialEq, Eq)]
pub enum TomlEntry {
    Table { fields: Vec<TomlField> },
    /// The texts of an array, none for an entry that is no text.
    List { items: Vec<Option<String>> },
    Other,
}

/// The value of a `TomlEntry`.
pub enum TomlEntryView {
    Table { fields: Seq<TomlFieldView> },
    List { items: Seq<Option<Seq<char>>> },
    Other,
}

impl View for TomlEntry {
    type V = TomlEntryView;

    open spec fn view(&self) -> TomlEntryView {
        match self {
            TomlEntry::Table { fields } => TomlEntryView::Table {
                fields: toml_field_views(fields@),
            },
            TomlEntry::List { items } => TomlEntryView::List {
                items: opt_text_views(items@),
            },
            TomlEntry::Other => TomlEntryView::Other,
        }
    }
}

/// The values of a list of `TomlEntry`.
pub open spec fn toml_entry_views(s: Seq<TomlEntry>) -> Seq<TomlEntryView> {
    Seq::new(s.len(), |i: int| s[i]@)
}

/// The value of an array that was looked for in a text.
pub open spec fn array_result(r: Result<Option<Vec<TomlEntry>>, String>) -> Result<
    Option<Seq<TomlEntryView>>,
    Seq<char>,
> {
    match r {
        Ok(Some(entries)) => Ok(Some(toml_entry_views(entries@))),
        Ok(None) => Ok(None),
        Err(reason) => Err(reason@),
    }
}

/// The array under a top-level key of the TOML document that `toml::from_str` reads from a
/// text, none where there is no array under it; or why the text is refused.
pub uninterp spec fn toml_array(text: Seq<char>, key: Seq<char>) -> Result<
    Option<Seq<TomlEntryView>>,
    Seq<char>,
>;

/// `toml::from_str` into a table: the array under one of its keys, each entry by its kind.
/// What a TOML text means, and why one is refused, is left to `toml`.
#[verifier::external_body]
fn read_toml_array(text: &str, key: &str) -> (r: Result<Option<Vec<TomlEntry>>, String>)
    ensures
        array_result(r) == toml_array(text@, key@),
{
    let text_of = |value: Value| match value {
        Value::String(text) => Some(text),
        _ => None,
    };
    let field = |(key, value)| TomlField { key, text: text_of(value) };
    let entry = |value| match value {
        Value::Table(t) => TomlEntry::Table { fields: t.into_iter().map(field).collect() },
        Value::Array(a) => TomlEntry::List { items: a.into_iter().map(text_of).collect() },
        _ => TomlEntry::Other,
    };
    match toml::from_str::<toml::Table>(text).map_err(|e| e.to_string())?.remove(key) {
        Some(Value::Array(a)) => Ok(Some(a.into_iter().map(entry).collect())),
        _ => Ok(None),
    }
}

/// The position of a field, from `i` on.
pub open spec fn field_at(fields: Seq<TomlFieldView>, key: Seq<char>, i: int) -> Option<int>
    decreases fields.len() - i,
{
    if i >= fields.len() {
        None
    } else if fields[i].key == key {
        Some(i)
    } else {
        field_at(fields, key, i + 1)
    }
}

/// The instruction of a step: the field `instruction` of a table, or the first item of an
/// array, where it is a text.
pub open spec fn step_of(entry: TomlEntryView) -> Option<Seq<char>> {
    match entry {
        TomlEntryView::Table { fields } => match field_at(fields, "instruction"@, 0) {
            Some(i) => fields[i].text,
            None => None,
        },
        TomlEntryView::List { items } => if items.len() > 0 {
            items[0]
        } else {
            None
        },
        TomlEntryView::Other => None,
    }
}

/// The instructions of steps, where all have one.
pub open spec fn steps_of(entries: Seq<TomlEntryView>) -> Option<Seq<Seq<char>>>
    decreases entries.len(),
{
    if entries.len() == 0 {
        Some(Seq::empty())
    } else {
        match (steps_of(entries.drop_last()), step_of(entries.last())) {
            (Some(before), Some(step)) => Some(before.push(step)),
            _ => None,
        }
    }
}

/// What a text holds as steps of a plan.
#[derive(Debug, PartialEq, Eq)]
pub enum StepsRead {
    /// The instructions of the steps.
    Steps { steps: Vec<String> },
    /// TOML without steps, or with steps that do not have the form of steps.
    Unfit,
    /// No TOML, for this reason.
    Refused { reason: String },
}

/// The value of a `StepsRead`.
pub enum StepsReadView {
    Steps { steps: Seq<Seq<char>> },
    Unfit,
    Refused { reason: Seq<char> },
}

impl View for StepsRead {
    type V = StepsReadView;

    open spec fn view(&self) -> StepsReadView {
        match self {
            StepsRead::Steps { steps } => StepsReadView::Steps {
                steps: views(steps@),
            },
            StepsRead::Unfit => StepsReadView::Unfit,
            StepsRead::Refused { reason } => StepsReadView::Refused {
                reason: reason@,
            },
        }
    }
}

/// What an array that was looked for in a text means as steps.
pub open spec fn steps_read(read: Result<Option<Seq<TomlEntryView>>, Seq<char>>) -> StepsReadView {
    match read {
        Ok(Some(entries)) => match steps_of(entries) {
            Some(steps) => StepsReadView::Steps { steps },
            None => StepsReadView::Unfit,
        },
        Ok(None) => StepsReadView::Unfit,
        Err(reason) => StepsReadView::Refused { reason },
    }
}

/// The instruction of a step.
pub fn step_from_entry(entry: &TomlEntry) -> (r: Option<String>)
    ensures
        opt_view(r) == step_of(entry@),
{
    match entry {
        TomlEntry::Table { fields } => {
            let ghost all = toml_field_views(fields@);
            let mut i: usize = 0;
            while i < fields.len()
                invariant
                    i <= fields@.len(),
                    all == toml_field_views(fields@),
                    entry@ == (TomlEntryView::Table { fields: all }),
                    field_at(all, "instruction"@, 0) == field_at(all, "instruction"@, i as int),
                decreases fields.len() - i,
            {
                proof {
                    assert(all[i as int] == fields@[i as int]@);
                }
                if same(fields[i].key.as_str(), "instruction") {
                    return copy_opt(&fields[i].text);
                }
                i += 1;
            }
            None
        },
        TomlEntry::List { items } => {
            proof {
                assert(opt_text_views(items@).len() == items@.len());
            }
            if items.len() > 0 {
                copy_opt(&items[0])
            } else {
                None
            }
        },
        TomlEntry::Other => None,
    }
}

proof fn lemma_unfit_steps(entries: Seq<TomlEntryView>, n: int)
    requires
        0 <= n <= entries.len(),
        steps_of(entries.take(n)) is None,
    ensures
        steps_of(entries) is None,
    decreases entries.len() - n,
{
    if n < entries.len() {
        assert(entries.take(n + 1).drop_last() =~= entries.take(n));
        lemma_unfit_steps(entries, n + 1);
    } else {
        assert(entries.take(n) =~= entries);
    }
}

/// What an array that was looked for in a text means as steps.
pub fn steps_from_read(read: Result<Option<Vec<TomlEntry>>, String>) -> (r: StepsRead)
    ensures
        r@ == steps_read(array_result(read)),
{
    let entries = match read {
        Ok(Some(entries)) => entries,
        Ok(None) => {
            return StepsRead::Unfit;
        },
        Err(reason) => {
            return StepsRead::Refused { reason };
        },
    };
    let ghost all = toml_entry_views(entries@);
    let mut steps: Vec<String> = Vec::new();
    let mut i: usize = 0;
    proof {
        assert(views(steps@) =~= Seq::empty());
        assert(all.take(0).len() == 0);
    }
    while i < entries.len()
        invariant
            i <= entries@.len(),
            all == toml_entry_views(entries@),
            array_result(read) == Ok::<Option<Seq<TomlEntryView>>, Seq<char>>(Some(all)),
            steps_of(all.take(i as int)) == Some(views(steps@)),
        decreases entries.len() - i,
    {
        proof {
            assert(all.take(i + 1).drop_last() =~= all.take(i as int));
            assert(all.take(i + 1).last() == entries@[i as int]@);
        }
        match step_from_entry(&entries[i]) {
            Some(step) => {
                proof {
                    lemma_views_push(steps@, step);
                }
                steps.push(step);
            },
            None => {
                proof {
                    lemma_unfit_steps(all, i + 1);
                }
                return StepsRead::Unfit;
            },
        }
        i += 1;
    }
    proof {
        assert(all.take(i as int) =~= all);
    }
    StepsRead::Steps { steps }
}

/// What a text holds as steps of a plan.
pub open spec fn steps_in(text: Seq<char>) -> StepsReadView {
    steps_read(toml_array(text, "steps"@))
}

/// What a text holds as steps of a plan.
fn read_steps(text: &str) -> (r: StepsRead)
    ensures
        r@ == steps_in(text@),
{
    steps_from_read(read_toml_array(text, "steps"))
}

/// How texts are read as steps.
pub open spec fn toml_reader() -> spec_fn(Seq<char>) -> StepsReadView {
    |t: Seq<char>| steps_in(t)
}

/// The part of a reply that is read as a plan, where `readable` says whether all of it,
/// without its fence, can be.
pub open spec fn plan_part(raw: Seq<char>, readable: bool) -> Result<Seq<char>, PlanErrorView> {
    let text = without_fence(trimmed(raw));
    if readable {
        Ok(text)
    } else {
        match find(text, "[[steps]]"@) {
            Some(start) => Ok(trimmed(text.skip(start))),
            None => Err(PlanErrorView::NoToml),
        }
    }
}

/// The part of a reply that is read as a plan, where `readable` says whether all of it,
/// without its fence, can be.
pub fn pick_plan_part(raw: &str, readable: bool) -> (r: Result<String, PlanError>)
    ensures
        (match r {
            Ok(x) => Ok::<Seq<char>, PlanErrorView>(x@),
            Err(e) => Err(e@),
        }) == plan_part(raw@, readable),
{
    let text = strip_code_fence(trim(raw).as_str());
    if readable {
        return Ok(text);
    }
    match search(text.as_str(), "[[steps]]") {
        Some(start) => {
            let v = to_chars(text.as_str());
            proof {
                assert(v@.subrange(start as int, v@.len() as int) =~= text@.skip(start as int));
            }
            Ok(trim(slice_string(&v, start, v.len()).as_str()))
        },
        None => Err(PlanError::NoToml),
    }
}

/// The part of a reply that is read as a plan.
pub fn extract_toml_plan(raw: &str) -> (r: Result<String, PlanError>)
    ensures
        (match r {
            Ok(x) => Ok::<Seq<char>, PlanErrorView>(x@),
            Err(e) => Err(e@),
        }) == plan_part(raw@, steps_in(without_fence(trimmed(raw@))) is Steps),
{
    let text = strip_code_fence(trim(raw).as_str());
    let readable = match read_steps(text.as_str()) {
        StepsRead::Steps { steps } => true,
        _ => false,
    };
    pick_plan_part(raw, readable)
}

/// The instructions without white space around them, without the blank ones.
pub open spec fn clean_steps(steps: Seq<Seq<char>>) -> Seq<Seq<char>>
    decreases steps.len(),
{
    if steps.len() == 0 {
        steps
    } else if trimmed(steps.last()).len() == 0 {
        clean_steps(steps.drop_last())
    } else {
        clean_steps(steps.drop_last()).push(trimmed(steps.last()))
    }
}

/// The plan that a text makes, where it was read as `read`.
pub open spec fn plan_of_steps(
    goal: Seq<char>,
    text: Seq<char>,
    read: StepsReadView,
    now: u64,
) -> Result<WorkflowPlanView, PlanErrorView> {
    match read {
        StepsReadView::Refused { reason } => Err(PlanErrorView::BadToml { reason }),
        StepsReadView::Unfit => Err(PlanErrorView::BadSteps { text }),
        StepsReadView::Steps { steps: all } => if clean_steps(all).len() < 2 {
            Err(PlanErrorView::TooFewSteps)
        } else {
            plan_of(goal, clean_steps(all), now)
        },
    }
}

/// The plan that a text makes at `now`, where it was read as `read`.
pub fn plan_from_steps_at(goal: &str, text: &str, read: StepsRead, now: u64) -> (r: Result<
    WorkflowPlan,
    PlanError,
>)
    ensures
        plan_result(r) == plan_of_steps(goal@, text@, read@, now),
{
    match read {
        StepsRead::Refused { reason } => Err(PlanError::BadToml { reason }),
        StepsRead::Unfit => Err(PlanError::BadSteps { text: owned(text) }),
        StepsRead::Steps { steps: all } => {
            let mut kept: Vec<String> = Vec::new();
            let mut i: usize = 0;
            let ghost source = views(all@);
            proof {
                assert(views(kept@) =~= clean_steps(source.take(0)));
            }
            while i < all.len()
                invariant
                    i <= all@.len(),
                    source == views(all@),
                    views(kept@) == clean_steps(source.take(i as int)),
                decreases all.len() - i,
            {
                proof {
                    assert(source.take(i + 1).drop_last() =~= source.take(i as int));
                    assert(source.take(i + 1).last() == all@[i as int]@);
                }
                let step = trim(all[i].as_str());
                if to_chars(step.as_str()).len() > 0 {
                    proof {
                        lemma_views_push(kept@, step);
                    }
                    kept.push(step);
                }
                i += 1;
            }
            proof {
                assert(source.take(all@.len() as int) =~= source);
                assert(views(kept@).len() == kept@.len());
            }
            if kept.len() < 2 {
                return Err(PlanError::TooFewSteps);
            }
            WorkflowPlan::from_instructions_at(owned(goal), kept, now)
        },
    }
}

/// The plan that a reply means.
pub open spec fn plan_in_reply(
    goal: Seq<char>,
    raw: Seq<char>,
    read: spec_fn(Seq<char>) -> StepsReadView,
    now: u64,
) -> Result<WorkflowPlanView, PlanErrorView> {
    match plan_part(raw, read(without_fence(trimmed(raw))) is Steps) {
        Ok(text) => plan_of_steps(goal, text, read(text), now),
        Err(e) => Err(e),
    }
}

/// The plan that a reply means at `now`.
pub fn parse_model_plan_at(goal: &str, raw: &str, now: u64) -> (r: Result<WorkflowPlan, PlanError>)
    ensures
        plan_result(r) == plan_in_reply(goal@, raw@, toml_reader(), now),
{
    match extract_toml_plan(raw) {
        Ok(text) => plan_from_steps_at(goal, text.as_str(), read_steps(text.as_str()), now),
        Err(e) => Err(e),
    }
}

/// The plan that a reply means, now.
pub fn parse_model_plan(goal: &str, raw: &str) -> (r: Result<WorkflowPlan, PlanError>)
    ensures
        exists|now: u64|
            plan_result(r) == #[trigger] plan_in_reply(
                goal@,
                raw@,
                toml_reader(),
                now,
            ),
{
    parse_model_plan_at(goal, raw, unix_millis())
}

/// The plan that an answer of the model means.
pub open spec fn plan_in_response(
    goal: Seq<char>,
    response: ProviderResponseView,
    read: spec_fn(Seq<char>) -> StepsReadView,
    now: u64,
) -> Result<WorkflowPlanView, PlanErrorView> {
    match response {
        ProviderResponseView::Text { content } => match plan_in_reply(goal, content, read, now) {
            Ok(plan) => Ok(plan),
            Err(PlanErrorView::BadSteps { text }) => Err(
                PlanErrorView::UnfitReply { content, text },
            ),
            Err(e) => Err(PlanErrorView::BadReply { content, reason: plan_error_text(e) }),
        },
        ProviderResponseView::ToolCalls { calls } => Err(PlanErrorView::ToolCalls),
    }
}

/// The plan that an answer of the model means, now.
pub fn plan_from_response(goal: &str, response: ProviderResponse) -> (r: Result<
    WorkflowPlan,
    PlanError,
>)
    ensures
        exists|now: u64|
            plan_result(r) == #[trigger] plan_in_response(
                goal@,
                response@,
                toml_reader(),
                now,
            ),
{
    let now: u64 = unix_millis();
    let r = match response {
        ProviderResponse::Text { content } => match parse_model_plan_at(
            goal,
            content.as_str(),
            now,
        ) {
            Ok(plan) => Ok(plan),
            Err(PlanError::BadSteps { text }) => Err(PlanError::UnfitReply { content, text }),
            Err(e) => Err(PlanError::BadReply { content, reason: e.message() }),
        },
        ProviderResponse::ToolCalls { calls } => Err(PlanError::ToolCalls),
    };
    proof {
        assert(plan_result(r) == plan_in_response(
            goal@,
            response@,
            toml_reader(),
            now,
        ));
    }
    r
}

// ---------------------------------------------------------------------------
// Asking the model
// ---------------------------------------------------------------------------

/// The task as the model is given it.
pub open spec fn plan_prompt(goal: Seq<char>, workspace: Seq<char>, outline: Seq<char>) -> Seq<char> {
    "User task:\n"@ + goal + "\n\nWorkspace:\n"@ + workspace + "\n\nWorkspace outline:\n"@ + outline
        + "\n\nReturn only TOML following the schema."@
}

/// The task as the model is given it.
pub fn build_plan_prompt(goal: &str, workspace: &str, outline: &str) -> (r: String)
    ensures
        r@ == plan_prompt(goal@, workspace@, outline@),
{
    owned("User task:\n").concat(goal).concat("\n\nWorkspace:\n").concat(workspace).concat(
        "\n\nWorkspace outline:\n",
    ).concat(outline).concat("\n\nReturn only TOML following the schema.")
}

/// The request that asks the model for a plan: the planning prompt and the task, no tools.
pub fn build_plan_request(session: &Session, goal: &str, workspace: &str, outline: &str) -> (r:
    ProviderRequest)
    ensures
        r.context@ == context_of(session@),
        r.tools@.len() == 0,
        exists|now: u64|
            message_views(r.messages@) == seq![
                #[trigger] plain_message(MessageRole::System, PLAN_SYSTEM_PROMPT@, now),
                plain_message(
                    MessageRole::User,
                    plan_prompt(goal@, workspace@, outline@),
                    now,
                ),
            ],
{
    let now: u64 = unix_millis();
    let mut messages: Vec<Message> = Vec::new();
    messages.push(Message::plain_at(MessageRole::System, PLAN_SYSTEM_PROMPT, now));
    messages.push(
        Message::plain_at(
            MessageRole::User,
            build_plan_prompt(goal, workspace, outline).as_str(),
            now,
        ),
    );
    proof {
        assert(message_views(messages@) =~= seq![
            plain_message(MessageRole::System, PLAN_SYSTEM_PROMPT@, now),
            plain_message(MessageRole::User, plan_prompt(goal@, workspace@, outline@), now),
        ]);
    }
    ProviderRequest { context: session.context(), messages, tools: Vec::new() }
}

// ---------------------------------------------------------------------------
// Commands
// ---------------------------------------------------------------------------

/// What the words behind the plan command ask for.
pub open spec fn plan_command(args: Seq<Seq<char>>) -> PlanCommandView {
    if args.len() == 0 || args[0] == "status"@ || args[0] == "状态"@ {
        PlanCommandView::Status
    } else if args[0] == "clear"@ || args[0] == "清空"@ {
        PlanCommandView::Clear
    } else if args[0] == "run"@ || args[0] == "执行"@ {
        PlanCommandView::RunAll
    } else if args[0] == "step"@ || args[0] == "下一步"@ {
        PlanCommandView::RunNext
    } else if args[0] == "help"@ || args[0] == "帮助"@ {
        PlanCommandView::Help
    } else {
        PlanCommandView::Create { goal: joined(args, " "@) }
    }
}

/// What the words behind the plan command ask for.
pub fn parse_plan_command(args: &Vec<String>) -> (r: PlanCommand)
    ensures
        r@ == plan_command(views(args@)),
{
    proof {
        assert(views(args@).len() == args@.len());
    }
    if args.len() == 0 {
        return PlanCommand::Status;
    }
    proof {
        assert(views(args@)[0] == args@[0]@);
    }
    let first = args[0].as_str();
    if same(first, "status") || same(first, "状态") {
        PlanCommand::Status
    } else if same(first, "clear") || same(first, "清空") {
        PlanCommand::Clear
    } else if same(first, "run") || same(first, "执行") {
        PlanCommand::RunAll
    } else if same(first, "step") || same(first, "下一步") {
        PlanCommand::RunNext
    } else if same(first, "help") || same(first, "帮助") {
        PlanCommand::Help
    } else {
        PlanCommand::Create { goal: join(args, " ") }
    }
}

/// The usage of the plan command.
pub const PLAN_USAGE: &'static str = "用法：/计划 <任务> | /计划 状态 | /计划 下一步 | /计划 执行 | /计划 清空\n";

/// One line of a plan.
pub open spec fn step_line(step: WorkflowStepView) -> Seq<char> {
    "  "@ + decimal(step.index as nat) + ". ["@ + status_label(step.status) + "] "@
        + step.instruction + "\n"@
}

/// The lines of a plan.
pub open spec fn step_lines(steps: Seq<WorkflowStepView>) -> Seq<char>
    decreases steps.len(),
{
    if steps.len() == 0 {
        Seq::empty()
    } else {
        step_lines(steps.drop_last()) + step_line(steps.last())
    }
}

/// What is shown of the plan.
pub open spec fn plan_status(plan: Option<WorkflowPlanView>) -> Seq<char> {
    match plan {
        Some(p) => "计划："@ + p.goal + "\n"@ + step_lines(p.steps),
        None => NO_PLAN@,
    }
}

/// What is shown of the plan.
pub fn render_plan_status(plan: &Option<WorkflowPlan>) -> (r: String)
    ensures
        r@ == plan_status(opt_workflow_plan(*plan)),
{
    match plan {
        None => owned(NO_PLAN),
        Some(p) => {
            let mut lines = String::new();
            let mut i: usize = 0;
            let ghost all = workflow_step_views(p.steps@);
            proof {
                assert(lines@ =~= step_lines(all.take(0)));
            }
            while i < p.steps.len()
                invariant
                    i <= p.steps@.len(),
                    all == workflow_step_views(p.steps@),
                    lines@ == step_lines(all.take(i as int)),
                decreases p.steps.len() - i,
            {
                let line = owned("  ").concat(render_usize(p.steps[i].index).as_str()).concat(
                    ". [",
                ).concat(p.steps[i].status.label()).concat("] ").concat(
                    p.steps[i].instruction.as_str(),
                ).concat("\n");
                proof {
                    assert(all.take(i + 1).drop_last() =~= all.take(i as int));
                    assert(all.take(i + 1).last() == p.steps@[i as int]@);
                }
                lines.append(line.as_str());
                i += 1;
            }
            proof {
                assert(all.take(p.steps@.len() as int) =~= all);
            }
            owned("计划：").concat(p.goal.as_str()).concat("\n").concat(lines.as_str())
        },
    }
}

/// What is shown before a step runs.
pub open spec fn step_start_text(step: WorkflowStepView) -> Seq<char> {
    "\n[计划] 正在执行第 "@ + decimal(step.index as nat) + " 步："@ + step.instruction + "\n"@
}

/// What is shown before a step runs.
pub fn render_step_start(step: &WorkflowStep) -> (r: String)
    ensures
        r@ == step_start_text(step@),
{
    owned("\n[计划] 正在执行第 ").concat(render_usize(step.index).as_str()).concat(
        " 步：",
    ).concat(step.instruction.as_str()).concat("\n")
}

/// What is shown once a step is done.
pub open spec fn step_done_text(step: WorkflowStepView) -> Seq<char> {
    "[计划] 第 "@ + decimal(step.index as nat) + " 步已完成。\n"@
}

/// What is shown once a step is done.
pub fn render_step_done(step: &WorkflowStep) -> (r: String)
    ensures
        r@ == step_done_text(step@),
{
    owned("[计划] 第 ").concat(render_usize(step.index).as_str()).concat(" 步已完成。\n")
}

/// The file that keeps the plan of a profile.
pub open spec fn plan_file(state_root: Seq<char>, profile: Seq<char>) -> Seq<char> {
    joined_path(state_root, "active-plan-"@ + file_segment(profile) + ".toml"@)
}

/// The file that keeps the plan of a profile.
pub fn plan_path(store: &SessionStore, profile: &str) -> (r: String)
    ensures
        r@ == plan_file(store@.state_root, profile@),
{
    let name = owned("active-plan-").concat(sanitize_file_segment(profile).as_str()).concat(
        ".toml",
    );
    join_path(store.state_root(), name.as_str())
}

// ---------------------------------------------------------------------------
// Laws
// ---------------------------------------------------------------------------

/// The first step that can be run is the first, and there is none exactly where no step
/// can be run.
pub proof fn first_runnable_is_first(steps: Seq<WorkflowStepView>, i: int)
    requires
        0 <= i,
    ensures
        match first_runnable(steps, i) {
            Some(k) => i <= k < steps.len() && can_run(steps[k]) && forall|j: int|
                i <= j < k ==> !can_run(#[trigger] steps[j]),
            None => forall|j: int| i <= j < steps.len() ==> !can_run(#[trigger] steps[j]),
        },
    decreases steps.len() - i,
{
    if i < steps.len() && !can_run(steps[i]) {
        first_runnable_is_first(steps, i + 1);
    }
}

/// A new plan starts with its first step and is not complete.
pub proof fn new_plans_start_at_the_beginning(
    goal: Seq<char>,
    instructions: Seq<Seq<char>>,
    now: u64,
)
    requires
        plan_of(goal, instructions, now) is Ok,
    ensures
        ({
            let plan = plan_of(goal, instructions, now)->Ok_0;
            &&& first_runnable(plan.steps, 0) == Some(0int)
            &&& !all_done(plan.steps)
            &&& 0 < plan.steps.len() <= MAX_PLAN_STEPS
        }),
{
    let plan = plan_of(goal, instructions, now)->Ok_0;
    assert(can_run(plan.steps[0]));
}

/// How many steps can still be run.
pub open spec fn runnable_count(steps: Seq<WorkflowStepView>) -> nat
    decreases steps.len(),
{
    if steps.len() == 0 {
        0
    } else {
        runnable_count(steps.drop_last()) + if can_run(steps.last()) {
            1nat
        } else {
            0nat
        }
    }
}

/// Running a step that succeeds leaves one step less to be run and touches no other step,
/// so running all of them comes to an end.
pub proof fn running_a_step_makes_progress(plan: WorkflowPlanView, pos: int, now: u64, later: u64)
    requires
        first_runnable(plan.steps, 0) == Some(pos),
    ensures
        ({
            let running = with_status(plan, pos, PlanStepStatus::Running, now);
            let done = with_status(running, pos, PlanStepStatus::Done, later);
            &&& runnable_count(done.steps) + 1 == runnable_count(plan.steps)
            &&& done.steps.len() == plan.steps.len()
            &&& forall|j: int|
                0 <= j < plan.steps.len() && j != pos ==> #[trigger] done.steps[j] == plan.steps[j]
            &&& done.steps[pos].status is Done
            &&& done.goal == plan.goal
            &&& done.id == plan.id
        }),
{
    first_runnable_is_first(plan.steps, 0);
    let running = with_status(plan, pos, PlanStepStatus::Running, now);
    let done = with_status(running, pos, PlanStepStatus::Done, later);
    lemma_runnable_update(plan.steps, done.steps, pos);
}

proof fn lemma_runnable_update(a: Seq<WorkflowStepView>, b: Seq<WorkflowStepView>, pos: int)
    requires
        a.len() == b.len(),
        0 <= pos < a.len(),
        can_run(a[pos]),
        !can_run(b[pos]),
        forall|j: int| 0 <= j < a.len() && j != pos ==> #[trigger] a[j] == b[j],
    ensures
        runnable_count(b) + 1 == runnable_count(a),
    decreases a.len(),
{
    if pos == a.len() - 1 {
        assert(a.drop_last() =~= b.drop_last());
    } else {
        assert(a.last() == a[a.len() - 1]);
        assert(a[a.len() - 1] == b[a.len() - 1]);
        lemma_runnable_update(a.drop_last(), b.drop_last(), pos);
    }
}

/// Where no step can be run and none was cut short, the plan is complete.
pub proof fn finished_plans_are_complete(steps: Seq<WorkflowStepView>)
    requires
        first_runnable(steps, 0) is None,
        forall|i: int| 0 <= i < steps.len() ==> !((#[trigger] steps[i]).status is Running),
    ensures
        all_done(steps),
{
    first_runnable_is_first(steps, 0);
    assert forall|i: int| 0 <= i < steps.len() implies (#[trigger] steps[i]).status is Done by {
        assert(!can_run(steps[i]));
    }
}

} // verus!
