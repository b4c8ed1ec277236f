//! The main loop: its state, and what commands and plans do to it.
use vstd::prelude::*;
use crate::cli::approval::{
    command_approval_rule_views, CommandApprovalRule, CommandApprovalRuleView,
};
use crate::cli::cards::{banner, render_banner};
use crate::cli::commands::{
    command_of, history_text, parse_command, render_history, render_rules, rules_text, ReplCommand,
    ReplCommandView, ROLLBACK_USAGE, TOOLS_TEXT,
};
use crate::cli::config::{set_or, set_or_opt, AppConfig, AppConfigView};
use crate::cli::intent::{find_plain_intent, plain_intent, LoopAction, HELP_TEXT};
use crate::cli::plan::{
    all_done, can_run, first_runnable, first_runnable_is_first, opt_workflow_plan, outcome_status,
    parse_plan_command, plan_command, plan_status, render_plan_status, render_step_done,
    render_step_start, step_done_text, step_start_text, with_status, PlanCommand, PlanCommandView,
    PlanStepStatus, WorkflowPlan, WorkflowPlanView, NO_PLAN, PLAN_USAGE,
};
use crate::cli::startup::{
    item_of, startup_session_item, startup_session_item_views, StartupSessionItem,
    StartupSessionItemView,
};
use crate::clock::unix_millis;
use crate::number::{decimal, render_usize};
use crate::provider::ProviderConfigView;
use crate::remote::body::{RemoteProvider, RemoteProviderView};
use crate::session::{fresh_session, Session, SessionSummary, SessionView};
use crate::text::{copy_opt, opt_view, owned};

verus! {

/// What has to be done for a command.
#[derive(Debug, PartialEq, Eq)]
pub enum CommandStep {
    /// Nothing: the line holds no command.
    Nothing,
    /// Show a text.
    Print { text: String },
    /// Show an error.
    Complain { text: String },
    /// Save the session, then show a text.
    SaveSession { text: String },
    /// Save the session, make it the active one, then show a text.
    StartSession { text: String },
    /// Load a session and resume it.
    LoadSession { id: String },
    /// Show the overview of sessions.
    ShowSessions,
    /// Show the list of sessions.
    ListSessions,
    /// Carry out a plan command.
    Plan { command: PlanCommand },
    /// Save the approval rules, then show a text.
    SaveRules { text: String },
    /// Show the rollback records.
    RollbackList,
    /// Show what going back would do.
    RollbackPreview { id: String },
    /// Go back.
    RollbackApply { id: String },
    /// Go back for one file.
    RollbackFile { id: String, path: String },
}

/// The value of a `CommandStep`.
pub enum CommandStepView {
    Nothing,
    Print { text: Seq<char> },
    Complain { text: Seq<char> },
    SaveSession { text: Seq<char> },
    StartSession { text: Seq<char> },
    LoadSession { id: Seq<char> },
    ShowSessions,
    ListSessions,
    Plan { command: PlanCommandView },
    SaveRules { text: Seq<char> },
    RollbackList,
    RollbackPreview { id: Seq<char> },
    RollbackApply { id: Seq<char> },
    RollbackFile { id: Seq<char>, path: Seq<char> },
}

impl View for CommandStep {
    type V = CommandStepView;

    open spec fn view(&self) -> CommandStepView {
        match self {
            CommandStep::Nothing => CommandStepView::Nothing,
            CommandStep::Print { text } => CommandStepView::Print {
                text: text@,
            },
            CommandStep::Complain { text } => CommandStepView::Complain {
                text: text@,
            },
            CommandStep::SaveSession { text } => CommandStepView::SaveSession {
                text: text@,
            },
            CommandStep::StartSession { text } => CommandStepView::StartSession {
                text: text@,
            },
            CommandStep::LoadSession { id } => CommandStepView::LoadSession {
                id: id@,
            },
            CommandStep::ShowSessions => CommandStepView::ShowSessions,
            CommandStep::ListSessions => CommandStepView::ListSessions,
            CommandStep::Plan { command } => CommandStepView::Plan {
                command: command@,
            },
            CommandStep::SaveRules { text } => CommandStepView::SaveRules {
                text: text@,
            },
            CommandStep::RollbackList => CommandStepView::RollbackList,
            CommandStep::RollbackPreview { id } => CommandStepView::RollbackPreview {
                id: id@,
            },
            CommandStep::RollbackApply { id } => CommandStepView::RollbackApply {
                id: id@,
            },
            CommandStep::RollbackFile { id, path } => CommandStepView::RollbackFile {
                id: id@,
                path: path@,
            },
        }
    }
}

/// What has to be done for a plan.
#[derive(Debug, PartialEq, Eq)]
pub enum PlanStep {
    /// Show a text.
    Print { text: String },
    /// Delete the saved plan, then forget it and show a text.
    Forget { text: String },
    /// Save the plan, show a text, run the agent on the instruction, note how it went, save
    /// the plan again, and go on; `all` says that all steps are to be run.
    Run { pos: usize, all: bool, text: String, instruction: String },
    /// Show a text, then ask the model for a plan.
    Generate { goal: String, text: String },
    /// Nothing more.
    Stop,
}

/// The value of a `PlanStep`.
pub enum PlanStepView {
    Print { text: Seq<char> },
    Forget { text: Seq<char> },
    Run { pos: usize, all: bool, text: Seq<char>, instruction: Seq<char> },
    Generate { goal: Seq<char>, text: Seq<char> },
    Stop,
}

impl View for PlanStep {
    type V = PlanStepView;

    open spec fn view(&self) -> PlanStepView {
        match self {
            PlanStep::Print { text } => PlanStepView::Print {
                text: text@,
            },
            PlanStep::Forget { text } => PlanStepView::Forget {
                text: text@,
            },
            PlanStep::Run { pos, all, text, instruction } => PlanStepView::Run {
                pos: *pos,
                all: *all,
                text: text@,
                instruction: instruction@,
            },
            PlanStep::Generate { goal, text } => PlanStepView::Generate {
                goal: goal@,
                text: text@,
            },
            PlanStep::Stop => PlanStepView::Stop,
        }
    }
}

/// The state of the main loop: the session, the plan, and the approval rules.
#[derive(Debug)]
pub struct MainLoop {
    pub session: Session,
    pub active_plan: Option<WorkflowPlan>,
    pub command_approval_rules: Vec<CommandApprovalRule>,
}

/// The value of a `MainLoop`.
pub struct MainLoopView {
    pub session: SessionView,
    pub active_plan: Option<WorkflowPlanView>,
    pub command_approval_rules: Seq<CommandApprovalRuleView>,
}

impl View for MainLoop {
    type V = MainLoopView;

    open spec fn view(&self) -> MainLoopView {
        MainLoopView {
            session: self.session@,
            active_plan: opt_workflow_plan(self.active_plan),
            command_approval_rules: command_approval_rule_views(self.command_approval_rules@),
        }
    }
}

/// The provider and the model of a session.
pub open spec fn model_name(session: SessionView) -> Seq<char> {
    session.provider.name + "/"@ + session.provider.model
}

/// What is shown once a session was resumed.
pub open spec fn resumed_text(session: SessionView) -> Seq<char> {
    "已切换到会话 "@ + session.id + "（"@ + decimal(session.history.len()) + " 条消息，模型="@
        + model_name(session) + "）\n"@
}

/// The state and the step for a command that comes at `now` to the process `pid`.
pub open spec fn command_move(
    state: MainLoopView,
    command: ReplCommandView,
    now: u64,
    pid: u32,
) -> (MainLoopView, CommandStepView) {
    match command {
        ReplCommandView::Nothing => (state, CommandStepView::Nothing),
        ReplCommandView::Help => (
            state,
            CommandStepView::Print { text: HELP_TEXT@ + "\n"@ },
        ),
        ReplCommandView::SwitchSession { id } => (state, CommandStepView::LoadSession { id }),
        ReplCommandView::SessionOverview => (state, CommandStepView::ShowSessions),
        ReplCommandView::SessionList => (state, CommandStepView::ListSessions),
        ReplCommandView::History => (
            state,
            CommandStepView::Print { text: history_text(state.session.history) },
        ),
        ReplCommandView::ShowModel => (
            state,
            CommandStepView::Print { text: "当前模型："@ + model_name(state.session) + "\n"@ },
        ),
        ReplCommandView::SetModel { model } => {
            let session = SessionView {
                provider: ProviderConfigView { model, ..state.session.provider },
                updated_at_ms: now,
                ..state.session
            };
            (
                MainLoopView { session, ..state },
                CommandStepView::SaveSession {
                    text: "模型已切换为 "@ + model_name(session) + "\n"@,
                },
            )
        },
        ReplCommandView::NewSession => {
            let session = fresh_session(
                state.session.profile,
                state.session.workspace,
                state.session.provider,
                now,
                pid,
            );
            (
                MainLoopView { session, ..state },
                CommandStepView::StartSession {
                    text: "已清除 "@ + decimal(state.session.history.len())
                        + " 条消息，新会话="@ + session.id + "\n"@,
                },
            )
        },
        ReplCommandView::Plan { args } => (
            state,
            CommandStepView::Plan { command: plan_command(args) },
        ),
        ReplCommandView::ShowApprovals => (
            state,
            CommandStepView::Print { text: rules_text(state.command_approval_rules) },
        ),
        ReplCommandView::ClearApprovals => (
            MainLoopView { command_approval_rules: Seq::empty(), ..state },
            CommandStepView::SaveRules { text: "已清除命令审批规则。\n"@ },
        ),
        ReplCommandView::RollbackList => (state, CommandStepView::RollbackList),
        ReplCommandView::RollbackPreview { id } => (
            state,
            CommandStepView::RollbackPreview { id },
        ),
        ReplCommandView::RollbackApply { id } => (state, CommandStepView::RollbackApply { id }),
        ReplCommandView::RollbackFile { id, path } => (
            state,
            CommandStepView::RollbackFile { id, path },
        ),
        ReplCommandView::UnknownRollback { name } => (
            state,
            CommandStepView::Print {
                text: "未知回滚子命令："@ + name + "\n"@ + ROLLBACK_USAGE@,
            },
        ),
        ReplCommandView::Tools => (state, CommandStepView::Print { text: TOOLS_TEXT@ }),
        ReplCommandView::Unknown { name } => (
            state,
            CommandStepView::Print {
                text: "未知命令："@ + name + "\n"@ + "输入 /帮助 查看可用命令。\n"@,
            },
        ),
        ReplCommandView::Usage { text } => (state, CommandStepView::Complain { text }),
    }
}

/// The state and the step that runs the next step of the plan; `all` says that all steps
/// are to be run.
pub open spec fn plan_next(state: MainLoopView, all: bool, now: u64) -> (MainLoopView, PlanStepView) {
    match state.active_plan {
        None => (
            state,
            PlanStepView::Print {
                text: if all {
                    NO_PLAN@
                } else {
                    "没有可执行的计划步骤。\n"@
                },
            },
        ),
        Some(plan) => match first_runnable(plan.steps, 0) {
            Some(pos) => (
                MainLoopView {
                    active_plan: Some(with_status(plan, pos, PlanStepStatus::Running, now)),
                    ..state
                },
                PlanStepView::Run {
                    pos: pos as usize,
                    all,
                    text: step_start_text(plan.steps[pos]),
                    instruction: plan.steps[pos].instruction,
                },
            ),
            None => (
                state,
                PlanStepView::Print {
                    text: if !all {
                        "没有可执行的计划步骤。\n"@
                    } else if all_done(plan.steps) {
                        "计划已完成。\n"@
                    } else {
                        Seq::empty()
                    },
                },
            ),
        },
    }
}

/// The state and the step for a plan command.
pub open spec fn plan_move(state: MainLoopView, command: PlanCommandView, now: u64) -> (
    MainLoopView,
    PlanStepView,
) {
    match command {
        PlanCommandView::Status => (
            state,
            PlanStepView::Print { text: plan_status(state.active_plan) },
        ),
        PlanCommandView::Clear => (state, PlanStepView::Forget { text: "已清除当前计划。\n"@ }),
        PlanCommandView::RunAll => plan_next(state, true, now),
        PlanCommandView::RunNext => plan_next(state, false, now),
        PlanCommandView::Help => (state, PlanStepView::Print { text: PLAN_USAGE@ }),
        PlanCommandView::Create { goal } => (
            state,
            PlanStepView::Generate { goal, text: "正在让模型生成计划...\n"@ },
        ),
    }
}

/// The state once a step has run.
pub open spec fn plan_ran(state: MainLoopView, pos: int, succeeded: bool, now: u64) -> MainLoopView {
    match state.active_plan {
        Some(plan) => MainLoopView {
            active_plan: Some(with_status(plan, pos, outcome_status(succeeded), now)),
            ..state
        },
        None => state,
    }
}

/// The state and what follows once a step has run and was noted: the next step where all
/// are to be run and this one succeeded, else nothing more.
pub open spec fn plan_follow(state: MainLoopView, all: bool, succeeded: bool, now: u64) -> (
    MainLoopView,
    PlanStepView,
) {
    if all && succeeded {
        plan_next(state, true, now)
    } else {
        (state, PlanStepView::Stop)
    }
}

/// What is shown once a step has run: nothing where it failed.
pub open spec fn plan_ran_text(state: MainLoopView, pos: int, succeeded: bool) -> Seq<char> {
    match state.active_plan {
        Some(plan) => if succeeded && 0 <= pos < plan.steps.len() {
            step_done_text(plan.steps[pos])
        } else {
            Seq::empty()
        },
        None => Seq::empty(),
    }
}

fn render_model(session: &Session) -> (r: String)
    ensures
        r@ == model_name(session@),
{
    session.provider.name.clone().concat("/").concat(session.provider.model.as_str())
}

/// The sessions that are offered, at most `limit` of them.
pub open spec fn offered_sessions(
    sessions: Seq<SessionSummary>,
    previews: Seq<Option<String>>,
    active_id: Seq<char>,
    limit: usize,
) -> Seq<StartupSessionItemView> {
    Seq::new(
        if sessions.len() <= limit {
            sessions.len()
        } else {
            limit as nat
        },
        |i: int| item_of(sessions[i], opt_view(previews[i]), active_id),
    )
}

impl MainLoop {
    /// The main loop of a session, with the saved plan and the saved approval rules.
    pub fn new(
        session: Session,
        active_plan: Option<WorkflowPlan>,
        command_approval_rules: Vec<CommandApprovalRule>,
    ) -> (r: Self)
        ensures
            r@ == (MainLoopView {
                session: session@,
                active_plan: opt_workflow_plan(active_plan),
                command_approval_rules: command_approval_rule_views(command_approval_rules@),
            }),
    {
        MainLoop { session, active_plan, command_approval_rules }
    }

    /// The sessions that are offered, at most `limit` of them, where `previews` holds what
    /// could be shown of each.
    pub fn startup_session_items(
        &self,
        sessions: &Vec<SessionSummary>,
        previews: &Vec<Option<String>>,
        limit: usize,
    ) -> (r: Vec<StartupSessionItem>)
        requires
            sessions@.len() == previews@.len(),
        ensures
            startup_session_item_views(r@) == offered_sessions(
                sessions@,
                previews@,
                self@.session.id,
                limit,
            ),
    {
        let mut r: Vec<StartupSessionItem> = Vec::new();
        let mut i: usize = 0;
        let ghost all = offered_sessions(sessions@, previews@, self@.session.id, limit);
        while i < sessions.len() && i < limit
            invariant
                i <= sessions@.len() == previews@.len(),
                i <= limit,
                all == offered_sessions(sessions@, previews@, self@.session.id, limit),
                startup_session_item_views(r@) == all.take(i as int),
            decreases sessions.len() - i,
        {
            let item = startup_session_item(
                &sessions[i],
                copy_opt(&previews[i]),
                self.session.id.as_str(),
            );
            proof {
                assert(item@ == all[i as int]);
                assert(startup_session_item_views(r@.push(item)) =~= startup_session_item_views(
                    r@,
                ).push(item@));
                assert(all.take(i + 1) =~= all.take(i as int).push(all[i as int]));
            }
            r.push(item);
            i += 1;
        }
        proof {
            assert(all.take(i as int) =~= all);
        }
        r
    }

    /// The banner, `width` columns wide.
    pub fn print_banner(&self, width: usize, workspace: &str, provider: &str, model: &str) -> (r:
        String)
        ensures
            r@ == banner(
                width,
                workspace@,
                provider@,
                model@,
                self@.session.id,
                self@.session.history.len(),
            ),
    {
        render_banner(
            width,
            workspace,
            provider,
            model,
            self.session.id.as_str(),
            self.session.history.len(),
        )
    }

    /// What a line asks for without a command, if it does.
    pub fn handle_plain_intent(&self, input: &str) -> (r: Option<LoopAction>)
        ensures
            match r {
                Some(action) => plain_intent(input@) == Some(action@),
                None => plain_intent(input@) is None,
            },
    {
        find_plain_intent(input)
    }

    /// Carries out a command as far as it needs nothing from outside, and says what has to
    /// be done for the rest. It comes at `now` to the process `pid`.
    pub fn handle_command_at(&mut self, input: &str, now: u64, pid: u32) -> (step: CommandStep)
        ensures
            (final(self)@, step@) == command_move(old(self)@, command_of(input@), now, pid),
    {
        match parse_command(input) {
            ReplCommand::Nothing => CommandStep::Nothing,
            ReplCommand::Help => CommandStep::Print { text: owned(HELP_TEXT).concat("\n") },
            ReplCommand::SwitchSession { id } => CommandStep::LoadSession { id },
            ReplCommand::SessionOverview => CommandStep::ShowSessions,
            ReplCommand::SessionList => CommandStep::ListSessions,
            ReplCommand::History => CommandStep::Print {
                text: render_history(self.session.history.messages()),
            },
            ReplCommand::ShowModel => CommandStep::Print {
                text: owned("当前模型：").concat(render_model(&self.session).as_str()).concat(
                    "\n",
                ),
            },
            ReplCommand::SetModel { model } => {
                self.session.provider.model = model;
                self.session.updated_at_ms = now;
                CommandStep::SaveSession {
                    text: owned("模型已切换为 ").concat(
                        render_model(&self.session).as_str(),
                    ).concat("\n"),
                }
            },
            ReplCommand::NewSession => {
                let count: usize = self.session.history.len();
                let fresh = Session::new_at(
                    self.session.profile.as_str(),
                    self.session.workspace.as_str(),
                    self.session.provider.clone(),
                    now,
                    pid,
                );
                self.session = fresh;
                CommandStep::StartSession {
                    text: owned("已清除 ").concat(render_usize(count).as_str()).concat(
                        " 条消息，新会话=",
                    ).concat(self.session.id.as_str()).concat("\n"),
                }
            },
            ReplCommand::Plan { args } => CommandStep::Plan { command: parse_plan_command(&args) },
            ReplCommand::ShowApprovals => CommandStep::Print {
                text: render_rules(&self.command_approval_rules),
            },
            ReplCommand::ClearApprovals => {
                self.command_approval_rules = Vec::new();
                proof {
                    assert(command_approval_rule_views(self.command_approval_rules@)
                        =~= Seq::empty());
                }
                CommandStep::SaveRules { text: owned("已清除命令审批规则。\n") }
            },
            ReplCommand::RollbackList => CommandStep::RollbackList,
            ReplCommand::RollbackPreview { id } => CommandStep::RollbackPreview { id },
            ReplCommand::RollbackApply { id } => CommandStep::RollbackApply { id },
            ReplCommand::RollbackFile { id, path } => CommandStep::RollbackFile { id, path },
            ReplCommand::UnknownRollback { name } => CommandStep::Print {
                text: owned("未知回滚子命令：").concat(name.as_str()).concat("\n").concat(
                    ROLLBACK_USAGE,
                ),
            },
            ReplCommand::Tools => CommandStep::Print { text: owned(TOOLS_TEXT) },
            ReplCommand::Unknown { name } => CommandStep::Print {
                text: owned("未知命令：").concat(name.as_str()).concat("\n").concat(
                    "输入 /帮助 查看可用命令。\n",
                ),
            },
            ReplCommand::Usage { text } => CommandStep::Complain { text },
        }
    }

    /// Carries out a command as far as it needs nothing from outside, and says what has to
    /// be done for the rest.
    pub fn handle_command(&mut self, input: &str, pid: u32) -> (step: CommandStep)
        ensures
            exists|now: u64|
                (final(self)@, step@) == #[trigger] command_move(
                    old(self)@,
                    command_of(input@),
                    now,
                    pid,
                ),
    {
        self.handle_command_at(input, unix_millis(), pid)
    }

    /// Goes on with another session, as it was loaded by its id, and says what is shown for it.
    pub fn resume_session_by_id(&mut self, session: Session) -> (r: String)
        ensures
            final(self)@ == (MainLoopView { session: session@, ..old(self)@ }),
            r@ == resumed_text(session@),
    {
        let text = owned("已切换到会话 ").concat(session.id.as_str()).concat("（").concat(
            render_usize(session.history.len()).as_str(),
        ).concat(" 条消息，模型=").concat(render_model(&session).as_str()).concat("）\n");
        self.session = session;
        text
    }

    /// Starts a session like the current one without its messages.
    pub fn create_fresh_session(&mut self, pid: u32)
        ensures
            exists|now: u64|
                final(self)@ == (MainLoopView {
                    session: #[trigger] fresh_session(
                        old(self)@.session.profile,
                        old(self)@.session.workspace,
                        old(self)@.session.provider,
                        now,
                        pid,
                    ),
                    ..old(self)@
                }),
    {
        let fresh = Session::new(
            self.session.profile.as_str(),
            self.session.workspace.as_str(),
            self.session.provider.clone(),
            pid,
        );
        let ghost now = fresh.created_at_ms;
        self.session = fresh;
        proof {
            assert(self@.session == fresh_session(
                old(self)@.session.profile,
                old(self)@.session.workspace,
                old(self)@.session.provider,
                now,
                pid,
            ));
        }
    }

    /// Marks the next step of the plan as running, at `now`, and says how to run it; `all`
    /// says that all steps are to be run.
    pub fn run_next_plan_step_at(&mut self, all: bool, now: u64) -> (step: PlanStep)
        ensures
            (final(self)@, step@) == plan_next(old(self)@, all, now),
    {
        match &mut self.active_plan {
            None => {
                if all {
                    PlanStep::Print { text: owned(NO_PLAN) }
                } else {
                    PlanStep::Print { text: owned("没有可执行的计划步骤。\n") }
                }
            },
            Some(plan) => match plan.next_step_pos() {
                Some(pos) => {
                    let text = render_step_start(&plan.steps[pos]);
                    let instruction = plan.steps[pos].instruction.clone();
                    plan.set_status_at(pos, PlanStepStatus::Running, now);
                    PlanStep::Run { pos, all, text, instruction }
                },
                None => {
                    let text = if !all {
                        owned("没有可执行的计划步骤。\n")
                    } else if plan.is_complete() {
                        owned("计划已完成。\n")
                    } else {
                        String::new()
                    };
                    PlanStep::Print { text }
                },
            },
        }
    }

    /// Carries out a plan command as far as it needs nothing from outside, and says what
    /// has to be done for the rest.
    pub fn handle_plan_command(&mut self, command: PlanCommand) -> (step: PlanStep)
        ensures
            exists|now: u64|
                (final(self)@, step@) == #[trigger] plan_move(old(self)@, command@, now),
    {
        let now: u64 = unix_millis();
        let step = match command {
            PlanCommand::Status => PlanStep::Print {
                text: render_plan_status(&self.active_plan),
            },
            PlanCommand::Clear => PlanStep::Forget { text: owned("已清除当前计划。\n") },
            PlanCommand::RunAll => self.run_next_plan_step_at(true, now),
            PlanCommand::RunNext => self.run_next_plan_step_at(false, now),
            PlanCommand::Help => PlanStep::Print { text: owned(PLAN_USAGE) },
            PlanCommand::Create { goal } => PlanStep::Generate {
                goal,
                text: owned("正在让模型生成计划...\n"),
            },
        };
        proof {
            assert((self@, step@) == plan_move(old(self)@, command@, now));
        }
        step
    }

    /// Marks a step of the plan as done or failed, at `now`, and says what is shown for it.
    pub fn finish_plan_step_at(&mut self, pos: usize, succeeded: bool, now: u64) -> (r: String)
        ensures
            final(self)@ == plan_ran(old(self)@, pos as int, succeeded, now),
            r@ == plan_ran_text(old(self)@, pos as int, succeeded),
    {
        match &mut self.active_plan {
            None => String::new(),
            Some(plan) => {
                let text = if succeeded && pos < plan.steps.len() {
                    render_step_done(&plan.steps[pos])
                } else {
                    String::new()
                };
                let status = if succeeded {
                    PlanStepStatus::Done
                } else {
                    PlanStepStatus::Failed
                };
                plan.set_status_at(pos, status, now);
                text
            },
        }
    }

    /// Marks a step of the plan as done or failed, and says what is shown for it.
    pub fn finish_plan_step(&mut self, pos: usize, succeeded: bool) -> (r: String)
        ensures
            exists|now: u64|
                final(self)@ == #[trigger] plan_ran(old(self)@, pos as int, succeeded, now),
            r@ == plan_ran_text(old(self)@, pos as int, succeeded),
    {
        self.finish_plan_step_at(pos, succeeded, unix_millis())
    }

    /// Goes on at `now` once a step has run and was noted.
    pub fn go_on_with_plan_at(&mut self, all: bool, succeeded: bool, now: u64) -> (step: PlanStep)
        ensures
            (final(self)@, step@) == plan_follow(old(self)@, all, succeeded, now),
    {
        if all && succeeded {
            self.run_next_plan_step_at(true, now)
        } else {
            PlanStep::Stop
        }
    }

    /// Goes on once a step has run and was noted.
    pub fn go_on_with_plan(&mut self, all: bool, succeeded: bool) -> (step: PlanStep)
        ensures
            exists|now: u64|
                (final(self)@, step@) == #[trigger] plan_follow(old(self)@, all, succeeded, now),
    {
        self.go_on_with_plan_at(all, succeeded, unix_millis())
    }

    /// Drops the plan, once its file is deleted.
    pub fn forget_plan(&mut self)
        ensures
            final(self)@ == (MainLoopView { active_plan: None, ..old(self)@ }),
    {
        self.active_plan = None;
    }

    /// Takes up a new plan, and says what is shown for it.
    pub fn set_plan(&mut self, plan: WorkflowPlan) -> (r: String)
        ensures
            final(self)@ == (MainLoopView { active_plan: Some(plan@), ..old(self)@ }),
            r@ == "已创建当前计划。\n"@ + plan_status(Some(plan@)),
    {
        self.active_plan = Some(plan);
        owned("已创建当前计划。\n").concat(render_plan_status(&self.active_plan).as_str())
    }
}

// ---------------------------------------------------------------------------
// The provider
// ---------------------------------------------------------------------------

/// What is shown where no key is configured.
pub const NO_API_KEY: &'static str = "没有配置 API Key。请设置 RUST_CODINGAGENT_API_KEY 环境变量，或在配置文件中添加 api_key";

/// The address that is used where none is configured.
pub const DEFAULT_API_BASE: &'static str = "https://api.deepseek.com/v1";

/// The provider of a configuration, with the first key there is: the configured one, the
/// agent's own of the environment, the general one of the environment.
pub open spec fn provider_of(
    config: AppConfigView,
    own_key: Option<Seq<char>>,
    general_key: Option<Seq<char>>,
) -> Option<RemoteProviderView> {
    let key = set_or_opt(config.provider.api_key, set_or_opt(own_key, general_key));
    match key {
        Some(api_key) => Some(
            RemoteProviderView {
                name: config.provider.name,
                model: config.provider.model,
                api_base: set_or(config.provider.api_base, DEFAULT_API_BASE@),
                api_key,
            },
        ),
        None => None,
    }
}

/// The provider of a configuration, where the environment holds these keys; none where
/// there is no key.
pub fn create_provider(
    config: &AppConfig,
    own_key: Option<String>,
    general_key: Option<String>,
) -> (r: Option<RemoteProvider>)
    ensures
        match r {
            Some(p) => provider_of(config@, opt_view(own_key), opt_view(general_key)) == Some(p@),
            None => provider_of(config@, opt_view(own_key), opt_view(general_key)) is None,
        },
{
    let key = match &config.provider.api_key {
        Some(key) => Some(key.clone()),
        None => match own_key {
            Some(key) => Some(key),
            None => general_key,
        },
    };
    let base = match &config.provider.api_base {
        Some(base) => base.clone(),
        None => owned(DEFAULT_API_BASE),
    };
    match key {
        Some(api_key) => Some(
            RemoteProvider::new(
                config.provider.name.as_str(),
                config.provider.model.as_str(),
                base.as_str(),
                api_key.as_str(),
            ),
        ),
        None => None,
    }
}

// ---------------------------------------------------------------------------
// Laws
// ---------------------------------------------------------------------------

/// A command changes the session only where it switches the model or starts a new one, the
/// rules only where it clears them, and never the plan.
pub proof fn commands_change_only_what_they_say(
    state: MainLoopView,
    command: ReplCommandView,
    now: u64,
    pid: u32,
)
    ensures
        ({
            let (after, step) = command_move(state, command, now, pid);
            &&& after.active_plan == state.active_plan
            &&& !(command is SetModel || command is NewSession) ==> after.session == state.session
            &&& !(command is ClearApprovals) ==> after.command_approval_rules
                == state.command_approval_rules
            &&& command is SetModel || command is NewSession ==> after.session.history
                == if command is SetModel {
                state.session.history
            } else {
                Seq::empty()
            }
        }),
{
}

/// A session that is started anew keeps its profile, its workspace and its provider.
pub proof fn fresh_sessions_keep_their_place(state: MainLoopView, now: u64, pid: u32)
    ensures
        ({
            let after = command_move(state, ReplCommandView::NewSession, now, pid).0.session;
            &&& after.profile == state.session.profile
            &&& after.workspace == state.session.workspace
            &&& after.provider == state.session.provider
            &&& after.history.len() == 0
        }),
{
}

/// The steps of the plan that are run, one after another, where each has the outcome that
/// comes next; with no outcome left the run goes no further.
pub open spec fn steps_run(
    state: MainLoopView,
    step: PlanStepView,
    outcomes: Seq<bool>,
    now: u64,
) -> Seq<int>
    decreases outcomes.len(),
{
    match step {
        PlanStepView::Run { pos, all, text, instruction } => if outcomes.len() > 0 {
            let noted = plan_ran(state, pos as int, outcomes[0], now);
            let (later, next) = plan_follow(noted, all, outcomes[0], now);
            seq![pos as int] + steps_run(later, next, outcomes.drop_first(), now)
        } else {
            Seq::empty()
        },
        _ => Seq::empty(),
    }
}

/// Where all steps of a plan are run, they are run in their order, each at most once and
/// only those that were still to be run. The first failure ends the run, and without one
/// every step that was still to be run is run.
pub proof fn plans_run_in_order(
    state: MainLoopView,
    plan: WorkflowPlanView,
    outcomes: Seq<bool>,
    now: u64,
)
    requires
        state.active_plan == Some(plan),
        plan.steps.len() <= usize::MAX,
    ensures
        ({
            let (started, step) = plan_next(state, true, now);
            let run = steps_run(started, step, outcomes, now);
            &&& run.len() <= outcomes.len()
            &&& forall|i: int|
                0 <= i < run.len() ==> 0 <= #[trigger] run[i] < plan.steps.len() && can_run(
                    plan.steps[run[i]],
                )
            &&& forall|i: int, j: int| 0 <= i < j < run.len() ==> run[i] < run[j]
            &&& forall|i: int| 0 <= i < run.len() - 1 ==> #[trigger] outcomes[i]
            &&& run.len() < outcomes.len() && (forall|i: int|
                0 <= i < run.len() ==> #[trigger] outcomes[i]) ==> forall|k: int|
                0 <= k < plan.steps.len() && can_run(#[trigger] plan.steps[k]) ==> run.contains(k)
        }),
    decreases outcomes.len(),
{
    let (started, step) = plan_next(state, true, now);
    let run = steps_run(started, step, outcomes, now);
    first_runnable_is_first(plan.steps, 0);
    match first_runnable(plan.steps, 0) {
        Some(pos) => {
            if outcomes.len() > 0 {
                let noted = plan_ran(started, pos, outcomes[0], now);
                let (later, next) = plan_follow(noted, true, outcomes[0], now);
                let rest = outcomes.drop_first();
                let tail = steps_run(later, next, rest, now);
                assert(run =~= seq![pos] + tail);
                assert(run[0] == pos);
                if outcomes[0] {
                    let done = noted.active_plan->0;
                    assert forall|k: int| 0 <= k < plan.steps.len() implies can_run(
                        #[trigger] done.steps[k],
                    ) == (can_run(plan.steps[k]) && k != pos) by {}
                    plans_run_in_order(noted, done, rest, now);
                    assert forall|i: int| 0 <= i < run.len() implies 0 <= #[trigger] run[i]
                        < plan.steps.len() && can_run(plan.steps[run[i]]) && (i > 0 ==> run[i]
                        > pos) by {
                        if i > 0 {
                            assert(run[i] == tail[i - 1]);
                            assert(can_run(done.steps[tail[i - 1]]));
                        }
                    }
                    assert forall|i: int, j: int| 0 <= i < j < run.len() implies run[i]
                        < run[j] by {
                        assert(run[j] == tail[j - 1]);
                        if i > 0 {
                            assert(run[i] == tail[i - 1]);
                        }
                    }
                    assert forall|i: int| 0 <= i < run.len() - 1 implies #[trigger] outcomes[i] by {
                        if i > 0 {
                            assert(rest[i - 1]);
                        }
                    }
                    if run.len() < outcomes.len() && (forall|i: int|
                        0 <= i < run.len() ==> #[trigger] outcomes[i]) {
                        assert forall|i: int| 0 <= i < tail.len() implies #[trigger] rest[i] by {
                            assert(outcomes[i + 1]);
                        }
                        assert forall|k: int|
                            0 <= k < plan.steps.len() && can_run(#[trigger] plan.steps[k]) implies
                            run.contains(k) by {
                            if k != pos {
                                assert(can_run(done.steps[k]));
                                assert(tail.contains(k));
                                let l = choose|l: int| 0 <= l < tail.len() && tail[l] == k;
                                assert(run[l + 1] == k);
                            }
                        }
                    }
                } else {
                    assert(tail.len() == 0);
                }
            }
        },
        None => {},
    }
}

/// Where only the next step is to be run, no other is.
pub proof fn single_steps_run_alone(state: MainLoopView, outcomes: Seq<bool>, now: u64)
    ensures
        ({
            let (started, step) = plan_next(state, false, now);
            steps_run(started, step, outcomes, now).len() <= 1
        }),
{
    let (started, step) = plan_next(state, false, now);
    if step is Run && outcomes.len() > 0 {
        let pos = step->Run_pos as int;
        let noted = plan_ran(started, pos, outcomes[0], now);
        assert(plan_follow(noted, false, outcomes[0], now).1 is Stop);
        assert(steps_run(noted, PlanStepView::Stop, outcomes.drop_first(), now).len() == 0);
    }
}

} // verus!
