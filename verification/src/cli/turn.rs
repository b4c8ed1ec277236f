//! A turn on the terminal: the agent at work, what is shown meanwhile, and what is asked.
use vstd::prelude::*;
use crate::agent::json::arguments_fields;
use crate::agent::output::{done_text, tool_done_message};
use crate::agent::request::{command_of_read, CallErrorView};
use crate::agent::turn::{
    agent_reply, agent_start, lemma_history_grows, Agent, AgentMove, AgentReply,
    AgentReplyView, AgentStep, AgentStepView, AgentView, ShellApproval, DENIED, UNEXPECTED_REPLY,
};
use crate::cli::approval::{
    apply_choice, approval_of, command_approval_rule_views, decide_approval, decision, has_rule,
    is_allowed, rules_after, ApprovalChoice, ApprovalDecision, ApprovalDecisionView,
    CommandApprovalRule, CommandApprovalRuleView,
};
use crate::cli::main_loop::{MainLoop, MainLoopView};
use crate::cli::turn_ui::{
    after_tick, after_token, after_tool, after_tool_done, clear_text, cleared, finish_text,
    fresh_ui, TurnUiState,
};
use crate::clock::unix_millis;
use crate::message::MessageView;
use crate::provider::{ProviderResponse, ProviderResponseView};
use crate::session::{Session, SessionView};
use crate::text::{begins, opt_view, owned, same};

verus! {

/// What has to be done next in a turn, once its text was shown.
#[derive(Debug, PartialEq, Eq)]
pub enum TurnStep {
    /// Save the session: answered by `Saved` or `Failed`.
    Save,
    /// Send the request of the session to the model: answered by `Answered` or `Failed`.
    Complete,
    /// Ask the user whether the command may run: answered by `Chosen`.
    Ask { command: String, summary: String, rule: String },
    /// Save the approval rules: answered by `RulesSaved` or `RulesLost`.
    SaveRules,
    /// Carry out the tool call: answered by `Executed` or `ToolFailed`.
    Execute { name: String, arguments: String },
    /// Look for the latest record where it is needed: answered by `Latest`.
    Report { record_needed: bool },
    /// The turn is over.
    Done,
    /// The turn failed.
    Fail { reason: String },
}

/// The value of a `TurnStep`.
pub enum TurnStepView {
    Save,
    Complete,
    Ask { command: Seq<char>, summary: Seq<char>, rule: Seq<char> },
    SaveRules,
    Execute { name: Seq<char>, arguments: Seq<char> },
    Report { record_needed: bool },
    Done,
    Fail { reason: Seq<char> },
}

impl View for TurnStep {
    type V = TurnStepView;

    open spec fn view(&self) -> TurnStepView {
        match self {
            TurnStep::Save => TurnStepView::Save,
            TurnStep::Complete => TurnStepView::Complete,
            TurnStep::Ask { command, summary, rule } => TurnStepView::Ask {
                command: command@,
                summary: summary@,
                rule: rule@,
            },
            TurnStep::SaveRules => TurnStepView::SaveRules,
            TurnStep::Execute { name, arguments } => TurnStepView::Execute {
                name: name@,
                arguments: arguments@,
            },
            TurnStep::Report { record_needed } => TurnStepView::Report {
                record_needed: *record_needed,
            },
            TurnStep::Done => TurnStepView::Done,
            TurnStep::Fail { reason } => TurnStepView::Fail {
                reason: reason@,
            },
        }
    }
}

/// The answer to a step.
#[derive(Debug, PartialEq, Eq)]
pub enum TurnReply {
    Saved,
    Answered { response: ProviderResponse },
    Chosen { choice: ApprovalChoice },
    RulesSaved,
    RulesLost { reason: String },
    Executed { text: String },
    ToolFailed { reason: String },
    Latest { id: Option<String> },
    Failed { reason: String },
}

/// The value of a `TurnReply`.
pub enum TurnReplyView {
    Saved,
    Answered { response: ProviderResponseView },
    Chosen { choice: ApprovalChoice },
    RulesSaved,
    RulesLost { reason: Seq<char> },
    Executed { text: Seq<char> },
    ToolFailed { reason: Seq<char> },
    Latest { id: Option<Seq<char>> },
    Failed { reason: Seq<char> },
}

impl View for TurnReply {
    type V = TurnReplyView;

    open spec fn view(&self) -> TurnReplyView {
        match self {
            TurnReply::Saved => TurnReplyView::Saved,
            TurnReply::Answered { response } => TurnReplyView::Answered {
                response: response@,
            },
            TurnReply::Chosen { choice } => TurnReplyView::Chosen {
                choice: *choice,
            },
            TurnReply::RulesSaved => TurnReplyView::RulesSaved,
            TurnReply::RulesLost { reason } => TurnReplyView::RulesLost {
                reason: reason@,
            },
            TurnReply::Executed { text } => TurnReplyView::Executed {
                text: text@,
            },
            TurnReply::ToolFailed { reason } => TurnReplyView::ToolFailed {
                reason: reason@,
            },
            TurnReply::Latest { id } => TurnReplyView::Latest {
                id: opt_view(*id),
            },
            TurnReply::Failed { reason } => TurnReplyView::Failed {
                reason: reason@,
            },
        }
    }
}

/// What a turn waits for.
#[derive(Debug, PartialEq, Eq)]
pub enum TurnWait {
    /// What the agent waits for.
    Agent,
    /// The choice of the user, who was shown this rule.
    Choice { rule: String },
    /// That the approval rules are saved.
    Rules,
    /// The latest record, to report what a tool gave.
    Record { name: String, result: String },
    /// Nothing: the turn is over.
    Over,
}

/// The value of a `TurnWait`.
pub enum TurnWaitView {
    Agent,
    Choice { rule: Seq<char> },
    Rules,
    Record { name: Seq<char>, result: Seq<char> },
    Over,
}

impl View for TurnWait {
    type V = TurnWaitView;

    open spec fn view(&self) -> TurnWaitView {
        match self {
            TurnWait::Agent => TurnWaitView::Agent,
            TurnWait::Choice { rule } => TurnWaitView::Choice {
                rule: rule@,
            },
            TurnWait::Rules => TurnWaitView::Rules,
            TurnWait::Record { name, result } => TurnWaitView::Record {
                name: name@,
                result: result@,
            },
            TurnWait::Over => TurnWaitView::Over,
        }
    }
}

/// A turn on the terminal: the agent, what is shown, and what is waited for.
#[derive(Debug, PartialEq, Eq)]
pub struct TurnRun {
    pub agent: Agent,
    pub ui: TurnUiState,
    pub waiting: TurnWait,
}

/// The value of a `TurnRun`.
pub struct TurnRunView {
    pub agent: AgentView,
    pub ui: TurnUiState,
    pub waiting: TurnWaitView,
}

impl View for TurnRun {
    type V = TurnRunView;

    open spec fn view(&self) -> TurnRunView {
        TurnRunView { agent: self.agent@, ui: self.ui, waiting: self.waiting@ }
    }
}

/// What is shown when the approval rules could not be saved, before the reason.
pub const RULES_LOST: &'static str = "警告：保存审批规则失败：";

// ---------------------------------------------------------------------------
// How a turn goes on
// ---------------------------------------------------------------------------

/// The state of a turn, what is shown, and what has to be done next.
pub struct TurnShown {
    pub turn: TurnRunView,
    pub text: Seq<char>,
    pub step: TurnStepView,
}

/// A turn that has moved on, the history of its session, and the approval rules.
pub struct TurnMove {
    pub shown: TurnShown,
    pub history: Seq<MessageView>,
    pub rules: Seq<CommandApprovalRuleView>,
}

/// Whether the report of a tool names the latest record.
pub open spec fn needs_record(name: Seq<char>) -> bool {
    name == "write"@ || name == "edit"@
}

/// Hands out a step of the agent that needs no answer of the user, behind a text.
pub open spec fn handed_out(
    agent: AgentView,
    ui: TurnUiState,
    step: AgentStepView,
    text: Seq<char>,
) -> TurnShown {
    let at_work = TurnRunView { agent, ui, waiting: TurnWaitView::Agent };
    let over = TurnRunView { agent, ui: cleared(ui), waiting: TurnWaitView::Over };
    match step {
        AgentStepView::Save => TurnShown { turn: at_work, text, step: TurnStepView::Save },
        AgentStepView::Complete => TurnShown { turn: at_work, text, step: TurnStepView::Complete },
        AgentStepView::Execute { name, arguments } => TurnShown {
            turn: at_work,
            text,
            step: TurnStepView::Execute { name, arguments },
        },
        AgentStepView::Report { name, result } => TurnShown {
            turn: TurnRunView { waiting: TurnWaitView::Record { name, result }, ..at_work },
            text,
            step: TurnStepView::Report { record_needed: needs_record(name) },
        },
        AgentStepView::Done { content } => TurnShown {
            turn: over,
            text: text + finish_text(ui, true),
            step: TurnStepView::Done,
        },
        AgentStepView::Fail { reason } => TurnShown {
            turn: over,
            text: text + finish_text(ui, false),
            step: TurnStepView::Fail { reason },
        },
        _ => TurnShown {
            turn: over,
            text: text + finish_text(ui, false),
            step: TurnStepView::Fail { reason: UNEXPECTED_REPLY@ },
        },
    }
}

/// How a turn goes on with a step of the agent: a command that no rule allows is asked for.
pub open spec fn asked_or_handed_out(
    ui: TurnUiState,
    m: AgentMove,
    rules: Seq<CommandApprovalRuleView>,
    text: Seq<char>,
    now: u64,
) -> TurnMove {
    match m.step {
        AgentStepView::Approve { command } => match decision(rules, command) {
            ApprovalDecisionView::Approved => {
                let reply = AgentReplyView::Approval { approval: ShellApproval::Approved };
                let next = agent_reply(m.agent, m.history, reply, now);
                TurnMove {
                    shown: handed_out(
                        next.agent,
                        cleared(ui),
                        next.step,
                        text + clear_text(ui),
                    ),
                    history: next.history,
                    rules,
                }
            },
            ApprovalDecisionView::Ask { summary, rule } => TurnMove {
                shown: TurnShown {
                    turn: TurnRunView {
                        agent: m.agent,
                        ui: cleared(ui),
                        waiting: TurnWaitView::Choice { rule },
                    },
                    text: text + clear_text(ui),
                    step: TurnStepView::Ask { command, summary, rule },
                },
                history: m.history,
                rules,
            },
        },
        _ => TurnMove {
            shown: handed_out(m.agent, ui, m.step, text),
            history: m.history,
            rules,
        },
    }
}

/// How a turn goes on with a step of the agent: a tool is announced before anything is
/// asked or done.
pub open spec fn agent_moved(
    ui: TurnUiState,
    m: AgentMove,
    rules: Seq<CommandApprovalRuleView>,
    text: Seq<char>,
    now: u64,
) -> TurnMove {
    match m.step {
        AgentStepView::Announce { name, description } => {
            let (line, shown) = after_tool(ui, name, description);
            asked_or_handed_out(
                shown,
                agent_reply(m.agent, m.history, AgentReplyView::Continue, now),
                rules,
                text + line,
                now,
            )
        },
        _ => asked_or_handed_out(ui, m, rules, text, now),
    }
}

/// How a turn starts.
pub open spec fn turn_start(
    history: Seq<MessageView>,
    rules: Seq<CommandApprovalRuleView>,
    input: Seq<char>,
    now: u64,
) -> TurnMove {
    let (text, ui) = after_tick(fresh_ui());
    agent_moved(ui, agent_start(true, history, input, now), rules, text, now)
}

/// What an answer tells the agent, none where it is not for the agent.
pub open spec fn for_agent(reply: TurnReplyView) -> Option<AgentReplyView> {
    match reply {
        TurnReplyView::Saved => Some(AgentReplyView::Saved),
        TurnReplyView::Answered { response } => Some(AgentReplyView::Answered { response }),
        TurnReplyView::Executed { text } => Some(AgentReplyView::Executed { text }),
        TurnReplyView::ToolFailed { reason } => Some(AgentReplyView::ToolFailed { reason }),
        TurnReplyView::Failed { reason } => Some(AgentReplyView::Failed { reason }),
        _ => None,
    }
}

/// How a turn goes on once it is known whether a command may run.
pub open spec fn settled(
    turn: TurnRunView,
    history: Seq<MessageView>,
    rules: Seq<CommandApprovalRuleView>,
    approval: ShellApproval,
    text: Seq<char>,
    now: u64,
) -> TurnMove {
    let next = agent_reply(turn.agent, history, AgentReplyView::Approval { approval }, now);
    TurnMove {
        shown: handed_out(next.agent, turn.ui, next.step, text),
        history: next.history,
        rules,
    }
}

/// How a turn goes on with a reply that comes at `now`.
pub open spec fn turn_reply(
    turn: TurnRunView,
    history: Seq<MessageView>,
    rules: Seq<CommandApprovalRuleView>,
    reply: TurnReplyView,
    now: u64,
) -> TurnMove {
    let none = Seq::<char>::empty();
    let unexpected = TurnMove {
        shown: TurnShown {
            turn: TurnRunView {
                ui: cleared(turn.ui),
                waiting: TurnWaitView::Over,
                ..turn
            },
            text: finish_text(turn.ui, false),
            step: TurnStepView::Fail { reason: UNEXPECTED_REPLY@ },
        },
        history,
        rules,
    };
    match (turn.waiting, reply) {
        (TurnWaitView::Choice { rule }, TurnReplyView::Chosen { choice }) => {
            let later = rules_after(choice, rules, rule);
            if choice is AlwaysAllowSimilar {
                TurnMove {
                    shown: TurnShown {
                        turn: TurnRunView { waiting: TurnWaitView::Rules, ..turn },
                        text: none,
                        step: TurnStepView::SaveRules,
                    },
                    history,
                    rules: later,
                }
            } else {
                settled(turn, history, later, approval_of(choice), none, now)
            }
        },
        (TurnWaitView::Rules, TurnReplyView::RulesSaved) => settled(
            turn,
            history,
            rules,
            ShellApproval::Approved,
            none,
            now,
        ),
        (TurnWaitView::Rules, TurnReplyView::RulesLost { reason }) => settled(
            turn,
            history,
            rules,
            ShellApproval::Approved,
            RULES_LOST@ + reason + "\n"@,
            now,
        ),
        (TurnWaitView::Record { name, result }, TurnReplyView::Latest { id }) => {
            let (line, shown) = after_tool_done(turn.ui, name, done_text(name, result, id));
            agent_moved(
                shown,
                agent_reply(turn.agent, history, AgentReplyView::Continue, now),
                rules,
                line,
                now,
            )
        },
        (TurnWaitView::Agent, _) => match for_agent(reply) {
            Some(answer) => agent_moved(
                turn.ui,
                agent_reply(turn.agent, history, answer, now),
                rules,
                none,
                now,
            ),
            None => unexpected,
        },
        _ => unexpected,
    }
}

// ---------------------------------------------------------------------------
// Executable code
// ---------------------------------------------------------------------------

/// Whether a move is what became of the turn, the session, the text and the step; where
/// messages were added, the session was updated at `now`.
pub open spec fn is_turn_move(
    m: TurnMove,
    turn: TurnRunView,
    before: SessionView,
    after: SessionView,
    text: Seq<char>,
    step: TurnStepView,
    now: u64,
) -> bool {
    &&& m.shown == (TurnShown { turn, text, step })
    &&& after == (SessionView {
        history: m.history,
        updated_at_ms: if m.history.len() > before.history.len() {
            now
        } else {
            before.updated_at_ms
        },
        ..before
    })
}

/// Whether a move is what became of the main loop and the turn.
pub open spec fn is_loop_move(
    m: TurnMove,
    turn: TurnRunView,
    before: MainLoopView,
    after: MainLoopView,
    text: Seq<char>,
    step: TurnStepView,
    now: u64,
) -> bool {
    &&& is_turn_move(m, turn, before.session, after.session, text, step, now)
    &&& after == (MainLoopView {
        session: after.session,
        command_approval_rules: m.rules,
        ..before
    })
}

impl TurnRun {
    /// What is shown when a part of the answer comes.
    pub fn on_token(&mut self, token: &str, elapsed: &str) -> (r: String)
        ensures
            (r@, final(self)@.ui) == after_token(old(self)@.ui, token@, elapsed@),
            final(self)@ == (TurnRunView { ui: final(self)@.ui, ..old(self)@ }),
    {
        self.ui.on_token(token, elapsed)
    }

    /// What is shown while nothing comes.
    pub fn on_wait(&mut self) -> (r: String)
        ensures
            (r@, final(self)@.ui) == after_tick(old(self)@.ui),
            final(self)@ == (TurnRunView { ui: final(self)@.ui, ..old(self)@ }),
    {
        self.ui.tick_loading_line()
    }

    fn hand_out(&mut self, step: AgentStep, text: String) -> (r: (String, TurnStep))
        ensures
            (TurnShown { turn: final(self)@, text: r.0@, step: r.1@ }) == handed_out(
                old(self)@.agent,
                old(self)@.ui,
                step@,
                text@,
            ),
    {
        match step {
            AgentStep::Save => {
                self.waiting = TurnWait::Agent;
                (text, TurnStep::Save)
            },
            AgentStep::Complete => {
                self.waiting = TurnWait::Agent;
                (text, TurnStep::Complete)
            },
            AgentStep::Execute { name, arguments } => {
                self.waiting = TurnWait::Agent;
                (text, TurnStep::Execute { name, arguments })
            },
            AgentStep::Report { name, result } => {
                let record_needed = same(name.as_str(), "write") || same(name.as_str(), "edit");
                self.waiting = TurnWait::Record { name, result };
                (text, TurnStep::Report { record_needed })
            },
            AgentStep::Done { content } => {
                self.waiting = TurnWait::Over;
                let end = self.ui.finish(true);
                (text.concat(end.as_str()), TurnStep::Done)
            },
            AgentStep::Fail { reason } => {
                self.waiting = TurnWait::Over;
                let end = self.ui.finish(false);
                (text.concat(end.as_str()), TurnStep::Fail { reason })
            },
            _ => {
                self.waiting = TurnWait::Over;
                let end = self.ui.finish(false);
                (text.concat(end.as_str()), TurnStep::Fail { reason: owned(UNEXPECTED_REPLY) })
            },
        }
    }

    fn ask_or_hand_out(
        &mut self,
        session: &mut Session,
        rules: &Vec<CommandApprovalRule>,
        step: AgentStep,
        text: String,
        now: u64,
    ) -> (r: (String, TurnStep))
        ensures
            is_turn_move(
                asked_or_handed_out(
                    old(self)@.ui,
                    AgentMove {
                        agent: old(self)@.agent,
                        history: old(session)@.history,
                        step: step@,
                    },
                    command_approval_rule_views(rules@),
                    text@,
                    now,
                ),
                final(self)@,
                old(session)@,
                final(session)@,
                r.0@,
                r.1@,
                now,
            ),
    {
        match step {
            AgentStep::Approve { command } => {
                let erased = self.ui.clear_transient_line();
                let text = text.concat(erased.as_str());
                match decide_approval(rules, command.as_str()) {
                    ApprovalDecision::Approved => {
                        let reply = AgentReply::Approval { approval: ShellApproval::Approved };
                        let next = self.agent.advance_at(session, reply, now);
                        self.hand_out(next, text)
                    },
                    ApprovalDecision::Ask { summary, rule } => {
                        self.waiting = TurnWait::Choice { rule: rule.clone() };
                        (text, TurnStep::Ask { command, summary, rule })
                    },
                }
            },
            _ => self.hand_out(step, text),
        }
    }

    fn go_on(
        &mut self,
        session: &mut Session,
        rules: &Vec<CommandApprovalRule>,
        step: AgentStep,
        text: String,
        now: u64,
    ) -> (r: (String, TurnStep))
        ensures
            is_turn_move(
                agent_moved(
                    old(self)@.ui,
                    AgentMove {
                        agent: old(self)@.agent,
                        history: old(session)@.history,
                        step: step@,
                    },
                    command_approval_rule_views(rules@),
                    text@,
                    now,
                ),
                final(self)@,
                old(session)@,
                final(session)@,
                r.0@,
                r.1@,
                now,
            ),
    {
        match step {
            AgentStep::Announce { name, description } => {
                let line = self.ui.on_tool(name.as_str(), description.as_str());
                let ghost agent = self.agent@;
                let ghost history = session@.history;
                let next = self.agent.advance_at(session, AgentReply::Continue, now);
                proof {
                    lemma_history_grows(agent, history, AgentReplyView::Continue, now);
                    lemma_asked_grows(
                        self.ui,
                        agent_reply(agent, history, AgentReplyView::Continue, now),
                        command_approval_rule_views(rules@),
                        text@ + line@,
                        now,
                    );
                }
                self.ask_or_hand_out(session, rules, next, text.concat(line.as_str()), now)
            },
            _ => self.ask_or_hand_out(session, rules, step, text, now),
        }
    }

    fn answer_agent(
        &mut self,
        session: &mut Session,
        rules: &Vec<CommandApprovalRule>,
        reply: AgentReply,
        text: String,
        now: u64,
    ) -> (r: (String, TurnStep))
        ensures
            is_turn_move(
                agent_moved(
                    old(self)@.ui,
                    agent_reply(old(self)@.agent, old(session)@.history, reply@, now),
                    command_approval_rule_views(rules@),
                    text@,
                    now,
                ),
                final(self)@,
                old(session)@,
                final(session)@,
                r.0@,
                r.1@,
                now,
            ),
    {
        let ghost agent = self.agent@;
        let ghost history = session@.history;
        let ghost told = reply@;
        let next = self.agent.advance_at(session, reply, now);
        proof {
            lemma_history_grows(agent, history, told, now);
            lemma_moved_grows(
                self.ui,
                agent_reply(agent, history, told, now),
                command_approval_rule_views(rules@),
                text@,
                now,
            );
        }
        self.go_on(session, rules, next, text, now)
    }

    fn settle(
        &mut self,
        session: &mut Session,
        Ghost(rules): Ghost<Seq<CommandApprovalRuleView>>,
        approval: ShellApproval,
        text: String,
        now: u64,
    ) -> (r: (String, TurnStep))
        ensures
            is_turn_move(
                settled(old(self)@, old(session)@.history, rules, approval, text@, now),
                final(self)@,
                old(session)@,
                final(session)@,
                r.0@,
                r.1@,
                now,
            ),
    {
        let next = self.agent.advance_at(session, AgentReply::Approval { approval }, now);
        self.hand_out(next, text)
    }

    fn give_up(&mut self) -> (r: (String, TurnStep))
        ensures
            final(self)@ == (TurnRunView {
                ui: cleared(old(self)@.ui),
                waiting: TurnWaitView::Over,
                ..old(self)@
            }),
            r.0@ == finish_text(old(self)@.ui, false),
            r.1@ == (TurnStepView::Fail { reason: UNEXPECTED_REPLY@ }),
    {
        self.waiting = TurnWait::Over;
        let text = self.ui.finish(false);
        (text, TurnStep::Fail { reason: owned(UNEXPECTED_REPLY) })
    }
}

proof fn lemma_asked_grows(
    ui: TurnUiState,
    m: AgentMove,
    rules: Seq<CommandApprovalRuleView>,
    text: Seq<char>,
    now: u64,
)
    ensures
        asked_or_handed_out(ui, m, rules, text, now).history.len() >= m.history.len(),
{
    let reply = AgentReplyView::Approval { approval: ShellApproval::Approved };
    lemma_history_grows(m.agent, m.history, reply, now);
}

proof fn lemma_moved_grows(
    ui: TurnUiState,
    m: AgentMove,
    rules: Seq<CommandApprovalRuleView>,
    text: Seq<char>,
    now: u64,
)
    ensures
        agent_moved(ui, m, rules, text, now).history.len() >= m.history.len(),
{
    match m.step {
        AgentStepView::Announce { name, description } => {
            let (line, shown) = after_tool(ui, name, description);
            let next = agent_reply(m.agent, m.history, AgentReplyView::Continue, now);
            lemma_history_grows(m.agent, m.history, AgentReplyView::Continue, now);
            lemma_asked_grows(shown, next, rules, text + line, now);
        },
        _ => {
            lemma_asked_grows(ui, m, rules, text, now);
        },
    }
}

impl MainLoop {
    /// Starts a turn at `now` that answers `input`: the turn, what is shown, and what has to
    /// be done next.
    pub fn run_agent_turn_at(&mut self, input: &str, now: u64) -> (r: (TurnRun, String, TurnStep))
        ensures
            is_turn_move(
                turn_start(
                    old(self)@.session.history,
                    old(self)@.command_approval_rules,
                    input@,
                    now,
                ),
                r.0@,
                old(self)@.session,
                final(self)@.session,
                r.1@,
                r.2@,
                now,
            ),
            final(self)@ == (MainLoopView { session: final(self)@.session, ..old(self)@ }),
    {
        let mut ui = TurnUiState::default();
        let text = ui.tick_loading_line();
        let (agent, step) = Agent::begin(true, &mut self.session, input, now);
        let mut turn = TurnRun { agent, ui, waiting: TurnWait::Agent };
        let (text, step) = turn.go_on(
            &mut self.session,
            &self.command_approval_rules,
            step,
            text,
            now,
        );
        (turn, text, step)
    }

    /// Starts a turn that answers `input`.
    pub fn run_agent_turn(&mut self, input: &str) -> (r: (TurnRun, String, TurnStep))
        ensures
            exists|now: u64|
                is_turn_move(
                    #[trigger] turn_start(
                        old(self)@.session.history,
                        old(self)@.command_approval_rules,
                        input@,
                        now,
                    ),
                    r.0@,
                    old(self)@.session,
                    final(self)@.session,
                    r.1@,
                    r.2@,
                    now,
                ),
            final(self)@ == (MainLoopView { session: final(self)@.session, ..old(self)@ }),
    {
        self.run_agent_turn_at(input, unix_millis())
    }

    fn after_choice(
        &mut self,
        turn: &mut TurnRun,
        rule: String,
        reply: TurnReply,
        now: u64,
    ) -> (r: (String, TurnStep))
        ensures
            is_loop_move(
                turn_reply(
                    TurnRunView { waiting: TurnWaitView::Choice { rule: rule@ }, ..old(turn)@ },
                    old(self)@.session.history,
                    old(self)@.command_approval_rules,
                    reply@,
                    now,
                ),
                final(turn)@,
                old(self)@,
                final(self)@,
                r.0@,
                r.1@,
                now,
            ),
    {
        match reply {
            TurnReply::Chosen { choice } => {
                let (approval, save) = apply_choice(
                    choice,
                    rule.as_str(),
                    &mut self.command_approval_rules,
                );
                let text = String::new();
                proof {
                    assert(text@ =~= Seq::empty());
                }
                if save {
                    turn.waiting = TurnWait::Rules;
                    return (text, TurnStep::SaveRules);
                }
                turn.settle(
                    &mut self.session,
                    Ghost(command_approval_rule_views(self.command_approval_rules@)),
                    approval,
                    text,
                    now,
                )
            },
            _ => turn.give_up(),
        }
    }

    fn after_rules(
        &mut self,
        turn: &mut TurnRun,
        reply: TurnReply,
        now: u64,
    ) -> (r: (String, TurnStep))
        ensures
            is_loop_move(
                turn_reply(
                    TurnRunView { waiting: TurnWaitView::Rules, ..old(turn)@ },
                    old(self)@.session.history,
                    old(self)@.command_approval_rules,
                    reply@,
                    now,
                ),
                final(turn)@,
                old(self)@,
                final(self)@,
                r.0@,
                r.1@,
                now,
            ),
    {
        let text = match reply {
            TurnReply::RulesSaved => String::new(),
            TurnReply::RulesLost { reason } => owned(RULES_LOST).concat(reason.as_str()).concat(
                "\n",
            ),
            _ => {
                return turn.give_up();
            },
        };
        proof {
            assert(reply@ is RulesSaved ==> text@ =~= Seq::empty());
        }
        turn.settle(
            &mut self.session,
            Ghost(command_approval_rule_views(self.command_approval_rules@)),
            ShellApproval::Approved,
            text,
            now,
        )
    }

    fn after_record(
        &mut self,
        turn: &mut TurnRun,
        name: String,
        result: String,
        reply: TurnReply,
        now: u64,
    ) -> (r: (String, TurnStep))
        ensures
            is_loop_move(
                turn_reply(
                    TurnRunView { waiting: TurnWaitView::Record { name: name@, result: result@ }, ..old(turn)@ },
                    old(self)@.session.history,
                    old(self)@.command_approval_rules,
                    reply@,
                    now,
                ),
                final(turn)@,
                old(self)@,
                final(self)@,
                r.0@,
                r.1@,
                now,
            ),
    {
        match reply {
            TurnReply::Latest { id } => {
                let done = tool_done_message(name.as_str(), result.as_str(), &id);
                let line = turn.ui.on_tool_done(name.as_str(), done.as_str());
                turn.answer_agent(
                    &mut self.session,
                    &self.command_approval_rules,
                    AgentReply::Continue,
                    line,
                    now,
                )
            },
            _ => turn.give_up(),
        }
    }

    fn after_work(
        &mut self,
        turn: &mut TurnRun,
        reply: TurnReply,
        now: u64,
    ) -> (r: (String, TurnStep))
        ensures
            is_loop_move(
                turn_reply(
                    TurnRunView { waiting: TurnWaitView::Agent, ..old(turn)@ },
                    old(self)@.session.history,
                    old(self)@.command_approval_rules,
                    reply@,
                    now,
                ),
                final(turn)@,
                old(self)@,
                final(self)@,
                r.0@,
                r.1@,
                now,
            ),
    {
        let answer = match reply {
            TurnReply::Saved => AgentReply::Saved,
            TurnReply::Answered { response } => AgentReply::Answered { response },
            TurnReply::Executed { text } => AgentReply::Executed { text },
            TurnReply::ToolFailed { reason } => AgentReply::ToolFailed { reason },
            TurnReply::Failed { reason } => AgentReply::Failed { reason },
            _ => {
                return turn.give_up();
            },
        };
        let text = String::new();
        proof {
            assert(text@ =~= Seq::empty());
        }
        turn.answer_agent(&mut self.session, &self.command_approval_rules, answer, text, now)
    }

    /// Goes on with the answer to the last step of a turn, which came at `now`: what is
    /// shown, and what has to be done next.
    pub fn advance_turn_at(&mut self, turn: &mut TurnRun, reply: TurnReply, now: u64) -> (r: (
        String,
        TurnStep,
    ))
        ensures
            is_loop_move(
                turn_reply(
                    old(turn)@,
                    old(self)@.session.history,
                    old(self)@.command_approval_rules,
                    reply@,
                    now,
                ),
                final(turn)@,
                old(self)@,
                final(self)@,
                r.0@,
                r.1@,
                now,
            ),
    {
        let mut waiting = TurnWait::Over;
        core::mem::swap(&mut turn.waiting, &mut waiting);
        match waiting {
            TurnWait::Agent => self.after_work(turn, reply, now),
            TurnWait::Choice { rule } => self.after_choice(turn, rule, reply, now),
            TurnWait::Rules => self.after_rules(turn, reply, now),
            TurnWait::Record { name, result } => self.after_record(turn, name, result, reply, now),
            TurnWait::Over => turn.give_up(),
        }
    }

    /// Goes on with the answer to the last step of a turn.
    pub fn advance_turn(&mut self, turn: &mut TurnRun, reply: TurnReply) -> (r: (String, TurnStep))
        ensures
            exists|now: u64|
                is_loop_move(
                    #[trigger] turn_reply(
                        old(turn)@,
                        old(self)@.session.history,
                        old(self)@.command_approval_rules,
                        reply@,
                        now,
                    ),
                    final(turn)@,
                    old(self)@,
                    final(self)@,
                    r.0@,
                    r.1@,
                    now,
                ),
    {
        self.advance_turn_at(turn, reply, unix_millis())
    }
}

// ---------------------------------------------------------------------------
// Laws
// ---------------------------------------------------------------------------

/// Whether a command is the next call of a turn.
pub open spec fn is_next_command(agent: AgentView, command: Seq<char>) -> bool {
    let call = agent.calls[agent.results.len() as int];
    command_of_read(call.name, arguments_fields(call.arguments)) == Ok::<
        Option<Seq<char>>,
        CallErrorView,
    >(Some(command))
}

/// Whether the next call of a turn is a command that a rule allows.
pub open spec fn next_command_is_allowed(
    agent: AgentView,
    rules: Seq<CommandApprovalRuleView>,
) -> bool {
    exists|command: Seq<char>|
        #[trigger] is_next_command(agent, command) && is_allowed(rules, command)
}

/// Whether a turn is in step with its agent: while the user is asked about a command, or
/// the rule for it is saved, the agent waits to hear whether its next call may run.
pub open spec fn turn_inv(turn: TurnRunView) -> bool {
    &&& turn.agent.interactive
    &&& turn.waiting is Choice || turn.waiting is Rules ==> turn.agent.phase is Approving
        && turn.agent.results.len() < turn.agent.calls.len()
}

/// Whether a step of the agent can only carry out a command once it was asked for.
spec fn is_cautious(m: AgentMove) -> bool {
    &&& m.agent.interactive
    &&& m.step is Execute ==> m.step->Execute_name != "shell"@
    &&& m.step is Approve ==> is_next_command(m.agent, m.step->command)
        && m.agent.phase is Approving && m.agent.results.len() < m.agent.calls.len()
}

proof fn lemma_agent_is_cautious(
    agent: AgentView,
    history: Seq<MessageView>,
    reply: AgentReplyView,
    now: u64,
)
    requires
        agent.interactive,
        !(reply is Approval),
    ensures
        is_cautious(agent_reply(agent, history, reply, now)),
{
}

proof fn lemma_approval_runs_the_command(
    agent: AgentView,
    history: Seq<MessageView>,
    approval: ShellApproval,
    now: u64,
)
    requires
        agent.interactive,
    ensures
        ({
            let reply = AgentReplyView::Approval { approval };
            let m = agent_reply(agent, history, reply, now);
            &&& m.agent.interactive
            &&& m.step is Execute ==> approval is Approved && m.agent.calls == agent.calls
                && m.agent.results == agent.results
        }),
{
}

/// Whether a turn that moved on carries out a command only where a rule allows it.
spec fn runs_only_allowed(m: TurnMove, rules: Seq<CommandApprovalRuleView>) -> bool {
    &&& turn_inv(m.shown.turn)
    &&& !(m.shown.turn.waiting is Rules)
    &&& m.shown.step is Execute && m.shown.step->Execute_name == "shell"@
        ==> next_command_is_allowed(m.shown.turn.agent, rules)
}

proof fn lemma_asked_runs_only_allowed(
    ui: TurnUiState,
    m: AgentMove,
    rules: Seq<CommandApprovalRuleView>,
    text: Seq<char>,
    now: u64,
)
    requires
        is_cautious(m),
    ensures
        runs_only_allowed(asked_or_handed_out(ui, m, rules, text, now), rules),
{
    if m.step is Approve {
        let command = m.step->command;
        lemma_approval_runs_the_command(m.agent, m.history, ShellApproval::Approved, now);
        let reply = AgentReplyView::Approval { approval: ShellApproval::Approved };
        let next = agent_reply(m.agent, m.history, reply, now);
        if next.step is Execute {
            assert(is_next_command(next.agent, command));
        }
    }
}

proof fn lemma_moved_runs_only_allowed(
    ui: TurnUiState,
    m: AgentMove,
    rules: Seq<CommandApprovalRuleView>,
    text: Seq<char>,
    now: u64,
)
    requires
        is_cautious(m),
    ensures
        runs_only_allowed(agent_moved(ui, m, rules, text, now), rules),
{
    match m.step {
        AgentStepView::Announce { name, description } => {
            let (line, shown) = after_tool(ui, name, description);
            let next = agent_reply(m.agent, m.history, AgentReplyView::Continue, now);
            lemma_agent_is_cautious(m.agent, m.history, AgentReplyView::Continue, now);
            lemma_asked_runs_only_allowed(shown, next, rules, text + line, now);
        },
        _ => {
            lemma_asked_runs_only_allowed(ui, m, rules, text, now);
        },
    }
}

/// A command is carried out only where a rule allows it or the user has just allowed it;
/// and only a user who always allows a kind of command lets its rule be saved.
pub proof fn commands_run_only_when_allowed(
    turn: TurnRunView,
    history: Seq<MessageView>,
    rules: Seq<CommandApprovalRuleView>,
    reply: TurnReplyView,
    now: u64,
)
    requires
        turn.agent.interactive,
    ensures
        ({
            let m = turn_reply(turn, history, rules, reply, now);
            let next = m.shown.turn;
            let chosen = turn.waiting is Choice && reply is Chosen;
            &&& next.agent.interactive
            &&& m.shown.step is Execute && m.shown.step->Execute_name == "shell"@ ==> {
                ||| turn.waiting is Rules
                ||| chosen && !(reply->choice is Deny)
                ||| next_command_is_allowed(next.agent, rules)
            }
            &&& next.waiting is Rules ==> chosen && reply->choice is AlwaysAllowSimilar
        }),
{
    let none = Seq::<char>::empty();
    match turn.waiting {
        TurnWaitView::Agent => match for_agent(reply) {
            Some(answer) => {
                lemma_agent_is_cautious(turn.agent, history, answer, now);
                let m = agent_reply(turn.agent, history, answer, now);
                lemma_moved_runs_only_allowed(turn.ui, m, rules, none, now);
            },
            None => {},
        },
        TurnWaitView::Record { name, result } => match reply {
            TurnReplyView::Latest { id } => {
                let (line, shown) = after_tool_done(turn.ui, name, done_text(name, result, id));
                lemma_agent_is_cautious(turn.agent, history, AgentReplyView::Continue, now);
                let m = agent_reply(turn.agent, history, AgentReplyView::Continue, now);
                lemma_moved_runs_only_allowed(shown, m, rules, line, now);
            },
            _ => {},
        },
        TurnWaitView::Choice { rule } => {
            lemma_approval_runs_the_command(turn.agent, history, ShellApproval::Approved, now);
            lemma_approval_runs_the_command(turn.agent, history, ShellApproval::Denied, now);
        },
        TurnWaitView::Rules => {
            lemma_approval_runs_the_command(turn.agent, history, ShellApproval::Approved, now);
        },
        TurnWaitView::Over => {},
    }
}

/// A turn is in step with its agent from the start, and stays so whatever is answered.
pub proof fn turns_stay_in_step(
    turn: TurnRunView,
    history: Seq<MessageView>,
    rules: Seq<CommandApprovalRuleView>,
    input: Seq<char>,
    reply: TurnReplyView,
    now: u64,
)
    ensures
        turn_inv(turn_start(history, rules, input, now).shown.turn),
        turn_inv(turn) ==> turn_inv(turn_reply(turn, history, rules, reply, now).shown.turn),
{
    let none = Seq::<char>::empty();
    let (text, ui) = after_tick(fresh_ui());
    lemma_moved_runs_only_allowed(ui, agent_start(true, history, input, now), rules, text, now);
    if turn_inv(turn) {
        match turn.waiting {
            TurnWaitView::Agent => match for_agent(reply) {
                Some(answer) => {
                    lemma_agent_is_cautious(turn.agent, history, answer, now);
                    let m = agent_reply(turn.agent, history, answer, now);
                    lemma_moved_runs_only_allowed(turn.ui, m, rules, none, now);
                },
                None => {},
            },
            TurnWaitView::Record { name, result } => match reply {
                TurnReplyView::Latest { id } => {
                    let (line, shown) = after_tool_done(
                        turn.ui,
                        name,
                        done_text(name, result, id),
                    );
                    lemma_agent_is_cautious(turn.agent, history, AgentReplyView::Continue, now);
                    let m = agent_reply(turn.agent, history, AgentReplyView::Continue, now);
                    lemma_moved_runs_only_allowed(shown, m, rules, line, now);
                },
                _ => {},
            },
            TurnWaitView::Choice { rule } => {
                lemma_approval_runs_the_command(turn.agent, history, ShellApproval::Approved, now);
                lemma_approval_runs_the_command(turn.agent, history, ShellApproval::Denied, now);
            },
            TurnWaitView::Rules => {
                lemma_approval_runs_the_command(turn.agent, history, ShellApproval::Approved, now);
            },
            TurnWaitView::Over => {},
        }
    }
}

/// The approval rules change only where the user always allows a kind of command, and then
/// by the rule that was shown.
pub proof fn only_the_user_adds_rules(
    turn: TurnRunView,
    history: Seq<MessageView>,
    rules: Seq<CommandApprovalRuleView>,
    reply: TurnReplyView,
    now: u64,
)
    ensures
        ({
            let m = turn_reply(turn, history, rules, reply, now);
            m.rules != rules ==> {
                &&& turn.waiting is Choice
                &&& reply == (TurnReplyView::Chosen { choice: ApprovalChoice::AlwaysAllowSimilar })
                &&& m.rules == rules.push(
                    CommandApprovalRuleView { prefix: turn.waiting->Choice_rule },
                )
            }
        }),
{
}

/// A command that the user refuses is not carried out: the model is told so in its place.
pub proof fn refusals_are_reported(
    turn: TurnRunView,
    history: Seq<MessageView>,
    rules: Seq<CommandApprovalRuleView>,
    now: u64,
)
    requires
        turn.waiting is Choice,
        turn_inv(turn),
    ensures
        ({
            let reply = TurnReplyView::Chosen { choice: ApprovalChoice::Deny };
            let m = turn_reply(turn, history, rules, reply, now);
            &&& m.shown.turn.agent.results == turn.agent.results.push(DENIED@)
            &&& m.shown.step is Report
            &&& m.history == history
            &&& m.rules == rules
        }),
{
}

/// A command that the user allows once is carried out as the model asked for it, and no rule
/// is added.
pub proof fn allowed_commands_are_carried_out(
    turn: TurnRunView,
    history: Seq<MessageView>,
    rules: Seq<CommandApprovalRuleView>,
    now: u64,
)
    requires
        turn.waiting is Choice,
        turn_inv(turn),
    ensures
        ({
            let reply = TurnReplyView::Chosen { choice: ApprovalChoice::AllowOnce };
            let m = turn_reply(turn, history, rules, reply, now);
            let call = turn.agent.calls[turn.agent.results.len() as int];
            &&& m.shown.step == (TurnStepView::Execute {
                name: call.name,
                arguments: call.arguments,
            })
            &&& m.rules == rules
            &&& m.history == history
        }),
{
}

/// Where the user allows similar commands, the rule is saved first; the command is carried
/// out whether it could be saved or not, and the user is told where it could not.
pub proof fn rules_are_saved_before_the_command_runs(
    turn: TurnRunView,
    history: Seq<MessageView>,
    rules: Seq<CommandApprovalRuleView>,
    reason: Seq<char>,
    now: u64,
)
    requires
        turn.waiting is Choice,
        turn_inv(turn),
    ensures
        ({
            let reply = TurnReplyView::Chosen { choice: ApprovalChoice::AlwaysAllowSimilar };
            let m = turn_reply(turn, history, rules, reply, now);
            let saved = turn_reply(m.shown.turn, history, m.rules, TurnReplyView::RulesSaved, now);
            let lost = turn_reply(
                m.shown.turn,
                history,
                m.rules,
                TurnReplyView::RulesLost { reason },
                now,
            );
            let call = turn.agent.calls[turn.agent.results.len() as int];
            let run = TurnStepView::Execute { name: call.name, arguments: call.arguments };
            &&& m.shown.step is SaveRules
            &&& has_rule(m.rules, turn.waiting->Choice_rule)
            &&& rules.is_prefix_of(m.rules)
            &&& saved.shown.step == run && saved.shown.text.len() == 0
            &&& lost.shown.step == run && lost.shown.text == RULES_LOST@ + reason + "\n"@
            &&& saved.rules == m.rules && lost.rules == m.rules
        }),
{
    let rule = turn.waiting->Choice_rule;
    let reply = TurnReplyView::Chosen { choice: ApprovalChoice::AlwaysAllowSimilar };
    let m = turn_reply(turn, history, rules, reply, now);
    if !has_rule(rules, rule) {
        assert(m.rules[rules.len() as int].prefix == rule);
    }
}

/// What a tool gave is shown once it is known which record it left.
pub proof fn results_are_shown(
    turn: TurnRunView,
    history: Seq<MessageView>,
    rules: Seq<CommandApprovalRuleView>,
    id: Option<Seq<char>>,
    now: u64,
)
    requires
        turn.waiting is Record,
    ensures
        ({
            let m = turn_reply(turn, history, rules, TurnReplyView::Latest { id }, now);
            let name = turn.waiting->Record_name;
            let told = done_text(name, turn.waiting->Record_result, id);
            let line = after_tool_done(turn.ui, name, told).0;
            &&& begins(m.shown.text, line)
            &&& m.rules == rules
        }),
{
    let m = turn_reply(turn, history, rules, TurnReplyView::Latest { id }, now);
    let name = turn.waiting->Record_name;
    let told = done_text(name, turn.waiting->Record_result, id);
    let line = after_tool_done(turn.ui, name, told).0;
    assert(m.shown.text.take(line.len() as int) =~= line);
}

/// A turn changes the session by what is said in it, and the rules by what the user chose;
/// the plan and all else stays.
pub proof fn turns_change_what_is_said_and_chosen(
    m: TurnMove,
    turn: TurnRunView,
    before: MainLoopView,
    after: MainLoopView,
    text: Seq<char>,
    step: TurnStepView,
    now: u64,
)
    requires
        is_loop_move(m, turn, before, after, text, step, now),
    ensures
        after.command_approval_rules == m.rules,
        after.active_plan == before.active_plan,
        after.session.history == m.history,
        after.session.id == before.session.id,
        after.session.profile == before.session.profile,
        after.session.workspace == before.session.workspace,
        after.session.provider == before.session.provider,
        after.session.created_at_ms == before.session.created_at_ms,
        m.history.len() > before.session.history.len() ==> after.session.updated_at_ms == now,
        m.history == before.session.history ==> after.session == before.session,
        text == m.shown.text,
        step == m.shown.step,
        turn == m.shown.turn,
{
}

} // verus!
