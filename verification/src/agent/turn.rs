//! One turn of the agent: asking the model, calling tools, and asking again.
use vstd::prelude::*;
use crate::agent::history::sanitized;
use crate::agent::history_laws::{completed_round_is_kept, is_round, plain_message_is_kept};
use crate::agent::json::arguments_fields;
use crate::agent::output::{
    description_of, failure_text, fields_or_none, format_failure, tool_description,
};
use crate::agent::request::{call_error_text, command_of_read, shell_command_from_call};
use crate::clock::unix_millis;
use crate::message::{
    call_message, call_views, copy_calls, plain_message, result_message, Message, MessageRole,
    MessageView, ToolCall, ToolCallView,
};
use crate::provider::{ProviderResponse, ProviderResponseView};
use crate::session::{Session, SessionView};
use crate::text::{lemma_views_push, owned, views};

verus! {

/// What the user says to a command.
#[derive(Debug, Clone, Copy, PartialEq, Eq, Structural)]
pub enum ShellApproval {
    Approved,
    Denied,
}

/// What has to be done next in a turn of the agent.
#[derive(Debug, PartialEq, Eq)]
pub enum AgentStep {
    /// Save the session: answered by `Saved` or `Failed`.
    Save,
    /// Send the request of the session to the model: answered by `Answered` or `Failed`.
    Complete,
    /// Tell the user which tool comes next: answered by `Continue`.
    Announce { name: String, description: String },
    /// Ask the user whether the command may run: answered by `Approval`.
    Approve { command: String },
    /// Carry out the tool call: answered by `Executed` or `ToolFailed`.
    Execute { name: String, arguments: String },
    /// Tell the user what the tool gave: answered by `Continue`.
    Report { name: String, result: String },
    /// The turn is over, with this answer.
    Done { content: String },
    /// The turn failed.
    Fail { reason: String },
}

/// The value of a `AgentStep`.
pub enum AgentStepView {
    Save,
    Complete,
    Announce { name: Seq<char>, description: Seq<char> },
    Approve { command: Seq<char> },
    Execute { name: Seq<char>, arguments: Seq<char> },
    Report { name: Seq<char>, result: Seq<char> },
    Done { content: Seq<char> },
    Fail { reason: Seq<char> },
}

impl View for AgentStep {
    type V = AgentStepView;

    open spec fn view(&self) -> AgentStepView {
        match self {
            AgentStep::Save => AgentStepView::Save,
            AgentStep::Complete => AgentStepView::Complete,
            AgentStep::Announce { name, description } => AgentStepView::Announce {
                name: name@,
                description: description@,
            },
            AgentStep::Approve { command } => AgentStepView::Approve {
                command: command@,
            },
            AgentStep::Execute { name, arguments } => AgentStepView::Execute {
                name: name@,
                arguments: arguments@,
            },
            AgentStep::Report { name, result } => AgentStepView::Report {
                name: name@,
                result: result@,
            },
            AgentStep::Done { content } => AgentStepView::Done {
                content: content@,
            },
            AgentStep::Fail { reason } => AgentStepView::Fail {
                reason: reason@,
            },
        }
    }
}

/// The answer to a step.
#[derive(Debug, PartialEq, Eq)]
pub enum AgentReply {
    Saved,
    Answered { response: ProviderResponse },
    Continue,
    Approval { approval: ShellApproval },
    Executed { text: String },
    ToolFailed { reason: String },
    Failed { reason: String },
}

/// The value of a `AgentReply`.
pub enum AgentReplyView {
    Saved,
    Answered { response: ProviderResponseView },
    Continue,
    Approval { approval: ShellApproval },
    Executed { text: Seq<char> },
    ToolFailed { reason: Seq<char> },
    Failed { reason: Seq<char> },
}

impl View for AgentReply {
    type V = AgentReplyView;

    open spec fn view(&self) -> AgentReplyView {
        match self {
            AgentReply::Saved => AgentReplyView::Saved,
            AgentReply::Answered { response } => AgentReplyView::Answered {
                response: response@,
            },
            AgentReply::Continue => AgentReplyView::Continue,
            AgentReply::Approval { approval } => AgentReplyView::Approval {
                approval: *approval,
            },
            AgentReply::Executed { text } => AgentReplyView::Executed {
                text: text@,
            },
            AgentReply::ToolFailed { reason } => AgentReplyView::ToolFailed {
                reason: reason@,
            },
            AgentReply::Failed { reason } => AgentReplyView::Failed {
                reason: reason@,
            },
        }
    }
}

/// What a turn waits for.
#[derive(Debug, PartialEq, Eq)]
pub enum AgentPhase {
    /// That the message of the user is saved.
    SaveUser,
    /// The answer of the model.
    Waiting,
    /// That the user was told of the next call.
    Announced,
    /// Whether the command of the next call may run.
    Approving,
    /// What the next call gives.
    Executing,
    /// That the user was told of the last result.
    Reported,
    /// That the round is saved.
    SaveRound,
    /// That the answer is saved.
    SaveText { content: String },
    /// Nothing: the turn is over.
    Over,
}

/// The value of a `AgentPhase`.
pub enum AgentPhaseView {
    SaveUser,
    Waiting,
    Announced,
    Approving,
    Executing,
    Reported,
    SaveRound,
    SaveText { content: Seq<char> },
    Over,
}

impl View for AgentPhase {
    type V = AgentPhaseView;

    open spec fn view(&self) -> AgentPhaseView {
        match self {
            AgentPhase::SaveUser => AgentPhaseView::SaveUser,
            AgentPhase::Waiting => AgentPhaseView::Waiting,
            AgentPhase::Announced => AgentPhaseView::Announced,
            AgentPhase::Approving => AgentPhaseView::Approving,
            AgentPhase::Executing => AgentPhaseView::Executing,
            AgentPhase::Reported => AgentPhaseView::Reported,
            AgentPhase::SaveRound => AgentPhaseView::SaveRound,
            AgentPhase::SaveText { content } => AgentPhaseView::SaveText {
                content: content@,
            },
            AgentPhase::Over => AgentPhaseView::Over,
        }
    }
}

/// One turn of the agent: it answers a message of the user, calling tools on the way.
#[derive(Debug, PartialEq, Eq)]
pub struct Agent {
    /// Whether the user is told of tools and asked before commands run.
    pub interactive: bool,
    /// How often the model was asked.
    pub round: usize,
    /// The calls of this round.
    pub calls: Vec<ToolCall>,
    /// The results of the first of them.
    pub results: Vec<String>,
    pub phase: AgentPhase,
}

/// The value of a `Agent`.
pub struct AgentView {
    pub interactive: bool,
    pub round: usize,
    pub calls: Seq<ToolCallView>,
    pub results: Seq<Seq<char>>,
    pub phase: AgentPhaseView,
}

impl View for Agent {
    type V = AgentView;

    open spec fn view(&self) -> AgentView {
        AgentView {
            interactive: self.interactive,
            round: self.round,
            calls: call_views(self.calls@),
            results: views(self.results@),
            phase: self.phase@,
        }
    }
}

/// How often the model is asked for one message of the user.
pub const MAX_TOOL_ROUNDS: usize = 50;

/// Why a turn that called tools too often ends.
pub const TOO_MANY_ROUNDS: &'static str = "agent exceeded maximum tool-call rounds (50). The model may be stuck in a tool-calling loop.";

/// Why an interactive turn that called tools too often ends.
pub const TOO_MANY_STREAMED_ROUNDS: &'static str = "agent exceeded maximum tool-call rounds (50)";

/// What the model is told of a command that the user refused.
pub const DENIED: &'static str = "Shell command was denied by the user. Do not run it again unless the user changes their mind.";

/// What the model is told of a command that could not be read, before the reason.
pub const UNREADABLE_COMMAND: &'static str = "Shell command was not executed because its arguments could not be parsed for approval: ";

/// Why a step was answered by what does not answer it.
pub const UNEXPECTED_REPLY: &'static str = "unexpected reply to an agent step";

/// The state of a turn, the history of its session, and what has to be done next.
pub struct AgentMove {
    pub agent: AgentView,
    pub history: Seq<MessageView>,
    pub step: AgentStepView,
}

/// The messages of a completed round: the calls, then their results in order.
pub open spec fn round_block(
    calls: Seq<ToolCallView>,
    results: Seq<Seq<char>>,
    now: u64,
) -> Seq<MessageView> {
    seq![call_message(Seq::empty(), calls, now)] + Seq::new(
        calls.len(),
        |i: int| result_message(results[i], calls[i].id, now),
    )
}

/// The move that ends a turn with an error.
pub open spec fn agent_fail(
    agent: AgentView,
    history: Seq<MessageView>,
    reason: Seq<char>,
) -> AgentMove {
    AgentMove {
        agent: AgentView { phase: AgentPhaseView::Over, ..agent },
        history,
        step: AgentStepView::Fail { reason },
    }
}

/// The move to the next round.
pub open spec fn next_round(agent: AgentView, history: Seq<MessageView>) -> AgentMove {
    if agent.round >= MAX_TOOL_ROUNDS {
        agent_fail(
            agent,
            history,
            if agent.interactive {
                TOO_MANY_STREAMED_ROUNDS@
            } else {
                TOO_MANY_ROUNDS@
            },
        )
    } else {
        AgentMove {
            agent: AgentView {
                round: (agent.round + 1) as usize,
                phase: AgentPhaseView::Waiting,
                ..agent
            },
            history,
            step: AgentStepView::Complete,
        }
    }
}

/// The move that carries out the next call.
pub open spec fn execute_call(agent: AgentView, history: Seq<MessageView>) -> AgentMove {
    let call = agent.calls[agent.results.len() as int];
    AgentMove {
        agent: AgentView { phase: AgentPhaseView::Executing, ..agent },
        history,
        step: AgentStepView::Execute { name: call.name, arguments: call.arguments },
    }
}

/// The move to the next call, or to the end of the round: only then, all at once, do the
/// calls and their results go into the history.
pub open spec fn next_call(agent: AgentView, history: Seq<MessageView>, now: u64) -> AgentMove {
    if agent.results.len() >= agent.calls.len() {
        AgentMove {
            agent: AgentView { phase: AgentPhaseView::SaveRound, ..agent },
            history: history + round_block(agent.calls, agent.results, now),
            step: AgentStepView::Save,
        }
    } else if agent.interactive {
        let call = agent.calls[agent.results.len() as int];
        AgentMove {
            agent: AgentView { phase: AgentPhaseView::Announced, ..agent },
            history,
            step: AgentStepView::Announce {
                name: call.name,
                description: description_of(
                    call.name,
                    fields_or_none(arguments_fields(call.arguments)),
                ),
            },
        }
    } else {
        execute_call(agent, history)
    }
}

/// The move that notes the result of a call.
pub open spec fn note_result(
    agent: AgentView,
    history: Seq<MessageView>,
    text: Seq<char>,
    now: u64,
) -> AgentMove {
    let noted = AgentView { results: agent.results.push(text), ..agent };
    if agent.interactive {
        AgentMove {
            agent: AgentView { phase: AgentPhaseView::Reported, ..noted },
            history,
            step: AgentStepView::Report {
                name: agent.calls[agent.results.len() as int].name,
                result: text,
            },
        }
    } else {
        next_call(noted, history, now)
    }
}

/// How an announced call goes on: a command is asked for, one that cannot be read is
/// refused, and other tools are carried out.
pub open spec fn after_announced(
    agent: AgentView,
    history: Seq<MessageView>,
    now: u64,
) -> AgentMove {
    let call = agent.calls[agent.results.len() as int];
    match command_of_read(call.name, arguments_fields(call.arguments)) {
        Ok(Some(command)) => AgentMove {
            agent: AgentView { phase: AgentPhaseView::Approving, ..agent },
            history,
            step: AgentStepView::Approve { command },
        },
        Ok(None) => execute_call(agent, history),
        Err(e) => note_result(agent, history, UNREADABLE_COMMAND@ + call_error_text(e), now),
    }
}

/// How a turn starts: the message of the user is saved first.
pub open spec fn agent_start(
    interactive: bool,
    history: Seq<MessageView>,
    input: Seq<char>,
    now: u64,
) -> AgentMove {
    AgentMove {
        agent: AgentView {
            interactive,
            round: 0,
            calls: Seq::empty(),
            results: Seq::empty(),
            phase: AgentPhaseView::SaveUser,
        },
        history: history.push(plain_message(MessageRole::User, input, now)),
        step: AgentStepView::Save,
    }
}

/// How a turn goes on with a reply that comes at `now`.
pub open spec fn agent_reply(
    agent: AgentView,
    history: Seq<MessageView>,
    reply: AgentReplyView,
    now: u64,
) -> AgentMove {
    let unexpected = agent_fail(agent, history, UNEXPECTED_REPLY@);
    let more = agent.results.len() < agent.calls.len();
    match (agent.phase, reply) {
        (AgentPhaseView::Over, _) => unexpected,
        (_, AgentReplyView::Failed { reason }) => agent_fail(agent, history, reason),
        (AgentPhaseView::SaveUser, AgentReplyView::Saved) => next_round(agent, history),
        (AgentPhaseView::SaveRound, AgentReplyView::Saved) => next_round(agent, history),
        (AgentPhaseView::SaveText { content }, AgentReplyView::Saved) => AgentMove {
            agent: AgentView { phase: AgentPhaseView::Over, ..agent },
            history,
            step: AgentStepView::Done { content },
        },
        (AgentPhaseView::Waiting, AgentReplyView::Answered { response }) => match response {
            ProviderResponseView::Text { content } => AgentMove {
                agent: AgentView { phase: AgentPhaseView::SaveText { content }, ..agent },
                history: history.push(plain_message(MessageRole::Assistant, content, now)),
                step: AgentStepView::Save,
            },
            ProviderResponseView::ToolCalls { calls } => next_call(
                AgentView { calls, results: Seq::empty(), ..agent },
                history,
                now,
            ),
        },
        (AgentPhaseView::Announced, AgentReplyView::Continue) => if more {
            after_announced(agent, history, now)
        } else {
            unexpected
        },
        (AgentPhaseView::Approving, AgentReplyView::Approval { approval }) => if more {
            match approval {
                ShellApproval::Approved => execute_call(agent, history),
                ShellApproval::Denied => note_result(agent, history, DENIED@, now),
            }
        } else {
            unexpected
        },
        (AgentPhaseView::Executing, AgentReplyView::Executed { text }) => if more {
            note_result(agent, history, text, now)
        } else {
            unexpected
        },
        (AgentPhaseView::Executing, AgentReplyView::ToolFailed { reason }) => if more {
            note_result(agent, history, failure_text(reason), now)
        } else {
            unexpected
        },
        (AgentPhaseView::Reported, AgentReplyView::Continue) => next_call(agent, history, now),
        _ => unexpected,
    }
}

// ---------------------------------------------------------------------------
// Executable code
// ---------------------------------------------------------------------------

/// Whether a move is what became of the state, the session and the step; where messages
/// were added, the session was updated at `now`.
pub open spec fn is_move(
    m: AgentMove,
    agent: AgentView,
    before: SessionView,
    after: SessionView,
    step: AgentStepView,
    now: u64,
) -> bool {
    &&& agent == m.agent
    &&& step == m.step
    &&& after == (SessionView {
        history: m.history,
        updated_at_ms: if m.history.len() > before.history.len() {
            now
        } else {
            before.updated_at_ms
        },
        ..before
    })
}

impl Agent {
    /// Starts a turn at `now` that answers `input`; `interactive` says whether the user is
    /// told of tools and asked before commands run.
    pub fn begin(interactive: bool, session: &mut Session, input: &str, now: u64) -> (r: (
        Agent,
        AgentStep,
    ))
        ensures
            is_move(
                agent_start(interactive, old(session)@.history, input@, now),
                r.0@,
                old(session)@,
                final(session)@,
                r.1@,
                now,
            ),
    {
        session.add_message_at(Message::plain_at(MessageRole::User, input, now), now);
        let agent = Agent {
            interactive,
            round: 0,
            calls: Vec::new(),
            results: Vec::new(),
            phase: AgentPhase::SaveUser,
        };
        proof {
            assert(call_views(agent.calls@) =~= Seq::empty());
            assert(views(agent.results@) =~= Seq::empty());
        }
        (agent, AgentStep::Save)
    }

    /// Starts a turn that answers `user_input` without telling or asking the user.
    pub fn run(session: &mut Session, user_input: &str) -> (r: (Agent, AgentStep))
        ensures
            exists|now: u64|
                is_move(
                    #[trigger] agent_start(false, old(session)@.history, user_input@, now),
                    r.0@,
                    old(session)@,
                    final(session)@,
                    r.1@,
                    now,
                ),
    {
        Agent::begin(false, session, user_input, unix_millis())
    }

    /// Starts a turn that answers `user_input`, tells the user of tools and asks before
    /// commands run.
    pub fn run_streaming(session: &mut Session, user_input: &str) -> (r: (Agent, AgentStep))
        ensures
            exists|now: u64|
                is_move(
                    #[trigger] agent_start(true, old(session)@.history, user_input@, now),
                    r.0@,
                    old(session)@,
                    final(session)@,
                    r.1@,
                    now,
                ),
    {
        Agent::begin(true, session, user_input, unix_millis())
    }

    fn fail(&mut self, reason: &str, Ghost(history): Ghost<Seq<MessageView>>) -> (step: AgentStep)
        ensures
            ({
                let m = agent_fail(old(self)@, history, reason@);
                final(self)@ == m.agent && step@ == m.step && m.history == history
            }),
    {
        self.phase = AgentPhase::Over;
        AgentStep::Fail { reason: owned(reason) }
    }

    fn ask_model(&mut self, Ghost(history): Ghost<Seq<MessageView>>) -> (step: AgentStep)
        ensures
            ({
                let m = next_round(old(self)@, history);
                final(self)@ == m.agent && step@ == m.step && m.history == history
            }),
    {
        if self.round >= MAX_TOOL_ROUNDS {
            if self.interactive {
                return self.fail(TOO_MANY_STREAMED_ROUNDS, Ghost(history));
            }
            return self.fail(TOO_MANY_ROUNDS, Ghost(history));
        }
        self.round = self.round + 1;
        self.phase = AgentPhase::Waiting;
        AgentStep::Complete
    }

    fn execute(&mut self, Ghost(history): Ghost<Seq<MessageView>>) -> (step: AgentStep)
        requires
            old(self).results@.len() < old(self).calls@.len(),
        ensures
            ({
                let m = execute_call(old(self)@, history);
                final(self)@ == m.agent && step@ == m.step && m.history == history
            }),
    {
        let k: usize = self.results.len();
        self.phase = AgentPhase::Executing;
        AgentStep::Execute {
            name: self.calls[k].name.clone(),
            arguments: self.calls[k].arguments.clone(),
        }
    }

    fn add_round(&self, session: &mut Session, now: u64)
        requires
            self.results@.len() >= self.calls@.len(),
        ensures
            final(session)@ == (SessionView {
                history: old(session)@.history + round_block(self@.calls, self@.results, now),
                updated_at_ms: now,
                ..old(session)@
            }),
    {
        let empty = String::new();
        let head = Message::assistant_with_tool_calls_at(
            empty.as_str(),
            copy_calls(&self.calls),
            now,
        );
        proof {
            assert(empty@ =~= Seq::empty());
        }
        session.add_message_at(head, now);
        let ghost start = old(session)@.history;
        let ghost block = round_block(self@.calls, self@.results, now);
        let mut i: usize = 0;
        proof {
            assert(start.push(head@) =~= start + block.take(1));
        }
        while i < self.calls.len()
            invariant
                i <= self.calls@.len() <= self.results@.len(),
                block == round_block(self@.calls, self@.results, now),
                session@ == (SessionView {
                    history: start + block.take(1 + i),
                    updated_at_ms: now,
                    ..old(session)@
                }),
            decreases self.calls.len() - i,
        {
            let m = Message::tool_result_at(
                self.results[i].as_str(),
                self.calls[i].id.as_str(),
                now,
            );
            proof {
                assert(block[1 + i] == m@);
                assert((start + block.take(1 + i)).push(m@) =~= start + block.take(2 + i));
            }
            session.add_message_at(m, now);
            i += 1;
        }
        proof {
            assert(block.take(1 + self.calls@.len() as int) =~= block);
        }
    }

    fn go_on(&mut self, session: &mut Session, now: u64) -> (step: AgentStep)
        ensures
            is_move(
                next_call(old(self)@, old(session)@.history, now),
                final(self)@,
                old(session)@,
                final(session)@,
                step@,
                now,
            ),
    {
        let k: usize = self.results.len();
        proof {
            assert(self@.calls.len() == self.calls@.len());
            assert(self@.results.len() == self.results@.len());
        }
        if k >= self.calls.len() {
            self.add_round(session, now);
            self.phase = AgentPhase::SaveRound;
            return AgentStep::Save;
        }
        if self.interactive {
            self.phase = AgentPhase::Announced;
            return AgentStep::Announce {
                name: self.calls[k].name.clone(),
                description: tool_description(
                    self.calls[k].name.as_str(),
                    self.calls[k].arguments.as_str(),
                ),
            };
        }
        self.execute(Ghost(session@.history))
    }

    fn note(&mut self, session: &mut Session, text: String, now: u64) -> (step: AgentStep)
        requires
            old(self).results@.len() < old(self).calls@.len(),
        ensures
            is_move(
                note_result(old(self)@, old(session)@.history, text@, now),
                final(self)@,
                old(session)@,
                final(session)@,
                step@,
                now,
            ),
    {
        let k: usize = self.results.len();
        let result = text.clone();
        proof {
            lemma_views_push(self.results@, text);
        }
        self.results.push(text);
        if self.interactive {
            self.phase = AgentPhase::Reported;
            return AgentStep::Report { name: self.calls[k].name.clone(), result };
        }
        self.go_on(session, now)
    }

    fn announced(&mut self, session: &mut Session, now: u64) -> (step: AgentStep)
        requires
            old(self).results@.len() < old(self).calls@.len(),
        ensures
            is_move(
                after_announced(old(self)@, old(session)@.history, now),
                final(self)@,
                old(session)@,
                final(session)@,
                step@,
                now,
            ),
    {
        let k: usize = self.results.len();
        match shell_command_from_call(
            self.calls[k].name.as_str(),
            self.calls[k].arguments.as_str(),
        ) {
            Ok(Some(command)) => {
                self.phase = AgentPhase::Approving;
                AgentStep::Approve { command }
            },
            Ok(None) => self.execute(Ghost(session@.history)),
            Err(e) => {
                let text = owned(UNREADABLE_COMMAND).concat(e.message().as_str());
                self.note(session, text, now)
            },
        }
    }

    /// Goes on with the answer to the last step, which came at `now`, and says what has to
    /// be done next.
    pub fn advance_at(&mut self, session: &mut Session, reply: AgentReply, now: u64) -> (step:
        AgentStep)
        ensures
            is_move(
                agent_reply(old(self)@, old(session)@.history, reply@, now),
                final(self)@,
                old(session)@,
                final(session)@,
                step@,
                now,
            ),
    {
        let ghost history = session@.history;
        proof {
            assert(self@.calls.len() == self.calls@.len());
            assert(self@.results.len() == self.results@.len());
        }
        let more = self.results.len() < self.calls.len();
        match (&self.phase, reply) {
            (AgentPhase::Over, _) => self.fail(UNEXPECTED_REPLY, Ghost(history)),
            (_, AgentReply::Failed { reason }) => self.fail(reason.as_str(), Ghost(history)),
            (AgentPhase::SaveUser, AgentReply::Saved) => self.ask_model(Ghost(history)),
            (AgentPhase::SaveRound, AgentReply::Saved) => self.ask_model(Ghost(history)),
            (AgentPhase::SaveText { content }, AgentReply::Saved) => {
                let content = content.clone();
                self.phase = AgentPhase::Over;
                AgentStep::Done { content }
            },
            (AgentPhase::Waiting, AgentReply::Answered { response }) => match response {
                ProviderResponse::Text { content } => {
                    let m = Message::plain_at(MessageRole::Assistant, content.as_str(), now);
                    session.add_message_at(m, now);
                    self.phase = AgentPhase::SaveText { content };
                    AgentStep::Save
                },
                ProviderResponse::ToolCalls { calls } => {
                    self.calls = calls;
                    self.results = Vec::new();
                    proof {
                        assert(views(self.results@) =~= Seq::empty());
                    }
                    self.go_on(session, now)
                },
            },
            (AgentPhase::Announced, AgentReply::Continue) => {
                if more {
                    self.announced(session, now)
                } else {
                    self.fail(UNEXPECTED_REPLY, Ghost(history))
                }
            },
            (AgentPhase::Approving, AgentReply::Approval { approval }) => {
                if more {
                    match approval {
                        ShellApproval::Approved => self.execute(Ghost(history)),
                        ShellApproval::Denied => self.note(session, owned(DENIED), now),
                    }
                } else {
                    self.fail(UNEXPECTED_REPLY, Ghost(history))
                }
            },
            (AgentPhase::Executing, AgentReply::Executed { text }) => {
                if more {
                    self.note(session, text, now)
                } else {
                    self.fail(UNEXPECTED_REPLY, Ghost(history))
                }
            },
            (AgentPhase::Executing, AgentReply::ToolFailed { reason }) => {
                if more {
                    self.note(session, format_failure(reason.as_str()), now)
                } else {
                    self.fail(UNEXPECTED_REPLY, Ghost(history))
                }
            },
            (AgentPhase::Reported, AgentReply::Continue) => self.go_on(session, now),
            _ => self.fail(UNEXPECTED_REPLY, Ghost(history)),
        }
    }

    /// Goes on with the answer to the last step, and says what has to be done next.
    pub fn advance(&mut self, session: &mut Session, reply: AgentReply) -> (step: AgentStep)
        ensures
            exists|now: u64|
                is_move(
                    #[trigger] agent_reply(old(self)@, old(session)@.history, reply@, now),
                    final(self)@,
                    old(session)@,
                    final(session)@,
                    step@,
                    now,
                ),
    {
        self.advance_at(session, reply, unix_millis())
    }
}

// ---------------------------------------------------------------------------
// Laws
// ---------------------------------------------------------------------------

/// The model is asked at most so often for one message of the user: each time it is asked
/// the round goes up by one, it never goes down, and it never passes the limit.
pub proof fn model_is_asked_boundedly(
    agent: AgentView,
    history: Seq<MessageView>,
    reply: AgentReplyView,
    now: u64,
)
    requires
        agent.round <= MAX_TOOL_ROUNDS,
    ensures
        ({
            let m = agent_reply(agent, history, reply, now);
            &&& m.agent.round <= MAX_TOOL_ROUNDS
            &&& m.step is Complete ==> m.agent.round == agent.round + 1
            &&& !(m.step is Complete) ==> m.agent.round == agent.round
        }),
{
}

/// A command is never carried out in an interactive turn unless the user has just
/// approved it.
pub proof fn commands_need_approval(
    agent: AgentView,
    history: Seq<MessageView>,
    reply: AgentReplyView,
    now: u64,
)
    requires
        agent.interactive,
    ensures
        ({
            let m = agent_reply(agent, history, reply, now);
            &&& m.agent.interactive
            &&& m.step is Execute && m.step->Execute_name == "shell"@ ==> agent.phase is Approving
                && reply == (AgentReplyView::Approval { approval: ShellApproval::Approved })
        }),
{
}

/// A refused command is not carried out: the model is told so in its place.
pub proof fn refused_commands_do_not_run(
    agent: AgentView,
    history: Seq<MessageView>,
    now: u64,
)
    requires
        agent.interactive,
        agent.phase is Approving,
        agent.results.len() < agent.calls.len(),
    ensures
        ({
            let reply = AgentReplyView::Approval { approval: ShellApproval::Denied };
            let m = agent_reply(agent, history, reply, now);
            &&& m.agent.results == agent.results.push(DENIED@)
            &&& m.step == (AgentStepView::Report {
                name: agent.calls[agent.results.len() as int].name,
                result: DENIED@,
            })
        }),
{
}

/// A turn takes nothing out of the history.
pub proof fn lemma_history_grows(
    agent: AgentView,
    history: Seq<MessageView>,
    reply: AgentReplyView,
    now: u64,
)
    ensures
        agent_reply(agent, history, reply, now).history.len() >= history.len(),
{
}

/// A turn only ever appends to the history, and what it appends is complete: one plain
/// message, or a whole round. So nothing that a turn adds is lost when the history is
/// made valid for the model, and a turn that is cut short leaves no call without a result.
pub proof fn turns_append_complete_rounds(
    agent: AgentView,
    history: Seq<MessageView>,
    reply: AgentReplyView,
    now: u64,
)
    ensures
        ({
            let m = agent_reply(agent, history, reply, now);
            exists|added: Seq<MessageView>|
                {
                    &&& m.history == #[trigger] (history + added)
                    &&& sanitized(m.history) == sanitized(history) + added
                    &&& !(m.step is Save) ==> added.len() == 0
                }
        }),
{
    let m = agent_reply(agent, history, reply, now);
    let none = Seq::<MessageView>::empty();
    if m.history == history {
        assert(history + none =~= history);
        assert(sanitized(history) + none =~= sanitized(history));
        assert(m.history == history + none);
    } else if m.agent.phase is SaveText {
        let text = plain_message(
            MessageRole::Assistant,
            m.agent.phase->SaveText_content,
            now,
        );
        plain_message_is_kept(history, text);
        assert(m.history == history.push(text));
        assert(history.push(text) =~= history + seq![text]);
        assert(sanitized(history).push(text) =~= sanitized(history) + seq![text]);
        assert(m.history == history + seq![text]);
    } else {
        let calls = m.agent.calls;
        let results = m.agent.results;
        let block = round_block(calls, results, now);
        assert(m.history == history + block);
        assert(is_round(block, calls));
        completed_round_is_kept(history, block, calls);
    }
}

} // verus!
