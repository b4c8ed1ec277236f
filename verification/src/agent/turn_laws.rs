//! What a turn of the agent does with the replies that it receives, from the first to the last.
use vstd::prelude::*;
use crate::agent::json::arguments_fields;
use crate::agent::output::description_of;
use crate::agent::request::{call_error_text, command_of_read};
use crate::agent::turn::{
    agent_reply, agent_start, is_move, AgentMove, AgentPhaseView, AgentReplyView, AgentStepView, AgentView,
    ShellApproval,
};
use crate::message::{MessageRole, MessageView, ToolCallView};
use crate::provider::ProviderResponseView;
use crate::session::SessionView;

verus! {

/// A turn and the history of its session.
pub struct TurnState {
    pub agent: AgentView,
    pub history: Seq<MessageView>,
}

/// A turn once it received replies, one after another.
pub open spec fn played(start: TurnState, replies: Seq<AgentReplyView>, now: u64) -> TurnState
    decreases replies.len(),
{
    if replies.len() == 0 {
        start
    } else {
        let before = played(start, replies.drop_last(), now);
        let m = agent_reply(before.agent, before.history, replies.last(), now);
        TurnState { agent: m.agent, history: m.history }
    }
}

/// The text with which a reply answers a call, if it does: what the tool gave, that it
/// failed, that the user refused, or that the command could not be read.
pub open spec fn answer_in(
    phase: AgentPhaseView,
    call: ToolCallView,
    reply: AgentReplyView,
) -> Option<Seq<char>> {
    match (phase, reply) {
        (AgentPhaseView::Executing, AgentReplyView::Executed { text }) => Some(text),
        (AgentPhaseView::Executing, AgentReplyView::ToolFailed { reason }) => Some(
            "❌ 工具执行失败: "@ + reason + "\n请根据错误信息调整后重试。"@,
        ),
        (AgentPhaseView::Approving, AgentReplyView::Approval { approval }) => if approval
            == ShellApproval::Denied {
            Some(
                "Shell command was denied by the user. Do not run it again unless the user changes their mind."@,
            )
        } else {
            None
        },
        (AgentPhaseView::Announced, AgentReplyView::Continue) => match command_of_read(
            call.name,
            arguments_fields(call.arguments),
        ) {
            Err(e) => Some(
                "Shell command was not executed because its arguments could not be parsed for approval: "@
                    + call_error_text(e),
            ),
            Ok(command) => None,
        },
        _ => None,
    }
}

/// The texts with which replies answer calls, one after another.
pub open spec fn answers(
    start: TurnState,
    calls: Seq<ToolCallView>,
    replies: Seq<AgentReplyView>,
    now: u64,
) -> Seq<Seq<char>>
    decreases replies.len(),
{
    if replies.len() == 0 {
        Seq::empty()
    } else {
        let before = answers(start, calls, replies.drop_last(), now);
        let phase = played(start, replies.drop_last(), now).agent.phase;
        match answer_in(phase, calls[before.len() as int], replies.last()) {
            Some(text) => if before.len() < calls.len() {
                before.push(text)
            } else {
                before
            },
            None => before,
        }
    }
}

/// Whether replies belong to one round: none says that the session is saved or what the
/// model answered.
pub open spec fn within_round(replies: Seq<AgentReplyView>) -> bool {
    forall|i: int|
        0 <= i < replies.len() ==> !(#[trigger] replies[i] is Saved) && !(replies[i] is Answered)
}

/// Whether a turn works on the calls of a round.
spec fn is_in_round(phase: AgentPhaseView) -> bool {
    phase is Announced || phase is Approving || phase is Executing || phase is Reported
}

/// The messages of a round: one with the calls, and one for each call with its own id and
/// the text that it was answered with.
pub open spec fn is_answered_round(
    added: Seq<MessageView>,
    calls: Seq<ToolCallView>,
    texts: Seq<Seq<char>>,
) -> bool {
    &&& added.len() == 1 + calls.len()
    &&& texts.len() == calls.len()
    &&& added[0].role == MessageRole::Assistant
    &&& added[0].content.len() == 0
    &&& added[0].tool_calls == Some(calls)
    &&& forall|i: int|
        0 <= i < calls.len() ==> {
            let m = #[trigger] added[1 + i];
            &&& m.role == MessageRole::Tool
            &&& m.content == texts[i]
            &&& m.tool_call_id == Some(calls[i].id)
            &&& m.tool_calls is None
        }
}

proof fn lemma_round(
    start: TurnState,
    calls: Seq<ToolCallView>,
    first: AgentReplyView,
    replies: Seq<AgentReplyView>,
    now: u64,
)
    requires
        start.agent.phase is Waiting,
        first == (AgentReplyView::Answered {
            response: ProviderResponseView::ToolCalls { calls },
        }),
        within_round(replies),
    ensures
        ({
            let begun = played(start, seq![first], now);
            let end = played(begun, replies, now);
            let texts = answers(begun, calls, replies, now);
            &&& end.agent.calls == calls
            &&& end.agent.results == texts
            &&& end.agent.interactive == start.agent.interactive
            &&& is_in_round(end.agent.phase) || end.agent.phase is SaveRound
                || end.agent.phase is Over
            &&& is_in_round(end.agent.phase) ==> end.history == start.history
            &&& is_in_round(end.agent.phase) && !(end.agent.phase is Reported) ==> texts.len()
                < calls.len()
            &&& end.agent.phase is SaveRound ==> {
                &&& end.history.len() == start.history.len() + 1 + calls.len()
                &&& end.history.take(start.history.len() as int) == start.history
                &&& is_answered_round(end.history.skip(start.history.len() as int), calls, texts)
            }
        }),
    decreases replies.len(),
{
    let begun = played(start, seq![first], now);
    let none = Seq::<AgentReplyView>::empty();
    assert(seq![first].drop_last() =~= none);
    assert(played(start, none, now) == start);
    if replies.len() == 0 {
        assert(replies =~= none);
        let m = agent_reply(start.agent, start.history, first, now);
        lemma_completed(start.history, calls, Seq::empty(), now);
    } else {
        let front = replies.drop_last();
        assert forall|i: int| 0 <= i < front.len() implies !(#[trigger] front[i] is Saved) && !(
        front[i] is Answered) by {
            assert(front[i] == replies[i]);
        }
        lemma_round(start, calls, first, front, now);
        let before = played(begun, front, now);
        let reply = replies.last();
        assert(reply == replies[replies.len() - 1]);
        let m = agent_reply(before.agent, before.history, reply, now);
        lemma_completed(before.history, calls, m.agent.results, now);
    }
}

proof fn lemma_completed(
    history: Seq<MessageView>,
    calls: Seq<ToolCallView>,
    texts: Seq<Seq<char>>,
    now: u64,
)
    ensures
        texts.len() == calls.len() ==> ({
            let all = history + crate::agent::turn::round_block(calls, texts, now);
            &&& all.take(history.len() as int) == history
            &&& is_answered_round(all.skip(history.len() as int), calls, texts)
        }),
{
    let block = crate::agent::turn::round_block(calls, texts, now);
    let all = history + block;
    assert(all.take(history.len() as int) =~= history);
    assert(all.skip(history.len() as int) =~= block);
}

/// Every call of a round gets its own result back: once the model answered with calls and
/// the replies since complete the round, the history has grown by one message with the
/// calls and, for each call in order, one with its id and just the text with which that
/// call was answered. Until then nothing is added.
pub proof fn every_call_gets_its_own_result(
    start: TurnState,
    calls: Seq<ToolCallView>,
    replies: Seq<AgentReplyView>,
    now: u64,
)
    requires
        start.agent.phase is Waiting,
        within_round(replies),
    ensures
        ({
            let first = AgentReplyView::Answered {
                response: ProviderResponseView::ToolCalls { calls },
            };
            let begun = played(start, seq![first], now);
            let end = played(begun, replies, now);
            let n = start.history.len() as int;
            if end.agent.phase is SaveRound {
                &&& end.history.len() >= n
                &&& end.history.take(n) == start.history
                &&& is_answered_round(
                    end.history.skip(n),
                    calls,
                    answers(begun, calls, replies, now),
                )
            } else {
                end.agent.phase is Over || end.history == start.history
            }
        }),
{
    let first = AgentReplyView::Answered { response: ProviderResponseView::ToolCalls { calls } };
    lemma_round(start, calls, first, replies, now);
}

/// Calls are carried out one by one in their order: what is carried out, announced or
/// reported next is always about the first call without an answer, or the last with one.
pub proof fn calls_are_carried_out_in_order(
    start: TurnState,
    calls: Seq<ToolCallView>,
    replies: Seq<AgentReplyView>,
    reply: AgentReplyView,
    now: u64,
)
    requires
        start.agent.phase is Waiting,
        within_round(replies.push(reply)),
    ensures
        ({
            let first = AgentReplyView::Answered {
                response: ProviderResponseView::ToolCalls { calls },
            };
            let begun = played(start, seq![first], now);
            let before = played(begun, replies, now);
            let texts = answers(begun, calls, replies.push(reply), now);
            let done = texts.len() as int;
            match agent_reply(before.agent, before.history, reply, now).step {
                AgentStepView::Execute { name, arguments } => done < calls.len() && name
                    == calls[done].name && arguments == calls[done].arguments,
                AgentStepView::Announce { name, description } => done < calls.len() && name
                    == calls[done].name,
                AgentStepView::Approve { command } => done < calls.len() && command_of_read(
                    calls[done].name,
                    arguments_fields(calls[done].arguments),
                ) == Ok::<Option<Seq<char>>, crate::agent::request::CallErrorView>(Some(command)),
                AgentStepView::Report { name, result } => 0 < done <= calls.len() && name
                    == calls[done - 1].name && result == texts[done - 1],
                AgentStepView::Save => done == calls.len(),
                AgentStepView::Complete => false,
                _ => true,
            }
        }),
{
    let first = AgentReplyView::Answered { response: ProviderResponseView::ToolCalls { calls } };
    let begun = played(start, seq![first], now);
    let all = replies.push(reply);
    assert(all.drop_last() =~= replies);
    assert forall|i: int| 0 <= i < replies.len() implies !(#[trigger] replies[i] is Saved) && !(
    replies[i] is Answered) by {
        assert(replies[i] == all[i]);
    }
    assert(all[replies.len() as int] == reply);
    lemma_round(start, calls, first, replies, now);
    lemma_round(start, calls, first, all, now);
}

/// A turn starts with the message of the user at the end of the history, which is saved
/// before the model is asked.
pub proof fn turns_start_with_the_user(
    interactive: bool,
    history: Seq<MessageView>,
    input: Seq<char>,
    now: u64,
)
    ensures
        ({
            let m = agent_start(interactive, history, input, now);
            &&& m.history.len() == history.len() + 1
            &&& m.history.take(history.len() as int) == history
            &&& m.history.last().role == MessageRole::User
            &&& m.history.last().content == input
            &&& m.history.last().tool_calls is None
            &&& m.history.last().tool_call_id is None
            &&& m.step is Save
            &&& agent_reply(m.agent, m.history, AgentReplyView::Saved, now).step is Complete
        }),
{
    let m = agent_start(interactive, history, input, now);
    assert(m.history.take(history.len() as int) =~= history);
}

/// A turn ends with what the model answers in text: the text goes into the history as it
/// is, is saved, and is what the turn gives. After a round the model is asked again, at most
/// fifty times for one message of the user.
pub proof fn turns_end_with_the_answer(
    agent: AgentView,
    history: Seq<MessageView>,
    content: Seq<char>,
    now: u64,
)
    ensures
        agent.phase is Waiting ==> ({
            let reply = AgentReplyView::Answered {
                response: ProviderResponseView::Text { content },
            };
            let m = agent_reply(agent, history, reply, now);
            let end = agent_reply(m.agent, m.history, AgentReplyView::Saved, now);
            &&& m.history.len() == history.len() + 1
            &&& m.history.take(history.len() as int) == history
            &&& m.history.last().role == MessageRole::Assistant
            &&& m.history.last().content == content
            &&& m.history.last().tool_calls is None
            &&& m.step is Save
            &&& end.step == (AgentStepView::Done { content })
            &&& end.history == m.history
        }),
        agent.phase is SaveRound ==> ({
            let m = agent_reply(agent, history, AgentReplyView::Saved, now);
            &&& m.history == history
            &&& m.step is Complete <==> agent.round < 50
            &&& m.step is Fail <==> agent.round >= 50
        }),
{
    if agent.phase is Waiting {
        let reply = AgentReplyView::Answered { response: ProviderResponseView::Text { content } };
        let m = agent_reply(agent, history, reply, now);
        assert(m.history.take(history.len() as int) =~= history);
    }
}

/// A call that is answered is followed by the next, and the last by the saving of the round:
/// no result ends a turn. Where a user is there, each result is reported first.
pub proof fn results_lead_to_the_next_call(
    agent: AgentView,
    history: Seq<MessageView>,
    text: Seq<char>,
    now: u64,
)
    requires
        agent.phase is Executing,
        agent.results.len() < agent.calls.len(),
    ensures
        ({
            let m = agent_reply(agent, history, AgentReplyView::Executed { text }, now);
            let told = agent_reply(m.agent, m.history, AgentReplyView::Continue, now);
            let done = agent.results.len() as int;
            let next = if agent.interactive {
                told
            } else {
                m
            };
            &&& m.agent.results == agent.results.push(text)
            &&& m.agent.calls == agent.calls
            &&& m.agent.round == agent.round
            &&& agent.interactive ==> m.step == (AgentStepView::Report {
                name: agent.calls[done].name,
                result: text,
            })
            &&& done + 1 == agent.calls.len() ==> next.step is Save && next.agent.phase
                is SaveRound
            &&& done + 1 < agent.calls.len() && agent.interactive ==> next.step == (
            AgentStepView::Announce {
                name: agent.calls[done + 1].name,
                description: description_of(
                    agent.calls[done + 1].name,
                    match arguments_fields(agent.calls[done + 1].arguments) {
                        Ok(fields) => fields,
                        Err(_) => Seq::empty(),
                    },
                ),
            })
            &&& done + 1 < agent.calls.len() && !agent.interactive ==> next.step == (
            AgentStepView::Execute {
                name: agent.calls[done + 1].name,
                arguments: agent.calls[done + 1].arguments,
            })
        }),
{
}

/// A tool that fails does not end the turn either: that it failed is its result.
pub proof fn failed_tools_are_results(
    agent: AgentView,
    history: Seq<MessageView>,
    reason: Seq<char>,
    now: u64,
)
    requires
        agent.phase is Executing,
        agent.results.len() < agent.calls.len(),
    ensures
        agent_reply(agent, history, AgentReplyView::ToolFailed { reason }, now) == agent_reply(
            agent,
            history,
            AgentReplyView::Executed {
                text: "❌ 工具执行失败: "@ + reason + "\n请根据错误信息调整后重试。"@,
            },
            now,
        ),
{
}

/// A tool that is no command is carried out once it is announced; a command is asked for
/// first, and carried out where that is granted.
pub proof fn announced_calls_are_carried_out(
    agent: AgentView,
    history: Seq<MessageView>,
    now: u64,
)
    requires
        agent.phase is Announced,
        agent.results.len() < agent.calls.len(),
    ensures
        ({
            let call = agent.calls[agent.results.len() as int];
            let run = AgentStepView::Execute { name: call.name, arguments: call.arguments };
            let m = agent_reply(agent, history, AgentReplyView::Continue, now);
            let granted = AgentReplyView::Approval { approval: ShellApproval::Approved };
            &&& call.name != "shell"@ ==> m.step == run
            &&& call.name == "shell"@ ==> match command_of_read(
                call.name,
                arguments_fields(call.arguments),
            ) {
                Ok(Some(command)) => m.step == (AgentStepView::Approve { command })
                    && agent_reply(m.agent, m.history, granted, now).step == run,
                Ok(None) => true,
                Err(e) => agent.interactive ==> m.step is Report,
            }
            &&& m.history == history || !agent.interactive
        }),
{
}

/// What fails around a turn ends it, with the reason; what was said stays.
pub proof fn failures_end_the_turn(
    agent: AgentView,
    history: Seq<MessageView>,
    reason: Seq<char>,
    reply: AgentReplyView,
    now: u64,
)
    requires
        !(agent.phase is Over),
    ensures
        ({
            let m = agent_reply(agent, history, AgentReplyView::Failed { reason }, now);
            &&& m.step == (AgentStepView::Fail { reason })
            &&& m.history == history
            &&& m.agent.phase is Over
            &&& agent_reply(m.agent, m.history, reply, now).step is Fail
            &&& agent_reply(m.agent, m.history, reply, now).history == history
        }),
{
}

/// Every message that a turn adds bears the time at which it was added.
pub proof fn messages_bear_their_time(
    interactive: bool,
    agent: AgentView,
    history: Seq<MessageView>,
    input: Seq<char>,
    reply: AgentReplyView,
    now: u64,
    i: int,
)
    ensures
        agent_start(interactive, history, input, now).history.last().created_at_ms == now,
        ({
            let after = agent_reply(agent, history, reply, now).history;
            history.len() <= i < after.len() ==> after[i].created_at_ms == now
        }),
{
}

/// A turn that called tools too often says so.
pub proof fn endless_turns_are_explained(agent: AgentView, history: Seq<MessageView>, now: u64)
    requires
        agent.phase is SaveRound,
        agent.round >= 50,
    ensures
        agent_reply(agent, history, AgentReplyView::Saved, now).step == (AgentStepView::Fail {
            reason: if agent.interactive {
                "agent exceeded maximum tool-call rounds (50)"@
            } else {
                "agent exceeded maximum tool-call rounds (50). The model may be stuck in a tool-calling loop."@
            },
        }),
{
}

/// A session changes by what is said in it, and by nothing else; where something was said, it
/// bears the time.
pub proof fn sessions_change_by_what_is_said(
    m: AgentMove,
    agent: AgentView,
    before: SessionView,
    after: SessionView,
    step: AgentStepView,
    now: u64,
)
    requires
        is_move(m, agent, before, after, step, now),
    ensures
        after.history == m.history,
        after.id == before.id,
        after.profile == before.profile,
        after.workspace == before.workspace,
        after.provider == before.provider,
        after.created_at_ms == before.created_at_ms,
        m.history.len() > before.history.len() ==> after.updated_at_ms == now,
        m.history == before.history ==> after == before,
        agent == m.agent,
        step == m.step,
{
}

} // verus!
