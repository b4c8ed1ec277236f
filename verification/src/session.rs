//! One conversation with the agent.
use vstd::prelude::*;
use vstd::std_specs::convert::FromSpecImpl;
use crate::clock::unix_millis;
use crate::context::{AgentContext, AgentContextView};
use crate::message::{ConversationHistory, Message, MessageView};
use crate::number::{decimal, render_u64};
use crate::provider::{ProviderConfig, ProviderConfigView};
use crate::text::owned;

verus! {

/// The name of a session.
pub type SessionId = String;

/// A session: its name, where it works, which model it talks to, and what was said.
#[derive(Debug, PartialEq, Eq)]
pub struct Session {
    pub id: SessionId,
    pub profile: String,
    pub workspace: String,
    pub provider: ProviderConfig,
    pub history: ConversationHistory,
    pub created_at_ms: u64,
    pub updated_at_ms: u64,
}

/// The value of a session.
pub struct SessionView {
    pub id: Seq<char>,
    pub profile: Seq<char>,
    pub workspace: Seq<char>,
    pub provider: ProviderConfigView,
    pub history: Seq<MessageView>,
    pub created_at_ms: u64,
    pub updated_at_ms: u64,
}

impl View for Session {
    type V = SessionView;

    open spec fn view(&self) -> SessionView {
        SessionView {
            id: self.id@,
            profile: self.profile@,
            workspace: self.workspace@,
            provider: self.provider@,
            history: self.history@,
            created_at_ms: self.created_at_ms,
            updated_at_ms: self.updated_at_ms,
        }
    }
}

impl Clone for Session {
    fn clone(&self) -> (r: Self)
        ensures
            r@ == self@,
    {
        Session {
            id: self.id.clone(),
            profile: self.profile.clone(),
            workspace: self.workspace.clone(),
            provider: self.provider.clone(),
            history: self.history.clone(),
            created_at_ms: self.created_at_ms,
            updated_at_ms: self.updated_at_ms,
        }
    }
}

/// The id of a session that the process `pid` creates at `now`.
pub open spec fn session_id(now: u64, pid: u32) -> Seq<char> {
    seq!['s', '-'] + decimal(now as nat) + seq!['-'] + decimal(pid as nat)
}

/// A session that the process `pid` creates at `now`.
pub open spec fn fresh_session(
    profile: Seq<char>,
    workspace: Seq<char>,
    provider: ProviderConfigView,
    now: u64,
    pid: u32,
) -> SessionView {
    SessionView {
        id: session_id(now, pid),
        profile,
        workspace,
        provider,
        history: Seq::empty(),
        created_at_ms: now,
        updated_at_ms: now,
    }
}

/// What tools and providers learn of a session.
pub open spec fn context_of(session: SessionView) -> AgentContextView {
    AgentContextView {
        session_id: session.id,
        profile: session.profile,
        workspace: session.workspace,
        provider: session.provider.name,
        model: session.provider.model,
        turn_index: session.history.len() as usize,
    }
}

impl Session {
    /// A session without messages, created by the process `pid` at `now`.
    pub fn new_at(
        profile: &str,
        workspace: &str,
        provider: ProviderConfig,
        now: u64,
        pid: u32,
    ) -> (r: Self)
        ensures
            r@ == fresh_session(profile@, workspace@, provider@, now, pid),
    {
        let mut id = String::new();
        id.push('s');
        id.push('-');
        id.append(render_u64(now).as_str());
        id.push('-');
        id.append(render_u64(pid as u64).as_str());
        proof {
            assert(id@ =~= session_id(now, pid));
        }
        Session {
            id,
            profile: owned(profile),
            workspace: owned(workspace),
            provider,
            history: ConversationHistory::new(),
            created_at_ms: now,
            updated_at_ms: now,
        }
    }

    /// A session without messages, created now by the process `pid`.
    pub fn new(profile: &str, workspace: &str, provider: ProviderConfig, pid: u32) -> (r: Self)
        ensures
            r@ == fresh_session(profile@, workspace@, provider@, r.created_at_ms, pid),
    {
        Session::new_at(profile, workspace, provider, unix_millis(), pid)
    }

    /// Appends a message and marks the session as changed at `now`.
    pub fn add_message_at(&mut self, message: Message, now: u64)
        ensures
            final(self)@ == (SessionView {
                history: old(self)@.history.push(message@),
                updated_at_ms: now,
                ..old(self)@
            }),
    {
        self.history.push(message);
        self.updated_at_ms = now;
    }

    /// Appends a message and marks the session as changed now.
    pub fn add_message(&mut self, message: Message)
        ensures
            final(self)@ == (SessionView {
                history: old(self)@.history.push(message@),
                updated_at_ms: final(self).updated_at_ms,
                ..old(self)@
            }),
    {
        self.add_message_at(message, unix_millis());
    }

    /// Switches to another model and marks the session as changed now.
    pub fn set_model(&mut self, model: &str)
        ensures
            final(self)@ == (SessionView {
                provider: ProviderConfigView { model: model@, ..old(self)@.provider },
                updated_at_ms: final(self).updated_at_ms,
                ..old(self)@
            }),
    {
        self.provider.model = owned(model);
        self.touch();
    }

    /// Switches to another provider and marks the session as changed now.
    pub fn set_provider(&mut self, provider: ProviderConfig)
        ensures
            final(self)@ == (SessionView {
                provider: provider@,
                updated_at_ms: final(self).updated_at_ms,
                ..old(self)@
            }),
    {
        self.provider = provider;
        self.touch();
    }

    /// What tools and providers learn of this session.
    pub fn context(&self) -> (r: AgentContext)
        ensures
            r@ == context_of(self@),
            r.turn_index == self@.history.len(),
    {
        AgentContext {
            session_id: self.id.clone(),
            profile: self.profile.clone(),
            workspace: self.workspace.clone(),
            provider: self.provider.name.clone(),
            model: self.provider.model.clone(),
            turn_index: self.history.len(),
        }
    }

    fn touch(&mut self)
        ensures
            *final(self) == (Session { updated_at_ms: final(self).updated_at_ms, ..*old(self) }),
    {
        self.updated_at_ms = unix_millis();
    }
}

/// What a list of sessions shows of one of them.
#[derive(Debug, PartialEq, Eq)]
pub struct SessionSummary {
    pub id: SessionId,
    pub profile: String,
    pub workspace: String,
    pub provider: String,
    pub model: String,
    pub message_count: usize,
    pub updated_at_ms: u64,
}

impl Clone for SessionSummary {
    fn clone(&self) -> (r: Self)
        ensures
            r == *self,
    {
        SessionSummary {
            id: self.id.clone(),
            profile: self.profile.clone(),
            workspace: self.workspace.clone(),
            provider: self.provider.clone(),
            model: self.model.clone(),
            message_count: self.message_count,
            updated_at_ms: self.updated_at_ms,
        }
    }
}

impl FromSpecImpl<&Session> for SessionSummary {
    open spec fn obeys_from_spec() -> bool {
        true
    }

    open spec fn from_spec(session: &Session) -> SessionSummary {
        SessionSummary {
            id: session.id,
            profile: session.profile,
            workspace: session.workspace,
            provider: session.provider.name,
            model: session.provider.model,
            message_count: session.history@.len() as usize,
            updated_at_ms: session.updated_at_ms,
        }
    }
}

impl From<&Session> for SessionSummary {
    fn from(session: &Session) -> (r: Self) {
        SessionSummary {
            id: session.id.clone(),
            profile: session.profile.clone(),
            workspace: session.workspace.clone(),
            provider: session.provider.name.clone(),
            model: session.provider.model.clone(),
            message_count: session.history.len(),
            updated_at_ms: session.updated_at_ms,
        }
    }
}

} // verus!
