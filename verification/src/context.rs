//! What a tool or a provider learns of the session it works for.
use vstd::prelude::*;

verus! {

/// The session, its workspace and its provider, as of one turn.
#[derive(Debug, PartialEq, Eq)]
pub struct AgentContext {
    pub session_id: String,
    pub profile: String,
    pub workspace: String,
    pub provider: String,
    pub model: String,
    pub turn_index: usize,
}

/// The value of a context.
pub struct AgentContextView {
    pub session_id: Seq<char>,
    pub profile: Seq<char>,
    pub workspace: Seq<char>,
    pub provider: Seq<char>,
    pub model: Seq<char>,
    pub turn_index: usize,
}

impl View for AgentContext {
    type V = AgentContextView;

    open spec fn view(&self) -> AgentContextView {
        AgentContextView {
            session_id: self.session_id@,
            profile: self.profile@,
            workspace: self.workspace@,
            provider: self.provider@,
            model: self.model@,
            turn_index: self.turn_index,
        }
    }
}

impl Clone for AgentContext {
    fn clone(&self) -> (r: Self)
        ensures
            r == *self,
    {
        AgentContext {
            session_id: self.session_id.clone(),
            profile: self.profile.clone(),
            workspace: self.workspace.clone(),
            provider: self.provider.clone(),
            model: self.model.clone(),
            turn_index: self.turn_index,
        }
    }
}

} // verus!
