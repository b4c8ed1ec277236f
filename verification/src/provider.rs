//! Which model a session talks to, and the shape of a request and a reply.
use vstd::prelude::*;
use crate::context::AgentContext;
use crate::message::{call_views, Message, ToolCall, ToolCallView};
use crate::text::{opt_view, owned};

verus! {

/// The provider and the model of a session.
#[derive(Debug, PartialEq, Eq)]
pub struct ProviderConfig {
    pub name: String,
    pub model: String,
    pub api_base: Option<String>,
}

/// The value of a provider configuration.
pub struct ProviderConfigView {
    pub name: Seq<char>,
    pub model: Seq<char>,
    pub api_base: Option<Seq<char>>,
}

impl View for ProviderConfig {
    type V = ProviderConfigView;

    open spec fn view(&self) -> ProviderConfigView {
        ProviderConfigView {
            name: self.name@,
            model: self.model@,
            api_base: opt_view(self.api_base),
        }
    }
}

impl Clone for ProviderConfig {
    fn clone(&self) -> (r: Self)
        ensures
            r == *self,
    {
        ProviderConfig {
            name: self.name.clone(),
            model: self.model.clone(),
            api_base: match &self.api_base {
                Some(base) => Some(base.clone()),
                None => None,
            },
        }
    }
}

impl ProviderConfig {
    /// A provider and a model, with no address of its own.
    pub fn new(name: &str, model: &str) -> (r: Self)
        ensures
            r@ == (ProviderConfigView { name: name@, model: model@, api_base: None }),
    {
        ProviderConfig { name: owned(name), model: owned(model), api_base: None }
    }

    /// The same provider and model at another address.
    pub fn with_api_base(self, api_base: Option<String>) -> (r: Self)
        ensures
            r == (ProviderConfig { api_base, ..self }),
    {
        let mut config = self;
        config.api_base = api_base;
        config
    }
}

/// The type of a tool parameter.
#[derive(Debug, Clone, Copy, PartialEq, Eq, Structural)]
pub enum ParameterType {
    Text,
    Integer,
    Flag,
}

/// One parameter of a tool.
#[derive(Debug, PartialEq, Eq)]
pub struct ToolParameter {
    pub name: String,
    pub kind: ParameterType,
    pub description: String,
    pub required: bool,
}

/// The value of a tool parameter.
pub struct ToolParameterView {
    pub name: Seq<char>,
    pub kind: ParameterType,
    pub description: Seq<char>,
    pub required: bool,
}

impl View for ToolParameter {
    type V = ToolParameterView;

    open spec fn view(&self) -> ToolParameterView {
        ToolParameterView {
            name: self.name@,
            kind: self.kind,
            description: self.description@,
            required: self.required,
        }
    }
}

/// The values of a list of parameters.
pub open spec fn parameter_views(parameters: Seq<ToolParameter>) -> Seq<ToolParameterView> {
    Seq::new(parameters.len(), |i: int| parameters[i]@)
}

/// A tool that the model may call: its name, what it does, and its parameters.
#[derive(Debug, PartialEq, Eq)]
pub struct ToolDefinition {
    pub name: String,
    pub description: String,
    pub parameters: Vec<ToolParameter>,
}

/// The value of a tool definition.
pub struct ToolDefinitionView {
    pub name: Seq<char>,
    pub description: Seq<char>,
    pub parameters: Seq<ToolParameterView>,
}

impl View for ToolDefinition {
    type V = ToolDefinitionView;

    open spec fn view(&self) -> ToolDefinitionView {
        ToolDefinitionView {
            name: self.name@,
            description: self.description@,
            parameters: parameter_views(self.parameters@),
        }
    }
}

/// The values of a list of tool definitions.
pub open spec fn definition_views(tools: Seq<ToolDefinition>) -> Seq<ToolDefinitionView> {
    Seq::new(tools.len(), |i: int| tools[i]@)
}

/// What is sent to the model.
#[derive(Debug, PartialEq, Eq)]
pub struct ProviderRequest {
    pub context: AgentContext,
    pub messages: Vec<Message>,
    pub tools: Vec<ToolDefinition>,
}

/// What the model answers: a text, or tool calls.
#[derive(Debug, PartialEq, Eq)]
pub enum ProviderResponse {
    Text { content: String },
    ToolCalls { calls: Vec<ToolCall> },
}

/// The value of a reply.
pub enum ProviderResponseView {
    Text { content: Seq<char> },
    ToolCalls { calls: Seq<ToolCallView> },
}

impl View for ProviderResponse {
    type V = ProviderResponseView;

    open spec fn view(&self) -> ProviderResponseView {
        match self {
            ProviderResponse::Text { content } => ProviderResponseView::Text { content: content@ },
            ProviderResponse::ToolCalls { calls } => ProviderResponseView::ToolCalls {
                calls: call_views(calls@),
            },
        }
    }
}

} // verus!
