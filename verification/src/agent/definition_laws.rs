//! What holds of the tools that the model is offered.
use vstd::prelude::*;
use crate::agent::definitions::{is_request, tool_definitions};
use crate::agent::window::window;
use crate::message::message_views;
use crate::provider::{definition_views, ParameterType, ProviderRequest, ToolDefinitionView};
use crate::session::SessionView;

verus! {

/// Whether a tool takes these parameters, in this order: each by its name, its type, and
/// whether it has to be given.
pub open spec fn takes(
    tool: ToolDefinitionView,
    parameters: Seq<(Seq<char>, ParameterType, bool)>,
) -> bool {
    &&& tool.parameters.len() == parameters.len()
    &&& forall|i: int|
        0 <= i < parameters.len() ==> {
            &&& (#[trigger] tool.parameters[i]).name == parameters[i].0
            &&& tool.parameters[i].kind == parameters[i].1
            &&& tool.parameters[i].required == parameters[i].2
        }
}

/// The model is offered seven tools, each once, with the parameters that calls of it are read
/// by; those without which a call fails are the ones it has to give.
pub proof fn every_tool_is_offered()
    ensures
        ({
            let tools = tool_definitions();
            &&& tools.len() == 7
            &&& tools[0].name == "read"@
            &&& takes(
                tools[0],
                seq![
                    ("path"@, ParameterType::Text, true),
                    ("max_bytes"@, ParameterType::Integer, false),
                ],
            )
            &&& tools[1].name == "write"@
            &&& takes(
                tools[1],
                seq![
                    ("path"@, ParameterType::Text, true),
                    ("content"@, ParameterType::Text, true),
                    ("overwrite"@, ParameterType::Flag, false),
                ],
            )
            &&& tools[2].name == "edit"@
            &&& takes(
                tools[2],
                seq![
                    ("path"@, ParameterType::Text, true),
                    ("old"@, ParameterType::Text, true),
                    ("new"@, ParameterType::Text, true),
                ],
            )
            &&& tools[3].name == "grep"@
            &&& takes(
                tools[3],
                seq![
                    ("pattern"@, ParameterType::Text, true),
                    ("path"@, ParameterType::Text, false),
                    ("max_matches"@, ParameterType::Integer, false),
                ],
            )
            &&& tools[4].name == "shell"@
            &&& takes(
                tools[4],
                seq![
                    ("command"@, ParameterType::Text, true),
                    ("timeout_ms"@, ParameterType::Integer, false),
                    ("max_output_bytes"@, ParameterType::Integer, false),
                ],
            )
            &&& tools[5].name == "read_pdf"@
            &&& takes(tools[5], seq![("path"@, ParameterType::Text, true)])
            &&& tools[6].name == "read_docx"@
            &&& takes(tools[6], seq![("path"@, ParameterType::Text, true)])
        }),
{
}

/// A request holds what the model has to know: the session, the messages that fit, and every
/// tool.
pub proof fn requests_hold_everything(request: ProviderRequest, session: SessionView, now: u64)
    requires
        is_request(request, session, now),
    ensures
        request.context@.session_id == session.id,
        request.context@.model == session.provider.model,
        request.context@.workspace == session.workspace,
        message_views(request.messages@) == window(session.history, now),
        request.tools@.len() == 7,
        forall|i: int|
            0 <= i < request.tools@.len() ==> (#[trigger] request.tools@[i])@
                == tool_definitions()[i],
{
    assert(definition_views(request.tools@).len() == request.tools@.len());
    assert forall|i: int| 0 <= i < request.tools@.len() implies (#[trigger] request.tools@[i])@
        == tool_definitions()[i] by {
        assert(definition_views(request.tools@)[i] == request.tools@[i]@);
    }
}

} // verus!
