//! Where a tool call goes: to the system that owns the tool, to the system
//! that holds a resource, or nowhere, with the answer that is given at once.

use crate::catalog::{
    catalog, find_entry, find_resource, has_system, lemma_find_entry, lemma_find_resource, lists,
};
use crate::message::{
    result_view, text_argument, views, Argument, ArgumentView, ToolCallView, ToolError,
    ToolErrorView, ToolResult, ToolResultView,
};
use crate::system::{SystemView, Tool, ToolView};
use vstd::prelude::*;

verus! {

/// The name of the built-in tool that reads a resource.
pub const READ_RESOURCE: &'static str = "read_resource";

/// The argument of `read_resource` that holds the resource's URI.
pub const URI: &'static str = "uri";

/// The argument of `read_resource` that names the system to ask.
pub const SYSTEM_NAME: &'static str = "system_name";

/// How the built-in tool is described to the model.
pub const READ_RESOURCE_DESCRIPTION: &'static str =
    "Read a resource from a system.\n\nResources allow systems to share data that provide context to LLMs, such as \nfiles, database schemas, or application-specific information. This tool searches for the \nresource URI in the provided system, and reads in the resource content. If no system\nis provided, the tool will search all systems for the resource.\n\nThe read_resource tool is typically used with a search query (can be before or after). Here are two examples:\n1. Search for files in Google Drive MCP Server, then call read_resource(gdrive:///<file_id>) to read the Google Drive file.\n2. You need to gather schema information about a Postgres table before creating a query. So you call read_resource(postgres://<host>/<table>/schema)\n    to get the schema information for a table and then use to construct your query.\n";

/// The input schema of the built-in tool: `uri` is a string and required,
/// `system_name` a string and optional.
pub const READ_RESOURCE_SCHEMA: &'static str =
    "{\"type\":\"object\",\"required\":[\"uri\"],\"properties\":{\"uri\":{\"type\":\"string\",\"description\":\"Resource URI\"},\"system_name\":{\"type\":\"string\",\"description\":\"Optional system name\"}}}";

/// The built-in tool as the model sees it.
pub open spec fn read_resource_tool_view() -> ToolView {
    ToolView {
        name: READ_RESOURCE@,
        description: READ_RESOURCE_DESCRIPTION@,
        input_schema: READ_RESOURCE_SCHEMA@,
    }
}

/// The built-in tool that reads a resource. It belongs to no system and is
/// added to the catalog for the length of one reply.
pub fn read_resource_tool() -> (tool: Tool)
    ensures
        tool@ == read_resource_tool_view(),
{
    Tool {
        name: READ_RESOURCE.to_owned(),
        description: READ_RESOURCE_DESCRIPTION.to_owned(),
        input_schema: READ_RESOURCE_SCHEMA.to_owned(),
    }
}

/// What is to be done with one tool call.
#[derive(Debug, PartialEq, Eq)]
pub enum Dispatch {
    /// The system `system` is to run its tool `tool` on the arguments.
    Forward { system: String, tool: String, arguments: Vec<Argument> },
    /// The system `system` is to be asked for the resource at `uri`.
    ReadResource { system: String, uri: String },
    /// No system is asked: the call's result is this.
    Respond(ToolResult),
}

pub enum DispatchView {
    Forward { system: Seq<char>, tool: Seq<char>, arguments: Seq<ArgumentView> },
    ReadResource { system: Seq<char>, uri: Seq<char> },
    Respond(ToolResultView),
}

impl View for Dispatch {
    type V = DispatchView;

    open spec fn view(&self) -> DispatchView {
        match self {
            Dispatch::Forward { system, tool, arguments } => DispatchView::Forward {
                system: system@,
                tool: tool@,
                arguments: views(arguments@),
            },
            Dispatch::ReadResource { system, uri } => DispatchView::ReadResource {
                system: system@,
                uri: uri@,
            },
            Dispatch::Respond(result) => DispatchView::Respond(result_view(*result)),
        }
    }
}

/// Where a call of `read_resource` goes. Without a URI the arguments are
/// refused. With a system named, that system is asked if it is registered.
/// With none named, the first system in registration order that lists the
/// URI is asked. Where there is no system to ask, the answer is `NotFound`.
pub open spec fn dispatch_read_resource(
    systems: Seq<SystemView>,
    arguments: Seq<ArgumentView>,
) -> DispatchView {
    match text_argument(arguments, URI@) {
        None => DispatchView::Respond(Err(ToolErrorView::InvalidParameters(URI@))),
        Some(uri) => match text_argument(arguments, SYSTEM_NAME@) {
            Some(system) => if has_system(systems, system) {
                DispatchView::ReadResource { system, uri }
            } else {
                DispatchView::Respond(Err(ToolErrorView::NotFound(system)))
            },
            None => match find_resource(systems, uri, 0) {
                Some(i) => DispatchView::ReadResource { system: systems[i].name, uri },
                None => DispatchView::Respond(Err(ToolErrorView::NotFound(uri))),
            },
        },
    }
}

/// Where a call goes. The built-in tool is resolved first. Any other name is
/// looked up in the merged catalog: the first line offered under it gives the
/// owning system and the tool's own name; a name that no line is offered
/// under is answered with `NotFound`.
pub open spec fn dispatch(systems: Seq<SystemView>, call: ToolCallView) -> DispatchView {
    if call.name == READ_RESOURCE@ {
        dispatch_read_resource(systems, call.arguments)
    } else {
        match find_entry(catalog(systems), call.name, 0) {
            Some(p) => DispatchView::Forward {
                system: catalog(systems)[p].system,
                tool: catalog(systems)[p].tool,
                arguments: call.arguments,
            },
            None => DispatchView::Respond(Err(ToolErrorView::NotFound(call.name))),
        }
    }
}

/// The result of a forwarded call, from what the system answered: its
/// payload, or its failure as an `ExecutionError`.
pub fn call_outcome(answer: Result<String, String>) -> (r: ToolResult)
    ensures
        result_view(r) == match answer {
            Ok(payload) => Ok::<Seq<char>, ToolErrorView>(payload@),
            Err(reason) => Err(ToolErrorView::ExecutionError(reason@)),
        },
{
    match answer {
        Ok(payload) => Ok(payload),
        Err(reason) => Err(ToolError::ExecutionError(reason)),
    }
}

/// The result of reading a resource, from what the system answered: the
/// content, or `NotFound` with the URI where the system has none.
pub fn resource_outcome(uri: String, content: Option<String>) -> (r: ToolResult)
    ensures
        result_view(r) == match content {
            Some(text) => Ok::<Seq<char>, ToolErrorView>(text@),
            None => Err(ToolErrorView::NotFound(uri@)),
        },
{
    match content {
        Some(text) => Ok(text),
        None => Err(ToolError::NotFound(uri)),
    }
}

/// A call of a name that is neither the built-in tool's nor that of any line
/// of the catalog is answered with `NotFound`, and no system is asked.
pub proof fn lemma_unknown_name_not_found(systems: Seq<SystemView>, call: ToolCallView)
    requires
        call.name != READ_RESOURCE@,
        forall|p: int|
            0 <= p < catalog(systems).len() ==> (#[trigger] catalog(systems)[p]).name != call.name,
    ensures
        dispatch(systems, call) == DispatchView::Respond(Err(ToolErrorView::NotFound(call.name))),
{
    lemma_find_entry(catalog(systems), call.name, 0);
}

/// A call of a name under which the catalog offers a tool goes to the system
/// that owns the first such line, under the tool's own name and with the
/// call's arguments.
pub proof fn lemma_known_name_forwarded(systems: Seq<SystemView>, call: ToolCallView, p: int)
    requires
        call.name != READ_RESOURCE@,
        0 <= p < catalog(systems).len(),
        catalog(systems)[p].name == call.name,
        forall|q: int| 0 <= q < p ==> (#[trigger] catalog(systems)[q]).name != call.name,
    ensures
        dispatch(systems, call) == (DispatchView::Forward {
            system: catalog(systems)[p].system,
            tool: catalog(systems)[p].tool,
            arguments: call.arguments,
        }),
{
    lemma_find_entry(catalog(systems), call.name, 0);
}

/// A call of `read_resource` that names no system goes to the first system,
/// in registration order, that lists the URI.
pub proof fn lemma_read_resource_first_match(
    systems: Seq<SystemView>,
    arguments: Seq<ArgumentView>,
    uri: Seq<char>,
    i: int,
)
    requires
        text_argument(arguments, URI@) == Some(uri),
        text_argument(arguments, SYSTEM_NAME@) is None,
        0 <= i < systems.len(),
        lists(systems[i], uri),
        forall|k: int| 0 <= k < i ==> !lists(#[trigger] systems[k], uri),
    ensures
        dispatch_read_resource(systems, arguments) == (DispatchView::ReadResource {
            system: systems[i].name,
            uri,
        }),
{
    lemma_find_resource(systems, uri, 0);
}

/// A call of `read_resource` that names no system, for a URI that no system
/// lists, is answered with `NotFound`.
pub proof fn lemma_read_resource_no_match(
    systems: Seq<SystemView>,
    arguments: Seq<ArgumentView>,
    uri: Seq<char>,
)
    requires
        text_argument(arguments, URI@) == Some(uri),
        text_argument(arguments, SYSTEM_NAME@) is None,
        forall|k: int| 0 <= k < systems.len() ==> !lists(#[trigger] systems[k], uri),
    ensures
        dispatch_read_resource(systems, arguments) == DispatchView::Respond(
            Err(ToolErrorView::NotFound(uri)),
        ),
{
    lemma_find_resource(systems, uri, 0);
}

} // verus!
