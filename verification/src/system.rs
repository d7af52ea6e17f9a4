//! What a connected system declares of itself: its tools, its resources and
//! its instructions, and the record that the registry keeps of it.

use crate::message::views;
use vstd::prelude::*;

verus! {

/// A callable action that a system offers. `input_schema` is the JSON schema
/// of its arguments, carried as text.
#[derive(Debug, PartialEq, Eq)]
pub struct Tool {
    pub name: String,
    pub description: String,
    pub input_schema: String,
}

pub struct ToolView {
    pub name: Seq<char>,
    pub description: Seq<char>,
    pub input_schema: Seq<char>,
}

impl View for Tool {
    type V = ToolView;

    open spec fn view(&self) -> ToolView {
        ToolView {
            name: self.name@,
            description: self.description@,
            input_schema: self.input_schema@,
        }
    }
}

impl Clone for Tool {
    fn clone(&self) -> (r: Self)
        ensures
            r@ == self@,
    {
        Tool {
            name: self.name.clone(),
            description: self.description.clone(),
            input_schema: self.input_schema.clone(),
        }
    }
}

/// A context artifact that a system can supply, addressed by its URI.
#[derive(Debug, PartialEq, Eq)]
pub struct Resource {
    pub uri: String,
    pub description: String,
}

pub struct ResourceView {
    pub uri: Seq<char>,
    pub description: Seq<char>,
}

impl View for Resource {
    type V = ResourceView;

    open spec fn view(&self) -> ResourceView {
        ResourceView { uri: self.uri@, description: self.description@ }
    }
}

impl Clone for Resource {
    fn clone(&self) -> (r: Self)
        ensures
            r@ == self@,
    {
        Resource { uri: self.uri.clone(), description: self.description.clone() }
    }
}

/// What a completed handshake with a system yields: the handle through which
/// it is reached, and what it declared of itself.
pub struct Connection<C> {
    pub handle: C,
    pub instructions: String,
    pub tools: Vec<Tool>,
    pub resources: Vec<Resource>,
}

/// One registered system: a connection and the name it is registered under.
pub struct SystemConnector<C> {
    pub name: String,
    pub handle: C,
    pub instructions: String,
    pub tools: Vec<Tool>,
    pub resources: Vec<Resource>,
}

/// A registered system without its handle.
pub struct SystemView {
    pub name: Seq<char>,
    pub instructions: Seq<char>,
    pub tools: Seq<ToolView>,
    pub resources: Seq<ResourceView>,
}

impl<C> View for SystemConnector<C> {
    type V = SystemView;

    open spec fn view(&self) -> SystemView {
        SystemView {
            name: self.name@,
            instructions: self.instructions@,
            tools: views(self.tools@),
            resources: views(self.resources@),
        }
    }
}

impl<C> SystemConnector<C> {
    /// The record of a connection under a name.
    pub fn new(name: String, connection: Connection<C>) -> (s: Self)
        ensures
            s == Self::of(name, connection),
    {
        SystemConnector {
            name,
            handle: connection.handle,
            instructions: connection.instructions,
            tools: connection.tools,
            resources: connection.resources,
        }
    }

    /// What `new` builds.
    pub open spec fn of(name: String, connection: Connection<C>) -> Self {
        SystemConnector {
            name,
            handle: connection.handle,
            instructions: connection.instructions,
            tools: connection.tools,
            resources: connection.resources,
        }
    }
}

/// Why a system was not registered.
#[derive(Debug, PartialEq, Eq)]
pub enum SystemError {
    /// The handshake with the system failed; the detail is the reason given.
    ConnectionError(String),
    /// A system is already registered under the name, which is the detail.
    DuplicateName(String),
}

pub enum SystemErrorView {
    ConnectionError(Seq<char>),
    DuplicateName(Seq<char>),
}

impl View for SystemError {
    type V = SystemErrorView;

    open spec fn view(&self) -> SystemErrorView {
        match self {
            SystemError::ConnectionError(d) => SystemErrorView::ConnectionError(d@),
            SystemError::DuplicateName(d) => SystemErrorView::DuplicateName(d@),
        }
    }
}

/// One line of the merged tool catalog.
#[derive(Debug, PartialEq, Eq)]
pub struct ToolCatalogEntry {
    /// The name under which the tool is offered and called.
    pub name: String,
    /// The system that owns the tool.
    pub system: String,
    /// The tool's name within its system.
    pub tool: String,
    pub description: String,
    pub input_schema: String,
}

pub struct ToolCatalogEntryView {
    pub name: Seq<char>,
    pub system: Seq<char>,
    pub tool: Seq<char>,
    pub description: Seq<char>,
    pub input_schema: Seq<char>,
}

impl View for ToolCatalogEntry {
    type V = ToolCatalogEntryView;

    open spec fn view(&self) -> ToolCatalogEntryView {
        ToolCatalogEntryView {
            name: self.name@,
            system: self.system@,
            tool: self.tool@,
            description: self.description@,
            input_schema: self.input_schema@,
        }
    }
}

impl ToolCatalogEntry {
    /// The tool as it is shown to the model: under its catalog name.
    pub open spec fn offered(entry: ToolCatalogEntryView) -> ToolView {
        ToolView {
            name: entry.name,
            description: entry.description,
            input_schema: entry.input_schema,
        }
    }

    /// The tool as it is shown to the model.
    pub fn to_tool(&self) -> (t: Tool)
        ensures
            t@ == Self::offered(self@),
    {
        Tool {
            name: self.name.clone(),
            description: self.description.clone(),
            input_schema: self.input_schema.clone(),
        }
    }
}

/// One line of the merged resource listing.
#[derive(Debug, PartialEq, Eq)]
pub struct ResourceEntry {
    /// The system that owns the resource.
    pub system: String,
    pub uri: String,
    pub description: String,
}

pub struct ResourceEntryView {
    pub system: Seq<char>,
    pub uri: Seq<char>,
    pub description: Seq<char>,
}

impl View for ResourceEntry {
    type V = ResourceEntryView;

    open spec fn view(&self) -> ResourceEntryView {
        ResourceEntryView { system: self.system@, uri: self.uri@, description: self.description@ }
    }
}

impl Clone for ResourceEntry {
    fn clone(&self) -> (r: Self)
        ensures
            r@ == self@,
    {
        ResourceEntry {
            system: self.system.clone(),
            uri: self.uri.clone(),
            description: self.description.clone(),
        }
    }
}

/// The accounting that comes back with one completion.
#[derive(Debug, PartialEq, Eq)]
pub struct ProviderUsage {
    pub model: String,
    pub input_tokens: Option<i32>,
    pub output_tokens: Option<i32>,
    pub total_tokens: Option<i32>,
}

pub struct ProviderUsageView {
    pub model: Seq<char>,
    pub input_tokens: Option<i32>,
    pub output_tokens: Option<i32>,
    pub total_tokens: Option<i32>,
}

impl View for ProviderUsage {
    type V = ProviderUsageView;

    open spec fn view(&self) -> ProviderUsageView {
        ProviderUsageView {
            model: self.model@,
            input_tokens: self.input_tokens,
            output_tokens: self.output_tokens,
            total_tokens: self.total_tokens,
        }
    }
}

impl Clone for ProviderUsage {
    fn clone(&self) -> (r: Self)
        ensures
            r@ == self@,
    {
        ProviderUsage {
            model: self.model.clone(),
            input_tokens: self.input_tokens,
            output_tokens: self.output_tokens,
            total_tokens: self.total_tokens,
        }
    }
}

} // verus!
