//! The registry of connected systems, together with the model backend's
//! handle and the log of what each completion cost.

use crate::catalog::{
    catalog, catalog_entry, catalog_prefix, collides, distinct_names, exposes, find_entry,
    find_resource, find_system, has_system, lemma_find_system, lists, prompt_prefix, qualified,
    resource_entry, resource_listing, resources_prefix, system_entries, system_prompt,
    system_resources, SEPARATOR,
};
use crate::dispatch::{dispatch, Dispatch, READ_RESOURCE, SYSTEM_NAME, URI};
use crate::message::{find_text, views, ToolCall, ToolError};
use crate::system::{
    Connection, ProviderUsage, ProviderUsageView, ResourceEntry, SystemConnector, SystemError,
    SystemErrorView, SystemView, ToolCatalogEntry,
};
use vstd::prelude::*;
use vstd::string::*;

verus! {

/// The systems that are connected, in the order they were registered, the
/// handle of the model backend, and the usage of every completion so far.
///
/// `P` is the backend's handle and `C` a system's; neither is looked into.
pub struct Capabilities<P, C> {
    provider: P,
    systems: Vec<SystemConnector<C>>,
    usage: Vec<ProviderUsage>,
}

/// A system's name qualified before a tool's name.
pub fn qualify(system: &String, tool: &String) -> (name: String)
    ensures
        name@ == qualified(system@, tool@),
{
    let mut name = system.clone();
    name.append(SEPARATOR);
    name.append(tool.as_str());
    name
}

/// Whether the system offers a tool of that name.
pub fn exposes_tool<C>(system: &SystemConnector<C>, tool: &String) -> (r: bool)
    ensures
        r == exposes(system@, tool@),
{
    let mut j: usize = 0;
    while j < system.tools.len()
        invariant
            j <= system.tools.len(),
            forall|k: int| 0 <= k < j ==> (#[trigger] system@.tools[k]).name != tool@,
        decreases system.tools.len() - j,
    {
        if system.tools[j].name == *tool {
            assert(system@.tools[j as int].name == tool@);
            return true;
        }
        j += 1;
    }
    false
}

impl<P, C> Capabilities<P, C> {
    /// The registered systems as they are held, handles included, in
    /// registration order.
    pub closed spec fn registry(&self) -> Seq<SystemConnector<C>> {
        self.systems@
    }

    /// The registered systems without their handles.
    pub open spec fn systems(&self) -> Seq<SystemView> {
        views(self.registry())
    }

    /// The usage of every completion recorded so far, oldest first.
    pub closed spec fn usage_log(&self) -> Seq<ProviderUsageView> {
        views(self.usage@)
    }

    /// The handle of the model backend.
    pub closed spec fn provider_handle(&self) -> P {
        self.provider
    }

    /// The registry's invariant: a name is registered at most once.
    pub open spec fn wf(&self) -> bool {
        distinct_names(self.systems())
    }

    /// A registry with no system and an empty usage log.
    pub fn new(provider: P) -> (c: Self)
        ensures
            c.wf(),
            c.registry() == Seq::<SystemConnector<C>>::empty(),
            c.usage_log() == Seq::<ProviderUsageView>::empty(),
            c.provider_handle() == provider,
    {
        let c = Capabilities { provider, systems: Vec::new(), usage: Vec::new() };
        assert(views(c.usage@) =~= Seq::<ProviderUsageView>::empty());
        c
    }

    /// Where the system of that name stands in the registry.
    pub fn position(&self, name: &String) -> (r: Option<usize>)
        ensures
            match r {
                Some(i) => i < self.systems().len() && find_system(self.systems(), name@, 0)
                    == Some(i as int),
                None => find_system(self.systems(), name@, 0) is None,
            },
    {
        let mut i: usize = 0;
        while i < self.systems.len()
            invariant
                i <= self.systems.len(),
                find_system(self.systems(), name@, 0) == find_system(
                    self.systems(),
                    name@,
                    i as int,
                ),
            decreases self.systems.len() - i,
        {
            if self.systems[i].name == *name {
                return Some(i);
            }
            i += 1;
        }
        None
    }

    /// Says whether a system can be registered under `name`: a name that is
    /// taken is refused as `DuplicateName`. Asked before a handshake is
    /// attempted, it spares the attempt.
    pub fn check_name(&self, name: &str) -> (r: Result<(), SystemError>)
        ensures
            match r {
                Ok(()) => !has_system(self.systems(), name@),
                Err(e) => has_system(self.systems(), name@) && e@ == SystemErrorView::DuplicateName(
                    name@,
                ),
            },
    {
        let wanted = name.to_owned();
        proof {
            lemma_find_system(self.systems(), name@, 0);
        }
        match self.position(&wanted) {
            Some(_) => Err(SystemError::DuplicateName(wanted)),
            None => Ok(()),
        }
    }

    /// Registers a system under `name`, given how the handshake with it went.
    ///
    /// A name that is taken is refused as `DuplicateName`, however the
    /// handshake went. Under a free name, a failed handshake is reported as
    /// `ConnectionError` with the reason. Either way the registry stays as it
    /// was. Otherwise the system is registered last.
    pub fn add_system(&mut self, name: String, connection: Result<Connection<C>, String>) -> (r:
        Result<(), SystemError>)
        requires
            old(self).wf(),
        ensures
            final(self).wf(),
            final(self).provider_handle() == old(self).provider_handle(),
            final(self).usage_log() == old(self).usage_log(),
            if has_system(old(self).systems(), name@) {
                &&& r matches Err(e) && e@ == SystemErrorView::DuplicateName(name@)
                &&& final(self).registry() == old(self).registry()
            } else {
                match connection {
                    Err(reason) => {
                        &&& r matches Err(e) && e@ == SystemErrorView::ConnectionError(reason@)
                        &&& final(self).registry() == old(self).registry()
                    },
                    Ok(c) => {
                        &&& r is Ok
                        &&& final(self).registry() == old(self).registry().push(
                            SystemConnector::of(name, c),
                        )
                    },
                }
            },
    {
        proof {
            lemma_find_system(self.systems(), name@, 0);
        }
        if self.position(&name).is_some() {
            return Err(SystemError::DuplicateName(name));
        }
        match connection {
            Err(reason) => Err(SystemError::ConnectionError(reason)),
            Ok(c) => {
                let ghost before = self.systems();
                let system = SystemConnector::new(name, c);
                self.systems.push(system);
                assert(self.systems() =~= before.push(system@));
                Ok(())
            },
        }
    }

    /// Takes the system of that name out of the registry and hands it back,
    /// for its connection to be closed. Where no system has the name, nothing
    /// changes and nothing is handed back.
    pub fn remove_system(&mut self, name: &str) -> (r: Option<SystemConnector<C>>)
        requires
            old(self).wf(),
        ensures
            final(self).wf(),
            final(self).provider_handle() == old(self).provider_handle(),
            final(self).usage_log() == old(self).usage_log(),
            match find_system(old(self).systems(), name@, 0) {
                Some(i) => {
                    &&& r == Some(old(self).registry()[i])
                    &&& final(self).registry() == old(self).registry().remove(i)
                },
                None => r is None && final(self).registry() == old(self).registry(),
            },
    {
        let wanted = name.to_owned();
        proof {
            lemma_find_system(self.systems(), name@, 0);
        }
        match self.position(&wanted) {
            None => None,
            Some(i) => {
                let ghost before = self.systems();
                let system = self.systems.remove(i);
                assert(self.systems() =~= before.remove(i as int));
                Some(system)
            },
        }
    }

    /// The names of the registered systems, in registration order.
    pub fn list_systems(&self) -> (names: Vec<String>)
        ensures
            names@.len() == self.systems().len(),
            forall|i: int| 0 <= i < names@.len() ==> (#[trigger] names@[i])@ == self.systems()[i].name,
    {
        let mut names: Vec<String> = Vec::new();
        let mut i: usize = 0;
        while i < self.systems.len()
            invariant
                i <= self.systems.len(),
                names@.len() == i,
                forall|k: int| 0 <= k < i ==> (#[trigger] names@[k])@ == self.systems()[k].name,
            decreases self.systems.len() - i,
        {
            names.push(self.systems[i].name.clone());
            i += 1;
        }
        names
    }

    /// The handle of the system of that name.
    pub fn handle(&self, name: &str) -> (r: Option<&C>)
        ensures
            match find_system(self.systems(), name@, 0) {
                Some(i) => r == Some(&self.registry()[i].handle),
                None => r is None,
            },
    {
        let wanted = name.to_owned();
        match self.position(&wanted) {
            None => None,
            Some(i) => Some(&self.systems[i].handle),
        }
    }

    /// The handle of the model backend.
    pub fn provider(&self) -> (p: &P)
        ensures
            *p == self.provider_handle(),
    {
        &self.provider
    }

    /// Appends the usage of one completion to the log.
    pub fn record_usage(&mut self, usage: ProviderUsage)
        ensures
            final(self).usage_log() == old(self).usage_log().push(usage@),
            final(self).registry() == old(self).registry(),
            final(self).provider_handle() == old(self).provider_handle(),
    {
        self.usage.push(usage);
        assert(views(self.usage@) =~= views(old(self).usage@).push(usage@));
    }

    /// A copy of the usage log, oldest first.
    pub fn get_usage(&self) -> (log: Vec<ProviderUsage>)
        ensures
            views(log@) == self.usage_log(),
    {
        let log = self.usage.clone();
        assert(views(log@) =~= views(self.usage@));
        log
    }
}

impl<P, C> Capabilities<P, C> {
    /// Whether a system other than the one at `i` offers a tool of that name.
    pub fn collides_with(&self, i: usize, tool: &String) -> (r: bool)
        ensures
            r == collides(self.systems(), i as int, tool@),
    {
        let mut k: usize = 0;
        while k < self.systems.len()
            invariant
                k <= self.systems.len(),
                forall|m: int|
                    0 <= m < k && m != i ==> !exposes(#[trigger] self.systems()[m], tool@),
            decreases self.systems.len() - k,
        {
            if k != i && exposes_tool(&self.systems[k], tool) {
                assert(exposes(self.systems()[k as int], tool@));
                return true;
            }
            k += 1;
        }
        false
    }

    /// The merged tool catalog. A tool stands under its own name unless
    /// another system offers a tool of the same name; then each of them
    /// stands under its qualified name.
    pub fn get_prefixed_tools(&self) -> (entries: Vec<ToolCatalogEntry>)
        ensures
            views(entries@) == catalog(self.systems()),
    {
        let ghost systems = self.systems();
        let mut entries: Vec<ToolCatalogEntry> = Vec::new();
        let mut i: usize = 0;
        assert(views(entries@) =~= catalog_prefix(systems, 0));
        while i < self.systems.len()
            invariant
                i <= self.systems.len(),
                systems == self.systems(),
                views(entries@) == catalog_prefix(systems, i as int),
            decreases self.systems.len() - i,
        {
            let system = &self.systems[i];
            let mut j: usize = 0;
            assert(views(entries@) =~= catalog_prefix(systems, i as int) + system_entries(
                systems,
                i as int,
                0,
            ));
            while j < system.tools.len()
                invariant
                    i < self.systems.len(),
                    j <= system.tools.len(),
                    systems == self.systems(),
                    *system == self.systems@[i as int],
                    views(entries@) == catalog_prefix(systems, i as int) + system_entries(
                        systems,
                        i as int,
                        j as int,
                    ),
                decreases system.tools.len() - j,
            {
                let tool = &system.tools[j];
                let name = if self.collides_with(i, &tool.name) {
                    qualify(&system.name, &tool.name)
                } else {
                    tool.name.clone()
                };
                let entry = ToolCatalogEntry {
                    name,
                    system: system.name.clone(),
                    tool: tool.name.clone(),
                    description: tool.description.clone(),
                    input_schema: tool.input_schema.clone(),
                };
                assert(systems[i as int].tools[j as int] == tool@);
                assert(entry@ == catalog_entry(systems, i as int, j as int));
                let ghost before = views(entries@);
                entries.push(entry);
                assert(views(entries@) =~= before.push(entry@));
                assert(system_entries(systems, i as int, j + 1) =~= system_entries(
                    systems,
                    i as int,
                    j as int,
                ).push(entry@));
                assert(views(entries@) =~= catalog_prefix(systems, i as int) + system_entries(
                    systems,
                    i as int,
                    j + 1,
                ));
                j += 1;
            }
            assert(systems[i as int].tools.len() == system.tools.len());
            i += 1;
        }
        entries
    }

    /// The merged system prompt: each system's instructions, in registration
    /// order, with nothing between them.
    pub fn get_system_prompt(&self) -> (prompt: String)
        ensures
            prompt@ == system_prompt(self.systems()),
    {
        let mut prompt = String::new();
        let mut i: usize = 0;
        while i < self.systems.len()
            invariant
                i <= self.systems.len(),
                prompt@ == prompt_prefix(self.systems(), i as int),
            decreases self.systems.len() - i,
        {
            prompt.append(self.systems[i].instructions.as_str());
            i += 1;
        }
        prompt
    }

    /// The merged resource listing: every resource of every system, tagged
    /// with the system that owns it.
    pub fn get_resources(&self) -> (entries: Vec<ResourceEntry>)
        ensures
            views(entries@) == resource_listing(self.systems()),
    {
        let ghost systems = self.systems();
        let mut entries: Vec<ResourceEntry> = Vec::new();
        let mut i: usize = 0;
        assert(views(entries@) =~= resources_prefix(systems, 0));
        while i < self.systems.len()
            invariant
                i <= self.systems.len(),
                systems == self.systems(),
                views(entries@) == resources_prefix(systems, i as int),
            decreases self.systems.len() - i,
        {
            let system = &self.systems[i];
            let mut j: usize = 0;
            assert(views(entries@) =~= resources_prefix(systems, i as int) + system_resources(
                systems,
                i as int,
                0,
            ));
            while j < system.resources.len()
                invariant
                    i < self.systems.len(),
                    j <= system.resources.len(),
                    systems == self.systems(),
                    *system == self.systems@[i as int],
                    views(entries@) == resources_prefix(systems, i as int) + system_resources(
                        systems,
                        i as int,
                        j as int,
                    ),
                decreases system.resources.len() - j,
            {
                let resource = &system.resources[j];
                let entry = ResourceEntry {
                    system: system.name.clone(),
                    uri: resource.uri.clone(),
                    description: resource.description.clone(),
                };
                assert(systems[i as int].resources[j as int] == resource@);
                assert(entry@ == resource_entry(systems, i as int, j as int));
                let ghost before = views(entries@);
                entries.push(entry);
                assert(views(entries@) =~= before.push(entry@));
                assert(system_resources(systems, i as int, j + 1) =~= system_resources(
                    systems,
                    i as int,
                    j as int,
                ).push(entry@));
                assert(views(entries@) =~= resources_prefix(systems, i as int)
                    + system_resources(systems, i as int, j + 1));
                j += 1;
            }
            assert(systems[i as int].resources.len() == system.resources.len());
            i += 1;
        }
        entries
    }
}

/// Whether the system lists a resource at that URI.
pub fn lists_resource<C>(system: &SystemConnector<C>, uri: &String) -> (r: bool)
    ensures
        r == lists(system@, uri@),
{
    let mut j: usize = 0;
    while j < system.resources.len()
        invariant
            j <= system.resources.len(),
            forall|k: int| 0 <= k < j ==> (#[trigger] system@.resources[k]).uri != uri@,
        decreases system.resources.len() - j,
    {
        if system.resources[j].uri == *uri {
            assert(system@.resources[j as int].uri == uri@);
            return true;
        }
        j += 1;
    }
    false
}

impl<P, C> Capabilities<P, C> {
    /// Where the first system that lists a resource at that URI stands in the
    /// registry.
    pub fn first_listing(&self, uri: &String) -> (r: Option<usize>)
        ensures
            match r {
                Some(i) => i < self.systems().len() && find_resource(self.systems(), uri@, 0)
                    == Some(i as int),
                None => find_resource(self.systems(), uri@, 0) is None,
            },
    {
        let mut i: usize = 0;
        while i < self.systems.len()
            invariant
                i <= self.systems.len(),
                find_resource(self.systems(), uri@, 0) == find_resource(
                    self.systems(),
                    uri@,
                    i as int,
                ),
            decreases self.systems.len() - i,
        {
            if lists_resource(&self.systems[i], uri) {
                return Some(i);
            }
            i += 1;
        }
        None
    }

    /// Decides where a tool call goes. Nothing is sent: the caller asks the
    /// system that the decision names and turns its answer into the call's
    /// result. A name that the catalog does not hold is answered with
    /// `NotFound` and never fails otherwise.
    pub fn dispatch_tool_call(&self, call: &ToolCall) -> (d: Dispatch)
        ensures
            d@ == dispatch(self.systems(), call@),
    {
        if call.name == READ_RESOURCE.to_owned() {
            let uri = match find_text(&call.arguments, URI) {
                None => {
                    return Dispatch::Respond(Err(ToolError::InvalidParameters(URI.to_owned())));
                },
                Some(uri) => uri,
            };
            match find_text(&call.arguments, SYSTEM_NAME) {
                Some(system) => {
                    proof {
                        lemma_find_system(self.systems(), system@, 0);
                    }
                    if self.position(system).is_some() {
                        Dispatch::ReadResource { system: system.clone(), uri: uri.clone() }
                    } else {
                        Dispatch::Respond(Err(ToolError::NotFound(system.clone())))
                    }
                },
                None => match self.first_listing(uri) {
                    Some(i) => Dispatch::ReadResource {
                        system: self.systems[i].name.clone(),
                        uri: uri.clone(),
                    },
                    None => Dispatch::Respond(Err(ToolError::NotFound(uri.clone()))),
                },
            }
        } else {
            let entries = self.get_prefixed_tools();
            let ghost lines = catalog(self.systems());
            let mut p: usize = 0;
            while p < entries.len()
                invariant
                    p <= entries.len(),
                    call@.name != READ_RESOURCE@,
                    lines == catalog(self.systems()),
                    views(entries@) == lines,
                    find_entry(lines, call@.name, 0) == find_entry(lines, call@.name, p as int),
                decreases entries.len() - p,
            {
                assert(lines[p as int] == entries@[p as int]@);
                if entries[p].name == call.name {
                    let arguments = call.arguments.clone();
                    assert(views(arguments@) =~= views(call.arguments@));
                    return Dispatch::Forward {
                        system: entries[p].system.clone(),
                        tool: entries[p].tool.clone(),
                        arguments,
                    };
                }
                p += 1;
            }
            Dispatch::Respond(Err(ToolError::NotFound(call.name.clone())))
        }
    }
}

/// The log after the usages of `usages` have been recorded one by one, as
/// `record_usage` records them.
pub open spec fn recorded(log: Seq<ProviderUsageView>, usages: Seq<ProviderUsageView>) -> Seq<
    ProviderUsageView,
>
    decreases usages.len(),
{
    if usages.len() == 0 {
        log
    } else {
        recorded(log, usages.drop_last()).push(usages.last())
    }
}

/// Recording is cumulative and keeps the order: after `k` more completions
/// the log is what it was, followed by their `k` usages in the order they
/// were recorded. A log that began empty then holds exactly `k` entries.
pub proof fn lemma_usage_accumulates(log: Seq<ProviderUsageView>, usages: Seq<ProviderUsageView>)
    ensures
        recorded(log, usages) == log + usages,
        recorded(log, usages).len() == log.len() + usages.len(),
        recorded(Seq::empty(), usages) == usages,
    decreases usages.len(),
{
    if usages.len() > 0 {
        lemma_usage_accumulates(log, usages.drop_last());
        lemma_usage_accumulates(Seq::empty(), usages.drop_last());
        assert(usages.drop_last().push(usages.last()) =~= usages);
    }
    assert(recorded(log, usages) =~= log + usages);
    assert(recorded(Seq::empty(), usages) =~= usages);
}

} // verus!
