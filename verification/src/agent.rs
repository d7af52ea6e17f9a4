//! The agent: it owns the registry for its lifetime, and begins and advances
//! replies against it.

use crate::capabilities::Capabilities;
use crate::catalog::{catalog, find_system, has_system};
use crate::dispatch::read_resource_tool;
use crate::message::{clone_messages, views, Message};
use crate::reply::{
    dispatch_set, offered_tools, Completion, ReplyError, ReplyPhase, ReplySession, ReplyState,
};
use crate::system::{
    Connection, ProviderUsage, SystemConnector, SystemError, SystemErrorView, Tool,
    ToolCatalogEntry,
};
use vstd::prelude::*;

verus! {

/// The reference agent. It makes no attempt to keep a conversation within
/// the model's context limit.
pub struct ReferenceAgent<P, C> {
    capabilities: Capabilities<P, C>,
}

impl<P, C> View for ReferenceAgent<P, C> {
    type V = Capabilities<P, C>;

    /// The agent's registry.
    closed spec fn view(&self) -> Capabilities<P, C> {
        self.capabilities
    }
}

impl<P, C> ReferenceAgent<P, C> {
    /// An agent on the given model backend, with no system connected.
    pub fn new(provider: P) -> (agent: Self)
        ensures
            agent@.wf(),
            agent@.registry() == Seq::<SystemConnector<C>>::empty(),
            agent@.usage_log().len() == 0,
            agent@.provider_handle() == provider,
    {
        ReferenceAgent { capabilities: Capabilities::new(provider) }
    }

    /// The agent's registry.
    pub fn capabilities(&self) -> (c: &Capabilities<P, C>)
        ensures
            *c == self@,
    {
        &self.capabilities
    }

    /// Says whether a system can be registered under `name`: a name that is
    /// taken is refused as `DuplicateName`.
    pub fn check_name(&self, name: &str) -> (r: Result<(), SystemError>)
        ensures
            match r {
                Ok(()) => !has_system(self@.systems(), name@),
                Err(e) => has_system(self@.systems(), name@) && e@
                    == SystemErrorView::DuplicateName(name@),
            },
    {
        self.capabilities.check_name(name)
    }

    /// Registers a system under `name`, given how the handshake with it went.
    /// A name that is taken is refused as `DuplicateName`, however the
    /// handshake went; under a free name a failed handshake is refused as
    /// `ConnectionError`. The registry then stays as it was.
    pub fn add_system(&mut self, name: String, connection: Result<Connection<C>, String>) -> (r:
        Result<(), SystemError>)
        requires
            old(self)@.wf(),
        ensures
            final(self)@.wf(),
            final(self)@.provider_handle() == old(self)@.provider_handle(),
            final(self)@.usage_log() == old(self)@.usage_log(),
            if has_system(old(self)@.systems(), name@) {
                &&& r matches Err(e) && e@ == SystemErrorView::DuplicateName(name@)
                &&& final(self)@.registry() == old(self)@.registry()
            } else {
                match connection {
                    Err(reason) => {
                        &&& r matches Err(e) && e@ == SystemErrorView::ConnectionError(reason@)
                        &&& final(self)@.registry() == old(self)@.registry()
                    },
                    Ok(c) => {
                        &&& r is Ok
                        &&& final(self)@.registry() == old(self)@.registry().push(
                            SystemConnector::of(name, c),
                        )
                    },
                }
            },
    {
        self.capabilities.add_system(name, connection)
    }

    /// Takes the system of that name out of the registry and hands it back.
    /// Where no system has the name, nothing changes.
    pub fn remove_system(&mut self, name: &str) -> (r: Option<SystemConnector<C>>)
        requires
            old(self)@.wf(),
        ensures
            final(self)@.wf(),
            final(self)@.provider_handle() == old(self)@.provider_handle(),
            final(self)@.usage_log() == old(self)@.usage_log(),
            match find_system(old(self)@.systems(), name@, 0) {
                Some(i) => {
                    &&& r == Some(old(self)@.registry()[i])
                    &&& final(self)@.registry() == old(self)@.registry().remove(i)
                },
                None => r is None && final(self)@.registry() == old(self)@.registry(),
            },
    {
        self.capabilities.remove_system(name)
    }

    /// The names of the registered systems, in registration order.
    pub fn list_systems(&self) -> (names: Vec<String>)
        ensures
            names@.len() == self@.systems().len(),
            forall|i: int| 0 <= i < names@.len() ==> (#[trigger] names@[i])@ == self@.systems()[i].name,
    {
        self.capabilities.list_systems()
    }

    /// A copy of the usage log, oldest first.
    pub fn usage(&self) -> (log: Vec<ProviderUsage>)
        ensures
            views(log@) == self@.usage_log(),
    {
        self.capabilities.get_usage()
    }

    /// Begins a reply to a conversation. The session holds a copy of the
    /// conversation, the merged system prompt, the merged resource listing
    /// and the tools to offer: the merged catalog and, last, the built-in
    /// `read_resource`. The next step is a completion.
    pub fn reply(&self, messages: &Vec<Message>) -> (session: ReplySession)
        ensures
            session@.wf(),
            session@ == ReplyState::start(views(messages@), self@.systems()),
    {
        let ghost lines = catalog(self@.systems());
        let entries = self.capabilities.get_prefixed_tools();
        let mut tools: Vec<Tool> = Vec::new();
        let mut p: usize = 0;
        while p < entries.len()
            invariant
                p <= entries.len(),
                views(entries@) == lines,
                tools@.len() == p,
                forall|q: int|
                    0 <= q < p ==> (#[trigger] tools@[q])@ == ToolCatalogEntry::offered(lines[q]),
            decreases entries.len() - p,
        {
            assert(lines[p as int] == entries@[p as int]@);
            tools.push(entries[p].to_tool());
            p += 1;
        }
        tools.push(read_resource_tool());
        assert(views(tools@) =~= offered_tools(self@.systems()));
        let system_prompt = self.capabilities.get_system_prompt();
        let resources = self.capabilities.get_resources();
        ReplySession::begin(clone_messages(messages), system_prompt, tools, resources)
    }

    /// Takes the completion that the model backend returned for a session,
    /// with its usage. The usage is recorded, and the session goes on as
    /// `ReplySession::on_completion` says. A completion that the session did
    /// not await is refused, and its usage is not recorded.
    pub fn on_completion(
        &mut self,
        session: &mut ReplySession,
        response: Message,
        usage: ProviderUsage,
    ) -> (r: Result<Completion, ReplyError>)
        requires
            old(self)@.wf(),
            old(session)@.wf(),
        ensures
            final(self)@.wf(),
            final(session)@.wf(),
            final(self)@.registry() == old(self)@.registry(),
            final(self)@.provider_handle() == old(self)@.provider_handle(),
            match r {
                Ok(step) => {
                    &&& old(session)@.phase == ReplyPhase::AwaitingCompletion
                    &&& final(self)@.usage_log() == old(self)@.usage_log().push(usage@)
                    &&& final(session)@ == old(session)@.after_completion(response@)
                    &&& step.emitted@ == response@
                    &&& views(step.calls@) == dispatch_set(response@.content)
                },
                Err(e) => {
                    &&& old(session)@.phase != ReplyPhase::AwaitingCompletion
                    &&& e == ReplyError::NotAwaitingCompletion
                    &&& final(self)@.usage_log() == old(self)@.usage_log()
                    &&& final(session)@ == old(session)@
                },
            },
    {
        match session.phase() {
            ReplyPhase::AwaitingCompletion => {},
            _ => {
                return Err(ReplyError::NotAwaitingCompletion);
            },
        }
        self.capabilities.record_usage(usage);
        session.on_completion(response)
    }
}

} // verus!
