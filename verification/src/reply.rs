//! One reply, as a state machine. The caller does what cannot be done here,
//! asking the model backend for a completion and the systems for the results
//! of tool calls, and reports each outcome; the session decides what follows
//! and which messages are emitted.

use crate::catalog::{
    catalog, distinct_names, lemma_catalog_names_distinct_iff, resource_listing, system_prompt,
    tool_sets, unambiguous,
};
use crate::dispatch::read_resource_tool_view;
use crate::message::{
    clone_result, result_view, views, Message, MessageContent, MessageContentView, MessageView,
    Role, ToolCall, ToolCallView, ToolResponse, ToolResponseView, ToolResult, ToolResultView,
};
use crate::system::{
    ResourceEntry, ResourceEntryView, SystemView, Tool, ToolCatalogEntry, ToolView,
};
use vstd::prelude::*;
use vstd::set_lib::{lemma_int_range, lemma_subset_equality, set_int_range};

verus! {

/// Where a reply stands.
#[derive(Clone, Copy, Debug, PartialEq, Eq, Structural)]
pub enum ReplyPhase {
    /// The next thing to happen is a completion by the model backend.
    AwaitingCompletion,
    /// Tool calls of the last completion are out; the turn waits for all of
    /// their results.
    DispatchingTools,
    /// The reply has ended: the last completion asked for no tool.
    Done,
    /// The reply has ended early: the model backend failed.
    Failed,
}

/// A tool request whose call was parsed.
pub struct Requested {
    pub id: Seq<char>,
    pub call: ToolCallView,
}

/// The state of a reply.
pub struct ReplyState {
    pub phase: ReplyPhase,
    /// The merged system prompt, as it was when the reply began.
    pub system_prompt: Seq<char>,
    /// The tools offered to the model, as they were when the reply began.
    pub tools: Seq<ToolView>,
    /// The merged resource listing, as it was when the reply began.
    pub resources: Seq<ResourceEntryView>,
    /// The conversation that the next completion is asked to continue.
    pub transcript: Seq<MessageView>,
    /// The completion whose tool calls are out.
    pub pending: Option<MessageView>,
    /// For each call that is out, in request order, its result once it is in.
    pub results: Seq<Option<ToolResultView>>,
}

/// The tool requests of a message whose call was parsed, in the order the
/// message holds them. A request whose call was not parsed is left out.
pub open spec fn requested(content: Seq<MessageContentView>) -> Seq<Requested>
    decreases content.len(),
{
    if content.len() == 0 {
        Seq::empty()
    } else {
        let before = requested(content.drop_last());
        match content.last() {
            MessageContentView::ToolRequest(request) => match request.tool_call {
                Ok(call) => before.push(Requested { id: request.id, call }),
                Err(_) => before,
            },
            _ => before,
        }
    }
}

/// The calls to dispatch for a completion, in request order.
pub open spec fn dispatch_set(content: Seq<MessageContentView>) -> Seq<ToolCallView> {
    Seq::new(requested(content).len(), |k: int| requested(content)[k].call)
}

/// Whether every result is in.
pub open spec fn complete(results: Seq<Option<ToolResultView>>) -> bool {
    forall|k: int| 0 <= k < results.len() ==> (#[trigger] results[k]) is Some
}

/// One tool response for each request, in request order, each under the id
/// of its request.
pub open spec fn tool_responses(
    calls: Seq<Requested>,
    results: Seq<Option<ToolResultView>>,
) -> Seq<MessageContentView> {
    Seq::new(
        calls.len(),
        |k: int|
            MessageContentView::ToolResponse(
                ToolResponseView { id: calls[k].id, tool_result: results[k].unwrap() },
            ),
    )
}

/// The message that answers a completion's tool requests.
pub open spec fn response_message(
    calls: Seq<Requested>,
    results: Seq<Option<ToolResultView>>,
) -> MessageView {
    MessageView { role: Role::User, content: tool_responses(calls, results) }
}

/// The tools offered to the model for a reply: the merged catalog, each tool
/// under its catalog name, and the built-in `read_resource` last.
pub open spec fn offered_tools(systems: Seq<SystemView>) -> Seq<ToolView> {
    Seq::new(
        catalog(systems).len(),
        |p: int| ToolCatalogEntry::offered(catalog(systems)[p]),
    ).push(read_resource_tool_view())
}

impl ReplyState {
    /// What holds of every state that a reply goes through: calls are out
    /// exactly while tools are being dispatched, there is then one slot for
    /// each of them, and at least one result is still missing.
    pub open spec fn wf(self) -> bool {
        if self.phase == ReplyPhase::DispatchingTools {
            &&& self.pending is Some
            &&& self.results.len() == requested(self.pending.unwrap().content).len()
            &&& !complete(self.results)
        } else {
            &&& self.pending is None
            &&& self.results.len() == 0
        }
    }

    /// The state in which a reply begins.
    pub open spec fn start(transcript: Seq<MessageView>, systems: Seq<SystemView>) -> ReplyState {
        ReplyState {
            phase: ReplyPhase::AwaitingCompletion,
            system_prompt: system_prompt(systems),
            tools: offered_tools(systems),
            resources: resource_listing(systems),
            transcript,
            pending: None,
            results: Seq::empty(),
        }
    }

    /// The state after a completion. One that asks for no tool ends the
    /// reply; any other sends its calls out, with no result in yet.
    pub open spec fn after_completion(self, response: MessageView) -> ReplyState {
        let calls = requested(response.content);
        if calls.len() == 0 {
            ReplyState { phase: ReplyPhase::Done, ..self }
        } else {
            ReplyState {
                phase: ReplyPhase::DispatchingTools,
                pending: Some(response),
                results: Seq::new(calls.len(), |k: int| None),
                ..self
            }
        }
    }

    /// Whether the result of call `index` can be taken: the call is out and
    /// its result is not in.
    pub open spec fn awaits(self, index: int) -> bool {
        &&& self.phase == ReplyPhase::DispatchingTools
        &&& 0 <= index < self.results.len()
        &&& self.results[index] is None
    }

    /// The state after the result of call `index` has come in. Until the last
    /// result is in, only the slot changes. With the last, the completion and
    /// the message that answers it join the transcript, and the next
    /// completion is awaited.
    pub open spec fn after_result(self, index: int, result: ToolResultView) -> ReplyState {
        let results = self.results.update(index, Some(result));
        if complete(results) {
            let response = self.pending.unwrap();
            ReplyState {
                phase: ReplyPhase::AwaitingCompletion,
                transcript: self.transcript.push(response).push(
                    response_message(requested(response.content), results),
                ),
                pending: None,
                results: Seq::empty(),
                ..self
            }
        } else {
            ReplyState { results, ..self }
        }
    }

    /// The message that `after_result` emits, if it emits one.
    pub open spec fn emitted_after_result(self, index: int, result: ToolResultView) -> Option<
        MessageView,
    > {
        let results = self.results.update(index, Some(result));
        if complete(results) {
            Some(response_message(requested(self.pending.unwrap().content), results))
        } else {
            None
        }
    }

    /// The state after the model backend has failed: the reply ends early.
    pub open spec fn after_provider_error(self) -> ReplyState {
        ReplyState { phase: ReplyPhase::Failed, ..self }
    }

    /// The state after the caller has asked for the reply to stop. Between
    /// turns the reply ends; while calls are out it goes on, so that no call
    /// is left unaccounted for; once ended it stays as it is.
    pub open spec fn after_cancel(self) -> ReplyState {
        if self.phase == ReplyPhase::AwaitingCompletion {
            ReplyState { phase: ReplyPhase::Done, ..self }
        } else {
            self
        }
    }

    /// Why the result of call `index` is refused in this state.
    pub open spec fn refusal(self, index: int) -> ReplyError {
        if self.phase != ReplyPhase::DispatchingTools {
            ReplyError::NotDispatching
        } else if index >= self.results.len() {
            ReplyError::UnknownCall
        } else {
            ReplyError::AlreadyAnswered
        }
    }

    /// The state after results have come in one by one: `order` gives the
    /// calls in the order their results arrived, and `results[k]` is the
    /// result of call `k`.
    pub open spec fn after_results(self, order: Seq<int>, results: Seq<ToolResultView>) -> ReplyState
        decreases order.len(),
    {
        if order.len() == 0 {
            self
        } else {
            self.after_results(order.drop_last(), results).after_result(
                order.last(),
                results[order.last()],
            )
        }
    }
}

/// A completion that asks for more tools has every request of a shorter one.
pub proof fn lemma_requested_grows(content: Seq<MessageContentView>, n: int)
    requires
        0 <= n <= content.len(),
    ensures
        requested(content.take(n)).len() <= requested(content).len(),
    decreases content.len() - n,
{
    if n < content.len() {
        lemma_requested_grows(content, n + 1);
        assert(content.take(n + 1).drop_last() =~= content.take(n));
    } else {
        assert(content.take(n) =~= content);
    }
}

/// Why an event was refused. The session is then as it was before.
#[derive(Clone, Copy, Debug, PartialEq, Eq, Structural)]
pub enum ReplyError {
    /// A completion or a backend failure was reported while none was awaited.
    NotAwaitingCompletion,
    /// A tool result was reported while no call was out.
    NotDispatching,
    /// A tool result was reported for a call that was never sent out.
    UnknownCall,
    /// A tool result was reported for a call whose result is already in.
    AlreadyAnswered,
}

/// What follows a completion: the message to emit, and the calls to send out
/// at once, in request order. With no call, the reply has ended.
#[derive(Debug, PartialEq, Eq)]
pub struct Completion {
    pub emitted: Message,
    pub calls: Vec<ToolCall>,
}

/// The view of a slot: the view of the result in it, if one is in.
pub open spec fn slot_view(slot: Option<ToolResult>) -> Option<ToolResultView> {
    match slot {
        Some(result) => Some(result_view(result)),
        None => None,
    }
}

/// The views of the slots, slot by slot.
pub open spec fn slot_views(slots: Seq<Option<ToolResult>>) -> Seq<Option<ToolResultView>> {
    Seq::new(slots.len(), |k: int| slot_view(slots[k]))
}

/// The view of a message that may be there.
pub open spec fn optional_view(message: Option<Message>) -> Option<MessageView> {
    match message {
        Some(m) => Some(m@),
        None => None,
    }
}

/// The calls of a completion that were parsed, in request order.
pub fn parsed_calls(message: &Message) -> (calls: Vec<ToolCall>)
    ensures
        views(calls@) == dispatch_set(message@.content),
{
    let ghost content = message@.content;
    let mut calls: Vec<ToolCall> = Vec::new();
    let mut i: usize = 0;
    while i < message.content.len()
        invariant
            i <= message.content.len(),
            content == message@.content,
            calls@.len() == requested(content.take(i as int)).len(),
            forall|k: int|
                0 <= k < calls@.len() ==> (#[trigger] calls@[k])@ == requested(
                    content.take(i as int),
                )[k].call,
        decreases message.content.len() - i,
    {
        assert(content.take(i + 1).drop_last() =~= content.take(i as int));
        assert(content.take(i + 1).last() == message.content@[i as int]@);
        match &message.content[i] {
            MessageContent::ToolRequest(request) => match &request.tool_call {
                Ok(call) => {
                    calls.push(call.clone());
                },
                Err(_) => {},
            },
            _ => {},
        }
        i += 1;
    }
    assert(content.take(i as int) =~= content);
    assert(views(calls@) =~= dispatch_set(content));
    calls
}

/// Whether every slot holds a result.
fn all_in(slots: &Vec<Option<ToolResult>>) -> (r: bool)
    ensures
        r == complete(slot_views(slots@)),
{
    let mut k: usize = 0;
    while k < slots.len()
        invariant
            k <= slots.len(),
            forall|m: int| 0 <= m < k ==> (#[trigger] slot_views(slots@)[m]) is Some,
        decreases slots.len() - k,
    {
        if slots[k].is_none() {
            assert(slot_views(slots@)[k as int] is None);
            return false;
        }
        k += 1;
    }
    true
}

/// The message that answers the parsed requests of `response` with the
/// results in the slots, one response for each request and in request order.
fn answer(response: &Message, slots: &Vec<Option<ToolResult>>) -> (m: Message)
    requires
        slots@.len() == requested(response@.content).len(),
        complete(slot_views(slots@)),
    ensures
        m@ == response_message(requested(response@.content), slot_views(slots@)),
{
    let ghost content = response@.content;
    let ghost results = slot_views(slots@);
    let mut parts: Vec<MessageContent> = Vec::new();
    let mut i: usize = 0;
    assert(views(parts@) =~= tool_responses(requested(content.take(0)), results));
    while i < response.content.len()
        invariant
            i <= response.content.len(),
            content == response@.content,
            results == slot_views(slots@),
            complete(results),
            slots@.len() == requested(content).len(),
            parts@.len() == requested(content.take(i as int)).len(),
            views(parts@) == tool_responses(requested(content.take(i as int)), results),
        decreases response.content.len() - i,
    {
        proof {
            lemma_requested_grows(content, i + 1);
            assert(content.take(i + 1).drop_last() =~= content.take(i as int));
            assert(content.take(i + 1).last() == response.content@[i as int]@);
        }
        match &response.content[i] {
            MessageContent::ToolRequest(request) => match &request.tool_call {
                Ok(_) => {
                    let k = parts.len();
                    assert(results[k as int] is Some);
                    let tool_result = clone_result(slots[k].as_ref().unwrap());
                    let ghost before = views(parts@);
                    let part = MessageContent::ToolResponse(
                        ToolResponse { id: request.id.clone(), tool_result },
                    );
                    parts.push(part);
                    assert(views(parts@) =~= before.push(part@));
                    assert(views(parts@) =~= tool_responses(
                        requested(content.take(i + 1)),
                        results,
                    ));
                },
                Err(_) => {},
            },
            _ => {},
        }
        i += 1;
    }
    assert(content.take(i as int) =~= content);
    Message { role: Role::User, content: parts }
}

/// One reply in progress.
pub struct ReplySession {
    phase: ReplyPhase,
    system_prompt: String,
    tools: Vec<Tool>,
    resources: Vec<ResourceEntry>,
    messages: Vec<Message>,
    pending: Option<Message>,
    results: Vec<Option<ToolResult>>,
}

impl View for ReplySession {
    type V = ReplyState;

    closed spec fn view(&self) -> ReplyState {
        ReplyState {
            phase: self.phase,
            system_prompt: self.system_prompt@,
            tools: views(self.tools@),
            resources: views(self.resources@),
            transcript: views(self.messages@),
            pending: optional_view(self.pending),
            results: slot_views(self.results@),
        }
    }
}

impl ReplySession {
    /// A reply that begins: it continues `messages`, with the prompt, tools
    /// and resources that hold for its whole length.
    pub fn begin(
        messages: Vec<Message>,
        system_prompt: String,
        tools: Vec<Tool>,
        resources: Vec<ResourceEntry>,
    ) -> (session: ReplySession)
        ensures
            session@.wf(),
            session@ == (ReplyState {
                phase: ReplyPhase::AwaitingCompletion,
                system_prompt: system_prompt@,
                tools: views(tools@),
                resources: views(resources@),
                transcript: views(messages@),
                pending: None,
                results: Seq::empty(),
            }),
    {
        let session = ReplySession {
            phase: ReplyPhase::AwaitingCompletion,
            system_prompt,
            tools,
            resources,
            messages,
            pending: None,
            results: Vec::new(),
        };
        assert(slot_views(session.results@) =~= Seq::empty());
        session
    }

    /// Where the reply stands.
    pub fn phase(&self) -> (phase: ReplyPhase)
        ensures
            phase == self@.phase,
    {
        self.phase
    }

    /// Whether the reply has ended.
    pub fn is_finished(&self) -> (finished: bool)
        ensures
            finished == (self@.phase == ReplyPhase::Done || self@.phase == ReplyPhase::Failed),
    {
        match self.phase {
            ReplyPhase::Done => true,
            ReplyPhase::Failed => true,
            _ => false,
        }
    }

    /// The system prompt to give the model backend.
    pub fn system_prompt(&self) -> (prompt: &String)
        ensures
            prompt@ == self@.system_prompt,
    {
        &self.system_prompt
    }

    /// The tools to offer the model backend.
    pub fn tools(&self) -> (tools: &Vec<Tool>)
        ensures
            views(tools@) == self@.tools,
    {
        &self.tools
    }

    /// The resources that the systems listed when the reply began.
    pub fn resources(&self) -> (resources: &Vec<ResourceEntry>)
        ensures
            views(resources@) == self@.resources,
    {
        &self.resources
    }

    /// The conversation to give the model backend.
    pub fn messages(&self) -> (messages: &Vec<Message>)
        ensures
            views(messages@) == self@.transcript,
    {
        &self.messages
    }

    /// Takes the completion that the model backend returned.
    ///
    /// The completion is emitted as it is. Its parsed tool calls are to be
    /// sent out, all at once; where it has none the reply is done. A
    /// completion that was not awaited is refused.
    pub fn on_completion(&mut self, response: Message) -> (r: Result<Completion, ReplyError>)
        requires
            old(self)@.wf(),
        ensures
            final(self)@.wf(),
            match r {
                Ok(step) => {
                    &&& old(self)@.phase == ReplyPhase::AwaitingCompletion
                    &&& final(self)@ == old(self)@.after_completion(response@)
                    &&& step.emitted@ == response@
                    &&& views(step.calls@) == dispatch_set(response@.content)
                },
                Err(e) => {
                    &&& old(self)@.phase != ReplyPhase::AwaitingCompletion
                    &&& e == ReplyError::NotAwaitingCompletion
                    &&& final(self)@ == old(self)@
                },
            },
    {
        match self.phase {
            ReplyPhase::AwaitingCompletion => {},
            _ => {
                return Err(ReplyError::NotAwaitingCompletion);
            },
        }
        let calls = parsed_calls(&response);
        let emitted = response.clone();
        assert(views(calls@).len() == dispatch_set(response@.content).len());
        if calls.len() == 0 {
            self.phase = ReplyPhase::Done;
        } else {
            let mut results: Vec<Option<ToolResult>> = Vec::new();
            let mut k: usize = 0;
            while k < calls.len()
                invariant
                    k <= calls.len(),
                    results@.len() == k,
                    forall|m: int| 0 <= m < k ==> (#[trigger] results@[m]) is None,
                decreases calls.len() - k,
            {
                results.push(None);
                k += 1;
            }
            assert(views(calls@).len() == dispatch_set(response@.content).len());
            assert(slot_views(results@) =~= Seq::new(
                requested(response@.content).len(),
                |k: int| None::<ToolResultView>,
            ));
            assert(slot_views(results@)[0] is None);
            self.results = results;
            self.pending = Some(response);
            self.phase = ReplyPhase::DispatchingTools;
        }
        Ok(Completion { emitted, calls })
    }

    /// Takes the result of the call at `index` of the calls that are out.
    ///
    /// Results may come in any order. Until the last is in, nothing is
    /// emitted. With the last, the message that answers the completion is
    /// emitted, the completion and that message join the conversation, and
    /// the next completion is awaited. A result that is not awaited is
    /// refused.
    pub fn on_tool_result(&mut self, index: usize, result: ToolResult) -> (r: Result<
        Option<Message>,
        ReplyError,
    >)
        requires
            old(self)@.wf(),
        ensures
            final(self)@.wf(),
            match r {
                Ok(emitted) => {
                    &&& old(self)@.awaits(index as int)
                    &&& final(self)@ == old(self)@.after_result(index as int, result_view(result))
                    &&& optional_view(emitted) == old(self)@.emitted_after_result(
                        index as int,
                        result_view(result),
                    )
                },
                Err(e) => {
                    &&& !old(self)@.awaits(index as int)
                    &&& e == old(self)@.refusal(index as int)
                    &&& final(self)@ == old(self)@
                },
            },
    {
        match self.phase {
            ReplyPhase::DispatchingTools => {},
            _ => {
                return Err(ReplyError::NotDispatching);
            },
        }
        if index >= self.results.len() {
            return Err(ReplyError::UnknownCall);
        }
        if self.results[index].is_some() {
            assert(self@.results[index as int] is Some);
            return Err(ReplyError::AlreadyAnswered);
        }
        assert(self@.results[index as int] is None);
        self.results.set(index, Some(result));
        assert(slot_views(self.results@) =~= old(self)@.results.update(
            index as int,
            Some(result_view(result)),
        ));
        if !all_in(&self.results) {
            return Ok(None);
        }
        let response = self.pending.take().unwrap();
        let message = answer(&response, &self.results);
        let emitted = message.clone();
        let ghost before = views(self.messages@);
        self.messages.push(response);
        self.messages.push(message);
        assert(views(self.messages@) =~= before.push(response@).push(message@));
        self.results = Vec::new();
        assert(slot_views(self.results@) =~= Seq::empty());
        self.phase = ReplyPhase::AwaitingCompletion;
        Ok(Some(emitted))
    }

    /// Takes the failure of the model backend: the reply ends early, and the
    /// conversation stays as far as it had come. A failure that was not
    /// awaited is refused.
    pub fn on_provider_error(&mut self) -> (r: Result<(), ReplyError>)
        requires
            old(self)@.wf(),
        ensures
            final(self)@.wf(),
            match r {
                Ok(()) => {
                    &&& old(self)@.phase == ReplyPhase::AwaitingCompletion
                    &&& final(self)@ == old(self)@.after_provider_error()
                },
                Err(e) => {
                    &&& old(self)@.phase != ReplyPhase::AwaitingCompletion
                    &&& e == ReplyError::NotAwaitingCompletion
                    &&& final(self)@ == old(self)@
                },
            },
    {
        match self.phase {
            ReplyPhase::AwaitingCompletion => {
                self.phase = ReplyPhase::Failed;
                Ok(())
            },
            _ => Err(ReplyError::NotAwaitingCompletion),
        }
    }

    /// Asks for the reply to stop, and says whether it has stopped. Between
    /// turns it ends at once. While calls are out it does not: their results
    /// are still to be reported.
    pub fn cancel(&mut self) -> (stopped: bool)
        requires
            old(self)@.wf(),
        ensures
            final(self)@.wf(),
            final(self)@ == old(self)@.after_cancel(),
            stopped == (old(self)@.phase != ReplyPhase::DispatchingTools),
    {
        match self.phase {
            ReplyPhase::AwaitingCompletion => {
                self.phase = ReplyPhase::Done;
                true
            },
            ReplyPhase::DispatchingTools => false,
            _ => true,
        }
    }
}

/// A completion that holds no tool request ends the reply: nothing is to be
/// dispatched, and nothing but the phase changes.
pub proof fn lemma_no_request_ends_reply(state: ReplyState, response: MessageView)
    requires
        forall|k: int|
            0 <= k < response.content.len() ==> !((#[trigger] response.content[k]) is ToolRequest),
    ensures
        dispatch_set(response.content).len() == 0,
        state.after_completion(response) == (ReplyState { phase: ReplyPhase::Done, ..state }),
    decreases response.content.len(),
{
    let content = response.content;
    if content.len() > 0 {
        let shorter = MessageView { content: content.drop_last(), ..response };
        assert forall|k: int| 0 <= k < shorter.content.len() implies !((
        #[trigger] shorter.content[k]) is ToolRequest) by {
            assert(shorter.content[k] == content[k]);
        }
        lemma_no_request_ends_reply(state, shorter);
        assert(!(content[content.len() - 1] is ToolRequest));
    }
}

/// Whether the result of call `k` is among the first `t` to arrive.
pub open spec fn arrived(order: Seq<int>, t: int, k: int) -> bool {
    exists|u: int| 0 <= u < t && #[trigger] order[u] == k
}

/// The slots once the first `t` results have arrived.
pub open spec fn slots_after(order: Seq<int>, results: Seq<ToolResultView>, t: int) -> Seq<
    Option<ToolResultView>,
> {
    Seq::new(
        results.len(),
        |k: int|
            if arrived(order, t, k) {
                Some(results[k])
            } else {
                None
            },
    )
}

/// Whether `order` names each of `n` calls once: it has `n` entries, each
/// names a call, and none names the same call as another.
pub open spec fn each_once(order: Seq<int>, n: int) -> bool {
    &&& order.len() == n
    &&& forall|t: int| 0 <= t < n ==> 0 <= #[trigger] order[t] < n
    &&& order.no_duplicates()
}

/// An order that names each of `n` calls once names every call.
pub proof fn lemma_each_once_covers(order: Seq<int>, n: int, k: int)
    requires
        each_once(order, n),
        0 <= k < n,
    ensures
        arrived(order, n, k),
{
    let named = order.to_set();
    let all = set_int_range(0, n);
    order.unique_seq_to_set();
    lemma_int_range(0, n);
    assert(named.subset_of(all)) by {
        assert forall|x: int| named.contains(x) implies all.contains(x) by {
            let t = choose|t: int| 0 <= t < order.len() && order[t] == x;
        }
    }
    lemma_subset_equality(named, all);
    assert(all.contains(k));
    assert(named.contains(k));
    let t = choose|t: int| 0 <= t < order.len() && order[t] == k;
    assert(order[t] == k);
}

/// While results are still missing, each arrival fills its slot and changes
/// nothing else.
proof fn lemma_partial_arrival(
    state: ReplyState,
    order: Seq<int>,
    results: Seq<ToolResultView>,
    t: int,
)
    requires
        state.phase == ReplyPhase::DispatchingTools,
        state.results.len() == results.len(),
        forall|k: int| 0 <= k < state.results.len() ==> (#[trigger] state.results[k]) is None,
        each_once(order, results.len() as int),
        0 <= t < results.len(),
    ensures
        state.after_results(order.take(t), results) == (ReplyState {
            results: slots_after(order, results, t),
            ..state
        }),
    decreases t,
{
    let n = results.len() as int;
    if t == 0 {
        assert(slots_after(order, results, 0) =~= state.results);
    } else {
        lemma_partial_arrival(state, order, results, t - 1);
        assert(order.take(t).drop_last() =~= order.take(t - 1));
        assert(order.take(t).last() == order[t - 1]);
        let before = slots_after(order, results, t - 1);
        let filled = before.update(order[t - 1], Some(results[order[t - 1]]));
        assert(filled =~= slots_after(order, results, t)) by {
            assert forall|k: int| 0 <= k < n implies filled[k] == slots_after(order, results, t)[k] by {
                if arrived(order, t - 1, k) {
                    let u = choose|u: int| 0 <= u < t - 1 && order[u] == k;
                    assert(0 <= u < t && order[u] == k);
                }
                if arrived(order, t, k) && k != order[t - 1] {
                    let u = choose|u: int| 0 <= u < t && order[u] == k;
                    assert(0 <= u < t - 1 && order[u] == k);
                }
            }
        }
        assert(!complete(filled)) by {
            let last = order[n - 1];
            if arrived(order, t, last) {
                let u = choose|u: int| 0 <= u < t && order[u] == last;
                assert(order[u] == order[n - 1]);
            }
            assert(filled[last] is None);
        }
    }
}

/// The tool results of a turn may arrive in any order: once all are in, the
/// message that answers the completion holds one response for each parsed
/// request, in request order and under the request's id, whatever the order
/// of arrival was. The completion and that message then join the
/// conversation and the next completion is awaited.
pub proof fn lemma_responses_in_request_order(
    state: ReplyState,
    response: MessageView,
    order: Seq<int>,
    results: Seq<ToolResultView>,
)
    requires
        state.wf(),
        state.phase == ReplyPhase::AwaitingCompletion,
        requested(response.content).len() > 0,
        results.len() == requested(response.content).len(),
        each_once(order, results.len() as int),
    ensures
        ({
            let calls = requested(response.content);
            let end = state.after_completion(response).after_results(order, results);
            let answer = MessageView {
                role: Role::User,
                content: Seq::new(
                    calls.len(),
                    |k: int|
                        MessageContentView::ToolResponse(
                            ToolResponseView { id: calls[k].id, tool_result: results[k] },
                        ),
                ),
            };
            &&& end.wf()
            &&& end == (ReplyState {
                transcript: state.transcript.push(response).push(answer),
                ..state
            })
        }),
{
    let calls = requested(response.content);
    let n = results.len() as int;
    let out = state.after_completion(response);
    lemma_partial_arrival(out, order, results, n - 1);
    assert(order.drop_last() =~= order.take(n - 1));
    let before = slots_after(order, results, n - 1);
    let filled = before.update(order[n - 1], Some(results[order[n - 1]]));
    assert forall|k: int| 0 <= k < n implies filled[k] == Some(results[k]) by {
        lemma_each_once_covers(order, n, k);
        let u = choose|u: int| 0 <= u < n && order[u] == k;
        if u < n - 1 {
            assert(arrived(order, n - 1, k));
        }
    }
    assert(complete(filled));
    let answer = MessageView {
        role: Role::User,
        content: Seq::new(
            calls.len(),
            |k: int|
                MessageContentView::ToolResponse(
                    ToolResponseView { id: calls[k].id, tool_result: results[k] },
                ),
        ),
    };
    assert(tool_responses(calls, filled) =~= answer.content);
    let end = out.after_results(order, results);
    assert(end.results =~= state.results);
}

/// Whether a part is a tool request.
pub open spec fn is_request(part: MessageContentView) -> bool {
    part is ToolRequest
}

/// Whether every tool request among the parts was parsed.
pub open spec fn all_parsed(content: Seq<MessageContentView>) -> bool {
    forall|k: int|
        0 <= k < content.len() ==> ((#[trigger] content[k]) matches MessageContentView::ToolRequest(
            request,
        ) ==> request.tool_call is Ok)
}

/// Where every tool request of a completion was parsed, there are as many
/// calls to dispatch, and so as many responses in the answer, as the
/// completion holds tool requests.
pub proof fn lemma_all_parsed_all_answered(content: Seq<MessageContentView>)
    requires
        all_parsed(content),
    ensures
        requested(content).len() == content.filter(|part: MessageContentView| is_request(part)).len(),
    decreases content.len(),
{
    reveal(Seq::filter);
    if content.len() > 0 {
        let shorter = content.drop_last();
        assert forall|k: int| 0 <= k < shorter.len() implies ((
        #[trigger] shorter[k]) matches MessageContentView::ToolRequest(request)
            ==> request.tool_call is Ok) by {
            assert(shorter[k] == content[k]);
        }
        lemma_all_parsed_all_answered(shorter);
        assert(content.last() == content[content.len() - 1]);
    }
}

/// Every parsed request is a request of the message, under the same id.
pub proof fn lemma_requested_from_message(content: Seq<MessageContentView>, k: int)
    requires
        0 <= k < requested(content).len(),
    ensures
        requests(content, requested(content)[k].id),
    decreases content.len(),
{
    if content.len() > 0 {
        let shorter = content.drop_last();
        if k < requested(shorter).len() {
            lemma_requested_from_message(shorter, k);
            let j = choose|j: int|
                0 <= j < shorter.len() && (#[trigger] shorter[j]) is ToolRequest
                    && shorter[j]->ToolRequest_0.id == requested(shorter)[k].id;
            assert(content[j] == shorter[j]);
        } else {
            let j = content.len() - 1;
            assert(content[j] is ToolRequest);
        }
    }
}

/// Whether some part is a tool request under `id`.
pub open spec fn requests(content: Seq<MessageContentView>, id: Seq<char>) -> bool {
    exists|j: int|
        0 <= j < content.len() && (#[trigger] content[j]) is ToolRequest
            && content[j]->ToolRequest_0.id == id
}

/// The conversation's invariant: every tool response answers a tool request
/// of an earlier message, under that request's id.
pub open spec fn answers_earlier_requests(transcript: Seq<MessageView>) -> bool {
    forall|m: int, k: int|
        0 <= m < transcript.len() && 0 <= k < transcript[m].content.len() && (
        #[trigger] transcript[m].content[k]) is ToolResponse ==> exists|e: int|
            0 <= e < m && requests(
                (#[trigger] transcript[e]).content,
                transcript[m].content[k]->ToolResponse_0.id,
            )
}

/// A turn keeps the conversation's invariant. Where the conversation with
/// the completion at its end has every tool response answer an earlier
/// request, so has the conversation once the turn's last result is in and
/// the answer has joined it.
pub proof fn lemma_turn_keeps_conversation(state: ReplyState, index: int, result: ToolResultView)
    requires
        state.wf(),
        state.awaits(index),
        answers_earlier_requests(state.transcript.push(state.pending.unwrap())),
    ensures
        answers_earlier_requests(state.after_result(index, result).transcript),
{
    let response = state.pending.unwrap();
    let results = state.results.update(index, Some(result));
    if complete(results) {
        let calls = requested(response.content);
        let before = state.transcript.push(response);
        let message = response_message(calls, results);
        let after = before.push(message);
        assert(state.after_result(index, result).transcript == after);
        assert forall|m: int, k: int|
            0 <= m < after.len() && 0 <= k < after[m].content.len() && (
            #[trigger] after[m].content[k]) is ToolResponse implies exists|e: int|
            0 <= e < m && requests(
                (#[trigger] after[e]).content,
                after[m].content[k]->ToolResponse_0.id,
            ) by {
            if m < before.len() {
                assert(after[m] == before[m]);
                let e = choose|e: int|
                    0 <= e < m && requests(
                        (#[trigger] before[e]).content,
                        before[m].content[k]->ToolResponse_0.id,
                    );
                assert(after[e] == before[e]);
            } else {
                lemma_requested_from_message(response.content, k);
                let e = before.len() - 1;
                assert(after[e] == response);
            }
        }
    } else {
        let before = state.transcript.push(response);
        let kept = state.transcript;
        assert forall|m: int, k: int|
            0 <= m < kept.len() && 0 <= k < kept[m].content.len() && (
            #[trigger] kept[m].content[k]) is ToolResponse implies exists|e: int|
            0 <= e < m && requests(
                (#[trigger] kept[e]).content,
                kept[m].content[k]->ToolResponse_0.id,
            ) by {
            assert(before[m] == kept[m]);
            let e = choose|e: int|
                0 <= e < m && requests(
                    (#[trigger] before[e]).content,
                    before[m].content[k]->ToolResponse_0.id,
                );
            assert(before[e] == kept[e]);
        }
    }
}

/// The tools offered to the model for a reply, the built-in one apart,
/// stand under the catalog's names; so where the catalog is unambiguous and
/// no system offers two tools of one name, no two of them have the same name.
pub proof fn lemma_offered_names_distinct(systems: Seq<SystemView>, p: int, q: int)
    requires
        distinct_names(systems),
        tool_sets(systems),
        unambiguous(systems),
        0 <= p < q < catalog(systems).len(),
    ensures
        offered_tools(systems).len() == catalog(systems).len() + 1,
        offered_tools(systems)[p].name == catalog(systems)[p].name,
        offered_tools(systems)[q].name == catalog(systems)[q].name,
        offered_tools(systems)[p].name != offered_tools(systems)[q].name,
{
    lemma_catalog_names_distinct_iff(systems);
}

} // verus!
