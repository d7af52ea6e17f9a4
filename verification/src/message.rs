//! The conversation's data: messages, their content parts, tool calls and
//! what comes back from them. Every type has a view made of sequences of
//! characters, and contracts throughout the crate speak of those views.

use vstd::prelude::*;

verus! {

/// The views of the items of a sequence, item by item.
pub open spec fn views<T: View>(items: Seq<T>) -> Seq<T::V> {
    Seq::new(items.len(), |i: int| items[i]@)
}

/// Who wrote a message.
#[derive(Clone, Copy, Debug, PartialEq, Eq, Structural)]
pub enum Role {
    User,
    Assistant,
}

/// Why a tool call produced no result.
#[derive(Debug, PartialEq, Eq)]
pub enum ToolError {
    /// No tool or resource answers to the name that was asked for.
    NotFound(String),
    /// The call's arguments do not fit the tool's input schema.
    InvalidParameters(String),
    /// The owning system ran the call and reported a failure.
    ExecutionError(String),
}

pub enum ToolErrorView {
    NotFound(Seq<char>),
    InvalidParameters(Seq<char>),
    ExecutionError(Seq<char>),
}

impl View for ToolError {
    type V = ToolErrorView;

    open spec fn view(&self) -> ToolErrorView {
        match self {
            ToolError::NotFound(d) => ToolErrorView::NotFound(d@),
            ToolError::InvalidParameters(d) => ToolErrorView::InvalidParameters(d@),
            ToolError::ExecutionError(d) => ToolErrorView::ExecutionError(d@),
        }
    }
}

impl Clone for ToolError {
    fn clone(&self) -> (r: Self)
        ensures
            r@ == self@,
    {
        match self {
            ToolError::NotFound(d) => ToolError::NotFound(d.clone()),
            ToolError::InvalidParameters(d) => ToolError::InvalidParameters(d.clone()),
            ToolError::ExecutionError(d) => ToolError::ExecutionError(d.clone()),
        }
    }
}

/// What a tool call came to: the payload that the owning system returned, or
/// the reason there is none.
pub type ToolResult = Result<String, ToolError>;

pub type ToolResultView = Result<Seq<char>, ToolErrorView>;

/// The view of a tool result.
pub open spec fn result_view(result: ToolResult) -> ToolResultView {
    match result {
        Ok(payload) => Ok(payload@),
        Err(e) => Err(e@),
    }
}

/// A copy of a tool result.
pub fn clone_result(result: &ToolResult) -> (r: ToolResult)
    ensures
        result_view(r) == result_view(*result),
{
    match result {
        Ok(payload) => Ok(payload.clone()),
        Err(e) => Err(e.clone()),
    }
}

/// The value of one argument of a tool call. A string is held as its text;
/// any other value as the JSON document that denotes it.
#[derive(Debug, PartialEq, Eq)]
pub enum ArgumentValue {
    Text(String),
    Json(String),
}

pub enum ArgumentValueView {
    Text(Seq<char>),
    Json(Seq<char>),
}

impl View for ArgumentValue {
    type V = ArgumentValueView;

    open spec fn view(&self) -> ArgumentValueView {
        match self {
            ArgumentValue::Text(t) => ArgumentValueView::Text(t@),
            ArgumentValue::Json(j) => ArgumentValueView::Json(j@),
        }
    }
}

impl Clone for ArgumentValue {
    fn clone(&self) -> (r: Self)
        ensures
            r@ == self@,
    {
        match self {
            ArgumentValue::Text(t) => ArgumentValue::Text(t.clone()),
            ArgumentValue::Json(j) => ArgumentValue::Json(j.clone()),
        }
    }
}

/// One named argument of a tool call.
#[derive(Debug, PartialEq, Eq)]
pub struct Argument {
    pub name: String,
    pub value: ArgumentValue,
}

pub struct ArgumentView {
    pub name: Seq<char>,
    pub value: ArgumentValueView,
}

impl View for Argument {
    type V = ArgumentView;

    open spec fn view(&self) -> ArgumentView {
        ArgumentView { name: self.name@, value: self.value@ }
    }
}

impl Clone for Argument {
    fn clone(&self) -> (r: Self)
        ensures
            r@ == self@,
    {
        Argument { name: self.name.clone(), value: self.value.clone() }
    }
}

/// A request to run one tool: its name as the catalog lists it, and the
/// members of its argument object in the order they were written.
#[derive(Debug, PartialEq, Eq)]
pub struct ToolCall {
    pub name: String,
    pub arguments: Vec<Argument>,
}

pub struct ToolCallView {
    pub name: Seq<char>,
    pub arguments: Seq<ArgumentView>,
}

impl View for ToolCall {
    type V = ToolCallView;

    open spec fn view(&self) -> ToolCallView {
        ToolCallView { name: self.name@, arguments: views(self.arguments@) }
    }
}

impl Clone for ToolCall {
    fn clone(&self) -> (r: Self)
        ensures
            r@ == self@,
    {
        let arguments = self.arguments.clone();
        assert(views(arguments@) =~= views(self.arguments@));
        ToolCall { name: self.name.clone(), arguments }
    }
}

/// The text of the first argument called `name` that holds a string, if the
/// first argument of that name holds one.
pub open spec fn text_argument(arguments: Seq<ArgumentView>, name: Seq<char>) -> Option<Seq<char>>
    decreases arguments.len(),
{
    if arguments.len() == 0 {
        None
    } else if arguments[0].name == name {
        match arguments[0].value {
            ArgumentValueView::Text(t) => Some(t),
            ArgumentValueView::Json(_) => None,
        }
    } else {
        text_argument(arguments.skip(1), name)
    }
}

/// The string that the arguments give for `name`: the text of the first
/// argument of that name, if it holds a string.
pub fn find_text<'a>(arguments: &'a Vec<Argument>, name: &str) -> (r: Option<&'a String>)
    ensures
        match r {
            Some(t) => text_argument(views(arguments@), name@) == Some(t@),
            None => text_argument(views(arguments@), name@) is None,
        },
{
    let wanted = name.to_owned();
    let ghost all = views(arguments@);
    let mut i: usize = 0;
    assert(all.skip(0) =~= all);
    while i < arguments.len()
        invariant
            i <= arguments.len(),
            wanted@ == name@,
            all == views(arguments@),
            text_argument(all, name@) == text_argument(all.skip(i as int), name@),
        decreases arguments.len() - i,
    {
        let ghost rest = all.skip(i as int);
        assert(rest[0] == arguments@[i as int]@);
        assert(rest.skip(1) =~= all.skip(i + 1));
        if arguments[i].name == wanted {
            return match &arguments[i].value {
                ArgumentValue::Text(t) => Some(t),
                ArgumentValue::Json(_) => None,
            };
        }
        i += 1;
    }
    None
}

/// A tool call that the model asked for. `tool_call` is the call as it was
/// parsed, or the reason it could not be.
#[derive(Debug, PartialEq, Eq)]
pub struct ToolRequest {
    pub id: String,
    pub tool_call: Result<ToolCall, ToolError>,
}

pub struct ToolRequestView {
    pub id: Seq<char>,
    pub tool_call: Result<ToolCallView, ToolErrorView>,
}

impl View for ToolRequest {
    type V = ToolRequestView;

    open spec fn view(&self) -> ToolRequestView {
        ToolRequestView {
            id: self.id@,
            tool_call: match self.tool_call {
                Ok(call) => Ok(call@),
                Err(e) => Err(e@),
            },
        }
    }
}

impl Clone for ToolRequest {
    fn clone(&self) -> (r: Self)
        ensures
            r@ == self@,
    {
        let tool_call = match &self.tool_call {
            Ok(call) => Ok(call.clone()),
            Err(e) => Err(e.clone()),
        };
        ToolRequest { id: self.id.clone(), tool_call }
    }
}

/// The answer to the tool request that carries the same id.
#[derive(Debug, PartialEq, Eq)]
pub struct ToolResponse {
    pub id: String,
    pub tool_result: ToolResult,
}

pub struct ToolResponseView {
    pub id: Seq<char>,
    pub tool_result: ToolResultView,
}

impl View for ToolResponse {
    type V = ToolResponseView;

    open spec fn view(&self) -> ToolResponseView {
        ToolResponseView { id: self.id@, tool_result: result_view(self.tool_result) }
    }
}

impl Clone for ToolResponse {
    fn clone(&self) -> (r: Self)
        ensures
            r@ == self@,
    {
        ToolResponse { id: self.id.clone(), tool_result: clone_result(&self.tool_result) }
    }
}

/// One part of a message.
#[derive(Debug, PartialEq, Eq)]
pub enum MessageContent {
    Text(String),
    ToolRequest(ToolRequest),
    ToolResponse(ToolResponse),
}

pub enum MessageContentView {
    Text(Seq<char>),
    ToolRequest(ToolRequestView),
    ToolResponse(ToolResponseView),
}

impl View for MessageContent {
    type V = MessageContentView;

    open spec fn view(&self) -> MessageContentView {
        match self {
            MessageContent::Text(t) => MessageContentView::Text(t@),
            MessageContent::ToolRequest(r) => MessageContentView::ToolRequest(r@),
            MessageContent::ToolResponse(r) => MessageContentView::ToolResponse(r@),
        }
    }
}

impl Clone for MessageContent {
    fn clone(&self) -> (r: Self)
        ensures
            r@ == self@,
    {
        match self {
            MessageContent::Text(t) => MessageContent::Text(t.clone()),
            MessageContent::ToolRequest(r) => MessageContent::ToolRequest(r.clone()),
            MessageContent::ToolResponse(r) => MessageContent::ToolResponse(r.clone()),
        }
    }
}

impl MessageContent {
    /// The text, where this part is text.
    pub fn as_text(&self) -> (r: Option<&String>)
        ensures
            match r {
                Some(t) => self@ == MessageContentView::Text(t@),
                None => !(self@ is Text),
            },
    {
        match self {
            MessageContent::Text(t) => Some(t),
            _ => None,
        }
    }

    /// The tool request, where this part is one.
    pub fn as_tool_request(&self) -> (r: Option<&ToolRequest>)
        ensures
            match r {
                Some(request) => self@ == MessageContentView::ToolRequest(request@),
                None => !(self@ is ToolRequest),
            },
    {
        match self {
            MessageContent::ToolRequest(request) => Some(request),
            _ => None,
        }
    }

    /// The tool response, where this part is one.
    pub fn as_tool_response(&self) -> (r: Option<&ToolResponse>)
        ensures
            match r {
                Some(response) => self@ == MessageContentView::ToolResponse(response@),
                None => !(self@ is ToolResponse),
            },
    {
        match self {
            MessageContent::ToolResponse(response) => Some(response),
            _ => None,
        }
    }
}

/// One message of a conversation: who wrote it, and its parts in order.
#[derive(Debug, PartialEq, Eq)]
pub struct Message {
    pub role: Role,
    pub content: Vec<MessageContent>,
}

pub struct MessageView {
    pub role: Role,
    pub content: Seq<MessageContentView>,
}

impl View for Message {
    type V = MessageView;

    open spec fn view(&self) -> MessageView {
        MessageView { role: self.role, content: views(self.content@) }
    }
}

impl Clone for Message {
    fn clone(&self) -> (r: Self)
        ensures
            r@ == self@,
    {
        let content = self.content.clone();
        assert(views(content@) =~= views(self.content@));
        Message { role: self.role, content }
    }
}

impl Message {
    /// An empty message written by the user.
    pub fn user() -> (m: Message)
        ensures
            m@ == (MessageView { role: Role::User, content: Seq::empty() }),
    {
        let m = Message { role: Role::User, content: Vec::new() };
        assert(views(m.content@) =~= Seq::empty());
        m
    }

    /// An empty message written by the assistant.
    pub fn assistant() -> (m: Message)
        ensures
            m@ == (MessageView { role: Role::Assistant, content: Seq::empty() }),
    {
        let m = Message { role: Role::Assistant, content: Vec::new() };
        assert(views(m.content@) =~= Seq::empty());
        m
    }

    /// The message with one more part at its end.
    pub fn with_content(self, part: MessageContent) -> (m: Message)
        ensures
            m@ == (MessageView { role: self@.role, content: self@.content.push(part@) }),
    {
        let mut content = self.content;
        content.push(part);
        assert(views(content@) =~= views(self.content@).push(part@));
        Message { role: self.role, content }
    }

    /// The message with a text part at its end.
    pub fn with_text(self, text: String) -> (m: Message)
        ensures
            m@ == (MessageView {
                role: self@.role,
                content: self@.content.push(MessageContentView::Text(text@)),
            }),
    {
        self.with_content(MessageContent::Text(text))
    }

    /// The message with a tool request at its end.
    pub fn with_tool_request(self, id: String, tool_call: Result<ToolCall, ToolError>) -> (m:
        Message)
        ensures
            m@ == (MessageView {
                role: self@.role,
                content: self@.content.push(
                    MessageContentView::ToolRequest((ToolRequest { id, tool_call })@),
                ),
            }),
    {
        self.with_content(MessageContent::ToolRequest(ToolRequest { id, tool_call }))
    }

    /// The message with a tool response at its end.
    pub fn with_tool_response(self, id: String, tool_result: ToolResult) -> (m: Message)
        ensures
            m@ == (MessageView {
                role: self@.role,
                content: self@.content.push(
                    MessageContentView::ToolResponse(
                        ToolResponseView { id: id@, tool_result: result_view(tool_result) },
                    ),
                ),
            }),
    {
        self.with_content(MessageContent::ToolResponse(ToolResponse { id, tool_result }))
    }
}

/// A copy of a transcript.
pub fn clone_messages(messages: &Vec<Message>) -> (r: Vec<Message>)
    ensures
        views(r@) == views(messages@),
{
    let r = messages.clone();
    assert(views(r@) =~= views(messages@));
    r
}

} // verus!
