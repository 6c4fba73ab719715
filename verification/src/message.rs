//! The conversation model: messages, tool calls, threads and stream events.
//!
//! Every type has a view made of sequences of characters, so that contracts
//! elsewhere can speak of what a message says and not of how it is stored.

use vstd::prelude::*;
use crate::json::fresh_uuid;

verus! {

/// Whether a message is a snapshot of something still growing or its last form.
#[derive(Clone, Copy, Debug, PartialEq, Eq, Structural)]
pub enum MessageProgress {
    InProgress,
    Complete,
}

/// The function a tool call names, with its arguments as JSON text.
#[derive(Debug, PartialEq, Eq)]
pub struct FunctionCall {
    pub name: String,
    pub arguments: String,
}

/// A request by the model to run one tool.
#[derive(Debug, PartialEq, Eq)]
pub struct ToolCall {
    pub id: String,
    pub call_type: String,
    pub function: FunctionCall,
}

/// What a `ToolCall` says.
pub struct ToolCallView {
    pub id: Seq<char>,
    pub call_type: Seq<char>,
    pub name: Seq<char>,
    pub arguments: Seq<char>,
}

impl View for ToolCall {
    type V = ToolCallView;

    open spec fn view(&self) -> ToolCallView {
        ToolCallView {
            id: self.id@,
            call_type: self.call_type@,
            name: self.function.name@,
            arguments: self.function.arguments@,
        }
    }
}

impl Clone for ToolCall {
    fn clone(&self) -> (r: ToolCall)
        ensures
            r@ == self@,
    {
        ToolCall {
            id: self.id.clone(),
            call_type: self.call_type.clone(),
            function: FunctionCall {
                name: self.function.name.clone(),
                arguments: self.function.arguments.clone(),
            },
        }
    }
}

/// The views of a sequence of tool calls, in order.
pub open spec fn calls_view(calls: Seq<ToolCall>) -> Seq<ToolCallView> {
    calls.map_values(|c: ToolCall| c@)
}

/// The view of an optional text.
pub open spec fn text_view(text: Option<String>) -> Option<Seq<char>> {
    match text {
        Some(s) => Some(s@),
        None => None,
    }
}

/// The view of an optional list of tool calls.
pub open spec fn optional_calls_view(calls: Option<Vec<ToolCall>>) -> Option<Seq<ToolCallView>> {
    match calls {
        Some(v) => Some(calls_view(v@)),
        None => None,
    }
}

/// Copies an optional text.
pub fn clone_text(text: &Option<String>) -> (r: Option<String>)
    ensures
        text_view(r) == text_view(*text),
{
    match text {
        Some(s) => Some(s.clone()),
        None => None,
    }
}

/// Copies a list of tool calls, keeping their order.
pub fn clone_calls(calls: &Vec<ToolCall>) -> (r: Vec<ToolCall>)
    ensures
        calls_view(r@) == calls_view(calls@),
{
    let mut out: Vec<ToolCall> = Vec::new();
    let mut i: usize = 0;
    while i < calls.len()
        invariant
            i <= calls.len(),
            out.len() == i,
            forall|j: int| 0 <= j < i ==> out@[j]@ == calls@[j]@,
        decreases calls.len() - i,
    {
        out.push(calls[i].clone());
        i = i + 1;
    }
    assert(calls_view(out@) =~= calls_view(calls@));
    out
}

/// One entry of a conversation, or the marker that ends a stream.
#[allow(inconsistent_fields)]
#[derive(Debug, PartialEq, Eq)]
pub enum AgentMessage {
    /// Instructions to the model, set anew at every step.
    Developer { content: String },
    /// A turn of the person the conversation is with.
    User { id: Option<String>, content: String },
    /// What the model said: text, tool calls, or both.
    Assistant {
        id: Option<String>,
        content: Option<String>,
        tool_calls: Option<Vec<ToolCall>>,
        progress: MessageProgress,
        initial: Option<bool>,
        name: Option<String>,
    },
    /// The result of running one tool.
    Tool {
        id: Option<String>,
        tool_call_id: String,
        name: Option<String>,
        content: String,
        progress: MessageProgress,
    },
    /// The end of a run. It travels on the stream and is never kept in a thread.
    Done,
}

/// What an `AgentMessage` says.
#[allow(inconsistent_fields)]
pub enum MessageView {
    Developer { content: Seq<char> },
    User { id: Option<Seq<char>>, content: Seq<char> },
    Assistant {
        id: Option<Seq<char>>,
        content: Option<Seq<char>>,
        tool_calls: Option<Seq<ToolCallView>>,
        progress: MessageProgress,
        initial: Option<bool>,
        name: Option<Seq<char>>,
    },
    Tool {
        id: Option<Seq<char>>,
        tool_call_id: Seq<char>,
        name: Option<Seq<char>>,
        content: Seq<char>,
        progress: MessageProgress,
    },
    Done,
}

impl View for AgentMessage {
    type V = MessageView;

    open spec fn view(&self) -> MessageView {
        match *self {
            AgentMessage::Developer { content } => MessageView::Developer { content: content@ },
            AgentMessage::User { id, content } => MessageView::User {
                id: text_view(id),
                content: content@,
            },
            AgentMessage::Assistant { id, content, tool_calls, progress, initial, name } => {
                MessageView::Assistant {
                    id: text_view(id),
                    content: text_view(content),
                    tool_calls: optional_calls_view(tool_calls),
                    progress,
                    initial,
                    name: text_view(name),
                }
            },
            AgentMessage::Tool { id, tool_call_id, name, content, progress } => MessageView::Tool {
                id: text_view(id),
                tool_call_id: tool_call_id@,
                name: text_view(name),
                content: content@,
                progress,
            },
            AgentMessage::Done => MessageView::Done,
        }
    }
}

impl Clone for AgentMessage {
    fn clone(&self) -> (r: AgentMessage)
        ensures
            r@ == self@,
    {
        match self {
            AgentMessage::Developer { content } => AgentMessage::Developer {
                content: content.clone(),
            },
            AgentMessage::User { id, content } => AgentMessage::User {
                id: clone_text(id),
                content: content.clone(),
            },
            AgentMessage::Assistant { id, content, tool_calls, progress, initial, name } => {
                let calls = match tool_calls {
                    Some(v) => Some(clone_calls(v)),
                    None => None,
                };
                AgentMessage::Assistant {
                    id: clone_text(id),
                    content: clone_text(content),
                    tool_calls: calls,
                    progress: *progress,
                    initial: *initial,
                    name: clone_text(name),
                }
            },
            AgentMessage::Tool { id, tool_call_id, name, content, progress } => AgentMessage::Tool {
                id: clone_text(id),
                tool_call_id: tool_call_id.clone(),
                name: clone_text(name),
                content: content.clone(),
                progress: *progress,
            },
            AgentMessage::Done => AgentMessage::Done,
        }
    }
}

impl AgentMessage {
    /// A developer message with the given instructions.
    pub fn developer(content: String) -> (r: AgentMessage)
        ensures
            r@ == (MessageView::Developer { content: content@ }),
    {
        AgentMessage::Developer { content }
    }

    /// A user turn without an identifier.
    pub fn user(content: String) -> (r: AgentMessage)
        ensures
            r@ == (MessageView::User { id: None, content: content@ }),
    {
        AgentMessage::User { id: None, content }
    }

    /// An assistant message made of the given parts.
    pub fn assistant(
        id: Option<String>,
        content: Option<String>,
        tool_calls: Option<Vec<ToolCall>>,
        progress: MessageProgress,
        initial: Option<bool>,
        name: Option<String>,
    ) -> (r: AgentMessage)
        ensures
            r@ == (MessageView::Assistant {
                id: text_view(id),
                content: text_view(content),
                tool_calls: optional_calls_view(tool_calls),
                progress,
                initial,
                name: text_view(name),
            }),
    {
        AgentMessage::Assistant { id, content, tool_calls, progress, initial, name }
    }

    /// A tool message that answers the call `tool_call_id`.
    pub fn tool(
        id: Option<String>,
        content: String,
        tool_call_id: String,
        name: Option<String>,
        progress: MessageProgress,
    ) -> (r: AgentMessage)
        ensures
            r@ == (MessageView::Tool {
                id: text_view(id),
                tool_call_id: tool_call_id@,
                name: text_view(name),
                content: content@,
                progress,
            }),
    {
        AgentMessage::Tool { id, tool_call_id, name, content, progress }
    }

    /// Whether this is a developer message.
    pub fn is_developer(&self) -> (r: bool)
        ensures
            r == (self@ is Developer),
    {
        match self {
            AgentMessage::Developer { .. } => true,
            _ => false,
        }
    }

    /// Whether this is the marker that ends a stream.
    pub fn is_done(&self) -> (r: bool)
        ensures
            r == (self@ is Done),
    {
        match self {
            AgentMessage::Done => true,
            _ => false,
        }
    }
}

/// The views of a sequence of messages, in order.
pub open spec fn messages_view(messages: Seq<AgentMessage>) -> Seq<MessageView> {
    messages.map_values(|m: AgentMessage| m@)
}

/// Copies a list of messages, keeping their order.
pub fn clone_messages(messages: &Vec<AgentMessage>) -> (r: Vec<AgentMessage>)
    ensures
        messages_view(r@) == messages_view(messages@),
{
    let mut out: Vec<AgentMessage> = Vec::new();
    let mut i: usize = 0;
    while i < messages.len()
        invariant
            i <= messages.len(),
            out.len() == i,
            forall|j: int| 0 <= j < i ==> out@[j]@ == messages@[j]@,
        decreases messages.len() - i,
    {
        out.push(messages[i].clone());
        i = i + 1;
    }
    assert(messages_view(out@) =~= messages_view(messages@));
    out
}

/// A failure of a run, as the text that describes it.
#[derive(Debug, PartialEq, Eq)]
pub struct AgentError(pub String);

impl View for AgentError {
    type V = Seq<char>;

    open spec fn view(&self) -> Seq<char> {
        self.0@
    }
}

impl Clone for AgentError {
    fn clone(&self) -> (r: AgentError)
        ensures
            r@ == self@,
    {
        AgentError(self.0.clone())
    }
}

impl AgentError {
    /// The text of the error.
    pub fn message(&self) -> (r: String)
        ensures
            r@ == self@,
    {
        self.0.clone()
    }
}

/// What travels on the outbound stream: a message, or the failure of a run.
pub type MessageResult = Result<AgentMessage, AgentError>;

/// What a stream event says.
pub type EventView = Result<MessageView, Seq<char>>;

/// The view of one stream event.
pub open spec fn event_view(event: MessageResult) -> EventView {
    match event {
        Ok(m) => Ok(m@),
        Err(e) => Err(e@),
    }
}

/// The views of a sequence of stream events, in order.
pub open spec fn events_view(events: Seq<MessageResult>) -> Seq<EventView> {
    events.map_values(|e: MessageResult| event_view(e))
}

/// The event that ends every stream.
pub open spec fn done_event() -> EventView {
    Ok(MessageView::Done)
}

/// The ordered history of one conversation.
#[derive(Debug, PartialEq, Eq)]
pub struct AgentThread {
    pub id: uuid::Uuid,
    pub user_id: uuid::Uuid,
    pub messages: Vec<AgentMessage>,
}

/// What an `AgentThread` holds.
pub struct ThreadView {
    pub id: uuid::Uuid,
    pub user_id: uuid::Uuid,
    pub messages: Seq<MessageView>,
}

impl View for AgentThread {
    type V = ThreadView;

    open spec fn view(&self) -> ThreadView {
        ThreadView { id: self.id, user_id: self.user_id, messages: messages_view(self.messages@) }
    }
}

impl Clone for AgentThread {
    fn clone(&self) -> (r: AgentThread)
        ensures
            r@ == self@,
    {
        AgentThread {
            id: self.id,
            user_id: self.user_id,
            messages: clone_messages(&self.messages),
        }
    }
}

impl AgentThread {
    /// A thread with the given messages. Without an identifier it gets a
    /// fresh random one.
    pub fn new(id: Option<uuid::Uuid>, user_id: uuid::Uuid, messages: Vec<AgentMessage>) -> (r:
        AgentThread)
        ensures
            id matches Some(given) ==> r.id == given,
            r.user_id == user_id,
            r.messages@ == messages@,
    {
        let id = match id {
            Some(given) => given,
            None => fresh_uuid(),
        };
        AgentThread { id, user_id, messages }
    }

    /// The content of the latest user turn, if the thread has one.
    pub fn latest_user_content(&self) -> (r: Option<String>)
        ensures
            text_view(r) == latest_user_text(self@.messages),
    {
        let mut i: usize = self.messages.len();
        assert(self@.messages.take(i as int) =~= self@.messages);
        while i > 0
            invariant
                i <= self.messages.len(),
                latest_user_text(self@.messages) == latest_user_text(
                    self@.messages.take(i as int),
                ),
            decreases i,
        {
            i = i - 1;
            proof {
                let prefix = self@.messages.take(i as int + 1);
                assert(prefix.last() == self.messages@[i as int]@);
                assert(prefix.drop_last() =~= self@.messages.take(i as int));
            }
            match &self.messages[i] {
                AgentMessage::User { content, .. } => {
                    return Some(content.clone());
                },
                _ => {},
            }
        }
        proof {
            assert(self@.messages.take(0).len() == 0);
        }
        None
    }
}

/// The content of the last user message of a sequence, if it has one.
pub open spec fn latest_user_text(messages: Seq<MessageView>) -> Option<Seq<char>>
    decreases messages.len(),
{
    if messages.len() == 0 {
        None
    } else {
        match messages.last() {
            MessageView::User { content, .. } => Some(content),
            _ => latest_user_text(messages.drop_last()),
        }
    }
}

} // verus!
