//! The request that one step sends to the model.

use vstd::prelude::*;
use vstd::string::StringExecFns;
use crate::json::{uuid_text, uuid_to_text};
use crate::message::{messages_view, AgentMessage, AgentThread, MessageView};
use crate::tools::{offers_view, Tool, ToolView};

verus! {

/// How the model may choose among the tools it is offered.
#[derive(Clone, Copy, Debug, PartialEq, Eq, Structural)]
pub enum ToolChoice {
    /// The model answers without a tool.
    Never,
    /// The model decides.
    Auto,
    /// The model answers or calls a tool of those it is offered.
    Required,
}

/// What accompanies a request for the sake of those who observe it.
#[derive(Debug, PartialEq, Eq)]
pub struct Metadata {
    pub generation_name: String,
    pub user_id: String,
    pub session_id: String,
    pub trace_id: String,
}

/// What the metadata of a request says.
pub struct MetadataView {
    pub generation_name: Seq<char>,
    pub user_id: Seq<char>,
    pub session_id: Seq<char>,
    pub trace_id: Seq<char>,
}

impl View for Metadata {
    type V = MetadataView;

    open spec fn view(&self) -> MetadataView {
        MetadataView {
            generation_name: self.generation_name@,
            user_id: self.user_id@,
            session_id: self.session_id@,
            trace_id: self.trace_id@,
        }
    }
}

/// A request for a streamed answer.
#[derive(Debug, PartialEq)]
pub struct ChatCompletionRequest {
    pub model: String,
    pub messages: Vec<AgentMessage>,
    pub tools: Option<Vec<Tool>>,
    pub tool_choice: Option<ToolChoice>,
    pub stream: Option<bool>,
    pub metadata: Option<Metadata>,
    pub reasoning_effort: Option<String>,
}

/// What a request says.
pub struct RequestView {
    pub model: Seq<char>,
    pub messages: Seq<MessageView>,
    pub tools: Option<Seq<ToolView>>,
    pub tool_choice: Option<ToolChoice>,
    pub stream: Option<bool>,
    pub metadata: Option<MetadataView>,
    pub reasoning_effort: Option<Seq<char>>,
}

impl View for ChatCompletionRequest {
    type V = RequestView;

    open spec fn view(&self) -> RequestView {
        RequestView {
            model: self.model@,
            messages: messages_view(self.messages@),
            tools: match self.tools {
                Some(t) => Some(offers_view(t@)),
                None => None,
            },
            tool_choice: self.tool_choice,
            stream: self.stream,
            metadata: match self.metadata {
                Some(m) => Some(m@),
                None => None,
            },
            reasoning_effort: match self.reasoning_effort {
                Some(s) => Some(s@),
                None => None,
            },
        }
    }
}

/// The messages without the developer messages among them, in order.
pub open spec fn without_developer(messages: Seq<MessageView>) -> Seq<MessageView>
    decreases messages.len(),
{
    if messages.len() == 0 {
        Seq::empty()
    } else if messages.last() is Developer {
        without_developer(messages.drop_last())
    } else {
        without_developer(messages.drop_last()).push(messages.last())
    }
}

/// The messages of a request: one developer message with the prompt of the
/// mode, and after it the thread without its developer messages.
pub open spec fn request_messages(prompt: Seq<char>, thread: Seq<MessageView>) -> Seq<MessageView> {
    seq![MessageView::Developer { content: prompt }] + without_developer(thread)
}

/// The request of one step.
pub open spec fn composed(
    model: Seq<char>,
    prompt: Seq<char>,
    thread_id: uuid::Uuid,
    thread_user_id: uuid::Uuid,
    thread: Seq<MessageView>,
    offers: Seq<ToolView>,
    trace_id: Seq<char>,
) -> RequestView {
    RequestView {
        model,
        messages: request_messages(prompt, thread),
        tools: if offers.len() == 0 {
            None
        } else {
            Some(offers)
        },
        tool_choice: Some(ToolChoice::Required),
        stream: Some(true),
        metadata: Some(
            MetadataView {
                generation_name: "agent"@,
                user_id: uuid_text(thread_user_id),
                session_id: uuid_text(thread_id),
                trace_id,
            },
        ),
        reasoning_effort: Some("medium"@),
    }
}

/// No developer message of the thread reaches the model: the one developer
/// message of a request is the first, with the prompt of the mode.
pub proof fn lemma_one_developer_message(prompt: Seq<char>, thread: Seq<MessageView>, i: int)
    requires
        0 <= i < request_messages(prompt, thread).len(),
    ensures
        request_messages(prompt, thread)[0] == (MessageView::Developer { content: prompt }),
        i > 0 ==> !(request_messages(prompt, thread)[i] is Developer),
{
    if i > 0 {
        lemma_without_developer(thread, i - 1);
    }
}

/// What is left without the developer messages holds none.
pub proof fn lemma_without_developer(messages: Seq<MessageView>, i: int)
    requires
        0 <= i < without_developer(messages).len(),
    ensures
        !(without_developer(messages)[i] is Developer),
    decreases messages.len(),
{
    if messages.len() > 0 {
        let rest = without_developer(messages.drop_last());
        if i < rest.len() {
            lemma_without_developer(messages.drop_last(), i);
        }
    }
}

/// Composes the request of one step from the prompt and the model of the
/// mode, the thread, the offers for the enabled tools and a trace identifier.
pub fn compose_request(
    model: String,
    prompt: String,
    thread: &AgentThread,
    offers: Vec<Tool>,
    trace_id: String,
) -> (r: ChatCompletionRequest)
    ensures
        r@ == composed(
            model@,
            prompt@,
            thread.id,
            thread.user_id,
            thread@.messages,
            offers_view(offers@),
            trace_id@,
        ),
{
    let mut messages: Vec<AgentMessage> = Vec::new();
    messages.push(AgentMessage::developer(prompt));
    let ghost first = seq![MessageView::Developer { content: prompt@ }];
    assert(messages_view(messages@) =~= first);
    let mut i: usize = 0;
    assert(thread@.messages.take(0) =~= Seq::empty());
    while i < thread.messages.len()
        invariant
            i <= thread.messages.len(),
            messages_view(messages@) == first + without_developer(thread@.messages.take(i as int)),
        decreases thread.messages.len() - i,
    {
        proof {
            let next = thread@.messages.take(i as int + 1);
            assert(next.drop_last() =~= thread@.messages.take(i as int));
            assert(next.last() == thread.messages@[i as int]@);
        }
        let ghost before = messages_view(messages@);
        if !thread.messages[i].is_developer() {
            messages.push(thread.messages[i].clone());
            assert(messages_view(messages@) =~= before.push(thread.messages@[i as int]@));
            assert(before.push(thread.messages@[i as int]@) =~= first + without_developer(
                thread@.messages.take(i as int),
            ).push(thread.messages@[i as int]@));
        }
        i = i + 1;
    }
    assert(thread@.messages.take(i as int) =~= thread@.messages);
    let tools = if offers.len() == 0 {
        None
    } else {
        Some(offers)
    };
    ChatCompletionRequest {
        model,
        messages,
        tools,
        tool_choice: Some(ToolChoice::Required),
        stream: Some(true),
        metadata: Some(
            Metadata {
                generation_name: String::from_str("agent"),
                user_id: uuid_to_text(&thread.user_id),
                session_id: uuid_to_text(&thread.id),
                trace_id,
            },
        ),
        reasoning_effort: Some(String::from_str("medium")),
    }
}

} // verus!
