//! The trace of a run: which spans are emitted, and what they hold.
//!
//! The library decides the spans. Emitting them is the caller's business,
//! and never changes what a run does.

use vstd::prelude::*;
use vstd::string::StringExecFns;
use crate::agent::Agent;
use crate::json::{uuid_text, uuid_to_text};
use crate::message::{latest_user_text, AgentMessage, AgentThread, MessageView, ToolCall};
use crate::state::StateStore;
use crate::text::concat;

verus! {

/// The trace of one run, as far as the spans of the run depend on it.
#[derive(Debug)]
pub struct TraceContext {
    /// The identifier of the root span of the trace.
    pub root_span_id: String,
}

/// What a span carries as its input or its output.
#[derive(Debug, PartialEq, Eq)]
pub enum SpanPayload {
    /// A text.
    Text(String),
    /// A message of the conversation.
    Message(AgentMessage),
    /// An object with the single member `error`.
    Error(String),
}

/// What a payload says.
pub enum PayloadView {
    Text(Seq<char>),
    Message(MessageView),
    Error(Seq<char>),
}

impl View for SpanPayload {
    type V = PayloadView;

    open spec fn view(&self) -> PayloadView {
        match *self {
            SpanPayload::Text(s) => PayloadView::Text(s@),
            SpanPayload::Message(m) => PayloadView::Message(m@),
            SpanPayload::Error(s) => PayloadView::Error(s@),
        }
    }
}

/// A span to emit.
#[derive(Debug, PartialEq, Eq)]
pub struct SpanRecord {
    pub name: String,
    pub span_type: String,
    /// The identifier of the root span of the trace, for a span below it.
    pub root_span_id: Option<String>,
    /// The session of the run, noted as metadata under `chat_id`.
    pub chat_id: String,
    pub input: Option<SpanPayload>,
    pub output: Option<SpanPayload>,
}

/// What a span says.
pub struct SpanView {
    pub name: Seq<char>,
    pub span_type: Seq<char>,
    pub root_span_id: Option<Seq<char>>,
    pub chat_id: Seq<char>,
    pub input: Option<PayloadView>,
    pub output: Option<PayloadView>,
}

impl View for SpanRecord {
    type V = SpanView;

    open spec fn view(&self) -> SpanView {
        SpanView {
            name: self.name@,
            span_type: self.span_type@,
            root_span_id: crate::message::text_view(self.root_span_id),
            chat_id: self.chat_id@,
            input: match self.input {
                Some(p) => Some(p@),
                None => None,
            },
            output: match self.output {
                Some(p) => Some(p@),
                None => None,
            },
        }
    }
}

/// The name of the trace of a run on a thread.
pub fn trace_name(thread: &AgentThread) -> (r: String)
    ensures
        r@ == "Buster Super Agent "@ + uuid_text(thread.id),
{
    concat("Buster Super Agent ", uuid_to_text(&thread.id).as_str())
}

/// The input of the root span of a trace: the content of the latest user
/// turn of the thread, or a note that there is none.
pub fn root_span_input(thread: &AgentThread) -> (r: String)
    ensures
        r@ == (match latest_user_text(thread@.messages) {
            Some(prompt) => prompt,
            None => "No prompt available"@,
        }),
{
    match thread.latest_user_content() {
        Some(prompt) => prompt,
        None => String::from_str("No prompt available"),
    }
}

/// The root span of the trace of a run: it holds the latest user turn as
/// its input.
pub open spec fn root_span_of(thread: AgentThread, session_id: uuid::Uuid) -> SpanView {
    SpanView {
        name: "Buster Super Agent "@ + uuid_text(thread.id),
        span_type: "root"@,
        root_span_id: None,
        chat_id: uuid_text(session_id),
        input: Some(
            PayloadView::Text(
                match latest_user_text(thread@.messages) {
                    Some(prompt) => prompt,
                    None => "No prompt available"@,
                },
            ),
        ),
        output: None,
    }
}

/// The span of one tool call: the assistant message that asks for the tool
/// is its input, and what came of the tool its output.
pub open spec fn tool_span_of(
    root_span_id: Seq<char>,
    session_id: uuid::Uuid,
    call_name: Seq<char>,
    assistant: MessageView,
    output: PayloadView,
) -> SpanView {
    SpanView {
        name: "Assistant: "@ + call_name,
        span_type: "tool"@,
        root_span_id: Some(root_span_id),
        chat_id: uuid_text(session_id),
        input: Some(PayloadView::Message(assistant)),
        output: Some(output),
    }
}

/// The span of an answer without tool calls.
pub open spec fn response_span_of(
    root_span_id: Seq<char>,
    session_id: uuid::Uuid,
    assistant: MessageView,
) -> SpanView {
    SpanView {
        name: "Assistant Response"@,
        span_type: "llm"@,
        root_span_id: Some(root_span_id),
        chat_id: uuid_text(session_id),
        input: None,
        output: Some(PayloadView::Message(assistant)),
    }
}

/// The span that completes a trace.
pub open spec fn completion_span_of(root_span_id: Seq<char>, session_id: uuid::Uuid) -> SpanView {
    SpanView {
        name: "Trace Completion"@,
        span_type: "completion"@,
        root_span_id: Some(root_span_id),
        chat_id: uuid_text(session_id),
        input: None,
        output: None,
    }
}

/// The output of a span for a tool that failed.
pub fn tool_error_output(error: &str) -> (r: SpanPayload)
    ensures
        r@ == PayloadView::Error("Tool execution error: "@ + error@),
{
    SpanPayload::Error(concat("Tool execution error: ", error))
}

/// The output of a span for a stream that could not be opened.
pub fn stream_start_error_output(error: &str) -> (r: SpanPayload)
    ensures
        r@ == PayloadView::Error("Error starting stream: "@ + error@),
{
    SpanPayload::Error(concat("Error starting stream: ", error))
}

/// The output of a span for a chunk that did not arrive.
pub fn stream_error_output(error: &str) -> (r: SpanPayload)
    ensures
        r@ == PayloadView::Error("Error in stream: "@ + error@),
{
    SpanPayload::Error(concat("Error in stream: ", error))
}

impl<E, P: Fn(&StateStore) -> bool> Agent<E, P> {
    /// The root span of the trace of a run on `thread`.
    pub fn root_span(&self, thread: &AgentThread) -> (r: SpanRecord)
        ensures
            r@ == root_span_of(*thread, self@.session_id),
    {
        SpanRecord {
            name: trace_name(thread),
            span_type: String::from_str("root"),
            root_span_id: None,
            chat_id: uuid_to_text(&self.get_session_id()),
            input: Some(SpanPayload::Text(root_span_input(thread))),
            output: None,
        }
    }

    /// The span of one tool call, once it is known what came of the tool.
    pub fn tool_span(
        &self,
        trace: &TraceContext,
        call: &ToolCall,
        assistant: &AgentMessage,
        output: SpanPayload,
    ) -> (r: SpanRecord)
        ensures
            r@ == tool_span_of(
                trace.root_span_id@,
                self@.session_id,
                call@.name,
                assistant@,
                output@,
            ),
    {
        SpanRecord {
            name: concat("Assistant: ", call.function.name.as_str()),
            span_type: String::from_str("tool"),
            root_span_id: Some(trace.root_span_id.clone()),
            chat_id: uuid_to_text(&self.get_session_id()),
            input: Some(SpanPayload::Message(assistant.clone())),
            output: Some(output),
        }
    }

    /// The span of an answer without tool calls.
    pub fn response_span(&self, trace: &TraceContext, assistant: &AgentMessage) -> (r: SpanRecord)
        ensures
            r@ == response_span_of(trace.root_span_id@, self@.session_id, assistant@),
    {
        SpanRecord {
            name: String::from_str("Assistant Response"),
            span_type: String::from_str("llm"),
            root_span_id: Some(trace.root_span_id.clone()),
            chat_id: uuid_to_text(&self.get_session_id()),
            input: None,
            output: Some(SpanPayload::Message(assistant.clone())),
        }
    }

    /// The span that completes the trace of a run: none where the run has no
    /// trace or nothing is there to emit spans with.
    pub fn finish_trace(&self, trace: &Option<TraceContext>, emitter_available: bool) -> (r: Option<
        SpanRecord,
    >)
        ensures
            match r {
                Some(span) => {
                    &&& emitter_available
                    &&& trace matches Some(t)
                    &&& span@ == completion_span_of(t.root_span_id@, self@.session_id)
                },
                None => !emitter_available || trace is None,
            },
    {
        if !emitter_available {
            return None;
        }
        match trace {
            Some(t) => Some(
                SpanRecord {
                    name: String::from_str("Trace Completion"),
                    span_type: String::from_str("completion"),
                    root_span_id: Some(t.root_span_id.clone()),
                    chat_id: uuid_to_text(&self.get_session_id()),
                    input: None,
                    output: None,
                },
            ),
            None => None,
        }
    }
}

} // verus!
