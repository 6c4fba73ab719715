//! The agent loop, as the decisions of one run.
//!
//! A run goes through steps. In each step the mode is configured for a
//! snapshot of the state, the model is asked, its streamed answer is
//! assembled, and the tools it calls are run one after the other. What a run
//! waits for happens elsewhere: each function here takes what has happened
//! (the mode was configured, the stream was opened, a chunk came, a tool
//! finished, shutdown was signalled), says what goes out on the stream,
//! keeps the thread, and answers with what is to be done next.
//!
//! What every such function does is described by an `Effect`: what is said
//! on the stream, what is recorded in the thread, and where the run stands
//! afterwards.

use vstd::prelude::*;
use vstd::string::StringExecFns;
use crate::accumulator::{
    accepted,
    all_calls,
    chunk_finishes,
    final_message,
    flush_due,
    flushed,
    has_changes,
    snapshot_message,
    BufferView,
    ChatCompletionChunk,
    ChunkView,
    MessageBuffer,
};
use crate::agent::{
    appended,
    delivered,
    mode_applied,
    Agent,
    AgentGroup,
    AgentView,
    GroupView,
    ModeConfiguration,
};
use crate::json::{
    fresh_uuid,
    json_error_message,
    json_object_text,
    object_text,
    json_parse,
    json_text,
    parse_value,
    uuid_to_text,
    value_to_text,
};
use crate::message::{
    calls_view,
    done_event,
    AgentError,
    AgentMessage,
    AgentThread,
    EventView,
    MessageProgress,
    MessageView,
    ThreadView,
    ToolCall,
    ToolCallView,
};
use crate::request::{compose_request, composed, ChatCompletionRequest, RequestView};
use crate::state::StateStore;
use crate::text::{concat, concat3};
use crate::tools::{conditions_total, offers_under, tool_names, ToolView};

verus! {

/// The number of steps a run can take.
pub const MAX_RECURSION_DEPTH: u32 = 15;

/// Where a run stands: what it waits for.
#[derive(Clone, Copy, Debug, PartialEq, Eq, Structural)]
pub enum RunPhase {
    /// The mode is being configured for the snapshot of the state.
    AwaitingMode,
    /// The request is with the model, and the stream is being opened.
    AwaitingStream,
    /// The chunks of the answer are coming in.
    Streaming,
    /// A tool is running.
    AwaitingTool,
    /// The run is over.
    Finished,
}

/// What is to be done next for a run.
pub enum NextAction {
    /// Ask the mode provider for the configuration of this state, and answer
    /// with `mode_configured`.
    ConfigureMode { state: StateStore },
    /// Send the request to the model, and answer with `stream_opened`.
    OpenStream { request: ChatCompletionRequest },
    /// Wait for the next chunk of the answer, and answer with
    /// `chunk_received`.
    ReadChunk,
    /// Run the tool with these parameters, and answer with `tool_finished`.
    ExecuteTool { name: String, params: serde_json::Value, call_id: String },
    /// Nothing: the run is over, with this result.
    Finish { result: Result<(), AgentError> },
}

/// What a next action says.
pub enum ActionView {
    ConfigureMode { state: Map<Seq<char>, serde_json::Value> },
    OpenStream { request: RequestView },
    ReadChunk,
    ExecuteTool { name: Seq<char>, params: serde_json::Value, call_id: Seq<char> },
    Finish { failure: Option<Seq<char>> },
}

impl View for NextAction {
    type V = ActionView;

    open spec fn view(&self) -> ActionView {
        match *self {
            NextAction::ConfigureMode { state } => ActionView::ConfigureMode { state: state@ },
            NextAction::OpenStream { request } => ActionView::OpenStream { request: request@ },
            NextAction::ReadChunk => ActionView::ReadChunk,
            NextAction::ExecuteTool { name, params, call_id } => ActionView::ExecuteTool {
                name: name@,
                params,
                call_id: call_id@,
            },
            NextAction::Finish { result } => ActionView::Finish {
                failure: match result {
                    Ok(_) => None,
                    Err(e) => Some(e@),
                },
            },
        }
    }
}

/// What the decisions of a run depend on, of the agent that runs it.
pub struct Setting {
    /// The name of the agent.
    pub agent_name: Seq<char>,
    /// The names of the tools of the agent.
    pub tools: Set<Seq<char>>,
    /// The names of the tools that end the run.
    pub terminating: Seq<Seq<char>>,
}

/// The setting that an agent gives to its runs.
pub open spec fn setting_of<E, P>(agent: AgentView<E, P>) -> Setting {
    Setting {
        agent_name: agent.name,
        tools: tool_names(agent.tools),
        terminating: agent.terminating_tool_names,
    }
}

/// What a run holds.
pub struct RunView {
    /// The number of steps that lie behind the run.
    pub depth: nat,
    pub phase: RunPhase,
    /// The thread of the run: what it was started with, and what the steps
    /// have added.
    pub thread: ThreadView,
    /// The state as it was when the step began.
    pub snapshot: Map<Seq<char>, serde_json::Value>,
    /// The answer of the step, as far as it has come.
    pub buffer: BufferView,
    /// The tool calls of the step.
    pub calls: Seq<ToolCallView>,
    /// The place of the call whose tool is running.
    pub next_call: nat,
}

/// What one decision does.
pub struct Effect {
    /// What is said on the stream, in order.
    pub said: Seq<EventView>,
    /// What is appended to the thread, in order.
    pub recorded: Seq<MessageView>,
    pub depth: nat,
    pub phase: RunPhase,
    pub next_call: nat,
    /// The error with which the run failed.
    pub failure: Option<Seq<char>>,
    /// Whether the thread of the run becomes the current thread of the group.
    pub installs: bool,
    /// Whether the stream is closed at the end.
    pub closes: bool,
}

/// The message that says that the run has taken all the steps it can.
pub open spec fn capacity_message(agent_name: Seq<char>) -> MessageView {
    MessageView::Assistant {
        id: Some("max_recursion_depth_message"@),
        content: Some(
            "I apologize, but I've reached the maximum number of actions (15). Please try breaking your request into smaller parts."@,
        ),
        tool_calls: None,
        progress: MessageProgress::Complete,
        initial: None,
        name: Some(agent_name),
    }
}

/// The message that says that the run was interrupted.
pub open spec fn shutdown_message(agent_name: Seq<char>) -> MessageView {
    MessageView::Assistant {
        id: Some("shutdown_message"@),
        content: Some("Processing interrupted due to shutdown signal"@),
        tool_calls: None,
        progress: MessageProgress::Complete,
        initial: None,
        name: Some(agent_name),
    }
}

/// The tool message that answers a call with the result of its tool.
pub open spec fn tool_result_message(call: ToolCallView, content: Seq<char>) -> MessageView {
    MessageView::Tool {
        id: None,
        tool_call_id: call.id,
        name: Some(call.name),
        content,
        progress: MessageProgress::Complete,
    }
}

/// The tool message that answers a call to a tool that is not registered.
pub open spec fn unknown_tool_message(call: ToolCallView) -> MessageView {
    tool_result_message(
        call,
        json_object_text("error"@, "Attempted to call non-existent tool: "@ + call.name),
    )
}

/// The event that tells the stream that the run failed.
pub open spec fn failure_event(text: Seq<char>) -> EventView {
    Err("Error processing thread: "@ + text)
}

/// The error of a call whose arguments are not JSON.
pub open spec fn parse_failure(call: ToolCallView, error: Seq<char>) -> Seq<char> {
    "Failed to parse tool arguments for "@ + call.name + ": "@ + error
}

/// The error of a call whose tool failed.
pub open spec fn tool_failure(call: ToolCallView, error: Seq<char>) -> Seq<char> {
    "Tool execution error for "@ + call.name + ": "@ + error
}

/// The error of a stream that could not be opened.
pub open spec fn stream_failure(error: Seq<char>) -> Seq<char> {
    "Error starting LLM stream: "@ + error
}

/// The error of a chunk that did not arrive.
pub open spec fn chunk_failure(error: Seq<char>) -> Seq<char> {
    "Error receiving chunk from LLM stream: "@ + error
}

/// Nothing said, nothing recorded: the run waits in `phase`.
pub open spec fn waiting(phase: RunPhase, depth: nat, next_call: nat) -> Effect {
    Effect {
        said: Seq::empty(),
        recorded: Seq::empty(),
        depth,
        phase,
        next_call,
        failure: None,
        installs: false,
        closes: false,
    }
}

/// The run ends well: the stream is told so.
pub open spec fn ended(depth: nat) -> Effect {
    Effect {
        said: seq![done_event()],
        recorded: Seq::empty(),
        depth,
        phase: RunPhase::Finished,
        next_call: 0,
        failure: None,
        installs: false,
        closes: false,
    }
}

/// The run fails: the stream is told the error, and that the run is over.
pub open spec fn failed(text: Seq<char>, depth: nat) -> Effect {
    Effect {
        said: seq![failure_event(text), done_event()],
        recorded: Seq::empty(),
        depth,
        phase: RunPhase::Finished,
        next_call: 0,
        failure: Some(text),
        installs: false,
        closes: false,
    }
}

/// The run is interrupted: the stream is told so, and that the run is over.
pub open spec fn stopped(agent_name: Seq<char>, depth: nat) -> Effect {
    Effect {
        said: seq![Ok(shutdown_message(agent_name)), done_event()],
        recorded: Seq::empty(),
        depth,
        phase: RunPhase::Finished,
        next_call: 0,
        failure: None,
        installs: false,
        closes: false,
    }
}

/// A step begins at `depth`: the thread of the run becomes the current
/// thread. Where the run has taken all its steps, the stream is told so and
/// that the run is over, and is closed after that. Else the run waits for
/// its mode.
pub open spec fn begun(agent_name: Seq<char>, depth: nat) -> Effect {
    if depth >= MAX_RECURSION_DEPTH {
        Effect {
            said: seq![Ok(capacity_message(agent_name)), done_event()],
            recorded: Seq::empty(),
            depth,
            phase: RunPhase::Finished,
            next_call: 0,
            failure: None,
            installs: true,
            closes: true,
        }
    } else {
        Effect { installs: true, ..waiting(RunPhase::AwaitingMode, depth, 0) }
    }
}

/// The effect `e`, after the message `m` was said.
pub open spec fn heard(m: MessageView, e: Effect) -> Effect {
    Effect { said: seq![Ok(m)] + e.said, ..e }
}

/// The effect `e`, after the message `m` was said and recorded.
pub open spec fn noted(m: MessageView, e: Effect) -> Effect {
    Effect { said: seq![Ok(m)] + e.said, recorded: seq![m] + e.recorded, ..e }
}

/// The calls from the place `i` on are dispatched, in order. A call to a
/// tool that is not registered is answered with an error message, and the
/// next call is taken. A call whose arguments are not JSON fails the run. For
/// a call that is in order the run waits for its tool. After the last call
/// the next step begins.
pub open spec fn dispatched(s: Setting, calls: Seq<ToolCallView>, i: nat, depth: nat) -> Effect
    decreases calls.len() - i,
{
    if i >= calls.len() {
        begun(s.agent_name, depth + 1)
    } else if !s.tools.contains(calls[i as int].name) {
        noted(unknown_tool_message(calls[i as int]), dispatched(s, calls, i + 1, depth))
    } else {
        match json_parse(calls[i as int].arguments) {
            Ok(_) => waiting(RunPhase::AwaitingTool, depth, i),
            Err(e) => failed(parse_failure(calls[i as int], e), depth),
        }
    }
}

/// The tool of the call at the place `i` has finished. Its error fails the
/// run, and so does a result that cannot be written as JSON. Else the call
/// is answered with the result. After a terminating tool the run ends; after
/// any other the calls that follow are dispatched.
pub open spec fn tool_done(
    s: Setting,
    calls: Seq<ToolCallView>,
    i: nat,
    depth: nat,
    outcome: Result<serde_json::Value, Seq<char>>,
) -> Effect {
    let call = calls[i as int];
    match outcome {
        Err(e) => failed(tool_failure(call, e), depth),
        Ok(v) => match json_text(v) {
            Err(e) => failed(e, depth),
            Ok(text) => if s.terminating.contains(call.name) {
                noted(tool_result_message(call, text), ended(depth))
            } else {
                noted(tool_result_message(call, text), dispatched(s, calls, i + 1, depth))
            },
        },
    }
}

/// Shutdown was signalled while the tool of the call at the place `i` was
/// running, and the tool has now finished. The tool was not interrupted: where
/// it gave a result that can be written as JSON, the call is answered with
/// it. Whatever came of the tool, the stream is told that the run was
/// interrupted and that it is over, and no further call is dispatched.
pub open spec fn tool_done_at_shutdown(
    s: Setting,
    calls: Seq<ToolCallView>,
    i: nat,
    depth: nat,
    outcome: Result<serde_json::Value, Seq<char>>,
) -> Effect {
    match outcome {
        Ok(v) => match json_text(v) {
            Ok(text) => noted(
                tool_result_message(calls[i as int], text),
                stopped(s.agent_name, depth),
            ),
            Err(_) => stopped(s.agent_name, depth),
        },
        Err(_) => stopped(s.agent_name, depth),
    }
}

/// The answer of the step is complete. What the buffer holds is shown once
/// more as a partial message, the final message is said and recorded, and
/// the calls of the answer are dispatched.
pub open spec fn completed(s: Setting, b: BufferView, depth: nat) -> Effect {
    let rest = noted(
        final_message(b, s.agent_name),
        dispatched(s, all_calls(b.tool_calls), 0, depth),
    );
    if has_changes(b) {
        heard(snapshot_message(b, s.agent_name), rest)
    } else {
        rest
    }
}

/// The buffer after what the stream brought: a chunk, an error in place of a
/// chunk, or its end.
pub open spec fn buffer_taken(
    b: BufferView,
    chunk: Option<Result<ChunkView, Seq<char>>>,
    now_ms: u64,
    fresh: Seq<char>,
) -> BufferView {
    match chunk {
        None => flushed(b, now_ms),
        Some(Err(_)) => b,
        Some(Ok(c)) => if c.choice is None {
            b
        } else {
            let taken = accepted(b, c, fresh);
            let shown = if flush_due(taken, now_ms) {
                flushed(taken, now_ms)
            } else {
                taken
            };
            if chunk_finishes(c) {
                flushed(shown, now_ms)
            } else {
                shown
            }
        },
    }
}

/// The stream brought a chunk, an error in place of a chunk, or its end. An
/// error fails the run. A chunk without choices is passed over. Any other
/// chunk is taken into the buffer, which is shown as a partial message where
/// one is due and there is something to show. With the chunk that brings the
/// reason for the end, and with the end of the stream, the answer is
/// complete.
pub open spec fn chunk_taken(
    s: Setting,
    b: BufferView,
    chunk: Option<Result<ChunkView, Seq<char>>>,
    now_ms: u64,
    fresh: Seq<char>,
    depth: nat,
) -> Effect {
    match chunk {
        None => completed(s, b, depth),
        Some(Err(e)) => failed(chunk_failure(e), depth),
        Some(Ok(c)) => if c.choice is None {
            waiting(RunPhase::Streaming, depth, 0)
        } else {
            let taken = accepted(b, c, fresh);
            let due = flush_due(taken, now_ms);
            let shown = if due {
                flushed(taken, now_ms)
            } else {
                taken
            };
            let rest = if chunk_finishes(c) {
                completed(s, shown, depth)
            } else {
                waiting(RunPhase::Streaming, depth, 0)
            };
            if due && has_changes(taken) {
                heard(snapshot_message(taken, s.agent_name), rest)
            } else {
                rest
            }
        },
    }
}

/// The run after an effect. The thread gains what was recorded. Where a step
/// begins, the run takes a snapshot of the state.
pub open spec fn run_after(r: RunView, g: GroupView, e: Effect) -> RunView {
    RunView {
        depth: e.depth,
        phase: e.phase,
        thread: ThreadView {
            id: r.thread.id,
            user_id: r.thread.user_id,
            messages: r.thread.messages + e.recorded,
        },
        snapshot: if e.phase == RunPhase::AwaitingMode {
            g.state
        } else {
            r.snapshot
        },
        buffer: r.buffer,
        calls: r.calls,
        next_call: e.next_call,
    }
}

/// The group after an effect. What was said joins the outbox, if the stream
/// is open. The current thread gains what was recorded; where the effect
/// installs the thread of the run, that thread takes its place.
pub open spec fn group_after(r: RunView, g: GroupView, e: Effect) -> GroupView {
    GroupView {
        state: g.state,
        current_thread: if e.installs {
            Some(run_after(r, g, e).thread)
        } else {
            appended(g.current_thread, e.recorded)
        },
        stream_open: g.stream_open && !e.closes,
        outbox: g.outbox + delivered(g.stream_open, e.said),
    }
}

/// What is to be done after an effect that leaves the run as `r`.
pub open spec fn action_after(r: RunView, e: Effect) -> ActionView {
    match e.phase {
        RunPhase::AwaitingMode => ActionView::ConfigureMode { state: r.snapshot },
        RunPhase::AwaitingTool => ActionView::ExecuteTool {
            name: r.calls[e.next_call as int].name,
            params: json_parse(r.calls[e.next_call as int].arguments)->Ok_0,
            call_id: r.calls[e.next_call as int].id,
        },
        RunPhase::Finished => ActionView::Finish { failure: e.failure },
        _ => ActionView::ReadChunk,
    }
}

/// Whether a run is in order: it has taken no more steps than it can, it
/// waits for nothing once it has taken them all, and the call whose tool is
/// running is one of the calls of the step.
pub open spec fn run_ok(r: RunView) -> bool {
    &&& r.depth <= MAX_RECURSION_DEPTH
    &&& r.phase != RunPhase::Finished ==> r.depth < MAX_RECURSION_DEPTH
    &&& r.phase == RunPhase::AwaitingTool ==> r.next_call < r.calls.len()
}

/// Whether an effect leaves a run in order, given the calls of the step.
pub open spec fn effect_ok(e: Effect, calls: Seq<ToolCallView>) -> bool {
    &&& e.depth <= MAX_RECURSION_DEPTH
    &&& e.phase != RunPhase::Finished ==> e.depth < MAX_RECURSION_DEPTH
    &&& e.phase == RunPhase::AwaitingTool ==> e.next_call < calls.len()
    &&& e.phase == RunPhase::AwaitingMode ==> e.installs
    &&& e.phase != RunPhase::AwaitingStream
}

/// Dispatching leaves the run in order.
pub proof fn lemma_dispatched_ok(s: Setting, calls: Seq<ToolCallView>, i: nat, depth: nat)
    requires
        depth < MAX_RECURSION_DEPTH,
    ensures
        effect_ok(dispatched(s, calls, i, depth), calls),
    decreases calls.len() - i,
{
    if i < calls.len() && !s.tools.contains(calls[i as int].name) {
        lemma_dispatched_ok(s, calls, i + 1, depth);
    }
}

/// Saying and recording a message first, and the effect after it, is the
/// effect with the message noted.
pub proof fn lemma_noted(r: RunView, g: GroupView, m: MessageView, e: Effect)
    ensures
        run_after(
            RunView {
                thread: ThreadView {
                    id: r.thread.id,
                    user_id: r.thread.user_id,
                    messages: r.thread.messages + seq![m],
                },
                ..r
            },
            GroupView {
                current_thread: appended(g.current_thread, seq![m]),
                outbox: g.outbox + delivered(g.stream_open, seq![Ok(m)]),
                ..g
            },
            e,
        ) == run_after(r, g, noted(m, e)),
        group_after(
            RunView {
                thread: ThreadView {
                    id: r.thread.id,
                    user_id: r.thread.user_id,
                    messages: r.thread.messages + seq![m],
                },
                ..r
            },
            GroupView {
                current_thread: appended(g.current_thread, seq![m]),
                outbox: g.outbox + delivered(g.stream_open, seq![Ok(m)]),
                ..g
            },
            e,
        ) == group_after(r, g, noted(m, e)),
{
    let r1 = RunView {
        thread: ThreadView {
            id: r.thread.id,
            user_id: r.thread.user_id,
            messages: r.thread.messages + seq![m],
        },
        ..r
    };
    let g1 = GroupView {
        current_thread: appended(g.current_thread, seq![m]),
        outbox: g.outbox + delivered(g.stream_open, seq![Ok(m)]),
        ..g
    };
    let first: Seq<EventView> = seq![Ok(m)];
    assert((r.thread.messages + seq![m]) + e.recorded =~= r.thread.messages + (seq![m]
        + e.recorded));
    assert(g1.outbox + delivered(g.stream_open, e.said) =~= g.outbox + delivered(
        g.stream_open,
        first + e.said,
    ));
    match g.current_thread {
        Some(t) => {
            assert((t.messages + seq![m]) + e.recorded =~= t.messages + (seq![m] + e.recorded));
        },
        None => {},
    }
}

/// Saying a message first, and the effect after it, is the effect with the
/// message heard.
pub proof fn lemma_heard(r: RunView, g: GroupView, m: MessageView, e: Effect)
    ensures
        run_after(
            r,
            GroupView { outbox: g.outbox + delivered(g.stream_open, seq![Ok(m)]), ..g },
            e,
        ) == run_after(r, g, heard(m, e)),
        group_after(
            r,
            GroupView { outbox: g.outbox + delivered(g.stream_open, seq![Ok(m)]), ..g },
            e,
        ) == group_after(r, g, heard(m, e)),
{
    let g1 = GroupView { outbox: g.outbox + delivered(g.stream_open, seq![Ok(m)]), ..g };
    let first: Seq<EventView> = seq![Ok(m)];
    assert(g1.outbox + delivered(g.stream_open, e.said) =~= g.outbox + delivered(
        g.stream_open,
        first + e.said,
    ));
}

/// A run with which nothing has happened yet.
pub open spec fn new_run(thread: ThreadView) -> RunView {
    RunView {
        depth: 0,
        phase: RunPhase::AwaitingMode,
        thread,
        snapshot: Map::empty(),
        buffer: crate::accumulator::empty_buffer(0),
        calls: Seq::empty(),
        next_call: 0,
    }
}

/// What the stream brought, as what it says.
pub open spec fn arrival_view(chunk: Option<Result<ChatCompletionChunk, String>>) -> Option<
    Result<ChunkView, Seq<char>>,
> {
    match chunk {
        None => None,
        Some(Ok(c)) => Some(Ok(c@)),
        Some(Err(e)) => Some(Err(e@)),
    }
}

/// Whether what the stream brought completes the answer of the step.
pub open spec fn completes(chunk: Option<Result<ChunkView, Seq<char>>>) -> bool {
    match chunk {
        None => true,
        Some(Ok(c)) => chunk_finishes(c),
        Some(Err(_)) => false,
    }
}

/// The outcome of a tool, as what it says.
pub open spec fn outcome_view(result: Result<serde_json::Value, String>) -> Result<
    serde_json::Value,
    Seq<char>,
> {
    match result {
        Ok(v) => Ok(v),
        Err(e) => Err(e@),
    }
}

/// The calls of the step after what the stream brought: those of the answer
/// once the answer is complete.
pub open spec fn staged_calls(
    calls: Seq<ToolCallView>,
    b: BufferView,
    chunk: Option<Result<ChunkView, Seq<char>>>,
    now_ms: u64,
    fresh: Seq<char>,
) -> Seq<ToolCallView> {
    if completes(chunk) {
        all_calls(buffer_taken(b, chunk, now_ms, fresh).tool_calls)
    } else {
        calls
    }
}

/// The run before the effect of what the stream brought: it holds the buffer
/// after it, and the calls of the answer once the answer is complete.
pub open spec fn staged(
    r: RunView,
    chunk: Option<Result<ChunkView, Seq<char>>>,
    now_ms: u64,
    fresh: Seq<char>,
) -> RunView {
    RunView {
        buffer: buffer_taken(r.buffer, chunk, now_ms, fresh),
        calls: staged_calls(r.calls, r.buffer, chunk, now_ms, fresh),
        ..r
    }
}

/// One run of an agent on one thread.
pub struct ThreadRun {
    depth: u32,
    phase: RunPhase,
    thread: AgentThread,
    snapshot: StateStore,
    buffer: MessageBuffer,
    calls: Vec<ToolCall>,
    next_call: usize,
}

impl View for ThreadRun {
    type V = RunView;

    closed spec fn view(&self) -> RunView {
        RunView {
            depth: self.depth as nat,
            phase: self.phase,
            thread: self.thread@,
            snapshot: self.snapshot@,
            buffer: self.buffer@,
            calls: calls_view(self.calls@),
            next_call: self.next_call as nat,
        }
    }
}

/// The tool message that answers a call to a tool that is not registered.
pub fn unknown_tool_reply(call: &ToolCall) -> (r: AgentMessage)
    ensures
        r@ == unknown_tool_message(call@),
{
    let error = concat("Attempted to call non-existent tool: ", call.function.name.as_str());
    AgentMessage::tool(
        None,
        object_text("error", error.as_str()),
        call.id.clone(),
        Some(call.function.name.clone()),
        MessageProgress::Complete,
    )
}

/// The tool message that answers a call with the result of its tool.
pub fn tool_reply(call: &ToolCall, content: String) -> (r: AgentMessage)
    ensures
        r@ == tool_result_message(call@, content@),
{
    AgentMessage::tool(
        None,
        content,
        call.id.clone(),
        Some(call.function.name.clone()),
        MessageProgress::Complete,
    )
}

/// The message that says that the run has taken all the steps it can.
pub fn capacity_notice(agent_name: &str) -> (r: AgentMessage)
    ensures
        r@ == capacity_message(agent_name@),
{
    AgentMessage::assistant(
        Some(String::from_str("max_recursion_depth_message")),
        Some(
            String::from_str(
                "I apologize, but I've reached the maximum number of actions (15). Please try breaking your request into smaller parts.",
            ),
        ),
        None,
        MessageProgress::Complete,
        None,
        Some(String::from_str(agent_name)),
    )
}

/// The message that says that the run was interrupted.
pub fn shutdown_notice(agent_name: &str) -> (r: AgentMessage)
    ensures
        r@ == shutdown_message(agent_name@),
{
    AgentMessage::assistant(
        Some(String::from_str("shutdown_message")),
        Some(String::from_str("Processing interrupted due to shutdown signal")),
        None,
        MessageProgress::Complete,
        None,
        Some(String::from_str(agent_name)),
    )
}

impl ThreadRun {
    /// The snapshot of the state that the step works with, as a value.
    pub closed spec fn snapshot_store(&self) -> StateStore {
        self.snapshot
    }

    /// The snapshot store holds the snapshot of the run: what the conditions
    /// of the tools are asked about is the state as it was when the step
    /// began.
    pub proof fn lemma_snapshot_view(&self)
        ensures
            self.snapshot_store()@ == self@.snapshot,
    {
    }

    /// Whether the run is in order.
    pub open spec fn wf(&self) -> bool {
        run_ok(self@)
    }

    /// Where the run stands.
    pub fn phase(&self) -> (r: RunPhase)
        ensures
            r == self@.phase,
    {
        self.phase
    }

    /// Whether the run is over.
    pub fn is_finished(&self) -> (r: bool)
        ensures
            r == (self@.phase == RunPhase::Finished),
    {
        match self.phase {
            RunPhase::Finished => true,
            _ => false,
        }
    }

    /// The number of steps that lie behind the run: never more than 15.
    pub fn depth(&self) -> (r: u32)
        requires
            self.wf(),
        ensures
            r == self@.depth,
            r <= MAX_RECURSION_DEPTH,
    {
        self.depth
    }

    /// The thread of the run.
    pub fn thread(&self) -> (r: &AgentThread)
        ensures
            r@ == self@.thread,
    {
        &self.thread
    }

    /// Says a message on the stream.
    fn say(group: &mut AgentGroup, message: AgentMessage)
        ensures
            final(group)@ == (GroupView {
                outbox: old(group)@.outbox + delivered(
                    old(group)@.stream_open,
                    seq![Ok(message@)],
                ),
                ..old(group)@
            }),
    {
        group.send(Ok(message));
    }

    /// Says a message on the stream and appends it to the thread of the run
    /// and to the current thread of the group.
    fn record(&mut self, group: &mut AgentGroup, message: AgentMessage)
        ensures
            final(self)@ == (RunView {
                thread: ThreadView {
                    id: old(self)@.thread.id,
                    user_id: old(self)@.thread.user_id,
                    messages: old(self)@.thread.messages + seq![message@],
                },
                ..old(self)@
            }),
            final(group)@ == (GroupView {
                current_thread: appended(old(group)@.current_thread, seq![message@]),
                outbox: old(group)@.outbox + delivered(
                    old(group)@.stream_open,
                    seq![Ok(message@)],
                ),
                ..old(group)@
            }),
            final(self).snapshot_store() == old(self).snapshot_store(),
    {
        group.send(Ok(message.clone()));
        group.update_current_thread(message.clone());
        self.thread.messages.push(message);
        assert(self@.thread.messages =~= old(self)@.thread.messages + seq![message@]);
    }

    /// Begins the step at the depth of the run.
    fn begin(&mut self, group: &mut AgentGroup, agent_name: &str) -> (action: NextAction)
        ensures
            final(self)@ == run_after(
                old(self)@,
                old(group)@,
                begun(agent_name@, old(self)@.depth),
            ),
            final(group)@ == group_after(
                old(self)@,
                old(group)@,
                begun(agent_name@, old(self)@.depth),
            ),
            action@ == action_after(final(self)@, begun(agent_name@, old(self)@.depth)),
    {
        let ghost effect = begun(agent_name@, self@.depth);
        let ghost r0 = self@;
        let ghost g0 = group@;
        self.next_call = 0;
        group.set_current_thread(self.thread.clone());
        if self.depth >= MAX_RECURSION_DEPTH {
            Self::say(group, capacity_notice(agent_name));
            Self::say(group, AgentMessage::Done);
            group.close();
            self.phase = RunPhase::Finished;
            proof {
                let first: Seq<EventView> = seq![Ok(capacity_message(agent_name@))];
                let second: Seq<EventView> = seq![done_event()];
                assert(first + second =~= effect.said);
                assert(g0.outbox + delivered(g0.stream_open, first) + delivered(
                    g0.stream_open,
                    second,
                ) =~= g0.outbox + delivered(g0.stream_open, effect.said));
                assert(r0.thread.messages + effect.recorded =~= r0.thread.messages);
                lemma_appended_nothing(g0.current_thread);
            }
            NextAction::Finish { result: Ok(()) }
        } else {
            self.snapshot = group.snapshot();
            self.phase = RunPhase::AwaitingMode;
            proof {
                assert(r0.thread.messages + effect.recorded =~= r0.thread.messages);
                assert(g0.outbox + delivered(g0.stream_open, effect.said) =~= g0.outbox);
            }
            NextAction::ConfigureMode { state: self.snapshot.clone() }
        }
    }

    /// Fails the run with the error `text`.
    fn fail(&mut self, group: &mut AgentGroup, text: String) -> (action: NextAction)
        ensures
            final(self)@ == run_after(old(self)@, old(group)@, failed(text@, old(self)@.depth)),
            final(group)@ == group_after(
                old(self)@,
                old(group)@,
                failed(text@, old(self)@.depth),
            ),
            action@ == action_after(final(self)@, failed(text@, old(self)@.depth)),
            final(self).snapshot_store() == old(self).snapshot_store(),
    {
        let ghost effect = failed(text@, self@.depth);
        let ghost r0 = self@;
        let ghost g0 = group@;
        let event_text = concat("Error processing thread: ", text.as_str());
        group.send(Err(AgentError(event_text)));
        group.send(Ok(AgentMessage::Done));
        self.phase = RunPhase::Finished;
        self.next_call = 0;
        proof {
            let first: Seq<EventView> = seq![failure_event(text@)];
            let second: Seq<EventView> = seq![done_event()];
            assert(first + second =~= effect.said);
            assert(g0.outbox + delivered(g0.stream_open, first) + delivered(
                g0.stream_open,
                second,
            ) =~= g0.outbox + delivered(g0.stream_open, effect.said));
            assert(r0.thread.messages + effect.recorded =~= r0.thread.messages);
            lemma_appended_nothing(g0.current_thread);
        }
        NextAction::Finish { result: Err(AgentError(text)) }
    }

    /// Ends the run well.
    fn end(&mut self, group: &mut AgentGroup) -> (action: NextAction)
        ensures
            final(self)@ == run_after(old(self)@, old(group)@, ended(old(self)@.depth)),
            final(group)@ == group_after(old(self)@, old(group)@, ended(old(self)@.depth)),
            action@ == action_after(final(self)@, ended(old(self)@.depth)),
    {
        let ghost effect = ended(self@.depth);
        let ghost r0 = self@;
        let ghost g0 = group@;
        Self::say(group, AgentMessage::Done);
        self.phase = RunPhase::Finished;
        self.next_call = 0;
        proof {
            assert(r0.thread.messages + effect.recorded =~= r0.thread.messages);
            lemma_appended_nothing(g0.current_thread);
        }
        NextAction::Finish { result: Ok(()) }
    }

    /// Dispatches the calls of the step from the place `next_call` on.
    fn dispatch<E, P: Fn(&StateStore) -> bool>(
        &mut self,
        agent: &Agent<E, P>,
        group: &mut AgentGroup,
    ) -> (action: NextAction)
        requires
            old(self)@.depth < MAX_RECURSION_DEPTH,
        ensures
            final(self)@ == run_after(
                old(self)@,
                old(group)@,
                dispatched(
                    setting_of(agent@),
                    old(self)@.calls,
                    old(self)@.next_call,
                    old(self)@.depth,
                ),
            ),
            final(group)@ == group_after(
                old(self)@,
                old(group)@,
                dispatched(
                    setting_of(agent@),
                    old(self)@.calls,
                    old(self)@.next_call,
                    old(self)@.depth,
                ),
            ),
            action@ == action_after(
                final(self)@,
                dispatched(
                    setting_of(agent@),
                    old(self)@.calls,
                    old(self)@.next_call,
                    old(self)@.depth,
                ),
            ),
    {
        let ghost s = setting_of(agent@);
        let ghost calls = self@.calls;
        let ghost depth = self@.depth;
        let ghost r0 = self@;
        let ghost g0 = group@;
        let ghost target = dispatched(s, calls, self@.next_call, depth);
        loop
            invariant
                r0 == old(self)@,
                g0 == old(group)@,
                calls == r0.calls,
                depth == r0.depth,
                s == setting_of(agent@),
                self@.calls == calls,
                self@.depth == depth,
                depth < MAX_RECURSION_DEPTH,
                target == dispatched(s, calls, r0.next_call, depth),
                run_after(self@, group@, dispatched(s, calls, self@.next_call, depth))
                    == run_after(r0, g0, target),
                group_after(self@, group@, dispatched(s, calls, self@.next_call, depth))
                    == group_after(r0, g0, target),
                dispatched(s, calls, self@.next_call, depth).phase == target.phase,
                dispatched(s, calls, self@.next_call, depth).next_call == target.next_call,
                dispatched(s, calls, self@.next_call, depth).failure == target.failure,
            decreases calls.len() - self@.next_call,
        {
            if self.next_call >= self.calls.len() {
                let ghost before = self@;
                self.depth = self.depth + 1;
                proof {
                    let effect = begun(s.agent_name, depth + 1);
                    assert(dispatched(s, calls, before.next_call, depth) == effect);
                    assert(run_after(self@, group@, effect) == run_after(before, group@, effect));
                    assert(group_after(self@, group@, effect) == group_after(
                        before,
                        group@,
                        effect,
                    ));
                }
                return self.begin(group, agent.get_name());
            }
            let call = &self.calls[self.next_call];
            assert(call@ == calls[self@.next_call as int]);
            if !agent.get_tools_map().contains(call.function.name.as_str()) {
                let reply = unknown_tool_reply(call);
                proof {
                    lemma_noted(
                        self@,
                        group@,
                        reply@,
                        dispatched(s, calls, self@.next_call + 1, depth),
                    );
                }
                self.record(group, reply);
                self.next_call = self.next_call + 1;
            } else {
                match parse_value(call.function.arguments.as_str()) {
                    Ok(params) => {
                        let name = call.function.name.clone();
                        let call_id = call.id.clone();
                        self.phase = RunPhase::AwaitingTool;
                        proof {
                            let effect = waiting(RunPhase::AwaitingTool, depth, self@.next_call);
                            assert(self@.thread.messages + effect.recorded
                                =~= self@.thread.messages);
                            assert(group@.outbox + delivered(group@.stream_open, effect.said)
                                =~= group@.outbox);
                            lemma_appended_nothing(group@.current_thread);
                        }
                        return NextAction::ExecuteTool { name, params, call_id };
                    },
                    Err(e) => {
                        let text = concat3(
                            concat(
                                "Failed to parse tool arguments for ",
                                call.function.name.as_str(),
                            ).as_str(),
                            ": ",
                            json_error_message(&e).as_str(),
                        );
                        return self.fail(group, text);
                    },
                }
            }
        }
    }

    /// The answer of the step is complete.
    fn complete<E, P: Fn(&StateStore) -> bool>(
        &mut self,
        agent: &Agent<E, P>,
        group: &mut AgentGroup,
        now_ms: u64,
    ) -> (action: NextAction)
        requires
            old(self)@.depth < MAX_RECURSION_DEPTH,
        ensures
            final(self)@ == run_after(
                RunView {
                    buffer: flushed(old(self)@.buffer, now_ms),
                    calls: all_calls(old(self)@.buffer.tool_calls),
                    ..old(self)@
                },
                old(group)@,
                completed(setting_of(agent@), old(self)@.buffer, old(self)@.depth),
            ),
            final(group)@ == group_after(
                RunView {
                    buffer: flushed(old(self)@.buffer, now_ms),
                    calls: all_calls(old(self)@.buffer.tool_calls),
                    ..old(self)@
                },
                old(group)@,
                completed(setting_of(agent@), old(self)@.buffer, old(self)@.depth),
            ),
            action@ == action_after(
                final(self)@,
                completed(setting_of(agent@), old(self)@.buffer, old(self)@.depth),
            ),
    {
        let ghost s = setting_of(agent@);
        let ghost b = self@.buffer;
        let ghost depth = self@.depth;
        let ghost g0 = group@;
        let name = agent.get_name();
        let shown = self.buffer.flush(name, now_ms);
        let closing = self.buffer.complete(name);
        self.calls = self.buffer.tool_calls();
        self.next_call = 0;
        let ghost r1 = self@;
        let ghost rest = dispatched(s, all_calls(b.tool_calls), 0, depth);
        assert(closing@ == final_message(b, s.agent_name));
        match shown {
            Some(m) => {
                proof {
                    lemma_heard(r1, g0, m@, noted(closing@, rest));
                }
                Self::say(group, m);
            },
            None => {},
        }
        proof {
            lemma_noted(r1, group@, closing@, rest);
        }
        self.record(group, closing);
        self.dispatch(agent, group)
    }

    /// Starts a run of `agent` on `thread`. The thread becomes the current
    /// thread of the group, and the run asks for the mode of the state as it
    /// stands.
    pub fn start<E, P: Fn(&StateStore) -> bool>(
        agent: &Agent<E, P>,
        group: &mut AgentGroup,
        thread: &AgentThread,
    ) -> (r: (ThreadRun, NextAction))
        ensures
            r.0.wf(),
            r.0@ == (RunView { snapshot: old(group)@.state, ..new_run(thread@) }),
            final(group)@ == (GroupView { current_thread: Some(thread@), ..old(group)@ }),
            r.1@ == (ActionView::ConfigureMode { state: old(group)@.state }),
    {
        let mut run = ThreadRun {
            depth: 0,
            phase: RunPhase::AwaitingMode,
            thread: thread.clone(),
            snapshot: StateStore::new(),
            buffer: MessageBuffer::new(0),
            calls: Vec::new(),
            next_call: 0,
        };
        assert(run@.calls =~= Seq::empty());
        let ghost r0 = run@;
        let ghost g0 = group@;
        let action = run.begin(group, agent.get_name());
        proof {
            let effect = begun(agent@.name, 0);
            assert(r0.thread.messages + effect.recorded =~= r0.thread.messages);
            assert(g0.outbox + delivered(g0.stream_open, effect.said) =~= g0.outbox);
        }
        (run, action)
    }

    /// The mode was configured, or the provider failed. The tools and the
    /// terminating tools of the mode take the place of those of the agent,
    /// and the request of the step is composed: the prompt of the mode, the
    /// thread without its developer messages, and the offers of the tools
    /// that are enabled under the snapshot of the state. A failure of the
    /// provider fails the run.
    pub fn mode_configured<E, P: Fn(&StateStore) -> bool>(
        &mut self,
        agent: &mut Agent<E, P>,
        group: &mut AgentGroup,
        config: Result<ModeConfiguration<E, P>, AgentError>,
    ) -> (action: NextAction)
        requires
            old(self).wf(),
            old(self)@.phase == RunPhase::AwaitingMode,
            config matches Ok(c) ==> conditions_total(c.tools@),
        ensures
            final(self).wf(),
            match config {
                Ok(c) => {
                    &&& final(agent)@ == mode_applied(old(agent)@, c)
                    &&& final(self)@ == (RunView {
                        phase: RunPhase::AwaitingStream,
                        ..old(self)@
                    })
                    &&& final(self).snapshot_store() == old(self).snapshot_store()
                    &&& final(group)@ == old(group)@
                    &&& exists|offers: Seq<ToolView>, trace_id: Seq<char>|
                        {
                            &&& offers_under(
                                final(agent)@.tools,
                                &old(self).snapshot_store(),
                                offers,
                            )
                            &&& action@ == (ActionView::OpenStream {
                                request: composed(
                                    c.model@,
                                    c.prompt@,
                                    old(self)@.thread.id,
                                    old(self)@.thread.user_id,
                                    old(self)@.thread.messages,
                                    offers,
                                    trace_id,
                                ),
                            })
                        }
                },
                Err(e) => {
                    &&& final(agent)@ == old(agent)@
                    &&& final(self)@ == run_after(
                        old(self)@,
                        old(group)@,
                        failed(e@, old(self)@.depth),
                    )
                    &&& final(group)@ == group_after(
                        old(self)@,
                        old(group)@,
                        failed(e@, old(self)@.depth),
                    )
                    &&& action@ == action_after(final(self)@, failed(e@, old(self)@.depth))
                },
            },
    {
        match config {
            Ok(c) => {
                let (prompt, model) = agent.apply_mode(c);
                let offers = agent.get_tools_map().list_enabled(&self.snapshot);
                let trace_id = uuid_to_text(&fresh_uuid());
                let request = compose_request(model, prompt, &self.thread, offers, trace_id);
                self.phase = RunPhase::AwaitingStream;
                NextAction::OpenStream { request }
            },
            Err(e) => self.fail(group, e.message()),
        }
    }

    /// The stream of the answer was opened, or could not be. With an open
    /// stream the run waits for chunks, with an empty buffer that counts as
    /// flushed at `now_ms`. A stream that could not be opened fails the run.
    pub fn stream_opened(
        &mut self,
        group: &mut AgentGroup,
        opened: Result<(), String>,
        now_ms: u64,
    ) -> (action: NextAction)
        requires
            old(self).wf(),
            old(self)@.phase == RunPhase::AwaitingStream,
        ensures
            final(self).wf(),
            match opened {
                Ok(_) => {
                    &&& final(self)@ == (RunView {
                        phase: RunPhase::Streaming,
                        buffer: crate::accumulator::empty_buffer(now_ms),
                        ..old(self)@
                    })
                    &&& final(group)@ == old(group)@
                    &&& action@ == ActionView::ReadChunk
                },
                Err(e) => {
                    &&& final(self)@ == run_after(
                        old(self)@,
                        old(group)@,
                        failed(stream_failure(e@), old(self)@.depth),
                    )
                    &&& final(group)@ == group_after(
                        old(self)@,
                        old(group)@,
                        failed(stream_failure(e@), old(self)@.depth),
                    )
                    &&& action@ == action_after(
                        final(self)@,
                        failed(stream_failure(e@), old(self)@.depth),
                    )
                },
            },
    {
        match opened {
            Ok(_) => {
                self.buffer = MessageBuffer::new(now_ms);
                self.phase = RunPhase::Streaming;
                NextAction::ReadChunk
            },
            Err(e) => {
                let text = concat("Error starting LLM stream: ", e.as_str());
                self.fail(group, text)
            },
        }
    }

    /// The stream brought a chunk, an error in place of a chunk, or its end
    /// (`None`). Where a tool-call delta has no identifier and no call is
    /// pending, the new call gets `fresh` as its identifier.
    pub fn chunk_received_with<E, P: Fn(&StateStore) -> bool>(
        &mut self,
        agent: &Agent<E, P>,
        group: &mut AgentGroup,
        chunk: Option<Result<ChatCompletionChunk, String>>,
        now_ms: u64,
        fresh: String,
    ) -> (action: NextAction)
        requires
            old(self).wf(),
            old(self)@.phase == RunPhase::Streaming,
        ensures
            final(self).wf(),
            final(self)@ == run_after(
                staged(old(self)@, arrival_view(chunk), now_ms, fresh@),
                old(group)@,
                chunk_taken(
                    setting_of(agent@),
                    old(self)@.buffer,
                    arrival_view(chunk),
                    now_ms,
                    fresh@,
                    old(self)@.depth,
                ),
            ),
            final(group)@ == group_after(
                staged(old(self)@, arrival_view(chunk), now_ms, fresh@),
                old(group)@,
                chunk_taken(
                    setting_of(agent@),
                    old(self)@.buffer,
                    arrival_view(chunk),
                    now_ms,
                    fresh@,
                    old(self)@.depth,
                ),
            ),
            action@ == action_after(
                final(self)@,
                chunk_taken(
                    setting_of(agent@),
                    old(self)@.buffer,
                    arrival_view(chunk),
                    now_ms,
                    fresh@,
                    old(self)@.depth,
                ),
            ),
    {
        let ghost s = setting_of(agent@);
        let ghost r0 = self@;
        let ghost g0 = group@;
        let ghost depth = self@.depth;
        match chunk {
            None => {
                proof {
                    lemma_dispatched_ok(s, all_calls(r0.buffer.tool_calls), 0, depth);
                }
                self.complete(agent, group, now_ms)
            },
            Some(Err(e)) => {
                let text = concat("Error receiving chunk from LLM stream: ", e.as_str());
                self.fail(group, text)
            },
            Some(Ok(c)) => {
                if c.choices.len() == 0 {
                    self.next_call = 0;
                    proof {
                        let rest = waiting(RunPhase::Streaming, depth, 0);
                        assert(self@.thread.messages + rest.recorded =~= self@.thread.messages);
                        assert(group@.outbox + delivered(group@.stream_open, rest.said)
                            =~= group@.outbox);
                        lemma_appended_nothing(group@.current_thread);
                    }
                    return NextAction::ReadChunk;
                }
                let finished = self.buffer.accept_chunk_with(&c, fresh);
                let ghost taken = self@.buffer;
                let shown = if self.buffer.should_flush(now_ms) {
                    self.buffer.flush(agent.get_name(), now_ms)
                } else {
                    None
                };
                let ghost shown_buffer = self@.buffer;
                let ghost rest = if finished {
                    completed(s, shown_buffer, depth)
                } else {
                    waiting(RunPhase::Streaming, depth, 0)
                };
                let ghost r1 = staged(r0, arrival_view(chunk), now_ms, fresh@);
                match shown {
                    Some(m) => {
                        proof {
                            lemma_heard(r1, g0, m@, rest);
                        }
                        Self::say(group, m);
                    },
                    None => {},
                }
                if finished {
                    proof {
                        lemma_dispatched_ok(s, all_calls(shown_buffer.tool_calls), 0, depth);
                    }
                    self.complete(agent, group, now_ms)
                } else {
                    self.next_call = 0;
                    proof {
                        assert(self@.thread.messages + rest.recorded =~= self@.thread.messages);
                        assert(group@.outbox + delivered(group@.stream_open, rest.said)
                            =~= group@.outbox);
                        lemma_appended_nothing(group@.current_thread);
                    }
                    NextAction::ReadChunk
                }
            },
        }
    }

    /// The stream brought a chunk, an error in place of a chunk, or its end
    /// (`None`). Where a tool-call delta has no identifier and no call is
    /// pending, the new call gets a random identifier.
    pub fn chunk_received<E, P: Fn(&StateStore) -> bool>(
        &mut self,
        agent: &Agent<E, P>,
        group: &mut AgentGroup,
        chunk: Option<Result<ChatCompletionChunk, String>>,
        now_ms: u64,
    ) -> (action: NextAction)
        requires
            old(self).wf(),
            old(self)@.phase == RunPhase::Streaming,
        ensures
            final(self).wf(),
            exists|fresh: Seq<char>|
                {
                    &&& old(self)@.buffer.tool_calls.len() == 0 ==> fresh.len() == 36
                    &&& final(self)@ == run_after(
                        staged(old(self)@, arrival_view(chunk), now_ms, fresh),
                        old(group)@,
                        chunk_taken(
                            setting_of(agent@),
                            old(self)@.buffer,
                            arrival_view(chunk),
                            now_ms,
                            fresh,
                            old(self)@.depth,
                        ),
                    )
                    &&& final(group)@ == group_after(
                        staged(old(self)@, arrival_view(chunk), now_ms, fresh),
                        old(group)@,
                        chunk_taken(
                            setting_of(agent@),
                            old(self)@.buffer,
                            arrival_view(chunk),
                            now_ms,
                            fresh,
                            old(self)@.depth,
                        ),
                    )
                    &&& action@ == action_after(
                        final(self)@,
                        chunk_taken(
                            setting_of(agent@),
                            old(self)@.buffer,
                            arrival_view(chunk),
                            now_ms,
                            fresh,
                            old(self)@.depth,
                        ),
                    )
                },
    {
        let fresh = if self.buffer.is_without_calls() {
            uuid_to_text(&fresh_uuid())
        } else {
            String::new()
        };
        self.chunk_received_with(agent, group, chunk, now_ms, fresh)
    }

    /// The tool that was running has finished, with a result or an error.
    pub fn tool_finished<E, P: Fn(&StateStore) -> bool>(
        &mut self,
        agent: &Agent<E, P>,
        group: &mut AgentGroup,
        result: Result<serde_json::Value, String>,
    ) -> (action: NextAction)
        requires
            old(self).wf(),
            old(self)@.phase == RunPhase::AwaitingTool,
        ensures
            final(self).wf(),
            final(self)@ == run_after(
                old(self)@,
                old(group)@,
                tool_done(
                    setting_of(agent@),
                    old(self)@.calls,
                    old(self)@.next_call,
                    old(self)@.depth,
                    outcome_view(result),
                ),
            ),
            final(group)@ == group_after(
                old(self)@,
                old(group)@,
                tool_done(
                    setting_of(agent@),
                    old(self)@.calls,
                    old(self)@.next_call,
                    old(self)@.depth,
                    outcome_view(result),
                ),
            ),
            action@ == action_after(
                final(self)@,
                tool_done(
                    setting_of(agent@),
                    old(self)@.calls,
                    old(self)@.next_call,
                    old(self)@.depth,
                    outcome_view(result),
                ),
            ),
    {
        let ghost s = setting_of(agent@);
        let ghost r0 = self@;
        let ghost depth = self@.depth;
        let call = &self.calls[self.next_call];
        assert(call@ == r0.calls[r0.next_call as int]);
        match result {
            Err(e) => {
                let text = concat3(
                    concat("Tool execution error for ", call.function.name.as_str()).as_str(),
                    ": ",
                    e.as_str(),
                );
                self.fail(group, text)
            },
            Ok(v) => match value_to_text(&v) {
                Err(e) => {
                    let text = json_error_message(&e);
                    self.fail(group, text)
                },
                Ok(text) => {
                    let reply = tool_reply(call, text);
                    let terminating = agent.is_terminating(call.function.name.as_str());
                    proof {
                        let rest = if terminating {
                            ended(depth)
                        } else {
                            dispatched(s, r0.calls, r0.next_call + 1, depth)
                        };
                        lemma_noted(r0, group@, reply@, rest);
                        lemma_dispatched_ok(s, r0.calls, r0.next_call + 1, depth);
                    }
                    self.record(group, reply);
                    if terminating {
                        self.end(group)
                    } else {
                        assert(self@.next_call < self@.calls.len());
                        assert(self.next_call < self.calls.len());
                        self.next_call = self.next_call + 1;
                        self.dispatch(agent, group)
                    }
                },
            },
        }
    }

    /// Shutdown was signalled while a tool was running, and the tool has now
    /// finished, with a result or an error. A result is recorded as the
    /// answer to the call; the run ends as one that was interrupted.
    pub fn tool_finished_at_shutdown<E, P: Fn(&StateStore) -> bool>(
        &mut self,
        agent: &Agent<E, P>,
        group: &mut AgentGroup,
        result: Result<serde_json::Value, String>,
    ) -> (action: NextAction)
        requires
            old(self).wf(),
            old(self)@.phase == RunPhase::AwaitingTool,
        ensures
            final(self).wf(),
            final(self)@ == run_after(
                old(self)@,
                old(group)@,
                tool_done_at_shutdown(
                    setting_of(agent@),
                    old(self)@.calls,
                    old(self)@.next_call,
                    old(self)@.depth,
                    outcome_view(result),
                ),
            ),
            final(group)@ == group_after(
                old(self)@,
                old(group)@,
                tool_done_at_shutdown(
                    setting_of(agent@),
                    old(self)@.calls,
                    old(self)@.next_call,
                    old(self)@.depth,
                    outcome_view(result),
                ),
            ),
            action@ == (ActionView::Finish { failure: None }),
    {
        let ghost r0 = self@;
        let ghost depth = self@.depth;
        let call = &self.calls[self.next_call];
        assert(call@ == r0.calls[r0.next_call as int]);
        let text = match result {
            Ok(v) => match value_to_text(&v) {
                Ok(text) => Some(text),
                Err(_) => None,
            },
            Err(_) => None,
        };
        match text {
            Some(text) => {
                let reply = tool_reply(call, text);
                proof {
                    lemma_noted(r0, group@, reply@, stopped(agent@.name, depth));
                }
                self.record(group, reply);
            },
            None => {},
        }
        self.shutdown_signalled(agent, group)
    }

    /// Shutdown was signalled. A run that is not over tells the stream that
    /// it was interrupted and that it is over, and takes no further step. A
    /// run that is over stays as it is.
    pub fn shutdown_signalled<E, P: Fn(&StateStore) -> bool>(
        &mut self,
        agent: &Agent<E, P>,
        group: &mut AgentGroup,
    ) -> (action: NextAction)
        requires
            old(self).wf(),
        ensures
            final(self).wf(),
            if old(self)@.phase == RunPhase::Finished {
                &&& final(self)@ == old(self)@
                &&& final(group)@ == old(group)@
                &&& action@ == (ActionView::Finish { failure: None })
            } else {
                &&& final(self)@ == run_after(
                    old(self)@,
                    old(group)@,
                    stopped(agent@.name, old(self)@.depth),
                )
                &&& final(group)@ == group_after(
                    old(self)@,
                    old(group)@,
                    stopped(agent@.name, old(self)@.depth),
                )
                &&& action@ == (ActionView::Finish { failure: None })
            },
    {
        if self.is_finished() {
            return NextAction::Finish { result: Ok(()) };
        }
        let ghost effect = stopped(agent@.name, self@.depth);
        let ghost r0 = self@;
        let ghost g0 = group@;
        Self::say(group, shutdown_notice(agent.get_name()));
        Self::say(group, AgentMessage::Done);
        self.phase = RunPhase::Finished;
        self.next_call = 0;
        proof {
            let first: Seq<EventView> = seq![Ok(shutdown_message(agent@.name))];
            let second: Seq<EventView> = seq![done_event()];
            assert(first + second =~= effect.said);
            assert(g0.outbox + delivered(g0.stream_open, first) + delivered(
                g0.stream_open,
                second,
            ) =~= g0.outbox + delivered(g0.stream_open, effect.said));
            assert(r0.thread.messages + effect.recorded =~= r0.thread.messages);
            lemma_appended_nothing(g0.current_thread);
        }
        NextAction::Finish { result: Ok(()) }
    }
}

impl<E, P: Fn(&StateStore) -> bool> Agent<E, P> {
    /// Starts a run of the agent on `thread`: the thread becomes the current
    /// thread of the group, and the run asks for the mode of the state as it
    /// stands. What the run says goes to the stream of the group.
    pub fn process_thread_streaming(&self, group: &mut AgentGroup, thread: &AgentThread) -> (r: (
        ThreadRun,
        NextAction,
    ))
        ensures
            r.0.wf(),
            r.0@ == (RunView { snapshot: old(group)@.state, ..new_run(thread@) }),
            final(group)@ == (GroupView { current_thread: Some(thread@), ..old(group)@ }),
            r.1@ == (ActionView::ConfigureMode { state: old(group)@.state }),
    {
        ThreadRun::start(self, group, thread)
    }

    /// Signals shutdown to a run of the agent. A run that is not over tells
    /// the stream that it was interrupted and that it is over, and takes no
    /// further step. A run that is over stays as it is.
    pub fn shutdown(&self, run: &mut ThreadRun, group: &mut AgentGroup) -> (action: NextAction)
        requires
            old(run).wf(),
        ensures
            final(run).wf(),
            action@ == (ActionView::Finish { failure: None }),
            if old(run)@.phase == RunPhase::Finished {
                &&& final(run)@ == old(run)@
                &&& final(group)@ == old(group)@
            } else {
                &&& final(run)@ == run_after(
                    old(run)@,
                    old(group)@,
                    stopped(self@.name, old(run)@.depth),
                )
                &&& final(group)@ == group_after(
                    old(run)@,
                    old(group)@,
                    stopped(self@.name, old(run)@.depth),
                )
            },
    {
        run.shutdown_signalled(self, group)
    }
}

/// Appending nothing to a thread leaves it as it is.
pub proof fn lemma_appended_nothing(thread: Option<ThreadView>)
    ensures
        appended(thread, Seq::empty()) == thread,
{
    match thread {
        Some(t) => {
            assert(t.messages + Seq::<MessageView>::empty() =~= t.messages);
        },
        None => {},
    }
}

} // verus!
