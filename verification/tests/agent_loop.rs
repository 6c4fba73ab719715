use agents::accumulator::{
    ChatCompletionChunk, ChunkChoice, ChunkDelta, DeltaToolCall, FunctionDelta,
};
use agents::agent::{Agent, AgentGroup, ModeConfiguration};
use agents::message::{
    AgentError, AgentMessage, AgentThread, FunctionCall, MessageProgress, MessageResult, ToolCall,
};
use agents::request::ToolChoice;
use agents::run::{NextAction, RunPhase, ThreadRun, MAX_RECURSION_DEPTH};
use agents::state::StateStore;
use agents::tools::RegisteredTool;
use uuid::Uuid;

type Condition = fn(&StateStore) -> bool;

fn weather_enabled(state: &StateStore) -> bool {
    state.get_bool("weather_enabled").unwrap_or(false)
}

fn json(text: &str) -> serde_json::Value {
    serde_json::from_str(text).unwrap()
}

fn weather_tool(condition: Option<Condition>) -> RegisteredTool<(), Condition> {
    RegisteredTool {
        name: "get_weather".to_string(),
        schema: json(r#"{"name":"get_weather","parameters":{"type":"object"}}"#),
        executor: (),
        enablement_condition: condition,
    }
}

fn mode(
    tools: Vec<RegisteredTool<(), Condition>>,
    terminating: Vec<&str>,
) -> ModeConfiguration<(), Condition> {
    ModeConfiguration {
        prompt: "Test Prompt".to_string(),
        model: "test-model".to_string(),
        tools,
        terminating_tools: terminating.into_iter().map(|s| s.to_string()).collect(),
    }
}

fn agent(name: &str) -> Agent<(), Condition> {
    Agent::new("o1".to_string(), Uuid::new_v4(), Uuid::new_v4(), name.to_string())
}

fn user_thread(text: &str) -> AgentThread {
    AgentThread::new(None, Uuid::new_v4(), vec![AgentMessage::user(text.to_string())])
}

fn content_chunk(text: &str, finish: bool) -> ChatCompletionChunk {
    ChatCompletionChunk {
        id: "msg_1".to_string(),
        choices: vec![ChunkChoice {
            delta: ChunkDelta { content: Some(text.to_string()), tool_calls: None },
            finish_reason: if finish { Some("stop".to_string()) } else { None },
        }],
    }
}

fn call_delta(id: Option<&str>, name: Option<&str>, arguments: Option<&str>) -> DeltaToolCall {
    DeltaToolCall {
        index: Some(0),
        id: id.map(|s| s.to_string()),
        call_type: id.map(|_| "function".to_string()),
        function: Some(FunctionDelta {
            name: name.map(|s| s.to_string()),
            arguments: arguments.map(|s| s.to_string()),
        }),
    }
}

fn calls_chunk(deltas: Vec<DeltaToolCall>, finish: bool) -> ChatCompletionChunk {
    ChatCompletionChunk {
        id: "msg_1".to_string(),
        choices: vec![ChunkChoice {
            delta: ChunkDelta { content: None, tool_calls: Some(deltas) },
            finish_reason: if finish { Some("tool_calls".to_string()) } else { None },
        }],
    }
}

fn tool_call(id: &str, name: &str, arguments: &str) -> ToolCall {
    ToolCall {
        id: id.to_string(),
        call_type: "function".to_string(),
        function: FunctionCall { name: name.to_string(), arguments: arguments.to_string() },
    }
}

fn assistant(
    content: Option<&str>,
    calls: Option<Vec<ToolCall>>,
    progress: MessageProgress,
    initial: bool,
    name: &str,
) -> AgentMessage {
    AgentMessage::Assistant {
        id: Some("msg_1".to_string()),
        content: content.map(|s| s.to_string()),
        tool_calls: calls,
        progress,
        initial: Some(initial),
        name: Some(name.to_string()),
    }
}

fn tool_message(call_id: &str, name: &str, content: &str) -> AgentMessage {
    AgentMessage::Tool {
        id: None,
        tool_call_id: call_id.to_string(),
        name: Some(name.to_string()),
        content: content.to_string(),
        progress: MessageProgress::Complete,
    }
}

/// Takes a run up to the point where it waits for chunks.
fn until_streaming(
    agent: &mut Agent<(), Condition>,
    group: &mut AgentGroup,
    run: &mut ThreadRun,
    config: ModeConfiguration<(), Condition>,
) {
    assert_eq!(run.phase(), RunPhase::AwaitingMode);
    let action = run.mode_configured(agent, group, Ok(config));
    assert!(matches!(action, NextAction::OpenStream { .. }));
    let action = run.stream_opened(group, Ok(()), 0);
    assert!(matches!(action, NextAction::ReadChunk));
    assert_eq!(run.phase(), RunPhase::Streaming);
}

#[test]
fn single_turn_single_tool() {
    let mut group = AgentGroup::new();
    group.set_state_value("weather_enabled".to_string(), json("true"));
    let mut agent = agent("weather_agent");
    let thread = user_thread("weather?");
    let (mut run, action) = ThreadRun::start(&agent, &mut group, &thread);
    match action {
        NextAction::ConfigureMode { state } => {
            assert_eq!(state.get_bool("weather_enabled"), Some(true));
        }
        _ => panic!("a run begins by asking for its mode"),
    }

    let config = mode(vec![weather_tool(Some(weather_enabled as Condition))], vec![]);
    let action = run.mode_configured(&mut agent, &mut group, Ok(config));
    match action {
        NextAction::OpenStream { request } => {
            assert_eq!(request.model, "test-model");
            assert_eq!(
                request.messages,
                vec![
                    AgentMessage::Developer { content: "Test Prompt".to_string() },
                    AgentMessage::User { id: None, content: "weather?".to_string() },
                ]
            );
            let tools = request.tools.expect("the enabled tool is offered");
            assert_eq!(tools.len(), 1);
            assert_eq!(tools[0].tool_type, "function");
            assert_eq!(
                tools[0].function,
                json(r#"{"name":"get_weather","parameters":{"type":"object"}}"#)
            );
            assert_eq!(request.tool_choice, Some(ToolChoice::Required));
            assert_eq!(request.stream, Some(true));
            assert_eq!(request.reasoning_effort, Some("medium".to_string()));
            let metadata = request.metadata.expect("a request has metadata");
            assert_eq!(metadata.generation_name, "agent");
            assert_eq!(metadata.user_id, thread.user_id.to_string());
            assert_eq!(metadata.session_id, thread.id.to_string());
            assert_eq!(metadata.trace_id.len(), 36);
        }
        _ => panic!("the request follows the mode"),
    }
    assert_eq!(run.phase(), RunPhase::AwaitingStream);
    assert!(group.take_events().is_empty());

    let action = run.stream_opened(&mut group, Ok(()), 1_000);
    assert!(matches!(action, NextAction::ReadChunk));

    // The call comes in two chunks; the second is 60 ms after the stream was opened.
    let first = calls_chunk(vec![call_delta(Some("call_1"), Some("get_weather"), Some("{\"ci"))], false);
    let action = run.chunk_received_with(&agent, &mut group, Some(Ok(first)), 1_010, String::new());
    assert!(matches!(action, NextAction::ReadChunk));
    assert!(group.take_events().is_empty());

    let second = calls_chunk(vec![call_delta(None, None, Some("ty\":\"Provo\"}"))], true);
    let action = run.chunk_received_with(&agent, &mut group, Some(Ok(second)), 1_060, String::new());
    let call = tool_call("call_1", "get_weather", "{\"city\":\"Provo\"}");
    let events = group.take_events();
    assert_eq!(
        events,
        vec![
            Ok(assistant(None, Some(vec![call.clone()]), MessageProgress::InProgress, true, "weather_agent")),
            Ok(assistant(None, Some(vec![call.clone()]), MessageProgress::InProgress, false, "weather_agent")),
            Ok(assistant(None, Some(vec![call.clone()]), MessageProgress::Complete, false, "weather_agent")),
        ]
    );
    match action {
        NextAction::ExecuteTool { name, params, call_id } => {
            assert_eq!(name, "get_weather");
            assert_eq!(params, json(r#"{"city":"Provo"}"#));
            assert_eq!(call_id, "call_1");
        }
        _ => panic!("the tool of the call is to be run"),
    }
    assert_eq!(run.phase(), RunPhase::AwaitingTool);

    let action = run.tool_finished(&agent, &mut group, Ok(json(r#"{"t":20,"u":"F"}"#)));
    let reply = tool_message("call_1", "get_weather", r#"{"t":20,"u":"F"}"#);
    assert_eq!(group.take_events(), vec![Ok(reply.clone())]);
    // The tool does not end the run: the next step begins.
    assert!(matches!(action, NextAction::ConfigureMode { .. }));
    assert_eq!(run.phase(), RunPhase::AwaitingMode);
    assert_eq!(run.depth(), 1);
    let expected_thread = vec![
        AgentMessage::User { id: None, content: "weather?".to_string() },
        assistant(None, Some(vec![call]), MessageProgress::Complete, false, "weather_agent"),
        reply,
    ];
    assert_eq!(run.thread().messages, expected_thread);
    assert_eq!(group.get_current_thread().unwrap().messages, expected_thread);
}

#[test]
fn terminating_tool_ends_the_run() {
    let mut group = AgentGroup::new();
    let mut agent = agent("a");
    let thread = user_thread("weather?");
    let (mut run, _) = ThreadRun::start(&agent, &mut group, &thread);
    let config = mode(vec![weather_tool(None)], vec!["get_weather"]);
    until_streaming(&mut agent, &mut group, &mut run, config);
    let chunk = calls_chunk(
        vec![
            call_delta(Some("call_1"), Some("get_weather"), Some("{}")),
            call_delta(Some("call_2"), Some("get_weather"), Some("{}")),
        ],
        true,
    );
    let action = run.chunk_received_with(&agent, &mut group, Some(Ok(chunk)), 10, String::new());
    assert!(matches!(action, NextAction::ExecuteTool { .. }));
    group.take_events();

    let action = run.tool_finished(&agent, &mut group, Ok(json(r#"{"t":20,"u":"F"}"#)));
    // The second call is not run, and no further step is taken.
    match action {
        NextAction::Finish { result } => assert_eq!(result, Ok(())),
        _ => panic!("a terminating tool ends the run"),
    }
    assert_eq!(
        group.take_events(),
        vec![
            Ok(tool_message("call_1", "get_weather", r#"{"t":20,"u":"F"}"#)),
            Ok(AgentMessage::Done),
        ]
    );
    assert!(run.is_finished());
    assert_eq!(run.depth(), 0);
    assert_eq!(run.thread().messages.len(), 3);
}

#[test]
fn disabled_tool_is_not_offered() {
    let mut group = AgentGroup::new();
    group.set_state_value("weather_enabled".to_string(), json("false"));
    let mut agent = agent("a");
    let thread = user_thread("weather?");
    let (mut run, _) = ThreadRun::start(&agent, &mut group, &thread);
    let config = mode(vec![weather_tool(Some(weather_enabled as Condition))], vec![]);
    match run.mode_configured(&mut agent, &mut group, Ok(config)) {
        NextAction::OpenStream { request } => assert_eq!(request.tools, None),
        _ => panic!("the request follows the mode"),
    }
    // The tool is registered all the same.
    assert!(agent.get_tools_map().contains("get_weather"));
    assert!(agent.get_enabled_tools(&group).is_empty());

    run.stream_opened(&mut group, Ok(()), 0);
    let action =
        run.chunk_received_with(&agent, &mut group, Some(Ok(content_chunk("It is sunny.", true))), 5, String::new());
    let events = group.take_events();
    assert_eq!(
        events,
        vec![
            Ok(assistant(Some("It is sunny."), None, MessageProgress::InProgress, true, "a")),
            Ok(assistant(Some("It is sunny."), None, MessageProgress::Complete, false, "a")),
        ]
    );
    // Without tool calls the run goes on with one more step.
    assert!(matches!(action, NextAction::ConfigureMode { .. }));
    assert_eq!(run.depth(), 1);
}

#[test]
fn the_snapshot_of_the_step_decides_the_offers() {
    let mut group = AgentGroup::new();
    group.set_state_value("weather_enabled".to_string(), json("true"));
    let mut agent = agent("a");
    let thread = user_thread("weather?");
    let (mut run, _) = ThreadRun::start(&agent, &mut group, &thread);
    // The state changes after the step has begun.
    group.set_state_value("weather_enabled".to_string(), json("false"));
    let config = mode(vec![weather_tool(Some(weather_enabled as Condition))], vec![]);
    match run.mode_configured(&mut agent, &mut group, Ok(config)) {
        NextAction::OpenStream { request } => assert_eq!(request.tools.map(|t| t.len()), Some(1)),
        _ => panic!("the request follows the mode"),
    }
}

#[test]
fn unknown_tool_is_answered_and_the_run_goes_on() {
    let mut group = AgentGroup::new();
    let mut agent = agent("a");
    let thread = user_thread("do it");
    let (mut run, _) = ThreadRun::start(&agent, &mut group, &thread);
    until_streaming(&mut agent, &mut group, &mut run, mode(vec![weather_tool(None)], vec![]));
    let chunk = calls_chunk(vec![call_delta(Some("call_9"), Some("do_magic"), Some("{}"))], true);
    let action = run.chunk_received_with(&agent, &mut group, Some(Ok(chunk)), 1, String::new());
    let events = group.take_events();
    let reply = tool_message(
        "call_9",
        "do_magic",
        r#"{"error":"Attempted to call non-existent tool: do_magic"}"#,
    );
    assert_eq!(events.last(), Some(&Ok(reply.clone())));
    assert_eq!(events.len(), 3);
    assert!(matches!(action, NextAction::ConfigureMode { .. }));
    assert_eq!(run.depth(), 1);
    // The next step sees the answer in the thread.
    assert_eq!(run.thread().messages.last(), Some(&reply));
    assert_eq!(group.get_current_thread().unwrap().messages.last(), Some(&reply));
}

#[test]
fn unknown_tool_name_is_escaped_in_the_answer() {
    let mut group = AgentGroup::new();
    let mut agent = agent("a");
    let thread = user_thread("do it");
    let (mut run, _) = ThreadRun::start(&agent, &mut group, &thread);
    until_streaming(&mut agent, &mut group, &mut run, mode(vec![], vec![]));
    let chunk = calls_chunk(vec![call_delta(Some("c"), Some("say \"hi\""), Some("{}"))], true);
    run.chunk_received_with(&agent, &mut group, Some(Ok(chunk)), 1, String::new());
    let events = group.take_events();
    match events.last() {
        Some(Ok(AgentMessage::Tool { content, .. })) => {
            assert_eq!(
                content,
                r#"{"error":"Attempted to call non-existent tool: say \"hi\""}"#
            );
        }
        _ => panic!("the call is answered"),
    }
}

#[test]
fn depth_cap_ends_the_run_after_fifteen_steps() {
    let mut group = AgentGroup::new();
    let mut agent = agent("busy");
    let thread = user_thread("go on");
    let (mut run, mut action) = ThreadRun::start(&agent, &mut group, &thread);
    let mut steps = 0;
    let mut all_events: Vec<MessageResult> = Vec::new();
    loop {
        match action {
            NextAction::ConfigureMode { .. } => {
                steps += 1;
                assert!(run.depth() < MAX_RECURSION_DEPTH);
                action = run.mode_configured(&mut agent, &mut group, Ok(mode(vec![weather_tool(None)], vec![])));
            }
            NextAction::OpenStream { .. } => {
                action = run.stream_opened(&mut group, Ok(()), 0);
            }
            NextAction::ReadChunk => {
                let chunk = calls_chunk(vec![call_delta(Some("call_1"), Some("get_weather"), Some("{}"))], true);
                action = run.chunk_received_with(&agent, &mut group, Some(Ok(chunk)), 0, String::new());
            }
            NextAction::ExecuteTool { .. } => {
                action = run.tool_finished(&agent, &mut group, Ok(json("{}")));
            }
            NextAction::Finish { result } => {
                assert_eq!(result, Ok(()));
                all_events.extend(group.take_events());
                break;
            }
        }
        all_events.extend(group.take_events());
    }
    assert_eq!(steps, 15);
    assert_eq!(run.depth(), 15);
    assert!(run.is_finished());
    let n = all_events.len();
    assert_eq!(all_events[n - 1], Ok(AgentMessage::Done));
    assert_eq!(
        all_events[n - 2],
        Ok(AgentMessage::Assistant {
            id: Some("max_recursion_depth_message".to_string()),
            content: Some(
                "I apologize, but I've reached the maximum number of actions (15). Please try breaking your request into smaller parts."
                    .to_string()
            ),
            tool_calls: None,
            progress: MessageProgress::Complete,
            initial: None,
            name: Some("busy".to_string()),
        })
    );
    // Nothing but the last event says that the run is over.
    assert_eq!(all_events.iter().filter(|e| **e == Ok(AgentMessage::Done)).count(), 1);
    // The stream is closed after the last event.
    assert!(!group.is_stream_open());
    assert_eq!(
        group.stream_status(),
        Err(AgentError("Stream channel is closed or not initialized.".to_string()))
    );
    // Fifteen steps, each with an assistant message and a tool message.
    assert_eq!(run.thread().messages.len(), 1 + 15 * 2);
}

#[test]
fn shutdown_during_a_tool_ends_the_run() {
    let mut group = AgentGroup::new();
    let mut agent = agent("a");
    let thread = user_thread("weather?");
    let (mut run, _) = ThreadRun::start(&agent, &mut group, &thread);
    until_streaming(&mut agent, &mut group, &mut run, mode(vec![weather_tool(None)], vec![]));
    let chunk = calls_chunk(vec![call_delta(Some("call_1"), Some("get_weather"), Some("{}"))], true);
    let action = run.chunk_received_with(&agent, &mut group, Some(Ok(chunk)), 1, String::new());
    assert!(matches!(action, NextAction::ExecuteTool { .. }));
    group.take_events();

    let action = run.shutdown_signalled(&agent, &mut group);
    match action {
        NextAction::Finish { result } => assert_eq!(result, Ok(())),
        _ => panic!("shutdown ends the run"),
    }
    assert_eq!(
        group.take_events(),
        vec![
            Ok(AgentMessage::Assistant {
                id: Some("shutdown_message".to_string()),
                content: Some("Processing interrupted due to shutdown signal".to_string()),
                tool_calls: None,
                progress: MessageProgress::Complete,
                initial: None,
                name: Some("a".to_string()),
            }),
            Ok(AgentMessage::Done),
        ]
    );
    assert!(run.is_finished());
    // A second signal changes nothing.
    let again = run.shutdown_signalled(&agent, &mut group);
    assert!(matches!(again, NextAction::Finish { result: Ok(()) }));
    assert!(group.take_events().is_empty());
}

#[test]
fn two_tools_in_one_step_are_run_in_order() {
    let mut group = AgentGroup::new();
    let mut agent = agent("a");
    let thread = user_thread("weather in two places?");
    let (mut run, _) = ThreadRun::start(&agent, &mut group, &thread);
    until_streaming(&mut agent, &mut group, &mut run, mode(vec![weather_tool(None)], vec![]));
    let chunk = calls_chunk(
        vec![
            call_delta(Some("call_1"), Some("get_weather"), Some("{\"city\":\"Provo\"}")),
            call_delta(Some("call_2"), Some("get_weather"), Some("{\"city\":\"Orem\"}")),
        ],
        true,
    );
    let action = run.chunk_received_with(&agent, &mut group, Some(Ok(chunk)), 1, String::new());
    match action {
        NextAction::ExecuteTool { call_id, params, .. } => {
            assert_eq!(call_id, "call_1");
            assert_eq!(params, json(r#"{"city":"Provo"}"#));
        }
        _ => panic!("the first tool is to be run"),
    }
    group.take_events();
    let action = run.tool_finished(&agent, &mut group, Ok(json("1")));
    match action {
        NextAction::ExecuteTool { call_id, params, .. } => {
            assert_eq!(call_id, "call_2");
            assert_eq!(params, json(r#"{"city":"Orem"}"#));
        }
        _ => panic!("the second tool is to be run"),
    }
    assert_eq!(group.take_events(), vec![Ok(tool_message("call_1", "get_weather", "1"))]);
    let action = run.tool_finished(&agent, &mut group, Ok(json("2")));
    assert!(matches!(action, NextAction::ConfigureMode { .. }));
    assert_eq!(group.take_events(), vec![Ok(tool_message("call_2", "get_weather", "2"))]);
    let messages = &run.thread().messages;
    assert_eq!(messages.len(), 4);
    assert_eq!(messages[2], tool_message("call_1", "get_weather", "1"));
    assert_eq!(messages[3], tool_message("call_2", "get_weather", "2"));
}

#[test]
fn arguments_that_are_not_json_fail_the_run() {
    let mut group = AgentGroup::new();
    let mut agent = agent("a");
    let thread = user_thread("weather?");
    let (mut run, _) = ThreadRun::start(&agent, &mut group, &thread);
    until_streaming(&mut agent, &mut group, &mut run, mode(vec![weather_tool(None)], vec![]));
    let chunk = calls_chunk(vec![call_delta(Some("call_1"), Some("get_weather"), Some("{oops"))], true);
    let action = run.chunk_received_with(&agent, &mut group, Some(Ok(chunk)), 1, String::new());
    let text = "Failed to parse tool arguments for get_weather: key must be a string at line 1 column 2";
    match action {
        NextAction::Finish { result } => assert_eq!(result, Err(AgentError(text.to_string()))),
        _ => panic!("the run fails"),
    }
    let events = group.take_events();
    let n = events.len();
    assert_eq!(events[n - 2], Err(AgentError(format!("Error processing thread: {}", text))));
    assert_eq!(events[n - 1], Ok(AgentMessage::Done));
    assert!(run.is_finished());
}

#[test]
fn a_failing_tool_fails_the_run() {
    let mut group = AgentGroup::new();
    let mut agent = agent("a");
    let thread = user_thread("weather?");
    let (mut run, _) = ThreadRun::start(&agent, &mut group, &thread);
    until_streaming(&mut agent, &mut group, &mut run, mode(vec![weather_tool(None)], vec![]));
    let chunk = calls_chunk(vec![call_delta(Some("call_1"), Some("get_weather"), Some("{}"))], true);
    run.chunk_received_with(&agent, &mut group, Some(Ok(chunk)), 1, String::new());
    group.take_events();
    let action = run.tool_finished(&agent, &mut group, Err("no network".to_string()));
    match action {
        NextAction::Finish { result } => assert_eq!(
            result,
            Err(AgentError("Tool execution error for get_weather: no network".to_string()))
        ),
        _ => panic!("the run fails"),
    }
    assert_eq!(
        group.take_events(),
        vec![
            Err(AgentError(
                "Error processing thread: Tool execution error for get_weather: no network".to_string()
            )),
            Ok(AgentMessage::Done),
        ]
    );
    // No tool message answers the call.
    assert_eq!(run.thread().messages.len(), 2);
}

#[test]
fn a_stream_that_cannot_be_opened_fails_the_run() {
    let mut group = AgentGroup::new();
    let mut agent = agent("a");
    let thread = user_thread("hello");
    let (mut run, _) = ThreadRun::start(&agent, &mut group, &thread);
    run.mode_configured(&mut agent, &mut group, Ok(mode(vec![], vec![])));
    let action = run.stream_opened(&mut group, Err("refused".to_string()), 0);
    match action {
        NextAction::Finish { result } => {
            assert_eq!(result, Err(AgentError("Error starting LLM stream: refused".to_string())))
        }
        _ => panic!("the run fails"),
    }
    assert_eq!(
        group.take_events(),
        vec![
            Err(AgentError("Error processing thread: Error starting LLM stream: refused".to_string())),
            Ok(AgentMessage::Done),
        ]
    );
}

#[test]
fn a_chunk_that_does_not_arrive_fails_the_run() {
    let mut group = AgentGroup::new();
    let mut agent = agent("a");
    let thread = user_thread("hello");
    let (mut run, _) = ThreadRun::start(&agent, &mut group, &thread);
    until_streaming(&mut agent, &mut group, &mut run, mode(vec![], vec![]));
    run.chunk_received(&agent, &mut group, Some(Ok(content_chunk("Hel", false))), 1);
    let action = run.chunk_received(&agent, &mut group, Some(Err("reset".to_string())), 2);
    match action {
        NextAction::Finish { result } => assert_eq!(
            result,
            Err(AgentError("Error receiving chunk from LLM stream: reset".to_string()))
        ),
        _ => panic!("the run fails"),
    }
    assert_eq!(
        group.take_events(),
        vec![
            Err(AgentError(
                "Error processing thread: Error receiving chunk from LLM stream: reset".to_string()
            )),
            Ok(AgentMessage::Done),
        ]
    );
    // Nothing of the answer that broke off is kept in the thread.
    assert_eq!(run.thread().messages.len(), 1);
}

#[test]
fn a_failing_mode_provider_fails_the_run() {
    let mut group = AgentGroup::new();
    let mut agent = agent("a");
    let thread = user_thread("hello");
    let (mut run, _) = ThreadRun::start(&agent, &mut group, &thread);
    let action = run.mode_configured(&mut agent, &mut group, Err(AgentError("no mode".to_string())));
    match action {
        NextAction::Finish { result } => assert_eq!(result, Err(AgentError("no mode".to_string()))),
        _ => panic!("the run fails"),
    }
    assert_eq!(
        group.take_events(),
        vec![
            Err(AgentError("Error processing thread: no mode".to_string())),
            Ok(AgentMessage::Done),
        ]
    );
}

#[test]
fn the_end_of_the_stream_completes_the_answer() {
    let mut group = AgentGroup::new();
    let mut agent = agent("a");
    let thread = user_thread("hello");
    let (mut run, _) = ThreadRun::start(&agent, &mut group, &thread);
    until_streaming(&mut agent, &mut group, &mut run, mode(vec![], vec![]));
    run.chunk_received(&agent, &mut group, Some(Ok(content_chunk("Hel", false))), 10);
    run.chunk_received(&agent, &mut group, Some(Ok(content_chunk("lo", false))), 20);
    assert!(group.take_events().is_empty());
    let action = run.chunk_received(&agent, &mut group, None, 30);
    assert!(matches!(action, NextAction::ConfigureMode { .. }));
    assert_eq!(
        group.take_events(),
        vec![
            Ok(assistant(Some("Hello"), None, MessageProgress::InProgress, true, "a")),
            Ok(assistant(Some("Hello"), None, MessageProgress::Complete, false, "a")),
        ]
    );
}

#[test]
fn partial_messages_come_every_fifty_milliseconds() {
    let mut group = AgentGroup::new();
    let mut agent = agent("a");
    let thread = user_thread("hello");
    let (mut run, _) = ThreadRun::start(&agent, &mut group, &thread);
    run.mode_configured(&mut agent, &mut group, Ok(mode(vec![], vec![])));
    run.stream_opened(&mut group, Ok(()), 100);
    run.chunk_received(&agent, &mut group, Some(Ok(content_chunk("a", false))), 149);
    assert!(group.take_events().is_empty());
    run.chunk_received(&agent, &mut group, Some(Ok(content_chunk("b", false))), 150);
    assert_eq!(
        group.take_events(),
        vec![Ok(assistant(Some("ab"), None, MessageProgress::InProgress, true, "a"))]
    );
    run.chunk_received(&agent, &mut group, Some(Ok(content_chunk("c", false))), 199);
    assert!(group.take_events().is_empty());
    run.chunk_received(&agent, &mut group, Some(Ok(content_chunk("d", false))), 200);
    // The content is the whole of what has come, and only the first partial message is initial.
    assert_eq!(
        group.take_events(),
        vec![Ok(assistant(Some("abcd"), None, MessageProgress::InProgress, false, "a"))]
    );
}

#[test]
fn a_chunk_without_choices_changes_nothing() {
    let mut group = AgentGroup::new();
    let mut agent = agent("a");
    let thread = user_thread("hello");
    let (mut run, _) = ThreadRun::start(&agent, &mut group, &thread);
    until_streaming(&mut agent, &mut group, &mut run, mode(vec![], vec![]));
    let empty = ChatCompletionChunk { id: "other".to_string(), choices: vec![] };
    let action = run.chunk_received(&agent, &mut group, Some(Ok(empty)), 500);
    assert!(matches!(action, NextAction::ReadChunk));
    assert!(group.take_events().is_empty());
    let action = run.chunk_received(&agent, &mut group, None, 501);
    assert!(matches!(action, NextAction::ConfigureMode { .. }));
    // An empty answer is closed by a message without content and without an identifier.
    assert_eq!(
        group.take_events(),
        vec![Ok(AgentMessage::Assistant {
            id: None,
            content: None,
            tool_calls: None,
            progress: MessageProgress::Complete,
            initial: Some(false),
            name: Some("a".to_string()),
        })]
    );
}

#[test]
fn a_closed_stream_drops_what_is_said() {
    let mut group = AgentGroup::new();
    let mut agent = agent("a");
    let thread = user_thread("hello");
    let (mut run, _) = ThreadRun::start(&agent, &mut group, &thread);
    until_streaming(&mut agent, &mut group, &mut run, mode(vec![], vec![]));
    agent.close(&mut group);
    let action = run.chunk_received(&agent, &mut group, Some(Ok(content_chunk("Hello", true))), 5);
    // The run goes on as if it had been heard.
    assert!(matches!(action, NextAction::ConfigureMode { .. }));
    assert!(group.take_events().is_empty());
    assert_eq!(run.thread().messages.len(), 2);
}

#[test]
fn sub_agent_shares_the_stream_and_keeps_its_order() {
    let mut group = AgentGroup::new();
    let mut parent = agent("parent");
    let mut child: Agent<(), Condition> = Agent::from_existing(&parent, "child".to_string());
    assert_eq!(child.get_model_name(), "o1");
    assert_eq!(child.get_user_id(), parent.get_user_id());
    assert_eq!(child.get_session_id(), parent.get_session_id());
    assert_eq!(child.get_tools_map().len(), 0);

    let thread = user_thread("hello");
    let (mut parent_run, _) = ThreadRun::start(&parent, &mut group, &thread);
    until_streaming(&mut parent, &mut group, &mut parent_run, mode(vec![weather_tool(None)], vec![]));
    let (mut child_run, _) = ThreadRun::start(&child, &mut group, &thread);
    until_streaming(&mut child, &mut group, &mut child_run, mode(vec![], vec![]));
    // The tools of the parent are not those of the child.
    assert!(parent.get_tools_map().contains("get_weather"));
    assert!(!child.get_tools_map().contains("get_weather"));

    parent_run.chunk_received(&parent, &mut group, Some(Ok(content_chunk("p1", false))), 60);
    child_run.chunk_received(&child, &mut group, Some(Ok(content_chunk("c1", false))), 60);
    parent_run.chunk_received(&parent, &mut group, Some(Ok(content_chunk("p2", false))), 120);
    child_run.chunk_received(&child, &mut group, Some(Ok(content_chunk("c2", false))), 120);
    assert_eq!(
        group.take_events(),
        vec![
            Ok(assistant(Some("p1"), None, MessageProgress::InProgress, true, "parent")),
            Ok(assistant(Some("c1"), None, MessageProgress::InProgress, true, "child")),
            Ok(assistant(Some("p1p2"), None, MessageProgress::InProgress, false, "parent")),
            Ok(assistant(Some("c1c2"), None, MessageProgress::InProgress, false, "child")),
        ]
    );
}

#[test]
fn mode_application_is_idempotent() {
    let mut agent = agent("a");
    agent.add_tool("old_tool".to_string(), json("{}"), (), None);
    let once = agent.apply_mode(mode(vec![weather_tool(None)], vec!["done"]));
    assert_eq!(once, ("Test Prompt".to_string(), "test-model".to_string()));
    assert_eq!(agent.get_tools_map().len(), 1);
    assert!(agent.get_tools_map().contains("get_weather"));
    assert!(!agent.get_tools_map().contains("old_tool"));
    assert!(agent.is_terminating("done"));
    let twice = agent.apply_mode(mode(vec![weather_tool(None)], vec!["done"]));
    assert_eq!(twice, once);
    assert_eq!(agent.get_tools_map().len(), 1);
    assert!(agent.get_tools_map().contains("get_weather"));
    assert!(agent.is_terminating("done"));
    assert!(!agent.is_terminating("get_weather"));
}

#[test]
fn a_delta_without_identifier_and_without_pending_call_gets_the_fresh_one() {
    let mut group = AgentGroup::new();
    let mut agent = agent("a");
    let thread = user_thread("weather?");
    let (mut run, _) = ThreadRun::start(&agent, &mut group, &thread);
    until_streaming(&mut agent, &mut group, &mut run, mode(vec![weather_tool(None)], vec![]));
    let chunk = calls_chunk(vec![call_delta(None, Some("get_weather"), Some("{}"))], true);
    let action =
        run.chunk_received_with(&agent, &mut group, Some(Ok(chunk)), 1, "synthetic-1".to_string());
    match action {
        NextAction::ExecuteTool { call_id, .. } => assert_eq!(call_id, "synthetic-1"),
        _ => panic!("the tool is to be run"),
    }
    let action = run.tool_finished(&agent, &mut group, Ok(json("true")));
    assert!(matches!(action, NextAction::ConfigureMode { .. }));
    assert_eq!(run.thread().messages.last(), Some(&tool_message("synthetic-1", "get_weather", "true")));
}

#[test]
fn a_random_identifier_is_drawn_where_none_is_given() {
    let mut group = AgentGroup::new();
    let mut agent = agent("a");
    let thread = user_thread("weather?");
    let (mut run, _) = ThreadRun::start(&agent, &mut group, &thread);
    until_streaming(&mut agent, &mut group, &mut run, mode(vec![weather_tool(None)], vec![]));
    let chunk = calls_chunk(vec![call_delta(None, Some("get_weather"), Some("{}"))], true);
    match run.chunk_received(&agent, &mut group, Some(Ok(chunk)), 1) {
        NextAction::ExecuteTool { call_id, .. } => {
            assert_eq!(call_id.len(), 36);
            assert!(Uuid::parse_str(&call_id).is_ok());
        }
        _ => panic!("the tool is to be run"),
    }
}

#[test]
fn a_tool_that_runs_when_shutdown_comes_is_waited_for() {
    let mut group = AgentGroup::new();
    let mut agent = agent("a");
    let thread = user_thread("weather?");
    let (mut run, _) = ThreadRun::start(&agent, &mut group, &thread);
    until_streaming(&mut agent, &mut group, &mut run, mode(vec![weather_tool(None)], vec![]));
    let chunk = calls_chunk(
        vec![
            call_delta(Some("call_1"), Some("get_weather"), Some("{}")),
            call_delta(Some("call_2"), Some("get_weather"), Some("{}")),
        ],
        true,
    );
    run.chunk_received_with(&agent, &mut group, Some(Ok(chunk)), 1, String::new());
    group.take_events();
    // The tool finishes after the signal: its call is answered, the next call is not run.
    let action = run.tool_finished_at_shutdown(&agent, &mut group, Ok(json(r#"{"t":20}"#)));
    assert!(matches!(action, NextAction::Finish { result: Ok(()) }));
    let events = group.take_events();
    assert_eq!(events.len(), 3);
    assert_eq!(events[0], Ok(tool_message("call_1", "get_weather", r#"{"t":20}"#)));
    assert!(matches!(&events[1], Ok(AgentMessage::Assistant { id: Some(id), .. }) if id == "shutdown_message"));
    assert_eq!(events[2], Ok(AgentMessage::Done));
    assert!(run.is_finished());
    assert_eq!(run.thread().messages.len(), 3);
}

#[test]
fn a_tool_that_fails_when_shutdown_comes_does_not_fail_the_run() {
    let mut group = AgentGroup::new();
    let mut agent = agent("a");
    let thread = user_thread("weather?");
    let (mut run, _) = ThreadRun::start(&agent, &mut group, &thread);
    until_streaming(&mut agent, &mut group, &mut run, mode(vec![weather_tool(None)], vec![]));
    let chunk = calls_chunk(vec![call_delta(Some("call_1"), Some("get_weather"), Some("{}"))], true);
    run.chunk_received_with(&agent, &mut group, Some(Ok(chunk)), 1, String::new());
    group.take_events();
    let action = run.tool_finished_at_shutdown(&agent, &mut group, Err("cancelled".to_string()));
    assert!(matches!(action, NextAction::Finish { result: Ok(()) }));
    let events = group.take_events();
    assert_eq!(events.len(), 2);
    assert_eq!(events[1], Ok(AgentMessage::Done));
    assert_eq!(run.thread().messages.len(), 2);
}
