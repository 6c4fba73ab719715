use agents::accumulator::{
    ChatCompletionChunk, ChunkChoice, ChunkDelta, DeltaToolCall, FunctionDelta, MessageBuffer,
    PendingToolCall, FLUSH_INTERVAL_MS,
};
use agents::message::{AgentMessage, FunctionCall, MessageProgress, ToolCall};

fn delta(
    id: Option<&str>,
    call_type: Option<&str>,
    name: Option<&str>,
    arguments: Option<&str>,
) -> DeltaToolCall {
    DeltaToolCall {
        index: None,
        id: id.map(|s| s.to_string()),
        call_type: call_type.map(|s| s.to_string()),
        function: Some(FunctionDelta {
            name: name.map(|s| s.to_string()),
            arguments: arguments.map(|s| s.to_string()),
        }),
    }
}

fn chunk(id: &str, content: Option<&str>, deltas: Option<Vec<DeltaToolCall>>) -> ChatCompletionChunk {
    ChatCompletionChunk {
        id: id.to_string(),
        choices: vec![ChunkChoice {
            delta: ChunkDelta { content: content.map(|s| s.to_string()), tool_calls: deltas },
            finish_reason: None,
        }],
    }
}

fn call(id: &str, call_type: &str, name: &str, arguments: &str) -> ToolCall {
    ToolCall {
        id: id.to_string(),
        call_type: call_type.to_string(),
        function: FunctionCall { name: name.to_string(), arguments: arguments.to_string() },
    }
}

#[test]
fn pending_call_starts_empty() {
    let pending = PendingToolCall::new();
    assert_eq!(pending.id, None);
    assert_eq!(pending.call_type, None);
    assert_eq!(pending.function_name, None);
    assert_eq!(pending.arguments, "");
    assert_eq!(pending.into_tool_call(), call("", "", "", ""));
}

#[test]
fn first_name_and_type_win_and_arguments_are_appended() {
    let mut pending = PendingToolCall::new();
    pending.update_from_delta(&delta(Some("call_1"), Some("function"), Some("get_weather"), Some("{\"a\"")));
    pending.update_from_delta(&delta(None, Some("other"), Some("other_name"), Some(":1}")));
    assert_eq!(pending.id, Some("call_1".to_string()));
    assert_eq!(pending.call_type, Some("function".to_string()));
    assert_eq!(pending.function_name, Some("get_weather".to_string()));
    assert_eq!(pending.arguments, "{\"a\":1}");
    assert_eq!(pending.into_tool_call(), call("call_1", "function", "get_weather", "{\"a\":1}"));
}

#[test]
fn a_delta_without_function_changes_neither_name_nor_arguments() {
    let mut pending = PendingToolCall::new();
    pending.update_from_delta(&delta(Some("c"), None, Some("n"), Some("x")));
    pending.update_from_delta(&DeltaToolCall {
        index: Some(3),
        id: None,
        call_type: Some("function".to_string()),
        function: None,
    });
    assert_eq!(pending.into_tool_call(), call("c", "function", "n", "x"));
}

#[test]
fn argument_fragments_one_by_one_or_as_one_give_the_same_call() {
    let fragments = ["{\"ci", "ty\":", "\"Pro", "vo\"}"];
    let mut one_by_one = PendingToolCall::new();
    one_by_one.update_from_delta(&delta(Some("call_1"), Some("function"), Some("get_weather"), None));
    let mut as_one = one_by_one.clone();
    for fragment in fragments {
        one_by_one.update_from_delta(&delta(None, None, None, Some(fragment)));
    }
    as_one.update_from_delta(&delta(None, None, None, Some(&fragments.concat())));
    let expected = call("call_1", "function", "get_weather", "{\"city\":\"Provo\"}");
    assert_eq!(one_by_one.into_tool_call(), expected);
    assert_eq!(as_one.into_tool_call(), expected);
}

#[test]
fn a_new_buffer_has_nothing_to_show() {
    let mut buffer = MessageBuffer::new(7);
    assert!(!buffer.has_changes());
    assert!(buffer.is_without_calls());
    assert_eq!(buffer.flush("a", 1_000), None);
    // A flush without changes does not count as a flush.
    assert!(buffer.should_flush(7 + FLUSH_INTERVAL_MS));
    assert!(buffer.tool_calls().is_empty());
}

#[test]
fn a_flush_is_due_after_fifty_milliseconds() {
    let buffer = MessageBuffer::new(1_000);
    assert_eq!(FLUSH_INTERVAL_MS, 50);
    assert!(!buffer.should_flush(999));
    assert!(!buffer.should_flush(1_000));
    assert!(!buffer.should_flush(1_049));
    assert!(buffer.should_flush(1_050));
    assert!(buffer.should_flush(u64::MAX));
}

#[test]
fn a_flush_notes_its_time_and_that_the_first_message_is_sent() {
    let mut buffer = MessageBuffer::new(0);
    buffer.accept_chunk(&chunk("m", Some("Hi"), None));
    let first = buffer.flush("agent", 60);
    assert_eq!(
        first,
        Some(AgentMessage::Assistant {
            id: Some("m".to_string()),
            content: Some("Hi".to_string()),
            tool_calls: None,
            progress: MessageProgress::InProgress,
            initial: Some(true),
            name: Some("agent".to_string()),
        })
    );
    assert!(!buffer.should_flush(109));
    assert!(buffer.should_flush(110));
    let second = buffer.flush("agent", 110);
    match second {
        Some(AgentMessage::Assistant { initial, content, .. }) => {
            assert_eq!(initial, Some(false));
            // The content is not cleared by a flush.
            assert_eq!(content, Some("Hi".to_string()));
        }
        _ => panic!("a buffer with content has something to show"),
    }
}

#[test]
fn a_partial_message_shows_only_the_calls_that_have_a_name() {
    let mut buffer = MessageBuffer::new(0);
    let finished = buffer.accept_chunk_with(
        &chunk(
            "m",
            None,
            Some(vec![
                delta(Some("call_1"), Some("function"), None, Some("{")),
                delta(Some("call_2"), Some("function"), Some("second"), Some("{}")),
            ]),
        ),
        String::new(),
    );
    assert!(!finished);
    let partial = buffer.flush("a", 50);
    match partial {
        Some(AgentMessage::Assistant { tool_calls, content, .. }) => {
            assert_eq!(content, None);
            assert_eq!(tool_calls, Some(vec![call("call_2", "function", "second", "{}")]));
        }
        _ => panic!("a buffer with calls has something to show"),
    }
    // The final message holds every call, in the order of arrival.
    match buffer.complete("a") {
        AgentMessage::Assistant { tool_calls, progress, initial, .. } => {
            assert_eq!(progress, MessageProgress::Complete);
            assert_eq!(initial, Some(false));
            assert_eq!(
                tool_calls,
                Some(vec![
                    call("call_1", "function", "", "{"),
                    call("call_2", "function", "second", "{}"),
                ])
            );
        }
        _ => panic!("the final message is an assistant message"),
    }
}

#[test]
fn pending_calls_without_a_name_give_an_empty_list() {
    let mut buffer = MessageBuffer::new(0);
    buffer.accept_chunk_with(
        &chunk("m", None, Some(vec![delta(Some("call_1"), None, None, Some("{"))])),
        String::new(),
    );
    match buffer.flush("a", 50) {
        Some(AgentMessage::Assistant { tool_calls, .. }) => assert_eq!(tool_calls, Some(vec![])),
        _ => panic!("a buffer with calls has something to show"),
    }
}

#[test]
fn deltas_are_merged_by_identifier() {
    let mut buffer = MessageBuffer::new(0);
    buffer.accept_chunk_with(
        &chunk(
            "m",
            None,
            Some(vec![
                delta(Some("a"), Some("function"), Some("first"), Some("1")),
                delta(Some("b"), Some("function"), Some("second"), Some("2")),
                delta(Some("a"), None, Some("renamed"), Some("3")),
                delta(Some("b"), None, None, Some("4")),
            ]),
        ),
        String::new(),
    );
    assert_eq!(
        buffer.tool_calls(),
        vec![call("a", "function", "first", "13"), call("b", "function", "second", "24")]
    );
}

#[test]
fn a_delta_without_identifier_goes_to_the_first_pending_call() {
    let mut buffer = MessageBuffer::new(0);
    buffer.accept_chunk_with(
        &chunk(
            "m",
            None,
            Some(vec![
                delta(Some("a"), Some("function"), Some("first"), Some("1")),
                delta(Some("b"), Some("function"), Some("second"), Some("2")),
            ]),
        ),
        "unused".to_string(),
    );
    buffer.accept_chunk_with(
        &chunk("m", None, Some(vec![delta(None, None, None, Some("x"))])),
        "unused".to_string(),
    );
    assert_eq!(
        buffer.tool_calls(),
        vec![call("a", "function", "first", "1x"), call("b", "function", "second", "2")]
    );
}

#[test]
fn the_fresh_identifier_is_used_once() {
    let mut buffer = MessageBuffer::new(0);
    buffer.accept_chunk_with(
        &chunk(
            "m",
            None,
            Some(vec![
                delta(None, Some("function"), Some("first"), Some("1")),
                delta(None, None, None, Some("2")),
            ]),
        ),
        "fresh".to_string(),
    );
    assert!(!buffer.is_without_calls());
    assert_eq!(buffer.tool_calls(), vec![call("fresh", "function", "first", "12")]);
}

#[test]
fn the_final_message_covers_every_partial_message() {
    let mut buffer = MessageBuffer::new(0);
    let mut partial_contents: Vec<String> = Vec::new();
    let mut partial_arguments: Vec<String> = Vec::new();
    let pieces = [("The ", "{\"a"), ("answer ", "\":"), ("is 4.", "4}")];
    let mut now = 0;
    for (text, arguments) in pieces {
        now += 50;
        buffer.accept_chunk_with(
            &chunk("m", Some(text), Some(vec![delta(Some("c"), Some("function"), Some("f"), Some(arguments))])),
            String::new(),
        );
        match buffer.flush("a", now) {
            Some(AgentMessage::Assistant { content, tool_calls, .. }) => {
                partial_contents.push(content.unwrap());
                partial_arguments.push(tool_calls.unwrap()[0].function.arguments.clone());
            }
            _ => panic!("there is something to show"),
        }
    }
    assert_eq!(partial_contents, vec!["The ", "The answer ", "The answer is 4."]);
    match buffer.complete("a") {
        AgentMessage::Assistant { content, tool_calls, .. } => {
            let content = content.unwrap();
            let calls = tool_calls.unwrap();
            assert_eq!(content, "The answer is 4.");
            assert_eq!(calls, vec![call("c", "function", "f", "{\"a\":4}")]);
            for partial in &partial_contents {
                assert!(content.starts_with(partial.as_str()));
            }
            for partial in &partial_arguments {
                assert!(calls[0].function.arguments.starts_with(partial.as_str()));
            }
        }
        _ => panic!("the final message is an assistant message"),
    }
}

#[test]
fn the_last_chunk_gives_the_identifier_of_the_message() {
    let mut buffer = MessageBuffer::new(0);
    buffer.accept_chunk(&chunk("first", Some("a"), None));
    buffer.accept_chunk(&ChatCompletionChunk { id: "ignored".to_string(), choices: vec![] });
    match buffer.complete("a") {
        AgentMessage::Assistant { id, .. } => assert_eq!(id, Some("first".to_string())),
        _ => panic!("the final message is an assistant message"),
    }
    buffer.accept_chunk(&chunk("second", None, None));
    match buffer.complete("a") {
        AgentMessage::Assistant { id, content, .. } => {
            assert_eq!(id, Some("second".to_string()));
            assert_eq!(content, Some("a".to_string()));
        }
        _ => panic!("the final message is an assistant message"),
    }
}

#[test]
fn the_reason_for_the_end_is_reported() {
    let mut buffer = MessageBuffer::new(0);
    let mut last = chunk("m", Some("bye"), None);
    last.choices[0].finish_reason = Some("stop".to_string());
    assert!(buffer.accept_chunk(&last));
    assert!(!buffer.accept_chunk(&chunk("m", None, None)));
    assert!(!buffer.accept_chunk(&ChatCompletionChunk { id: "m".to_string(), choices: vec![] }));
}

fn indexed(index: u32, id: Option<&str>, name: Option<&str>, arguments: Option<&str>) -> DeltaToolCall {
    DeltaToolCall { index: Some(index), ..delta(id, id.map(|_| "function"), name, arguments) }
}

#[test]
fn deltas_with_the_same_index_come_to_the_same_call() {
    let mut buffer = MessageBuffer::new(0);
    buffer.accept_chunk_with(
        &chunk(
            "m",
            None,
            Some(vec![
                indexed(0, Some("a"), Some("first"), Some("{\"x\"")),
                indexed(1, Some("b"), Some("second"), Some("{\"y\"")),
            ]),
        ),
        String::new(),
    );
    // The fragments that follow bring no identifier, only the index.
    buffer.accept_chunk_with(
        &chunk(
            "m",
            None,
            Some(vec![
                indexed(1, None, None, Some(":2}")),
                indexed(0, None, None, Some(":1}")),
            ]),
        ),
        String::new(),
    );
    assert_eq!(
        buffer.tool_calls(),
        vec![
            call("a", "function", "first", "{\"x\":1}"),
            call("b", "function", "second", "{\"y\":2}"),
        ]
    );
    // An index that no call has goes to the first call.
    buffer.accept_chunk_with(
        &chunk("m", None, Some(vec![indexed(7, None, None, Some(" "))])),
        String::new(),
    );
    assert_eq!(buffer.tool_calls()[0].function.arguments, "{\"x\":1} ");
    assert_eq!(buffer.tool_calls()[1].function.arguments, "{\"y\":2}");
}

#[test]
fn a_pending_call_keeps_its_first_index() {
    let mut pending = PendingToolCall::new();
    assert_eq!(pending.index, None);
    pending.update_from_delta(&indexed(3, Some("c"), None, None));
    pending.update_from_delta(&indexed(4, None, None, None));
    assert_eq!(pending.index, Some(3));
}
