//! What holds of every run.
//!
//! The functions of a run are specified by their effects. The laws here are
//! proved of those effects, and so of every run, whatever the model answers
//! and whatever the tools do.

use vstd::prelude::*;
use crate::accumulator::{
    all_calls,
    buffer_extends,
    final_message,
    flushed,
    has_changes,
    ids_distinct,
    lemma_accepted_extends,
    lemma_buffer_extends_transitive,
    lemma_final_covers_snapshot,
    lemma_flushed_extends,
    message_covers,
    snapshot_message,
    BufferView,
    ChunkView,
};
use crate::json::json_text;
use crate::message::{done_event, EventView, MessageView, ToolCallView};
use crate::run::{
    begun,
    buffer_taken,
    chunk_taken,
    completed,
    dispatched,
    ended,
    failed,
    heard,
    noted,
    stopped,
    tool_done,
    tool_result_message,
    unknown_tool_message,
    waiting,
    Effect,
    RunPhase,
    Setting,
    MAX_RECURSION_DEPTH,
};

verus! {

/// Whether an effect treats the end of the stream as it should: where it
/// leaves the run over, the last thing said is that the run is over, and
/// nothing before it says so; where it leaves the run waiting, nothing says
/// so.
pub open spec fn well_ended(e: Effect) -> bool {
    if e.phase == RunPhase::Finished {
        &&& e.said.len() > 0
        &&& e.said.last() == done_event()
        &&& !e.said.drop_last().contains(done_event())
    } else {
        !e.said.contains(done_event())
    }
}

/// A message other than the end marker, said first, leaves an effect well
/// ended.
pub proof fn lemma_heard_well_ended(m: MessageView, e: Effect)
    requires
        well_ended(e),
        !(m is Done),
    ensures
        well_ended(heard(m, e)),
        well_ended(noted(m, e)),
{
    let first: Seq<EventView> = seq![Ok(m)];
    let said = first + e.said;
    assert(heard(m, e).said == said);
    assert(noted(m, e).said == said);
    if e.phase == RunPhase::Finished {
        assert(said.last() == e.said.last());
        assert(said.drop_last() =~= first + e.said.drop_last());
        assert forall|i: int| 0 <= i < said.drop_last().len() implies said.drop_last()[i]
            != done_event() by {
            if i > 0 {
                assert(e.said.drop_last()[i - 1] == said.drop_last()[i]);
                assert(e.said.drop_last().contains(e.said.drop_last()[i - 1]));
            }
        }
    } else {
        assert forall|i: int| 0 <= i < said.len() implies said[i] != done_event() by {
            if i > 0 {
                assert(e.said[i - 1] == said[i]);
                assert(e.said.contains(e.said[i - 1]));
            }
        }
    }
}

/// The plain ends of a run are well ended.
pub proof fn lemma_ends_well_ended(agent_name: Seq<char>, text: Seq<char>, depth: nat)
    ensures
        well_ended(ended(depth)),
        well_ended(failed(text, depth)),
        well_ended(stopped(agent_name, depth)),
        well_ended(begun(agent_name, depth)),
{
    assert(ended(depth).said.drop_last() =~= Seq::empty());
    let f = failed(text, depth).said;
    assert(f.drop_last() =~= seq![f[0]]);
    let s = stopped(agent_name, depth).said;
    assert(s.drop_last() =~= seq![s[0]]);
    if depth >= MAX_RECURSION_DEPTH {
        let b = begun(agent_name, depth).said;
        assert(b.drop_last() =~= seq![b[0]]);
    }
}

/// Dispatching is well ended.
pub proof fn lemma_dispatched_well_ended(
    s: Setting,
    calls: Seq<ToolCallView>,
    i: nat,
    depth: nat,
)
    ensures
        well_ended(dispatched(s, calls, i, depth)),
    decreases calls.len() - i,
{
    if i >= calls.len() {
        lemma_ends_well_ended(s.agent_name, Seq::empty(), depth + 1);
    } else if !s.tools.contains(calls[i as int].name) {
        lemma_dispatched_well_ended(s, calls, i + 1, depth);
        lemma_heard_well_ended(
            unknown_tool_message(calls[i as int]),
            dispatched(s, calls, i + 1, depth),
        );
    } else {
        match crate::json::json_parse(calls[i as int].arguments) {
            Ok(_) => {},
            Err(e) => {
                lemma_ends_well_ended(
                    s.agent_name,
                    crate::run::parse_failure(calls[i as int], e),
                    depth,
                );
            },
        }
    }
}

/// What follows the end of a tool is well ended.
pub proof fn lemma_tool_done_well_ended(
    s: Setting,
    calls: Seq<ToolCallView>,
    i: nat,
    depth: nat,
    outcome: Result<serde_json::Value, Seq<char>>,
)
    ensures
        well_ended(tool_done(s, calls, i, depth, outcome)),
{
    let call = calls[i as int];
    match outcome {
        Err(e) => {
            lemma_ends_well_ended(s.agent_name, crate::run::tool_failure(call, e), depth);
        },
        Ok(v) => match json_text(v) {
            Err(e) => {
                lemma_ends_well_ended(s.agent_name, e, depth);
            },
            Ok(text) => {
                lemma_ends_well_ended(s.agent_name, Seq::empty(), depth);
                lemma_dispatched_well_ended(s, calls, i + 1, depth);
                lemma_heard_well_ended(tool_result_message(call, text), ended(depth));
                lemma_heard_well_ended(
                    tool_result_message(call, text),
                    dispatched(s, calls, i + 1, depth),
                );
            },
        },
    }
}

/// What follows a tool that finished after shutdown was signalled is well
/// ended, and the run is over.
pub proof fn lemma_tool_done_at_shutdown_well_ended(
    s: Setting,
    calls: Seq<ToolCallView>,
    i: nat,
    depth: nat,
    outcome: Result<serde_json::Value, Seq<char>>,
)
    ensures
        well_ended(crate::run::tool_done_at_shutdown(s, calls, i, depth, outcome)),
        crate::run::tool_done_at_shutdown(s, calls, i, depth, outcome).phase
            == RunPhase::Finished,
        crate::run::tool_done_at_shutdown(s, calls, i, depth, outcome).depth == depth,
{
    lemma_ends_well_ended(s.agent_name, Seq::empty(), depth);
    match outcome {
        Ok(v) => match json_text(v) {
            Ok(text) => {
                lemma_heard_well_ended(
                    tool_result_message(calls[i as int], text),
                    stopped(s.agent_name, depth),
                );
            },
            Err(_) => {},
        },
        Err(_) => {},
    }
}

/// The completion of an answer is well ended.
pub proof fn lemma_completed_well_ended(s: Setting, b: BufferView, depth: nat)
    ensures
        well_ended(completed(s, b, depth)),
{
    let rest = dispatched(s, all_calls(b.tool_calls), 0, depth);
    lemma_dispatched_well_ended(s, all_calls(b.tool_calls), 0, depth);
    lemma_heard_well_ended(final_message(b, s.agent_name), rest);
    lemma_heard_well_ended(
        snapshot_message(b, s.agent_name),
        noted(final_message(b, s.agent_name), rest),
    );
}

/// What follows a chunk, an error in its place or the end of the stream is
/// well ended.
pub proof fn lemma_chunk_taken_well_ended(
    s: Setting,
    b: BufferView,
    chunk: Option<Result<ChunkView, Seq<char>>>,
    now_ms: u64,
    fresh: Seq<char>,
    depth: nat,
)
    ensures
        well_ended(chunk_taken(s, b, chunk, now_ms, fresh, depth)),
{
    match chunk {
        None => {
            lemma_completed_well_ended(s, b, depth);
        },
        Some(Err(e)) => {
            lemma_ends_well_ended(s.agent_name, crate::run::chunk_failure(e), depth);
        },
        Some(Ok(c)) => {
            let taken = crate::accumulator::accepted(b, c, fresh);
            let due = crate::accumulator::flush_due(taken, now_ms);
            let shown = if due {
                flushed(taken, now_ms)
            } else {
                taken
            };
            let rest = if crate::accumulator::chunk_finishes(c) {
                completed(s, shown, depth)
            } else {
                waiting(RunPhase::Streaming, depth, 0)
            };
            lemma_completed_well_ended(s, shown, depth);
            lemma_heard_well_ended(snapshot_message(taken, s.agent_name), rest);
        },
    }
}

/// What the effects of a run say, one effect after the other.
pub open spec fn stream_of(effects: Seq<Effect>) -> Seq<EventView>
    decreases effects.len(),
{
    if effects.len() == 0 {
        Seq::empty()
    } else {
        stream_of(effects.drop_last()) + effects.last().said
    }
}

/// As long as no effect ends the run, nothing on the stream says that the
/// run is over.
pub proof fn lemma_no_end_before_the_end(effects: Seq<Effect>)
    requires
        forall|i: int| 0 <= i < effects.len() ==> well_ended(#[trigger] effects[i]),
        forall|i: int| 0 <= i < effects.len() ==> (#[trigger] effects[i]).phase != RunPhase::Finished,
    ensures
        !stream_of(effects).contains(done_event()),
    decreases effects.len(),
{
    if effects.len() > 0 {
        let rest = effects.drop_last();
        assert forall|i: int| 0 <= i < rest.len() implies well_ended(#[trigger] rest[i]) by {
            assert(rest[i] == effects[i]);
        }
        assert forall|i: int| 0 <= i < rest.len() implies (#[trigger] rest[i]).phase
            != RunPhase::Finished by {
            assert(rest[i] == effects[i]);
        }
        lemma_no_end_before_the_end(rest);
        let last = effects.last();
        assert(well_ended(last));
        let stream = stream_of(effects);
        let before = stream_of(rest);
        assert forall|k: int| 0 <= k < stream.len() implies stream[k] != done_event() by {
            if k < before.len() {
                assert(before.contains(before[k]));
            } else {
                assert(last.said.contains(last.said[k - before.len()]));
            }
        }
    }
}

/// The last event of every run is the one that says that the run is over,
/// and no event before it says so: where the effects of a run are well
/// ended, the last of them ends the run, and none before it does.
pub proof fn lemma_run_ends_with_done(effects: Seq<Effect>)
    requires
        effects.len() > 0,
        forall|i: int| 0 <= i < effects.len() ==> well_ended(#[trigger] effects[i]),
        forall|i: int|
            0 <= i < effects.len() - 1 ==> (#[trigger] effects[i]).phase != RunPhase::Finished,
        effects.last().phase == RunPhase::Finished,
    ensures
        stream_of(effects).len() > 0,
        stream_of(effects).last() == done_event(),
        !stream_of(effects).drop_last().contains(done_event()),
{
    let rest = effects.drop_last();
    let last = effects.last();
    assert forall|i: int| 0 <= i < rest.len() implies well_ended(#[trigger] rest[i]) by {
        assert(rest[i] == effects[i]);
    }
    assert forall|i: int| 0 <= i < rest.len() implies (#[trigger] rest[i]).phase
        != RunPhase::Finished by {
        assert(rest[i] == effects[i]);
    }
    lemma_no_end_before_the_end(rest);
    assert(well_ended(last));
    let stream = stream_of(effects);
    let before = stream_of(rest);
    assert(stream == before + last.said);
    assert(stream.drop_last() =~= before + last.said.drop_last());
    assert forall|k: int| 0 <= k < stream.drop_last().len() implies stream.drop_last()[k]
        != done_event() by {
        if k < before.len() {
            assert(before.contains(before[k]));
        } else {
            assert(last.said.drop_last().contains(last.said.drop_last()[k - before.len()]));
        }
    }
}

/// Whether an event is a partial assistant message.
pub open spec fn is_partial(event: EventView) -> bool {
    event matches Ok(MessageView::Assistant { progress, .. }) && progress
        == crate::message::MessageProgress::InProgress
}

/// Whether `full` covers every partial assistant message among `said`.
pub open spec fn partials_covered(said: Seq<EventView>, full: MessageView) -> bool {
    forall|i: int|
        0 <= i < said.len() && is_partial(#[trigger] said[i]) ==> message_covers(
            full,
            said[i]->Ok_0,
        )
}

/// Whether no partial assistant message is among `said`.
pub open spec fn no_partials(said: Seq<EventView>) -> bool {
    forall|i: int| 0 <= i < said.len() ==> !is_partial(#[trigger] said[i])
}

/// A message said first that is no partial message adds no partial message.
pub proof fn lemma_heard_no_partials(m: MessageView, e: Effect)
    requires
        no_partials(e.said),
        !is_partial(Ok(m)),
    ensures
        no_partials(heard(m, e).said),
        no_partials(noted(m, e).said),
{
    let first: Seq<EventView> = seq![Ok(m)];
    let said = first + e.said;
    assert forall|i: int| 0 <= i < said.len() implies !is_partial(#[trigger] said[i]) by {
        if i > 0 {
            assert(said[i] == e.said[i - 1]);
        }
    }
}

/// Dispatching says no partial message.
pub proof fn lemma_dispatched_no_partials(
    s: Setting,
    calls: Seq<ToolCallView>,
    i: nat,
    depth: nat,
)
    ensures
        no_partials(dispatched(s, calls, i, depth).said),
    decreases calls.len() - i,
{
    if i < calls.len() && !s.tools.contains(calls[i as int].name) {
        lemma_dispatched_no_partials(s, calls, i + 1, depth);
        lemma_heard_no_partials(
            unknown_tool_message(calls[i as int]),
            dispatched(s, calls, i + 1, depth),
        );
    }
}

/// A covered message said first keeps the partial messages covered.
pub proof fn lemma_heard_covered(m: MessageView, e: Effect, full: MessageView)
    requires
        partials_covered(e.said, full),
        is_partial(Ok(m)) ==> message_covers(full, m),
    ensures
        partials_covered(heard(m, e).said, full),
        partials_covered(noted(m, e).said, full),
{
    let first: Seq<EventView> = seq![Ok(m)];
    let said = first + e.said;
    assert forall|i: int| 0 <= i < said.len() && is_partial(#[trigger] said[i]) implies message_covers(
        full,
        said[i]->Ok_0,
    ) by {
        if i > 0 {
            assert(said[i] == e.said[i - 1]);
        }
    }
}

/// What the stream brings loses nothing of what the buffer held.
pub proof fn lemma_buffer_taken_extends(
    b: BufferView,
    chunk: Option<Result<ChunkView, Seq<char>>>,
    now_ms: u64,
    fresh: Seq<char>,
)
    requires
        ids_distinct(b.tool_calls),
    ensures
        ids_distinct(buffer_taken(b, chunk, now_ms, fresh).tool_calls),
        buffer_extends(buffer_taken(b, chunk, now_ms, fresh), b),
{
    lemma_flushed_extends(b, now_ms);
    match chunk {
        Some(Ok(c)) => {
            let taken = crate::accumulator::accepted(b, c, fresh);
            lemma_accepted_extends(b, c, fresh);
            lemma_flushed_extends(taken, now_ms);
            let shown = if crate::accumulator::flush_due(taken, now_ms) {
                flushed(taken, now_ms)
            } else {
                taken
            };
            lemma_flushed_extends(shown, now_ms);
            lemma_buffer_extends_transitive(shown, taken, b);
            lemma_buffer_extends_transitive(flushed(shown, now_ms), shown, b);
        },
        _ => {},
    }
}

/// The final message of a step covers every partial message of the step:
/// every partial message that is said when the stream brings something is
/// covered by the final message of the buffer as it stands afterwards, and
/// of every buffer that holds all that this one holds.
pub proof fn lemma_final_covers_partials(
    s: Setting,
    b: BufferView,
    chunk: Option<Result<ChunkView, Seq<char>>>,
    now_ms: u64,
    fresh: Seq<char>,
    depth: nat,
    later: BufferView,
)
    requires
        ids_distinct(b.tool_calls),
        buffer_extends(later, buffer_taken(b, chunk, now_ms, fresh)),
    ensures
        partials_covered(
            chunk_taken(s, b, chunk, now_ms, fresh, depth).said,
            final_message(later, s.agent_name),
        ),
{
    let full = final_message(later, s.agent_name);
    let after = buffer_taken(b, chunk, now_ms, fresh);
    match chunk {
        None => {
            lemma_flushed_extends(b, now_ms);
            lemma_buffer_extends_transitive(later, after, b);
            lemma_completed_covered(s, b, depth, later);
        },
        Some(Err(e)) => {
            assert(no_partials(failed(crate::run::chunk_failure(e), depth).said));
        },
        Some(Ok(c)) => {
            let taken = crate::accumulator::accepted(b, c, fresh);
            let due = crate::accumulator::flush_due(taken, now_ms);
            let shown = if due {
                flushed(taken, now_ms)
            } else {
                taken
            };
            lemma_accepted_extends(b, c, fresh);
            lemma_flushed_extends(taken, now_ms);
            lemma_flushed_extends(shown, now_ms);
            let rest = if crate::accumulator::chunk_finishes(c) {
                completed(s, shown, depth)
            } else {
                waiting(RunPhase::Streaming, depth, 0)
            };
            if crate::accumulator::chunk_finishes(c) {
                lemma_buffer_extends_transitive(later, after, shown);
                lemma_completed_covered(s, shown, depth, later);
            } else {
                assert(no_partials(rest.said));
            }
            lemma_buffer_extends_transitive(later, after, taken);
            lemma_final_covers_snapshot(later, taken, s.agent_name);
            lemma_heard_covered(snapshot_message(taken, s.agent_name), rest, full);
        },
    }
}

/// The partial message that the completion of an answer says is covered by
/// the final message of every buffer that holds all that the answer holds.
pub proof fn lemma_completed_covered(s: Setting, b: BufferView, depth: nat, later: BufferView)
    requires
        buffer_extends(later, b),
    ensures
        partials_covered(completed(s, b, depth).said, final_message(later, s.agent_name)),
{
    let full = final_message(later, s.agent_name);
    let rest = dispatched(s, all_calls(b.tool_calls), 0, depth);
    lemma_dispatched_no_partials(s, all_calls(b.tool_calls), 0, depth);
    lemma_heard_no_partials(final_message(b, s.agent_name), rest);
    let closing = noted(final_message(b, s.agent_name), rest);
    assert(partials_covered(closing.said, full));
    lemma_final_covers_snapshot(later, b, s.agent_name);
    lemma_heard_covered(snapshot_message(b, s.agent_name), closing, full);
}

/// A terminating tool ends the run: once it has run, its call is answered,
/// the stream is told that the run is over, no further tool is run and no
/// further step is taken.
pub proof fn lemma_terminating_tool_ends_run(
    s: Setting,
    calls: Seq<ToolCallView>,
    i: nat,
    depth: nat,
    result: serde_json::Value,
)
    requires
        i < calls.len(),
        s.terminating.contains(calls[i as int].name),
        json_text(result) is Ok,
    ensures
        tool_done(s, calls, i, depth, Ok(result)).phase == RunPhase::Finished,
        tool_done(s, calls, i, depth, Ok(result)).depth == depth,
        tool_done(s, calls, i, depth, Ok(result)).failure is None,
        tool_done(s, calls, i, depth, Ok(result)).recorded == seq![
            tool_result_message(calls[i as int], json_text(result)->Ok_0),
        ],
        tool_done(s, calls, i, depth, Ok(result)).said == seq![
            Ok(tool_result_message(calls[i as int], json_text(result)->Ok_0)),
            done_event(),
        ],
{
    let e = tool_done(s, calls, i, depth, Ok(result));
    let m = tool_result_message(calls[i as int], json_text(result)->Ok_0);
    assert(e.recorded =~= seq![m]);
    assert(e.said =~= seq![Ok(m), done_event()]);
}

/// The depth of a run never exceeds 15, and no step is taken at depth 15: a
/// step that would begin there ends the run instead.
pub proof fn lemma_depth_is_bounded(
    s: Setting,
    calls: Seq<ToolCallView>,
    i: nat,
    depth: nat,
    b: BufferView,
    chunk: Option<Result<ChunkView, Seq<char>>>,
    now_ms: u64,
    fresh: Seq<char>,
    outcome: Result<serde_json::Value, Seq<char>>,
)
    requires
        depth < MAX_RECURSION_DEPTH,
    ensures
        crate::run::effect_ok(dispatched(s, calls, i, depth), calls),
        i < calls.len() ==> crate::run::effect_ok(tool_done(s, calls, i, depth, outcome), calls),
        crate::run::effect_ok(
            chunk_taken(s, b, chunk, now_ms, fresh, depth),
            crate::run::staged_calls(calls, b, chunk, now_ms, fresh),
        ),
        begun(s.agent_name, depth + 1).depth <= MAX_RECURSION_DEPTH,
        begun(s.agent_name, MAX_RECURSION_DEPTH as nat).phase == RunPhase::Finished,
{
    crate::run::lemma_dispatched_ok(s, calls, i, depth);
    crate::run::lemma_dispatched_ok(s, calls, i + 1, depth);
    match chunk {
        None => {
            crate::run::lemma_dispatched_ok(s, all_calls(b.tool_calls), 0, depth);
        },
        Some(Err(_)) => {},
        Some(Ok(c)) => {
            let taken = crate::accumulator::accepted(b, c, fresh);
            let shown = if crate::accumulator::flush_due(taken, now_ms) {
                flushed(taken, now_ms)
            } else {
                taken
            };
            crate::run::lemma_dispatched_ok(s, all_calls(shown.tool_calls), 0, depth);
        },
    }
}

/// The identifiers of the calls that the tool messages among `messages`
/// answer, in order.
pub open spec fn answer_ids(messages: Seq<MessageView>) -> Seq<Seq<char>>
    decreases messages.len(),
{
    if messages.len() == 0 {
        Seq::empty()
    } else {
        match messages.last() {
            MessageView::Tool { tool_call_id, .. } => answer_ids(messages.drop_last()).push(
                tool_call_id,
            ),
            _ => answer_ids(messages.drop_last()),
        }
    }
}

/// The identifiers of the calls that the tool messages among the events
/// `said` answer, in order.
pub open spec fn said_answer_ids(said: Seq<EventView>) -> Seq<Seq<char>>
    decreases said.len(),
{
    if said.len() == 0 {
        Seq::empty()
    } else {
        match said.last() {
            Ok(MessageView::Tool { tool_call_id, .. }) => said_answer_ids(said.drop_last()).push(
                tool_call_id,
            ),
            _ => said_answer_ids(said.drop_last()),
        }
    }
}

/// The identifiers of a sequence of calls, in order.
pub open spec fn call_ids(calls: Seq<ToolCallView>) -> Seq<Seq<char>> {
    calls.map_values(|c: ToolCallView| c.id)
}

/// The place of the first call from `i` on whose tool is registered, or the
/// number of calls where there is none.
pub open spec fn first_known(s: Setting, calls: Seq<ToolCallView>, i: nat) -> nat
    decreases calls.len() - i,
{
    if i >= calls.len() {
        calls.len()
    } else if !s.tools.contains(calls[i as int].name) {
        first_known(s, calls, i + 1)
    } else {
        i
    }
}

/// The answers among a message and what follows it.
pub proof fn lemma_answer_ids_first(m: MessageView, rest: Seq<MessageView>)
    ensures
        answer_ids(seq![m] + rest) == (match m {
            MessageView::Tool { tool_call_id, .. } => seq![tool_call_id],
            _ => Seq::empty(),
        }) + answer_ids(rest),
    decreases rest.len(),
{
    let all = seq![m] + rest;
    let head: Seq<Seq<char>> = match m {
        MessageView::Tool { tool_call_id, .. } => seq![tool_call_id],
        _ => Seq::empty(),
    };
    if rest.len() == 0 {
        assert(all.drop_last() =~= Seq::empty());
        assert(all.last() == m);
        assert(answer_ids(all.drop_last()) =~= Seq::empty());
        assert(answer_ids(rest) =~= Seq::empty());
        assert(answer_ids(all) =~= head + answer_ids(rest));
    } else {
        assert(all.last() == rest.last());
        assert(all.drop_last() =~= seq![m] + rest.drop_last());
        lemma_answer_ids_first(m, rest.drop_last());
        assert(answer_ids(all) =~= head + answer_ids(rest));
    }
}

/// The answers among an event and what follows it.
pub proof fn lemma_said_answer_ids_first(event: EventView, rest: Seq<EventView>)
    ensures
        said_answer_ids(seq![event] + rest) == (match event {
            Ok(MessageView::Tool { tool_call_id, .. }) => seq![tool_call_id],
            _ => Seq::empty(),
        }) + said_answer_ids(rest),
    decreases rest.len(),
{
    let all = seq![event] + rest;
    let head: Seq<Seq<char>> = match event {
        Ok(MessageView::Tool { tool_call_id, .. }) => seq![tool_call_id],
        _ => Seq::empty(),
    };
    if rest.len() == 0 {
        assert(all.drop_last() =~= Seq::empty());
        assert(all.last() == event);
        assert(said_answer_ids(all.drop_last()) =~= Seq::empty());
        assert(said_answer_ids(rest) =~= Seq::empty());
        assert(said_answer_ids(all) =~= head + said_answer_ids(rest));
    } else {
        assert(all.last() == rest.last());
        assert(all.drop_last() =~= seq![event] + rest.drop_last());
        lemma_said_answer_ids_first(event, rest.drop_last());
        assert(said_answer_ids(all) =~= head + said_answer_ids(rest));
    }
}

/// The plain ends of a run answer no call.
pub proof fn lemma_ends_answer_nothing(agent_name: Seq<char>, text: Seq<char>, depth: nat)
    ensures
        said_answer_ids(ended(depth).said) == Seq::<Seq<char>>::empty(),
        said_answer_ids(failed(text, depth).said) == Seq::<Seq<char>>::empty(),
        said_answer_ids(begun(agent_name, depth).said) == Seq::<Seq<char>>::empty(),
{
    let none = Seq::<EventView>::empty();
    lemma_said_answer_ids_first(done_event(), none);
    assert(seq![done_event()] + none =~= ended(depth).said);
    let tail: Seq<EventView> = seq![done_event()];
    lemma_said_answer_ids_first(crate::run::failure_event(text), tail);
    assert(seq![crate::run::failure_event(text)] + tail =~= failed(text, depth).said);
    assert(tail =~= seq![done_event()] + none);
    if depth >= MAX_RECURSION_DEPTH {
        let first: EventView = Ok(crate::run::capacity_message(agent_name));
        lemma_said_answer_ids_first(first, tail);
        assert(seq![first] + tail =~= begun(agent_name, depth).said);
    }
}

/// Every call that is dispatched is answered exactly once, on the stream and
/// in the thread: dispatching from the place `i` on records and says one
/// tool message for each call up to the first whose tool is registered, with
/// the identifiers of these calls, in their order, and no other.
pub proof fn lemma_dispatched_answers(s: Setting, calls: Seq<ToolCallView>, i: nat, depth: nat)
    requires
        i <= calls.len(),
    ensures
        i <= first_known(s, calls, i) <= calls.len(),
        answer_ids(dispatched(s, calls, i, depth).recorded) == call_ids(
            calls.subrange(i as int, first_known(s, calls, i) as int),
        ),
        said_answer_ids(dispatched(s, calls, i, depth).said) == call_ids(
            calls.subrange(i as int, first_known(s, calls, i) as int),
        ),
        dispatched(s, calls, i, depth).recorded.len() == first_known(s, calls, i) - i,
        dispatched(s, calls, i, depth).phase == RunPhase::AwaitingTool ==> dispatched(
            s,
            calls,
            i,
            depth,
        ).next_call == first_known(s, calls, i),
    decreases calls.len() - i,
{
    let e = dispatched(s, calls, i, depth);
    let stop = first_known(s, calls, i);
    if i >= calls.len() {
        lemma_ends_answer_nothing(s.agent_name, Seq::empty(), depth + 1);
        assert(call_ids(calls.subrange(i as int, stop as int)) =~= Seq::empty());
    } else if !s.tools.contains(calls[i as int].name) {
        let rest = dispatched(s, calls, i + 1, depth);
        let m = unknown_tool_message(calls[i as int]);
        lemma_dispatched_answers(s, calls, i + 1, depth);
        lemma_answer_ids_first(m, rest.recorded);
        lemma_said_answer_ids_first(Ok(m), rest.said);
        assert(call_ids(calls.subrange(i as int, stop as int)) =~= seq![calls[i as int].id]
            + call_ids(calls.subrange(i as int + 1, stop as int)));
    } else {
        assert(call_ids(calls.subrange(i as int, stop as int)) =~= Seq::empty());
        match crate::json::json_parse(calls[i as int].arguments) {
            Ok(_) => {},
            Err(err) => {
                lemma_ends_answer_nothing(
                    s.agent_name,
                    crate::run::parse_failure(calls[i as int], err),
                    depth,
                );
            },
        }
    }
}

/// The call whose tool has run is answered exactly once, on the stream and
/// in the thread, with the result of the tool; the calls that are dispatched
/// after it are answered as dispatching answers them.
pub proof fn lemma_tool_done_answers(
    s: Setting,
    calls: Seq<ToolCallView>,
    i: nat,
    depth: nat,
    result: serde_json::Value,
)
    requires
        i < calls.len(),
        json_text(result) is Ok,
    ensures
        answer_ids(tool_done(s, calls, i, depth, Ok(result)).recorded) == seq![
            calls[i as int].id,
        ] + (if s.terminating.contains(calls[i as int].name) {
            Seq::empty()
        } else {
            call_ids(calls.subrange(i as int + 1, first_known(s, calls, i + 1) as int))
        }),
        said_answer_ids(tool_done(s, calls, i, depth, Ok(result)).said) == answer_ids(
            tool_done(s, calls, i, depth, Ok(result)).recorded,
        ),
        tool_done(s, calls, i, depth, Ok(result)).recorded[0] == tool_result_message(
            calls[i as int],
            json_text(result)->Ok_0,
        ),
{
    let m = tool_result_message(calls[i as int], json_text(result)->Ok_0);
    if s.terminating.contains(calls[i as int].name) {
        lemma_ends_answer_nothing(s.agent_name, Seq::empty(), depth);
        lemma_answer_ids_first(m, ended(depth).recorded);
        lemma_said_answer_ids_first(Ok(m), ended(depth).said);
        assert(answer_ids(ended(depth).recorded) =~= Seq::empty());
    } else {
        let rest = dispatched(s, calls, i + 1, depth);
        lemma_dispatched_answers(s, calls, i + 1, depth);
        lemma_answer_ids_first(m, rest.recorded);
        lemma_said_answer_ids_first(Ok(m), rest.said);
    }
}

/// The calls of an answer have distinct identifiers, so that no two of them
/// are answered by the same tool message.
pub proof fn lemma_call_ids_distinct(pending: Seq<crate::accumulator::PendingView>)
    requires
        ids_distinct(pending),
    ensures
        forall|i: int, j: int|
            0 <= i < pending.len() && 0 <= j < pending.len() && call_ids(all_calls(pending))[i]
                == call_ids(all_calls(pending))[j] ==> i == j,
{
    assert forall|i: int, j: int|
        0 <= i < pending.len() && 0 <= j < pending.len() && call_ids(all_calls(pending))[i]
            == call_ids(all_calls(pending))[j] implies i == j by {
        assert(pending[i].id is Some);
        assert(pending[j].id is Some);
        assert(pending[i].id == pending[j].id);
    }
}

/// The mode is asked for once in every step, with the state as it stands at
/// that instant: where an effect leaves the run waiting for its mode, what is
/// to be done next is to configure the mode for the state of the group, the
/// run keeps that state as the snapshot of the step, and the thread of the
/// run is the current thread.
pub proof fn lemma_mode_asked_with_snapshot(
    r: crate::run::RunView,
    g: crate::agent::GroupView,
    e: Effect,
)
    requires
        e.phase == RunPhase::AwaitingMode,
        e.installs,
    ensures
        crate::run::action_after(crate::run::run_after(r, g, e), e) == (
        crate::run::ActionView::ConfigureMode { state: g.state }),
        crate::run::run_after(r, g, e).snapshot == g.state,
        crate::run::group_after(r, g, e).current_thread == Some(
            crate::run::run_after(r, g, e).thread,
        ),
        crate::run::group_after(r, g, e).state == g.state,
{
}

/// A run comes to wait for its mode only by beginning a step, and each step
/// lies one deeper than the one before: an effect that leaves the run waiting
/// for its mode has taken the depth up by one, and every other effect that
/// leaves the run waiting has kept it.
pub proof fn lemma_one_mode_per_step(
    s: Setting,
    calls: Seq<ToolCallView>,
    i: nat,
    depth: nat,
    b: BufferView,
    chunk: Option<Result<ChunkView, Seq<char>>>,
    now_ms: u64,
    fresh: Seq<char>,
    outcome: Result<serde_json::Value, Seq<char>>,
)
    ensures
        steps_once(dispatched(s, calls, i, depth), depth),
        steps_once(tool_done(s, calls, i, depth, outcome), depth),
        steps_once(completed(s, b, depth), depth),
        steps_once(chunk_taken(s, b, chunk, now_ms, fresh, depth), depth),
{
    lemma_dispatched_steps_once(s, calls, i, depth);
    lemma_dispatched_steps_once(s, calls, i + 1, depth);
    lemma_dispatched_steps_once(s, all_calls(b.tool_calls), 0, depth);
    match chunk {
        Some(Ok(c)) => {
            let taken = crate::accumulator::accepted(b, c, fresh);
            let shown = if crate::accumulator::flush_due(taken, now_ms) {
                flushed(taken, now_ms)
            } else {
                taken
            };
            lemma_dispatched_steps_once(s, all_calls(shown.tool_calls), 0, depth);
        },
        _ => {},
    }
}

/// Whether an effect that began at `depth` has taken at most one step: it
/// waits for a mode one step deeper, or it waits for something else or is
/// over at the depth at which it began or, having taken all steps, one deeper.
pub open spec fn steps_once(e: Effect, depth: nat) -> bool {
    match e.phase {
        RunPhase::AwaitingMode => e.depth == depth + 1,
        RunPhase::Finished => e.depth == depth || e.depth == depth + 1,
        _ => e.depth == depth,
    }
}

/// Dispatching takes at most one step.
pub proof fn lemma_dispatched_steps_once(
    s: Setting,
    calls: Seq<ToolCallView>,
    i: nat,
    depth: nat,
)
    ensures
        steps_once(dispatched(s, calls, i, depth), depth),
    decreases calls.len() - i,
{
    if i < calls.len() && !s.tools.contains(calls[i as int].name) {
        lemma_dispatched_steps_once(s, calls, i + 1, depth);
    }
}

/// What one agent of a group says in one decision.
pub struct Batch {
    pub agent: Seq<char>,
    pub events: Seq<EventView>,
}

/// The stream that a sequence of decisions leaves, one batch after the
/// other.
pub open spec fn stream_after(batches: Seq<Batch>) -> Seq<EventView>
    decreases batches.len(),
{
    if batches.len() == 0 {
        Seq::empty()
    } else {
        stream_after(batches.drop_last()) + batches.last().events
    }
}

/// What one agent said in a sequence of decisions, in the order in which it
/// said it.
pub open spec fn said_by(batches: Seq<Batch>, agent: Seq<char>) -> Seq<EventView>
    decreases batches.len(),
{
    if batches.len() == 0 {
        Seq::empty()
    } else if batches.last().agent == agent {
        said_by(batches.drop_last(), agent) + batches.last().events
    } else {
        said_by(batches.drop_last(), agent)
    }
}

/// Whether the events of `part` are among those of `whole`, in the same
/// order.
pub open spec fn in_order_within(part: Seq<EventView>, whole: Seq<EventView>) -> bool
    decreases whole.len(),
{
    if part.len() == 0 {
        true
    } else if whole.len() == 0 {
        false
    } else if part.last() == whole.last() && in_order_within(part.drop_last(), whole.drop_last()) {
        true
    } else {
        in_order_within(part, whole.drop_last())
    }
}

/// What is in order within a stream stays so when the stream grows.
pub proof fn lemma_in_order_grows(part: Seq<EventView>, whole: Seq<EventView>, more: Seq<EventView>)
    requires
        in_order_within(part, whole),
    ensures
        in_order_within(part, whole + more),
    decreases more.len(),
{
    if more.len() == 0 {
        assert(whole + more =~= whole);
    } else {
        lemma_in_order_grows(part, whole, more.drop_last());
        assert((whole + more).drop_last() =~= whole + more.drop_last());
    }
}

/// What is in order within a stream stays so when both grow by the same
/// events.
pub proof fn lemma_in_order_both_grow(
    part: Seq<EventView>,
    whole: Seq<EventView>,
    more: Seq<EventView>,
)
    requires
        in_order_within(part, whole),
    ensures
        in_order_within(part + more, whole + more),
    decreases more.len(),
{
    if more.len() == 0 {
        assert(whole + more =~= whole);
        assert(part + more =~= part);
    } else {
        lemma_in_order_both_grow(part, whole, more.drop_last());
        assert((whole + more).drop_last() =~= whole + more.drop_last());
        assert((part + more).drop_last() =~= part + more.drop_last());
        assert((part + more).last() == (whole + more).last());
    }
}

/// The agents of a group share one stream, on which what each of them says
/// keeps its order: whatever the order in which the agents take their
/// decisions, the events of every agent are among those of the stream in the
/// order in which the agent said them.
pub proof fn lemma_agents_keep_their_order(batches: Seq<Batch>, agent: Seq<char>)
    ensures
        in_order_within(said_by(batches, agent), stream_after(batches)),
    decreases batches.len(),
{
    if batches.len() > 0 {
        let rest = batches.drop_last();
        lemma_agents_keep_their_order(rest, agent);
        if batches.last().agent == agent {
            lemma_in_order_both_grow(
                said_by(rest, agent),
                stream_after(rest),
                batches.last().events,
            );
        } else {
            lemma_in_order_grows(said_by(rest, agent), stream_after(rest), batches.last().events);
        }
    }
}

/// Whether every message is a tool message.
pub open spec fn all_tool_messages(messages: Seq<MessageView>) -> bool {
    forall|i: int| 0 <= i < messages.len() ==> (#[trigger] messages[i]) is Tool
}

/// Dispatching records nothing but tool messages.
pub proof fn lemma_dispatched_records_tool_messages(
    s: Setting,
    calls: Seq<ToolCallView>,
    i: nat,
    depth: nat,
)
    ensures
        all_tool_messages(dispatched(s, calls, i, depth).recorded),
    decreases calls.len() - i,
{
    if i < calls.len() && !s.tools.contains(calls[i as int].name) {
        lemma_dispatched_records_tool_messages(s, calls, i + 1, depth);
        let rest = dispatched(s, calls, i + 1, depth).recorded;
        let all = dispatched(s, calls, i, depth).recorded;
        assert forall|k: int| 0 <= k < all.len() implies (#[trigger] all[k]) is Tool by {
            if k > 0 {
                assert(all[k] == rest[k - 1]);
            }
        }
    }
}

/// A step is heard in its order: the partial message that shows the buffer
/// once more, if there is something to show, the final message of the
/// assistant, and after it the tool messages. The thread records the final
/// message and the tool messages, in that order.
pub proof fn lemma_step_in_order(s: Setting, b: BufferView, depth: nat)
    ensures
        completed(s, b, depth).recorded.len() >= 1,
        completed(s, b, depth).recorded[0] == final_message(b, s.agent_name),
        all_tool_messages(completed(s, b, depth).recorded.drop_first()),
        has_changes(b) ==> completed(s, b, depth).said.len() >= 2 && completed(s, b, depth).said[0]
            == Ok::<MessageView, Seq<char>>(snapshot_message(b, s.agent_name)) && completed(
            s,
            b,
            depth,
        ).said[1] == Ok::<MessageView, Seq<char>>(final_message(b, s.agent_name)),
        !has_changes(b) ==> completed(s, b, depth).said.len() >= 1 && completed(s, b, depth).said[0]
            == Ok::<MessageView, Seq<char>>(final_message(b, s.agent_name)),
{
    let rest = dispatched(s, all_calls(b.tool_calls), 0, depth);
    lemma_dispatched_records_tool_messages(s, all_calls(b.tool_calls), 0, depth);
    let recorded = completed(s, b, depth).recorded;
    assert(recorded.drop_first() =~= rest.recorded);
}

} // verus!
