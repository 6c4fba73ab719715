//! The delta accumulator: it assembles the chunks of one streamed answer
//! into partial and final assistant messages.
//!
//! Text deltas are appended to a growing content. Tool-call deltas are merged
//! into pending calls, which stand in the order in which their identifiers
//! first came; no identifier stands twice. A delta goes to the call with its
//! identifier; a delta without identifier goes to the call with its index,
//! else to the first call. The index, the name and the type of a pending call
//! are those that came first, and its arguments are the fragments in the
//! order of their arrival.

use vstd::prelude::*;
use vstd::string::StringExecFns;
use crate::json::{fresh_uuid, uuid_to_text};
use crate::message::{
    calls_view,
    clone_text,
    text_view,
    AgentMessage,
    FunctionCall,
    MessageProgress,
    MessageView,
    ToolCall,
    ToolCallView,
};
use crate::text::same_text;

verus! {

/// The milliseconds that pass between two partial messages, at least.
pub const FLUSH_INTERVAL_MS: u64 = 50;

/// The function part of a tool-call delta.
#[derive(Debug)]
pub struct FunctionDelta {
    pub name: Option<String>,
    pub arguments: Option<String>,
}

/// A fragment of a tool call, as one chunk brings it.
#[derive(Debug)]
pub struct DeltaToolCall {
    pub index: Option<u32>,
    pub id: Option<String>,
    pub call_type: Option<String>,
    pub function: Option<FunctionDelta>,
}

/// What a tool-call delta says. A delta without a function part has neither
/// a name nor arguments.
pub struct DeltaView {
    pub index: Option<u32>,
    pub id: Option<Seq<char>>,
    pub call_type: Option<Seq<char>>,
    pub name: Option<Seq<char>>,
    pub arguments: Option<Seq<char>>,
}

impl View for DeltaToolCall {
    type V = DeltaView;

    open spec fn view(&self) -> DeltaView {
        DeltaView {
            index: self.index,
            id: text_view(self.id),
            call_type: text_view(self.call_type),
            name: match self.function {
                Some(f) => text_view(f.name),
                None => None,
            },
            arguments: match self.function {
                Some(f) => text_view(f.arguments),
                None => None,
            },
        }
    }
}

/// The views of a sequence of deltas, in order.
pub open spec fn deltas_view(deltas: Seq<DeltaToolCall>) -> Seq<DeltaView> {
    deltas.map_values(|d: DeltaToolCall| d@)
}

/// What one choice of a chunk adds.
#[derive(Debug)]
pub struct ChunkDelta {
    pub content: Option<String>,
    pub tool_calls: Option<Vec<DeltaToolCall>>,
}

/// One choice of a chunk.
#[derive(Debug)]
pub struct ChunkChoice {
    pub delta: ChunkDelta,
    pub finish_reason: Option<String>,
}

/// One chunk of a streamed answer.
#[derive(Debug)]
pub struct ChatCompletionChunk {
    pub id: String,
    pub choices: Vec<ChunkChoice>,
}

/// What the first choice of a chunk says. Of the reason for which the
/// answer ended, only that there is one is read.
pub struct ChoiceView {
    pub content: Option<Seq<char>>,
    pub deltas: Seq<DeltaView>,
    pub finished: bool,
}

/// What a chunk says: its identifier and its first choice, if it has one.
/// Choices after the first are not read.
pub struct ChunkView {
    pub id: Seq<char>,
    pub choice: Option<ChoiceView>,
}

impl View for ChunkChoice {
    type V = ChoiceView;

    open spec fn view(&self) -> ChoiceView {
        ChoiceView {
            content: text_view(self.delta.content),
            deltas: match self.delta.tool_calls {
                Some(v) => deltas_view(v@),
                None => Seq::empty(),
            },
            finished: self.finish_reason is Some,
        }
    }
}

impl View for ChatCompletionChunk {
    type V = ChunkView;

    open spec fn view(&self) -> ChunkView {
        ChunkView {
            id: self.id@,
            choice: if self.choices@.len() > 0 {
                Some(self.choices@[0]@)
            } else {
                None
            },
        }
    }
}

/// A tool call that is still being assembled.
#[derive(Debug)]
pub struct PendingToolCall {
    pub index: Option<u32>,
    pub id: Option<String>,
    pub call_type: Option<String>,
    pub function_name: Option<String>,
    pub arguments: String,
}

/// What a pending tool call holds.
pub struct PendingView {
    pub index: Option<u32>,
    pub id: Option<Seq<char>>,
    pub call_type: Option<Seq<char>>,
    pub function_name: Option<Seq<char>>,
    pub arguments: Seq<char>,
}

impl View for PendingToolCall {
    type V = PendingView;

    open spec fn view(&self) -> PendingView {
        PendingView {
            index: self.index,
            id: text_view(self.id),
            call_type: text_view(self.call_type),
            function_name: text_view(self.function_name),
            arguments: self.arguments@,
        }
    }
}

/// The first of two optional values that is present.
pub open spec fn first_of<A>(a: Option<A>, b: Option<A>) -> Option<A> {
    if a is Some {
        a
    } else {
        b
    }
}

/// The text of an optional text, empty where it is absent.
pub open spec fn text_or_empty(text: Option<Seq<char>>) -> Seq<char> {
    match text {
        Some(s) => s,
        None => Seq::empty(),
    }
}

/// A pending call after one more delta: the delta's identifier where it has
/// one, the index, the name and the type that came first, the arguments with
/// the new fragment at their end.
pub open spec fn merge_delta(p: PendingView, d: DeltaView) -> PendingView {
    PendingView {
        index: first_of(p.index, d.index),
        id: first_of(d.id, p.id),
        call_type: first_of(p.call_type, d.call_type),
        function_name: first_of(p.function_name, d.name),
        arguments: p.arguments + text_or_empty(d.arguments),
    }
}

/// The one delta that stands for two deltas that came one after the other.
pub open spec fn join_deltas(a: DeltaView, b: DeltaView) -> DeltaView {
    DeltaView {
        index: first_of(a.index, b.index),
        id: first_of(b.id, a.id),
        call_type: first_of(a.call_type, b.call_type),
        name: first_of(a.name, b.name),
        arguments: if a.arguments is None && b.arguments is None {
            None
        } else {
            Some(text_or_empty(a.arguments) + text_or_empty(b.arguments))
        },
    }
}

/// A pending call after a sequence of deltas, taken in order.
pub open spec fn merge_all(p: PendingView, deltas: Seq<DeltaView>) -> PendingView
    decreases deltas.len(),
{
    if deltas.len() == 0 {
        p
    } else {
        merge_delta(merge_all(p, deltas.drop_last()), deltas.last())
    }
}

/// The fragments of a sequence of argument texts, one after the other.
pub open spec fn concat_all(fragments: Seq<Seq<char>>) -> Seq<char>
    decreases fragments.len(),
{
    if fragments.len() == 0 {
        Seq::empty()
    } else {
        concat_all(fragments.drop_last()) + fragments.last()
    }
}

/// A delta that brings nothing but a fragment of the arguments.
pub open spec fn argument_delta(fragment: Seq<char>) -> DeltaView {
    DeltaView { index: None, id: None, call_type: None, name: None, arguments: Some(fragment) }
}

/// The tool call that a pending call stands for: what is absent is empty.
pub open spec fn tool_call_of(p: PendingView) -> ToolCallView {
    ToolCallView {
        id: text_or_empty(p.id),
        call_type: text_or_empty(p.call_type),
        name: text_or_empty(p.function_name),
        arguments: p.arguments,
    }
}

/// Merging two deltas one after the other is merging their join.
pub proof fn lemma_merge_joined(p: PendingView, a: DeltaView, b: DeltaView)
    ensures
        merge_delta(merge_delta(p, a), b) == merge_delta(p, join_deltas(a, b)),
{
    let left = merge_delta(merge_delta(p, a), b);
    let right = merge_delta(p, join_deltas(a, b));
    assert(left.arguments =~= right.arguments);
}

/// Feeding the fragments of the arguments one by one gives the same tool call
/// as feeding their concatenation as a single delta.
pub proof fn lemma_fragments_as_one(p: PendingView, fragments: Seq<Seq<char>>)
    ensures
        merge_all(p, fragments.map_values(|f: Seq<char>| argument_delta(f))) == merge_delta(
            p,
            argument_delta(concat_all(fragments)),
        ),
        tool_call_of(merge_all(p, fragments.map_values(|f: Seq<char>| argument_delta(f))))
            == tool_call_of(merge_delta(p, argument_delta(concat_all(fragments)))),
    decreases fragments.len(),
{
    let deltas = fragments.map_values(|f: Seq<char>| argument_delta(f));
    if fragments.len() == 0 {
        assert(merge_delta(p, argument_delta(concat_all(fragments))).arguments =~= p.arguments);
    } else {
        let rest = fragments.drop_last();
        lemma_fragments_as_one(p, rest);
        assert(deltas.drop_last() =~= rest.map_values(|f: Seq<char>| argument_delta(f)));
        assert(deltas.last() == argument_delta(fragments.last()));
        let before = merge_delta(p, argument_delta(concat_all(rest)));
        assert(merge_delta(before, argument_delta(fragments.last())).arguments =~= merge_delta(
            p,
            argument_delta(concat_all(fragments)),
        ).arguments);
    }
}

impl PendingToolCall {
    /// A pending call of which nothing is known yet.
    pub fn new() -> (r: PendingToolCall)
        ensures
            r@ == (PendingView {
                index: None,
                id: None,
                call_type: None,
                function_name: None,
                arguments: Seq::empty(),
            }),
    {
        PendingToolCall {
            index: None,
            id: None,
            call_type: None,
            function_name: None,
            arguments: String::new(),
        }
    }

    /// Merges one delta into the pending call.
    pub fn update_from_delta(&mut self, tool_call: &DeltaToolCall)
        ensures
            final(self)@ == merge_delta(old(self)@, tool_call@),
    {
        if self.index.is_none() {
            self.index = tool_call.index;
        }
        if let Some(id) = &tool_call.id {
            self.id = Some(id.clone());
        }
        if self.call_type.is_none() {
            self.call_type = clone_text(&tool_call.call_type);
        }
        if let Some(function) = &tool_call.function {
            if self.function_name.is_none() {
                self.function_name = clone_text(&function.name);
            }
            if let Some(args) = &function.arguments {
                self.arguments.append(args.as_str());
            }
        }
        assert(self@.arguments =~= merge_delta(old(self)@, tool_call@).arguments);
    }

    /// The tool call that the pending call stands for.
    pub fn into_tool_call(self) -> (r: ToolCall)
        ensures
            r@ == tool_call_of(self@),
    {
        let id = match self.id {
            Some(s) => s,
            None => String::new(),
        };
        let call_type = match self.call_type {
            Some(s) => s,
            None => String::new(),
        };
        let name = match self.function_name {
            Some(s) => s,
            None => String::new(),
        };
        ToolCall { id, call_type, function: FunctionCall { name, arguments: self.arguments } }
    }
}

impl Clone for PendingToolCall {
    fn clone(&self) -> (r: PendingToolCall)
        ensures
            r@ == self@,
    {
        PendingToolCall {
            index: self.index,
            id: clone_text(&self.id),
            call_type: clone_text(&self.call_type),
            function_name: clone_text(&self.function_name),
            arguments: self.arguments.clone(),
        }
    }
}

/// The views of a sequence of pending calls, in order.
pub open spec fn pending_view(calls: Seq<PendingToolCall>) -> Seq<PendingView> {
    calls.map_values(|p: PendingToolCall| p@)
}

/// Whether `i` is the place of the pending call with the identifier `id`.
pub open spec fn is_call_at(calls: Seq<PendingView>, id: Seq<char>, i: int) -> bool {
    0 <= i < calls.len() && calls[i].id == Some(id)
}

/// Whether a pending call has the identifier `id`.
pub open spec fn has_call(calls: Seq<PendingView>, id: Seq<char>) -> bool {
    exists|i: int| is_call_at(calls, id, i)
}

/// Whether every pending call has an identifier, and no two the same.
pub open spec fn ids_distinct(calls: Seq<PendingView>) -> bool {
    &&& forall|i: int| 0 <= i < calls.len() ==> (#[trigger] calls[i]).id is Some
    &&& forall|i: int, j: int|
        0 <= i < calls.len() && 0 <= j < calls.len() && calls[i].id == calls[j].id ==> i == j
}

/// The first place from `from` on at which a pending call has the index
/// `index`, or the number of calls where none has it.
pub open spec fn place_of_index(calls: Seq<PendingView>, index: u32, from: int) -> int
    decreases calls.len() - from,
{
    if from < 0 || from >= calls.len() {
        calls.len() as int
    } else if calls[from].index == Some(index) {
        from
    } else {
        place_of_index(calls, index, from + 1)
    }
}

/// The place of the pending call to which a delta without identifier goes:
/// the first call with the index of the delta, where the delta has an index
/// and a call has it, else the first call. It is the number of calls where
/// there is no call.
pub open spec fn place_without_id(calls: Seq<PendingView>, d: DeltaView) -> int {
    let by_index = match d.index {
        Some(index) => place_of_index(calls, index, 0),
        None => calls.len() as int,
    };
    if by_index < calls.len() {
        by_index
    } else if calls.len() > 0 {
        0
    } else {
        calls.len() as int
    }
}

/// The identifier under which a delta is merged: its own where it has one;
/// else that of the pending call with its index, else that of the first
/// pending call, else a fresh one.
pub open spec fn target_id(calls: Seq<PendingView>, d: DeltaView, fresh: Seq<char>) -> Seq<char> {
    match d.id {
        Some(id) => id,
        None => if place_without_id(calls, d) < calls.len() {
            text_or_empty(calls[place_without_id(calls, d)].id)
        } else {
            fresh
        },
    }
}

/// The place that is found for an index lies among the calls or just behind
/// them; a call at that place has the index, and no call before it has.
pub proof fn lemma_place_of_index(calls: Seq<PendingView>, index: u32, from: int)
    requires
        0 <= from <= calls.len(),
    ensures
        from <= place_of_index(calls, index, from) <= calls.len(),
        place_of_index(calls, index, from) < calls.len() ==> calls[place_of_index(
            calls,
            index,
            from,
        )].index == Some(index),
        forall|k: int|
            from <= k < place_of_index(calls, index, from) ==> (#[trigger] calls[k]).index != Some(
                index,
            ),
    decreases calls.len() - from,
{
    if from < calls.len() && calls[from].index != Some(index) {
        lemma_place_of_index(calls, index, from + 1);
    }
}

/// A pending call that holds nothing but its identifier.
pub open spec fn empty_call(id: Seq<char>) -> PendingView {
    PendingView {
        index: None,
        id: Some(id),
        call_type: None,
        function_name: None,
        arguments: Seq::empty(),
    }
}

/// The pending calls after one more delta: it is merged into the call with
/// its target identifier, which is made at the end where it is not there yet.
pub open spec fn route_delta(calls: Seq<PendingView>, d: DeltaView, fresh: Seq<char>) -> Seq<
    PendingView,
> {
    let id = target_id(calls, d, fresh);
    if has_call(calls, id) {
        let i = choose|i: int| is_call_at(calls, id, i);
        calls.update(i, merge_delta(calls[i], d))
    } else {
        calls.push(merge_delta(empty_call(id), d))
    }
}

/// The pending calls after a sequence of deltas, taken in order.
pub open spec fn route_all(calls: Seq<PendingView>, deltas: Seq<DeltaView>, fresh: Seq<char>) -> Seq<
    PendingView,
>
    decreases deltas.len(),
{
    if deltas.len() == 0 {
        calls
    } else {
        route_delta(route_all(calls, deltas.drop_last(), fresh), deltas.last(), fresh)
    }
}

/// Whether the index `index` belongs to the call with the identifier `id`
/// and to no other: every pending call with the index has the identifier,
/// and the call with the identifier has the index or none yet.
pub open spec fn index_belongs_to(calls: Seq<PendingView>, index: u32, id: Seq<char>) -> bool {
    forall|k: int|
        0 <= k < calls.len() ==> ((#[trigger] calls[k]).index == Some(index) ==> calls[k].id
            == Some(id)) && (calls[k].id == Some(id) ==> calls[k].index is None || calls[k].index
            == Some(index))
}

/// Two deltas with the same index come to the same identifier: once a delta
/// has brought an identifier with an index that belongs to no other call, a
/// delta with that index and without an identifier is merged under that
/// identifier.
pub proof fn lemma_same_index_same_id(
    calls: Seq<PendingView>,
    a: DeltaView,
    b: DeltaView,
    index: u32,
    id: Seq<char>,
    fresh: Seq<char>,
    other: Seq<char>,
)
    requires
        ids_distinct(calls),
        index_belongs_to(calls, index, id),
        a.id == Some(id),
        a.index == Some(index),
        b.id is None,
        b.index == Some(index),
    ensures
        target_id(route_delta(calls, a, fresh), b, other) == id,
{
    let after = route_delta(calls, a, fresh);
    assert(target_id(calls, a, fresh) == id);
    lemma_place_of_index(after, index, 0);
    let at = place_of_index(after, index, 0);
    if has_call(calls, id) {
        let k = choose|k: int| is_call_at(calls, id, k);
        assert(after[k].index == Some(index));
        assert forall|j: int| 0 <= j < after.len() && (#[trigger] after[j]).index == Some(
            index,
        ) implies after[j].id == Some(id) by {
            if j != k {
                assert(after[j] == calls[j]);
            }
        }
        if at >= after.len() {
            assert(after[k].index != Some(index));
        }
    } else {
        let last = calls.len() as int;
        assert(after[last].index == Some(index));
        assert forall|j: int| 0 <= j < after.len() && (#[trigger] after[j]).index == Some(
            index,
        ) implies after[j].id == Some(id) by {
            if j != last {
                assert(after[j] == calls[j]);
            }
        }
        if at >= after.len() {
            assert(after[last].index != Some(index));
        }
    }
    assert(after[at].id == Some(id));
}

/// Whether `later` says all that `earlier` said of one call, and maybe more.
pub open spec fn call_extends(later: PendingView, earlier: PendingView) -> bool {
    &&& later.id == earlier.id
    &&& earlier.index is Some ==> later.index == earlier.index
    &&& earlier.arguments.is_prefix_of(later.arguments)
    &&& earlier.call_type is Some ==> later.call_type == earlier.call_type
    &&& earlier.function_name is Some ==> later.function_name == earlier.function_name
}

/// Whether every call of `earlier` stands at the same place in `later`, and
/// says there all that it said before.
pub open spec fn calls_extend(later: Seq<PendingView>, earlier: Seq<PendingView>) -> bool {
    &&& earlier.len() <= later.len()
    &&& forall|i: int| 0 <= i < earlier.len() ==> call_extends(#[trigger] later[i], earlier[i])
}

/// Routing one delta keeps the identifiers distinct and loses nothing.
pub proof fn lemma_route_delta(calls: Seq<PendingView>, d: DeltaView, fresh: Seq<char>)
    requires
        ids_distinct(calls),
    ensures
        ids_distinct(route_delta(calls, d, fresh)),
        calls_extend(route_delta(calls, d, fresh), calls),
{
    let id = target_id(calls, d, fresh);
    let after = route_delta(calls, d, fresh);
    if has_call(calls, id) {
        let i = choose|i: int| is_call_at(calls, id, i);
        assert(after[i].id == calls[i].id);
        assert forall|a: int, b: int|
            0 <= a < after.len() && 0 <= b < after.len() && after[a].id == after[b].id implies a
            == b by {
            assert(after[a].id == calls[a].id);
            assert(after[b].id == calls[b].id);
        }
        assert forall|a: int| 0 <= a < calls.len() implies call_extends(
            #[trigger] after[a],
            calls[a],
        ) by {
            if a == i {
                assert(calls[i].arguments.is_prefix_of(after[i].arguments)) by {
                    assert(after[i].arguments.subrange(0, calls[i].arguments.len() as int)
                        =~= calls[i].arguments);
                }
            } else {
                assert(calls[a].arguments.is_prefix_of(calls[a].arguments)) by {
                    assert(calls[a].arguments.subrange(0, calls[a].arguments.len() as int)
                        =~= calls[a].arguments);
                }
            }
        }
    } else {
        let last = calls.len() as int;
        assert(after[last].id == Some(id));
        assert forall|a: int, b: int|
            0 <= a < after.len() && 0 <= b < after.len() && after[a].id == after[b].id implies a
            == b by {
            if a != last && b == last {
                assert(is_call_at(calls, id, a));
            }
            if b != last && a == last {
                assert(is_call_at(calls, id, b));
            }
        }
        assert forall|a: int| 0 <= a < calls.len() implies call_extends(
            #[trigger] after[a],
            calls[a],
        ) by {
            assert(calls[a].arguments.subrange(0, calls[a].arguments.len() as int)
                =~= calls[a].arguments);
        }
    }
}

/// Saying all that was said is reflexive.
pub proof fn lemma_calls_extend_reflexive(calls: Seq<PendingView>)
    ensures
        calls_extend(calls, calls),
{
    assert forall|a: int| 0 <= a < calls.len() implies call_extends(
        #[trigger] calls[a],
        calls[a],
    ) by {
        assert(calls[a].arguments.subrange(0, calls[a].arguments.len() as int)
            =~= calls[a].arguments);
    }
}

/// Saying all that was said is transitive.
pub proof fn lemma_calls_extend_transitive(
    c: Seq<PendingView>,
    b: Seq<PendingView>,
    a: Seq<PendingView>,
)
    requires
        calls_extend(c, b),
        calls_extend(b, a),
    ensures
        calls_extend(c, a),
{
    assert forall|i: int| 0 <= i < a.len() implies call_extends(#[trigger] c[i], a[i]) by {
        assert(call_extends(b[i], a[i]));
        assert(call_extends(c[i], b[i]));
        lemma_prefix_transitive(a[i].arguments, b[i].arguments, c[i].arguments);
    }
}

/// A prefix of a prefix is a prefix.
pub proof fn lemma_prefix_transitive(a: Seq<char>, b: Seq<char>, c: Seq<char>)
    requires
        a.is_prefix_of(b),
        b.is_prefix_of(c),
    ensures
        a.is_prefix_of(c),
{
    assert(c.subrange(0, a.len() as int) =~= b.subrange(0, a.len() as int));
}

/// Routing a sequence of deltas keeps the identifiers distinct and loses
/// nothing.
pub proof fn lemma_route_all(calls: Seq<PendingView>, deltas: Seq<DeltaView>, fresh: Seq<char>)
    requires
        ids_distinct(calls),
    ensures
        ids_distinct(route_all(calls, deltas, fresh)),
        calls_extend(route_all(calls, deltas, fresh), calls),
    decreases deltas.len(),
{
    if deltas.len() == 0 {
        lemma_calls_extend_reflexive(calls);
    } else {
        let before = route_all(calls, deltas.drop_last(), fresh);
        lemma_route_all(calls, deltas.drop_last(), fresh);
        lemma_route_delta(before, deltas.last(), fresh);
        lemma_calls_extend_transitive(route_all(calls, deltas, fresh), before, calls);
    }
}

/// The tool calls of the pending calls that have a name, in order.
pub open spec fn named_calls(calls: Seq<PendingView>) -> Seq<ToolCallView>
    decreases calls.len(),
{
    if calls.len() == 0 {
        Seq::empty()
    } else if calls.last().function_name is Some {
        named_calls(calls.drop_last()).push(tool_call_of(calls.last()))
    } else {
        named_calls(calls.drop_last())
    }
}

/// The tool calls of all pending calls, in order.
pub open spec fn all_calls(calls: Seq<PendingView>) -> Seq<ToolCallView> {
    calls.map_values(|p: PendingView| tool_call_of(p))
}

/// What a message buffer holds.
pub struct BufferView {
    pub content: Seq<char>,
    pub tool_calls: Seq<PendingView>,
    pub last_flush: u64,
    pub message_id: Option<Seq<char>>,
    pub first_message_sent: bool,
}

/// The buffer with which a step begins.
pub open spec fn empty_buffer(now_ms: u64) -> BufferView {
    BufferView {
        content: Seq::empty(),
        tool_calls: Seq::empty(),
        last_flush: now_ms,
        message_id: None,
        first_message_sent: false,
    }
}

/// Whether the buffer holds anything to show.
pub open spec fn has_changes(b: BufferView) -> bool {
    b.content.len() > 0 || b.tool_calls.len() > 0
}

/// Whether a partial message is due at `now_ms`.
pub open spec fn flush_due(b: BufferView, now_ms: u64) -> bool {
    now_ms - b.last_flush >= FLUSH_INTERVAL_MS
}

/// The buffer after one chunk. A chunk without choices changes nothing.
pub open spec fn accepted(b: BufferView, c: ChunkView, fresh: Seq<char>) -> BufferView {
    match c.choice {
        None => b,
        Some(choice) => BufferView {
            content: b.content + text_or_empty(choice.content),
            tool_calls: route_all(b.tool_calls, choice.deltas, fresh),
            last_flush: b.last_flush,
            message_id: Some(c.id),
            first_message_sent: b.first_message_sent,
        },
    }
}

/// Whether a chunk brings the reason for which the answer ended.
pub open spec fn chunk_finishes(c: ChunkView) -> bool {
    c.choice matches Some(choice) && choice.finished
}

/// A text as message content: absent where it is empty.
pub open spec fn content_of(text: Seq<char>) -> Option<Seq<char>> {
    if text.len() == 0 {
        None
    } else {
        Some(text)
    }
}

/// The partial message that shows the buffer as it stands.
pub open spec fn snapshot_message(b: BufferView, agent_name: Seq<char>) -> MessageView {
    MessageView::Assistant {
        id: b.message_id,
        content: content_of(b.content),
        tool_calls: if b.tool_calls.len() == 0 {
            None
        } else {
            Some(named_calls(b.tool_calls))
        },
        progress: MessageProgress::InProgress,
        initial: Some(!b.first_message_sent),
        name: Some(agent_name),
    }
}

/// The message that closes a step: all of the content, and every pending
/// call as a tool call.
pub open spec fn final_message(b: BufferView, agent_name: Seq<char>) -> MessageView {
    MessageView::Assistant {
        id: b.message_id,
        content: content_of(b.content),
        tool_calls: if b.tool_calls.len() == 0 {
            None
        } else {
            Some(all_calls(b.tool_calls))
        },
        progress: MessageProgress::Complete,
        initial: Some(false),
        name: Some(agent_name),
    }
}

/// The buffer after a flush at `now_ms`. A buffer without changes stays as
/// it is.
pub open spec fn flushed(b: BufferView, now_ms: u64) -> BufferView {
    if has_changes(b) {
        BufferView {
            content: b.content,
            tool_calls: b.tool_calls,
            last_flush: now_ms,
            message_id: b.message_id,
            first_message_sent: true,
        }
    } else {
        b
    }
}

/// Whether `later` holds all that `earlier` held: the content as a prefix,
/// every call at its place.
pub open spec fn buffer_extends(later: BufferView, earlier: BufferView) -> bool {
    &&& earlier.content.is_prefix_of(later.content)
    &&& calls_extend(later.tool_calls, earlier.tool_calls)
}

/// Whether the content `full` begins with the content `partial`.
pub open spec fn content_covers(full: Option<Seq<char>>, partial: Option<Seq<char>>) -> bool {
    match partial {
        None => true,
        Some(p) => full matches Some(f) && p.is_prefix_of(f),
    }
}

/// Whether the tool call `full` is the call `partial` with, at most, more
/// arguments and a type that came later.
pub open spec fn call_covers(full: ToolCallView, partial: ToolCallView) -> bool {
    &&& full.id == partial.id
    &&& full.name == partial.name
    &&& partial.arguments.is_prefix_of(full.arguments)
    &&& partial.call_type.len() > 0 ==> full.call_type == partial.call_type
}

/// Whether one of the tool calls of `full` covers the call `partial`.
pub open spec fn covered_by(full: Seq<ToolCallView>, partial: ToolCallView) -> bool {
    exists|j: int| 0 <= j < full.len() && call_covers(#[trigger] full[j], partial)
}

/// Whether every tool call of `partial` is covered by one of `full`.
pub open spec fn calls_cover(
    full: Option<Seq<ToolCallView>>,
    partial: Option<Seq<ToolCallView>>,
) -> bool {
    match partial {
        None => true,
        Some(p) => full matches Some(f) && forall|i: int|
            0 <= i < p.len() ==> covered_by(f, #[trigger] p[i]),
    }
}

/// Whether the assistant message `full` holds all that the assistant message
/// `partial` showed: the same name, the content as a prefix, every tool call
/// covered.
pub open spec fn message_covers(full: MessageView, partial: MessageView) -> bool {
    match (full, partial) {
        (
            MessageView::Assistant { content, tool_calls, name, .. },
            MessageView::Assistant {
                content: partial_content,
                tool_calls: partial_calls,
                name: partial_name,
                ..
            },
        ) => {
            &&& name == partial_name
            &&& content_covers(content, partial_content)
            &&& calls_cover(tool_calls, partial_calls)
        },
        _ => false,
    }
}

/// Every named call is the tool call of a pending call that has a name.
pub proof fn lemma_named_call_source(calls: Seq<PendingView>, i: int)
    requires
        0 <= i < named_calls(calls).len(),
    ensures
        exists|k: int|
            0 <= k < calls.len() && (#[trigger] calls[k]).function_name is Some && named_calls(
                calls,
            )[i] == tool_call_of(calls[k]),
    decreases calls.len(),
{
    if calls.len() > 0 {
        let rest = calls.drop_last();
        if calls.last().function_name is Some && i == named_calls(rest).len() {
            let k = calls.len() - 1;
            assert(calls[k].function_name is Some);
        } else {
            lemma_named_call_source(rest, i);
            let k = choose|k: int|
                0 <= k < rest.len() && (#[trigger] rest[k]).function_name is Some && named_calls(
                    rest,
                )[i] == tool_call_of(rest[k]);
            assert(calls[k] == rest[k]);
        }
    }
}

/// The message that closes a step holds all that any partial message of the
/// step showed before: what a later buffer gives as its final message covers
/// the snapshot of every buffer that it extends.
pub proof fn lemma_final_covers_snapshot(
    later: BufferView,
    earlier: BufferView,
    agent_name: Seq<char>,
)
    requires
        buffer_extends(later, earlier),
    ensures
        message_covers(final_message(later, agent_name), snapshot_message(earlier, agent_name)),
{
    let full = all_calls(later.tool_calls);
    let partial = named_calls(earlier.tool_calls);
    if earlier.tool_calls.len() > 0 {
        assert forall|i: int| 0 <= i < partial.len() implies covered_by(
            full,
            #[trigger] partial[i],
        ) by {
            lemma_named_call_source(earlier.tool_calls, i);
            let k = choose|k: int|
                0 <= k < earlier.tool_calls.len() && (
                #[trigger] earlier.tool_calls[k]).function_name is Some && partial[i]
                    == tool_call_of(earlier.tool_calls[k]);
            assert(call_extends(later.tool_calls[k], earlier.tool_calls[k]));
            assert(call_covers(full[k], partial[i]));
        }
        assert(calls_cover(Some(full), Some(partial)));
    }
    let full_message = final_message(later, agent_name);
    let partial_message = snapshot_message(earlier, agent_name);
    assert(content_covers(content_of(later.content), content_of(earlier.content)));
    assert(calls_cover(full_message->Assistant_tool_calls, partial_message->Assistant_tool_calls));
}

/// Holding all that was held is transitive.
pub proof fn lemma_buffer_extends_transitive(c: BufferView, b: BufferView, a: BufferView)
    requires
        buffer_extends(c, b),
        buffer_extends(b, a),
    ensures
        buffer_extends(c, a),
{
    lemma_prefix_transitive(a.content, b.content, c.content);
    lemma_calls_extend_transitive(c.tool_calls, b.tool_calls, a.tool_calls);
}

/// A flush loses nothing of what the buffer held.
pub proof fn lemma_flushed_extends(b: BufferView, now_ms: u64)
    ensures
        buffer_extends(flushed(b, now_ms), b),
        flushed(b, now_ms).tool_calls == b.tool_calls,
        flushed(b, now_ms).content == b.content,
{
    lemma_calls_extend_reflexive(b.tool_calls);
    assert(b.content.subrange(0, b.content.len() as int) =~= b.content);
}

/// Accepting a chunk loses nothing of what the buffer held.
pub proof fn lemma_accepted_extends(b: BufferView, c: ChunkView, fresh: Seq<char>)
    requires
        ids_distinct(b.tool_calls),
    ensures
        ids_distinct(accepted(b, c, fresh).tool_calls),
        buffer_extends(accepted(b, c, fresh), b),
{
    let after = accepted(b, c, fresh);
    match c.choice {
        None => {
            lemma_calls_extend_reflexive(b.tool_calls);
        },
        Some(choice) => {
            lemma_route_all(b.tool_calls, choice.deltas, fresh);
        },
    }
    assert(after.content.subrange(0, b.content.len() as int) =~= b.content);
}

/// The buffer of one step: the content and the pending tool calls that the
/// chunks have brought so far.
#[derive(Debug)]
pub struct MessageBuffer {
    content: String,
    tool_calls: Vec<PendingToolCall>,
    last_flush: u64,
    message_id: Option<String>,
    first_message_sent: bool,
}

impl View for MessageBuffer {
    type V = BufferView;

    closed spec fn view(&self) -> BufferView {
        BufferView {
            content: self.content@,
            tool_calls: pending_view(self.tool_calls@),
            last_flush: self.last_flush,
            message_id: text_view(self.message_id),
            first_message_sent: self.first_message_sent,
        }
    }
}

/// The first place at which a pending call has the index `index`, or the
/// number of calls where none has it.
fn place_with_index(calls: &Vec<PendingToolCall>, index: u32) -> (r: usize)
    ensures
        r == place_of_index(pending_view(calls@), index, 0),
{
    let ghost views = pending_view(calls@);
    let mut k: usize = 0;
    while k < calls.len()
        invariant
            k <= calls.len(),
            views == pending_view(calls@),
            place_of_index(views, index, 0) == place_of_index(views, index, k as int),
        decreases calls.len() - k,
    {
        let held = match calls[k].index {
            Some(i) => i == index,
            None => false,
        };
        if held {
            return k;
        }
        k = k + 1;
    }
    k
}

/// Merges one delta into the pending calls.
fn route(calls: &mut Vec<PendingToolCall>, delta: &DeltaToolCall, fresh: &str)
    requires
        ids_distinct(pending_view(old(calls)@)),
    ensures
        pending_view(final(calls)@) == route_delta(pending_view(old(calls)@), delta@, fresh@),
{
    let ghost before = pending_view(calls@);
    let id: String = match &delta.id {
        Some(given) => given.clone(),
        None => {
            let by_index = match delta.index {
                Some(index) => place_with_index(calls, index),
                None => calls.len(),
            };
            let at = if by_index < calls.len() {
                by_index
            } else {
                0
            };
            if at < calls.len() {
                match &calls[at].id {
                    Some(held) => held.clone(),
                    None => String::new(),
                }
            } else {
                String::from_str(fresh)
            }
        },
    };
    assert(id@ == target_id(before, delta@, fresh@));
    let mut found: Option<usize> = None;
    let mut i: usize = 0;
    while i < calls.len() && found.is_none()
        invariant
            i <= calls.len(),
            before == pending_view(calls@),
            found matches Some(k) ==> is_call_at(before, id@, k as int),
            found is None ==> forall|j: int| 0 <= j < i ==> !is_call_at(before, id@, j),
        decreases calls.len() - i + (if found is None { 1int } else { 0int }),
    {
        let matches = match &calls[i].id {
            Some(held) => same_text(held, &id),
            None => false,
        };
        if matches {
            found = Some(i);
        } else {
            i = i + 1;
        }
    }
    match found {
        Some(k) => {
            let mut call = calls[k].clone();
            call.update_from_delta(delta);
            calls.set(k, call);
            proof {
                let chosen = choose|j: int| is_call_at(before, id@, j);
                assert(is_call_at(before, id@, k as int));
                assert(chosen == k);
                assert(pending_view(calls@) =~= before.update(
                    k as int,
                    merge_delta(before[k as int], delta@),
                ));
            }
        },
        None => {
            let mut call = PendingToolCall::new();
            call.id = Some(id);
            call.update_from_delta(delta);
            calls.push(call);
            proof {
                assert(!has_call(before, id@));
                assert(pending_view(calls@) =~= before.push(
                    merge_delta(empty_call(id@), delta@),
                ));
            }
        },
    }
}

impl MessageBuffer {
    #[verifier::type_invariant]
    spec fn well_formed(self) -> bool {
        ids_distinct(pending_view(self.tool_calls@))
    }

    /// An empty buffer, last flushed at `now_ms`.
    pub fn new(now_ms: u64) -> (r: MessageBuffer)
        ensures
            r@ == empty_buffer(now_ms),
    {
        let r = MessageBuffer {
            content: String::new(),
            tool_calls: Vec::new(),
            last_flush: now_ms,
            message_id: None,
            first_message_sent: false,
        };
        assert(r@.tool_calls =~= Seq::empty());
        r
    }

    /// Whether the last flush is 50 ms old or older at `now_ms`.
    pub fn should_flush(&self, now_ms: u64) -> (r: bool)
        ensures
            r == flush_due(self@, now_ms),
    {
        now_ms >= self.last_flush && now_ms - self.last_flush >= FLUSH_INTERVAL_MS
    }

    /// Whether no tool call is pending.
    pub fn is_without_calls(&self) -> (r: bool)
        ensures
            r == (self@.tool_calls.len() == 0),
    {
        self.tool_calls.len() == 0
    }

    /// Whether the buffer holds content or pending calls.
    pub fn has_changes(&self) -> (r: bool)
        ensures
            r == has_changes(self@),
    {
        !self.content.as_str().is_empty() || self.tool_calls.len() > 0
    }

    /// Takes one chunk in. Where a delta has no identifier and no call is
    /// pending, the new call gets `fresh` as its identifier. Returns whether
    /// the chunk brought the reason for which the answer ended.
    pub fn accept_chunk_with(&mut self, chunk: &ChatCompletionChunk, fresh: String) -> (finished:
        bool)
        ensures
            final(self)@ == accepted(old(self)@, chunk@, fresh@),
            finished == chunk_finishes(chunk@),
            buffer_extends(final(self)@, old(self)@),
    {
        proof {
            use_type_invariant(&*self);
            lemma_accepted_extends(self@, chunk@, fresh@);
        }
        if chunk.choices.len() == 0 {
            return false;
        }
        let choice = &chunk.choices[0];
        let mut taken = MessageBuffer::new(0);
        core::mem::swap(self, &mut taken);
        let MessageBuffer { content, tool_calls, last_flush, message_id, first_message_sent } =
            taken;
        let mut content = content;
        let mut tool_calls = tool_calls;
        let ghost calls_before = pending_view(tool_calls@);
        if let Some(text) = &choice.delta.content {
            content.append(text.as_str());
        }
        if let Some(deltas) = &choice.delta.tool_calls {
            let mut i: usize = 0;
            assert(deltas_view(deltas@).take(0) =~= Seq::empty());
            while i < deltas.len()
                invariant
                    i <= deltas.len(),
                    ids_distinct(calls_before),
                    pending_view(tool_calls@) == route_all(
                        calls_before,
                        deltas_view(deltas@).take(i as int),
                        fresh@,
                    ),
                decreases deltas.len() - i,
            {
                proof {
                    lemma_route_all(calls_before, deltas_view(deltas@).take(i as int), fresh@);
                    let next = deltas_view(deltas@).take(i as int + 1);
                    assert(next.drop_last() =~= deltas_view(deltas@).take(i as int));
                    assert(next.last() == deltas@[i as int]@);
                }
                route(&mut tool_calls, &deltas[i], fresh.as_str());
                i = i + 1;
            }
            assert(deltas_view(deltas@).take(i as int) =~= deltas_view(deltas@));
        }
        proof {
            lemma_route_all(calls_before, choice@.deltas, fresh@);
        }
        *self = MessageBuffer {
            content,
            tool_calls,
            last_flush,
            message_id: Some(chunk.id.clone()),
            first_message_sent,
        };
        assert(self@.content =~= accepted(old(self)@, chunk@, fresh@).content);
        choice.finish_reason.is_some()
    }

    /// Takes one chunk in. Where a delta has no identifier and no call is
    /// pending, the new call gets a random identifier.
    pub fn accept_chunk(&mut self, chunk: &ChatCompletionChunk) -> (finished: bool)
        ensures
            exists|fresh: Seq<char>|
                (old(self)@.tool_calls.len() == 0 ==> fresh.len() == 36) && final(self)@
                    == accepted(old(self)@, chunk@, fresh),
            finished == chunk_finishes(chunk@),
            buffer_extends(final(self)@, old(self)@),
    {
        let fresh = if self.is_without_calls() {
            uuid_to_text(&fresh_uuid())
        } else {
            String::new()
        };
        self.accept_chunk_with(chunk, fresh)
    }

    /// The tool calls of the pending calls: of those with a name, or of all.
    fn materialize(&self, named_only: bool) -> (r: Vec<ToolCall>)
        ensures
            calls_view(r@) == (if named_only {
                named_calls(self@.tool_calls)
            } else {
                all_calls(self@.tool_calls)
            }),
    {
        let mut out: Vec<ToolCall> = Vec::new();
        let mut i: usize = 0;
        let ghost pending = pending_view(self.tool_calls@);
        assert(pending.take(0) =~= Seq::empty());
        while i < self.tool_calls.len()
            invariant
                i <= self.tool_calls.len(),
                pending == pending_view(self.tool_calls@),
                calls_view(out@) == (if named_only {
                    named_calls(pending.take(i as int))
                } else {
                    all_calls(pending.take(i as int))
                }),
            decreases self.tool_calls.len() - i,
        {
            proof {
                let next = pending.take(i as int + 1);
                assert(next.drop_last() =~= pending.take(i as int));
                assert(next.last() == self.tool_calls@[i as int]@);
                assert(all_calls(next) =~= all_calls(pending.take(i as int)).push(
                    tool_call_of(next.last()),
                ));
            }
            let ghost before = calls_view(out@);
            if !named_only || self.tool_calls[i].function_name.is_some() {
                let call = self.tool_calls[i].clone().into_tool_call();
                out.push(call);
                assert(calls_view(out@) =~= before.push(tool_call_of(self.tool_calls@[i as int]@)));
            }
            i = i + 1;
        }
        assert(pending.take(i as int) =~= pending);
        out
    }

    /// Shows the buffer as a partial message and notes the flush. A buffer
    /// without changes gives no message and stays as it is.
    pub fn flush(&mut self, agent_name: &str, now_ms: u64) -> (r: Option<AgentMessage>)
        ensures
            final(self)@ == flushed(old(self)@, now_ms),
            match r {
                Some(m) => has_changes(old(self)@) && m@ == snapshot_message(
                    old(self)@,
                    agent_name@,
                ),
                None => !has_changes(old(self)@),
            },
    {
        proof {
            use_type_invariant(&*self);
        }
        if !self.has_changes() {
            return None;
        }
        let tool_calls = if self.tool_calls.len() > 0 {
            Some(self.materialize(true))
        } else {
            None
        };
        let content = if self.content.as_str().is_empty() {
            None
        } else {
            Some(self.content.clone())
        };
        let message = AgentMessage::assistant(
            clone_text(&self.message_id),
            content,
            tool_calls,
            MessageProgress::InProgress,
            Some(!self.first_message_sent),
            Some(String::from_str(agent_name)),
        );
        self.first_message_sent = true;
        self.last_flush = now_ms;
        Some(message)
    }

    /// The message that closes the step.
    pub fn complete(&self, agent_name: &str) -> (r: AgentMessage)
        ensures
            r@ == final_message(self@, agent_name@),
    {
        let tool_calls = if self.tool_calls.len() > 0 {
            Some(self.materialize(false))
        } else {
            None
        };
        let content = if self.content.as_str().is_empty() {
            None
        } else {
            Some(self.content.clone())
        };
        AgentMessage::assistant(
            clone_text(&self.message_id),
            content,
            tool_calls,
            MessageProgress::Complete,
            Some(false),
            Some(String::from_str(agent_name)),
        )
    }

    /// The tool calls that the step asks for, in the order of their arrival.
    pub fn tool_calls(&self) -> (r: Vec<ToolCall>)
        ensures
            calls_view(r@) == all_calls(self@.tool_calls),
    {
        self.materialize(false)
    }
}

} // verus!
