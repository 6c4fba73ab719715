//! Agents and what the agents of a group share.
//!
//! An `AgentGroup` is what an agent and the agents derived from it have in
//! common: the state store, the current thread and the outbound stream. An
//! `Agent` is what each of them has for itself: its name, its tools and the
//! names of the tools that end a run. Whoever runs agents side by side keeps
//! the group in one place and hands it to each call.

use vstd::prelude::*;
use vstd::string::StringExecFns;
use crate::json::json_as_bool;
use crate::message::{
    event_view,
    events_view,
    messages_view,
    AgentError,
    AgentMessage,
    AgentThread,
    EventView,
    MessageResult,
    MessageView,
    ThreadView,
};
use crate::state::StateStore;
use crate::text::same_text;
use crate::tools::{
    conditions_total,
    offers_under,
    offers_view,
    with_tool,
    with_tools,
    RegisteredTool,
    Tool,
    ToolRegistry,
};

verus! {

/// What a mode asks of an agent for one step.
pub struct ModeConfiguration<E, P> {
    /// The instructions to the model.
    pub prompt: String,
    /// The model to ask.
    pub model: String,
    /// The tools to install, in place of those of the step before.
    pub tools: Vec<RegisteredTool<E, P>>,
    /// The names of the tools whose execution ends the run.
    pub terminating_tools: Vec<String>,
}

/// The views of a sequence of texts, in order.
pub open spec fn texts_view(texts: Seq<String>) -> Seq<Seq<char>> {
    texts.map_values(|s: String| s@)
}

/// Whether one of the texts is `text`.
pub fn contains_text(texts: &Vec<String>, text: &str) -> (r: bool)
    ensures
        r == texts_view(texts@).contains(text@),
{
    let wanted = text.to_owned();
    let mut i: usize = 0;
    while i < texts.len()
        invariant
            i <= texts.len(),
            wanted@ == text@,
            forall|j: int| 0 <= j < i ==> texts_view(texts@)[j] != text@,
        decreases texts.len() - i,
    {
        if same_text(&texts[i], &wanted) {
            assert(texts_view(texts@)[i as int] == text@);
            return true;
        }
        i = i + 1;
    }
    false
}

/// What a group holds.
pub struct GroupView {
    pub state: Map<Seq<char>, serde_json::Value>,
    pub current_thread: Option<ThreadView>,
    pub stream_open: bool,
    pub outbox: Seq<EventView>,
}

/// What an agent and the agents derived from it share.
pub struct AgentGroup {
    state: StateStore,
    current_thread: Option<AgentThread>,
    stream_open: bool,
    outbox: Vec<MessageResult>,
}

/// The events that reach the stream: all of them while it is open, none once
/// it is closed.
pub open spec fn delivered(open: bool, events: Seq<EventView>) -> Seq<EventView> {
    if open {
        events
    } else {
        Seq::empty()
    }
}

/// The thread after `messages` are appended, where there is a thread.
pub open spec fn appended(thread: Option<ThreadView>, messages: Seq<MessageView>) -> Option<
    ThreadView,
> {
    match thread {
        Some(t) => Some(
            ThreadView { id: t.id, user_id: t.user_id, messages: t.messages + messages },
        ),
        None => None,
    }
}

impl View for AgentGroup {
    type V = GroupView;

    closed spec fn view(&self) -> GroupView {
        GroupView {
            state: self.state@,
            current_thread: match self.current_thread {
                Some(t) => Some(t@),
                None => None,
            },
            stream_open: self.stream_open,
            outbox: events_view(self.outbox@),
        }
    }
}

impl AgentGroup {
    /// A group with an empty state, no thread and an open stream on which
    /// nothing waits.
    pub fn new() -> (r: AgentGroup)
        ensures
            r@ == (GroupView {
                state: Map::empty(),
                current_thread: None,
                stream_open: true,
                outbox: Seq::empty(),
            }),
    {
        let r = AgentGroup {
            state: StateStore::new(),
            current_thread: None,
            stream_open: true,
            outbox: Vec::new(),
        };
        assert(r@.outbox =~= Seq::empty());
        r
    }

    /// The state store of the group, as a value.
    pub closed spec fn store(&self) -> StateStore {
        self.state
    }

    /// The store of the group holds the state of the group: what the
    /// conditions of the tools are asked about is the state as it stands.
    pub proof fn lemma_store_view(&self)
        ensures
            self.store()@ == self@.state,
    {
    }

    /// The state store.
    pub fn state(&self) -> (r: &StateStore)
        ensures
            *r == self.store(),
            r@ == self@.state,
    {
        &self.state
    }

    /// A snapshot of the state.
    pub fn snapshot(&self) -> (r: StateStore)
        ensures
            r@ == self@.state,
    {
        self.state.clone()
    }

    /// Puts `value` under `key` of the state.
    pub fn set_state_value(&mut self, key: String, value: serde_json::Value)
        ensures
            final(self)@ == (GroupView {
                state: old(self)@.state.insert(key@, value),
                ..old(self)@
            }),
    {
        self.state.set(key, value);
    }

    /// Removes every key of the state.
    pub fn clear_state(&mut self)
        ensures
            final(self)@ == (GroupView { state: Map::empty(), ..old(self)@ }),
    {
        self.state.clear();
    }

    /// Puts `state` in the place of the state of the group: the way to change
    /// several values at once.
    pub fn update_state(&mut self, state: StateStore)
        ensures
            final(self)@ == (GroupView { state: state@, ..old(self)@ }),
    {
        self.state = state;
    }

    /// Whether the stream is open.
    pub fn is_stream_open(&self) -> (r: bool)
        ensures
            r == self@.stream_open,
    {
        self.stream_open
    }

    /// Whether the stream can be written to or subscribed to: an error that
    /// says so where it is closed.
    pub fn stream_status(&self) -> (r: Result<(), AgentError>)
        ensures
            match r {
                Ok(_) => self@.stream_open,
                Err(e) => !self@.stream_open && e@
                    == "Stream channel is closed or not initialized."@,
            },
    {
        if self.stream_open {
            Ok(())
        } else {
            Err(AgentError(String::from_str("Stream channel is closed or not initialized.")))
        }
    }

    /// Closes the stream. What is sent from now on is dropped; what waits in
    /// the outbox stays there.
    pub fn close(&mut self)
        ensures
            final(self)@ == (GroupView { stream_open: false, ..old(self)@ }),
    {
        self.stream_open = false;
    }

    /// Sends one event: it joins the end of the outbox while the stream is
    /// open, and is dropped once it is closed. Returns whether it was taken.
    pub fn send(&mut self, event: MessageResult) -> (taken: bool)
        ensures
            taken == old(self)@.stream_open,
            final(self)@ == (GroupView {
                outbox: old(self)@.outbox + delivered(
                    old(self)@.stream_open,
                    seq![event_view(event)],
                ),
                ..old(self)@
            }),
    {
        if self.stream_open {
            self.outbox.push(event);
            assert(self@.outbox =~= old(self)@.outbox + seq![event_view(event)]);
            true
        } else {
            assert(self@.outbox =~= old(self)@.outbox + Seq::<EventView>::empty());
            false
        }
    }

    /// Takes the events that wait in the outbox, in the order in which they
    /// were sent.
    pub fn take_events(&mut self) -> (r: Vec<MessageResult>)
        ensures
            events_view(r@) == old(self)@.outbox,
            final(self)@ == (GroupView { outbox: Seq::empty(), ..old(self)@ }),
    {
        let mut out: Vec<MessageResult> = Vec::new();
        core::mem::swap(&mut self.outbox, &mut out);
        assert(self@.outbox =~= Seq::empty());
        out
    }

    /// A copy of the current thread, if there is one.
    pub fn get_current_thread(&self) -> (r: Option<AgentThread>)
        ensures
            match r {
                Some(t) => self@.current_thread == Some(t@),
                None => self@.current_thread is None,
            },
    {
        match &self.current_thread {
            Some(t) => Some(t.clone()),
            None => None,
        }
    }

    /// Makes `thread` the current thread.
    pub fn set_current_thread(&mut self, thread: AgentThread)
        ensures
            final(self)@ == (GroupView { current_thread: Some(thread@), ..old(self)@ }),
    {
        self.current_thread = Some(thread);
    }

    /// Appends a message to the current thread. Without a thread nothing
    /// happens.
    pub fn update_current_thread(&mut self, message: AgentMessage)
        ensures
            final(self)@ == (GroupView {
                current_thread: appended(old(self)@.current_thread, seq![message@]),
                ..old(self)@
            }),
    {
        let mut current: Option<AgentThread> = None;
        core::mem::swap(&mut self.current_thread, &mut current);
        match current {
            Some(thread) => {
                let mut thread = thread;
                let ghost before = thread@;
                thread.messages.push(message);
                assert(thread@.messages =~= before.messages + seq![message@]);
                self.current_thread = Some(thread);
            },
            None => {},
        }
    }
}

/// What an agent holds for itself.
pub struct AgentView<E, P> {
    pub name: Seq<char>,
    pub model: Seq<char>,
    pub user_id: uuid::Uuid,
    pub session_id: uuid::Uuid,
    pub tools: Seq<RegisteredTool<E, P>>,
    pub terminating_tool_names: Seq<Seq<char>>,
}

/// An agent: a name, a model, and the tools it can run.
pub struct Agent<E, P: Fn(&StateStore) -> bool> {
    tools: ToolRegistry<E, P>,
    model: String,
    user_id: uuid::Uuid,
    session_id: uuid::Uuid,
    name: String,
    terminating_tool_names: Vec<String>,
}

impl<E, P: Fn(&StateStore) -> bool> View for Agent<E, P> {
    type V = AgentView<E, P>;

    closed spec fn view(&self) -> AgentView<E, P> {
        AgentView {
            name: self.name@,
            model: self.model@,
            user_id: self.user_id,
            session_id: self.session_id,
            tools: self.tools.entries(),
            terminating_tool_names: texts_view(self.terminating_tool_names@),
        }
    }
}

impl<E, P: Fn(&StateStore) -> bool> Agent<E, P> {
    /// An agent without tools.
    pub fn new(initial_model: String, user_id: uuid::Uuid, session_id: uuid::Uuid, name: String) -> (r:
        Self)
        ensures
            r@ == (AgentView::<E, P> {
                name: name@,
                model: initial_model@,
                user_id,
                session_id,
                tools: Seq::empty(),
                terminating_tool_names: Seq::empty(),
            }),
    {
        let r = Agent {
            tools: ToolRegistry::new(),
            model: initial_model,
            user_id,
            session_id,
            name,
            terminating_tool_names: Vec::new(),
        };
        assert(r@.tools =~= Seq::empty());
        assert(r@.terminating_tool_names =~= Seq::empty());
        r
    }

    /// An agent for the group of `existing_agent`: it has that agent's model
    /// and identifiers, the name given, and neither its tools nor its
    /// terminating tools.
    pub fn from_existing(existing_agent: &Agent<E, P>, name: String) -> (r: Self)
        ensures
            r@ == (AgentView::<E, P> {
                name: name@,
                model: existing_agent@.model,
                user_id: existing_agent@.user_id,
                session_id: existing_agent@.session_id,
                tools: Seq::empty(),
                terminating_tool_names: Seq::empty(),
            }),
    {
        Agent::new(
            existing_agent.model.clone(),
            existing_agent.user_id,
            existing_agent.session_id,
            name,
        )
    }

    /// The offers for the tools that are enabled under the state of the
    /// group.
    pub fn get_enabled_tools(&self, group: &AgentGroup) -> (r: Vec<Tool>)
        ensures
            offers_under(self@.tools, &group.store(), offers_view(r@)),
    {
        self.tools.list_enabled(group.state())
    }

    /// A copy of the value under `key` of the state, if the key is there.
    pub fn get_state_value(&self, group: &AgentGroup, key: &str) -> (r: Option<serde_json::Value>)
        ensures
            r == (if group@.state.contains_key(key@) {
                Some(group@.state[key@])
            } else {
                None
            }),
    {
        group.state().get(key)
    }

    /// Puts `value` under `key` of the state.
    pub fn set_state_value(&self, group: &mut AgentGroup, key: String, value: serde_json::Value)
        ensures
            final(group)@ == (GroupView {
                state: old(group)@.state.insert(key@, value),
                ..old(group)@
            }),
    {
        group.set_state_value(key, value);
    }

    /// Puts `state` in the place of the state of the group: the way to change
    /// several values at once.
    pub fn update_state(&self, group: &mut AgentGroup, state: StateStore)
        ensures
            final(group)@ == (GroupView { state: state@, ..old(group)@ }),
    {
        group.update_state(state);
    }

    /// Removes every key of the state.
    pub fn clear_state(&self, group: &mut AgentGroup)
        ensures
            final(group)@ == (GroupView { state: Map::empty(), ..old(group)@ }),
    {
        group.clear_state();
    }

    /// A snapshot of the state.
    pub fn get_state(&self, group: &AgentGroup) -> (r: StateStore)
        ensures
            r@ == group@.state,
    {
        group.snapshot()
    }

    /// Removes every tool.
    pub fn clear_tools(&mut self)
        ensures
            final(self)@ == (AgentView { tools: Seq::empty(), ..old(self)@ }),
    {
        self.tools.clear();
        assert(self@.tools =~= Seq::empty());
    }

    /// Whether the state holds `key`.
    pub fn state_key_exists(&self, group: &AgentGroup, key: &str) -> (r: bool)
        ensures
            r == group@.state.contains_key(key@),
    {
        group.state().contains_key(key)
    }

    /// The boolean under `key` of the state: `None` where the key is absent
    /// or its value is no boolean.
    pub fn get_state_bool(&self, group: &AgentGroup, key: &str) -> (r: Option<bool>)
        ensures
            r == (if group@.state.contains_key(key@) {
                json_as_bool(group@.state[key@])
            } else {
                None
            }),
    {
        group.state().get_bool(key)
    }

    /// A copy of the current thread of the group, if there is one.
    pub fn get_current_thread(&self, group: &AgentGroup) -> (r: Option<AgentThread>)
        ensures
            match r {
                Some(t) => group@.current_thread == Some(t@),
                None => group@.current_thread is None,
            },
    {
        group.get_current_thread()
    }

    /// The user for whom the agent works.
    pub fn get_user_id(&self) -> (r: uuid::Uuid)
        ensures
            r == self@.user_id,
    {
        self.user_id
    }

    /// The session in which the agent works.
    pub fn get_session_id(&self) -> (r: uuid::Uuid)
        ensures
            r == self@.session_id,
    {
        self.session_id
    }

    /// The model with which the agent was made.
    pub fn get_model_name(&self) -> (r: &str)
        ensures
            r@ == self@.model,
    {
        self.model.as_str()
    }

    /// The name of the agent.
    pub fn get_name(&self) -> (r: &str)
        ensures
            r@ == self@.name,
    {
        self.name.as_str()
    }

    /// The messages of the current thread of the group, if there is one.
    pub fn get_conversation_history(&self, group: &AgentGroup) -> (r: Option<Vec<AgentMessage>>)
        ensures
            match r {
                Some(messages) => group@.current_thread matches Some(t) && t.messages
                    == messages_view(messages@),
                None => group@.current_thread is None,
            },
    {
        match group.get_current_thread() {
            Some(thread) => Some(thread.messages),
            None => None,
        }
    }

    /// Registers a tool under `name`, with the condition under which it is
    /// offered. It takes the place of a tool of the same name.
    pub fn add_tool(
        &mut self,
        name: String,
        schema: serde_json::Value,
        tool: E,
        enablement_condition: Option<P>,
    )
        requires
            enablement_condition matches Some(p) ==> forall|s: &StateStore|
                #[trigger] call_requires(p, (s,)),
        ensures
            final(self)@ == (AgentView {
                tools: with_tool(
                    old(self)@.tools,
                    RegisteredTool { name, schema, executor: tool, enablement_condition },
                ),
                ..old(self)@
            }),
    {
        self.tools.add(RegisteredTool { name, schema, executor: tool, enablement_condition });
    }

    /// Registers a list of tools, one after the other.
    pub fn add_tools(&mut self, tools_with_conditions: Vec<RegisteredTool<E, P>>)
        requires
            conditions_total(tools_with_conditions@),
        ensures
            final(self)@ == (AgentView {
                tools: with_tools(old(self)@.tools, tools_with_conditions@),
                ..old(self)@
            }),
    {
        self.tools.add_many(tools_with_conditions);
    }

    /// The tools of the agent.
    pub fn get_tools_map(&self) -> (r: &ToolRegistry<E, P>)
        ensures
            r.entries() == self@.tools,
    {
        &self.tools
    }

    /// Whether the execution of the tool named `name` ends a run.
    pub fn is_terminating(&self, name: &str) -> (r: bool)
        ensures
            r == self@.terminating_tool_names.contains(name@),
    {
        contains_text(&self.terminating_tool_names, name)
    }

    /// Closes the stream of the group.
    pub fn close(&self, group: &mut AgentGroup)
        ensures
            final(group)@ == (GroupView { stream_open: false, ..old(group)@ }),
    {
        group.close();
    }

    /// Applies a mode: the tools of the mode take the place of the tools of
    /// the agent, and its terminating tools the place of the agent's.
    /// Returns the prompt and the model of the mode.
    pub fn apply_mode(&mut self, config: ModeConfiguration<E, P>) -> (r: (String, String))
        requires
            conditions_total(config.tools@),
        ensures
            final(self)@ == mode_applied(old(self)@, config),
            r.0@ == config.prompt@,
            r.1@ == config.model@,
    {
        let ModeConfiguration { prompt, model, tools, terminating_tools } = config;
        self.tools.clear();
        assert(self.tools.entries() =~= Seq::empty());
        self.tools.add_many(tools);
        self.terminating_tool_names = terminating_tools;
        (prompt, model)
    }
}

/// The agent after a mode is applied.
pub open spec fn mode_applied<E, P>(agent: AgentView<E, P>, config: ModeConfiguration<E, P>) -> AgentView<
    E,
    P,
> {
    AgentView {
        tools: with_tools(Seq::empty(), config.tools@),
        terminating_tool_names: texts_view(config.terminating_tools@),
        ..agent
    }
}

/// Applying a mode a second time changes nothing.
pub proof fn lemma_mode_application_idempotent<E, P>(
    agent: AgentView<E, P>,
    config: ModeConfiguration<E, P>,
)
    ensures
        mode_applied(mode_applied(agent, config), config) == mode_applied(agent, config),
{
}

} // verus!
