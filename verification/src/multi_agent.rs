//! The multi-agent front: one agent that works through a conversation in
//! modes, and what a caller hands to it and gets back.

use vstd::prelude::*;
use vstd::string::StringExecFns;
use crate::agent::{Agent, AgentGroup, AgentView, GroupView, ModeConfiguration};
use crate::json::{
    json_bool,
    json_is_null,
    json_string,
    value_from_bool,
    value_from_text,
    value_null,
};
use crate::message::{latest_user_text, text_view, AgentMessage, AgentThread};
use crate::run::{
    group_after,
    new_run,
    run_after,
    stopped,
    ActionView,
    NextAction,
    RunPhase,
    RunView,
    ThreadRun,
};
use crate::state::StateStore;

verus! {

/// What a caller gets back from a conversation turn.
#[derive(Debug)]
pub struct BusterSuperAgentOutput {
    pub message: String,
    pub duration: i64,
    pub thread_id: uuid::Uuid,
    pub messages: Vec<AgentMessage>,
}

/// What a caller hands in for a conversation turn.
#[derive(Debug)]
pub struct BusterSuperAgentInput {
    pub prompt: String,
    pub thread_id: Option<uuid::Uuid>,
    pub message_id: Option<uuid::Uuid>,
}

/// The modes in which the agent works.
#[derive(Clone, Copy, Debug, PartialEq, Eq, Structural)]
pub enum AgentState {
    Initializing,
    DataCatalogSearch,
    Planning,
    AnalysisExecution,
    Review,
}

/// One configuration for each mode.
pub struct ModeTable<E, P> {
    pub initialization: ModeConfiguration<E, P>,
    pub data_catalog_search: ModeConfiguration<E, P>,
    pub planning: ModeConfiguration<E, P>,
    pub analysis: ModeConfiguration<E, P>,
    pub review: ModeConfiguration<E, P>,
}

/// The configuration that a table holds for a mode.
pub open spec fn configuration_of<E, P>(table: ModeTable<E, P>, mode: AgentState) -> ModeConfiguration<
    E,
    P,
> {
    match mode {
        AgentState::Initializing => table.initialization,
        AgentState::DataCatalogSearch => table.data_catalog_search,
        AgentState::Planning => table.planning,
        AgentState::AnalysisExecution => table.analysis,
        AgentState::Review => table.review,
    }
}

impl<E, P> ModeTable<E, P> {
    /// The configuration for the mode in which the agent is.
    pub fn get_configuration_for_state(self, mode: AgentState) -> (r: ModeConfiguration<E, P>)
        ensures
            r == configuration_of(self, mode),
    {
        match mode {
            AgentState::Initializing => self.initialization,
            AgentState::DataCatalogSearch => self.data_catalog_search,
            AgentState::Planning => self.planning,
            AgentState::AnalysisExecution => self.analysis,
            AgentState::Review => self.review,
        }
    }
}

/// Access to the agent behind a front.
pub trait AgentExt<E, P: Fn(&StateStore) -> bool> {
    /// The agent.
    fn get_agent(&self) -> &Agent<E, P>;
}

/// The front of one agent.
pub struct BusterMultiAgent<E, P: Fn(&StateStore) -> bool> {
    agent: Agent<E, P>,
}

impl<E, P: Fn(&StateStore) -> bool> AgentExt<E, P> for BusterMultiAgent<E, P> {
    fn get_agent(&self) -> (r: &Agent<E, P>)
        ensures
            r@ == self.agent_view(),
    {
        &self.agent
    }
}

impl<E, P: Fn(&StateStore) -> bool> BusterMultiAgent<E, P> {
    /// What the agent behind the front holds.
    pub closed spec fn agent_view(&self) -> AgentView<E, P> {
        self.agent@
    }

    /// A front for a new agent. The state of the group notes under
    /// `is_follow_up` whether the conversation goes on from an earlier one.
    pub fn new(
        user_id: uuid::Uuid,
        session_id: uuid::Uuid,
        is_follow_up: bool,
        group: &mut AgentGroup,
    ) -> (r: Self)
        ensures
            r.agent_view() == (AgentView::<E, P> {
                name: "buster_multi_agent"@,
                model: "o4-mini"@,
                user_id,
                session_id,
                tools: Seq::empty(),
                terminating_tool_names: Seq::empty(),
            }),
            final(group)@ == (GroupView {
                state: old(group)@.state.insert("is_follow_up"@, json_bool(is_follow_up)),
                ..old(group)@
            }),
    {
        let agent = Agent::new(
            String::from_str("o4-mini"),
            user_id,
            session_id,
            String::from_str("buster_multi_agent"),
        );
        group.set_state_value(String::from_str("is_follow_up"), value_from_bool(is_follow_up));
        BusterMultiAgent { agent }
    }

    /// The agent, to change its tools.
    pub fn agent_mut(&mut self) -> (r: &mut Agent<E, P>)
        ensures
            *r == old(self).agent_value(),
            final(self).agent_value() == *final(r),
    {
        &mut self.agent
    }

    /// The agent behind the front, as a value.
    pub closed spec fn agent_value(&self) -> Agent<E, P> {
        self.agent
    }

    /// Starts a run on `thread`. The state of the group notes under
    /// `user_prompt` the content of the latest user turn of the thread, or
    /// the null value where the thread has none.
    pub fn run(&self, group: &mut AgentGroup, thread: &AgentThread) -> (r: (ThreadRun, NextAction))
        ensures
            final(group)@.state == old(group)@.state.insert(
                "user_prompt"@,
                final(group)@.state["user_prompt"@],
            ),
            match latest_user_text(thread@.messages) {
                Some(prompt) => final(group)@.state["user_prompt"@] == json_string(prompt),
                None => json_is_null(final(group)@.state["user_prompt"@]),
            },
            final(group)@ == (GroupView {
                state: final(group)@.state,
                current_thread: Some(thread@),
                ..old(group)@
            }),
            r.0.wf(),
            r.0@ == (RunView { snapshot: final(group)@.state, ..new_run(thread@) }),
            r.1@ == (ActionView::ConfigureMode { state: final(group)@.state }),
    {
        let value = match self.get_latest_user_message(thread) {
            Some(prompt) => value_from_text(prompt),
            None => value_null(),
        };
        group.set_state_value(String::from_str("user_prompt"), value);
        self.agent.process_thread_streaming(group, thread)
    }

    /// Signals shutdown to a run of the agent. A run that is not over tells
    /// the stream that it was interrupted and that it is over.
    pub fn shutdown(&self, run: &mut ThreadRun, group: &mut AgentGroup) -> (action: NextAction)
        requires
            old(run).wf(),
        ensures
            final(run).wf(),
            final(run)@.phase == RunPhase::Finished,
            action@ == (ActionView::Finish { failure: None }),
            if old(run)@.phase == RunPhase::Finished {
                &&& final(run)@ == old(run)@
                &&& final(group)@ == old(group)@
            } else {
                &&& final(run)@ == run_after(
                    old(run)@,
                    old(group)@,
                    stopped(self.agent_view().name, old(run)@.depth),
                )
                &&& final(group)@ == group_after(
                    old(run)@,
                    old(group)@,
                    stopped(self.agent_view().name, old(run)@.depth),
                )
            },
    {
        self.agent.shutdown(run, group)
    }

    /// The content of the latest user turn of a thread, if it has one.
    pub fn get_latest_user_message(&self, thread: &AgentThread) -> (r: Option<String>)
        ensures
            text_view(r) == latest_user_text(thread@.messages),
    {
        thread.latest_user_content()
    }
}

} // verus!
