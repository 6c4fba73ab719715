//! The answer of a run, read off its stream.

use vstd::prelude::*;
use vstd::string::StringExecFns;
use crate::message::{AgentError, AgentMessage, EventView, MessageResult, MessageView};

verus! {

/// The answer that a reader takes from the events of a stream: the last
/// message before the first event that says that the run is over. An error
/// that comes before that is the answer; without any message there is none.
pub open spec fn answer_of(events: Seq<EventView>) -> Result<MessageView, Seq<char>>
    decreases events.len(),
{
    answer_from(None, events)
}

/// The answer of the events that follow, where `latest` is the last message
/// that has come.
pub open spec fn answer_from(latest: Option<MessageView>, events: Seq<EventView>) -> Result<
    MessageView,
    Seq<char>,
>
    decreases events.len(),
{
    if events.len() == 0 {
        closing_answer(latest)
    } else {
        match events.first() {
            Err(e) => Err(e),
            Ok(MessageView::Done) => closing_answer(latest),
            Ok(m) => answer_from(Some(m), events.drop_first()),
        }
    }
}

/// The answer once the stream has ended: the last message, if one has come.
pub open spec fn closing_answer(latest: Option<MessageView>) -> Result<MessageView, Seq<char>> {
    match latest {
        Some(m) => Ok(m),
        None => Err("No final message received before Done signal"@),
    }
}

/// What a reader does after an event.
#[derive(Debug, PartialEq, Eq)]
pub enum Reading {
    /// The reader goes on.
    Continue,
    /// The run is over: the reader stops.
    Finished,
    /// The run failed: the reader stops with the error.
    Failed(AgentError),
}

/// The reader of one stream: it keeps the last message that has come.
pub struct ResponseCollector {
    latest: Option<AgentMessage>,
}

impl ResponseCollector {
    /// The last message that has come, as what it says.
    pub closed spec fn latest_view(&self) -> Option<MessageView> {
        match self.latest {
            Some(m) => Some(m@),
            None => None,
        }
    }

    /// A reader to which nothing has come yet.
    pub fn new() -> (r: ResponseCollector)
        ensures
            r.latest_view() is None,
    {
        ResponseCollector { latest: None }
    }

    /// Takes one event of the stream.
    pub fn accept(&mut self, event: MessageResult) -> (r: Reading)
        ensures
            match event {
                Err(e) => r == Reading::Failed(e) && final(self).latest_view() == old(
                    self,
                ).latest_view(),
                Ok(m) => if m@ is Done {
                    r == Reading::Finished && final(self).latest_view() == old(self).latest_view()
                } else {
                    r == Reading::Continue && final(self).latest_view() == Some(m@)
                },
            },
    {
        match event {
            Err(e) => Reading::Failed(e),
            Ok(m) => {
                if m.is_done() {
                    Reading::Finished
                } else {
                    self.latest = Some(m);
                    Reading::Continue
                }
            },
        }
    }

    /// The answer once the stream has ended.
    pub fn finish(self) -> (r: Result<AgentMessage, AgentError>)
        ensures
            crate::message::event_view(r) == closing_answer(self.latest_view()),
    {
        match self.latest {
            Some(m) => Ok(m),
            None => Err(AgentError(String::from_str("No final message received before Done signal"))),
        }
    }
}

/// The answer of a run whose events are all at hand.
pub fn process_thread(events: Vec<MessageResult>) -> (r: Result<AgentMessage, AgentError>)
    ensures
        crate::message::event_view(r) == answer_of(crate::message::events_view(events@)),
{
    let ghost all = crate::message::events_view(events@);
    let mut pending = events;
    let mut reversed: Vec<MessageResult> = Vec::new();
    while pending.len() > 0
        invariant
            pending@.len() + reversed@.len() == all.len(),
            forall|i: int|
                0 <= i < reversed@.len() ==> crate::message::event_view(reversed@[i]) == all[all.len()
                    - 1 - i],
            forall|i: int|
                0 <= i < pending@.len() ==> crate::message::event_view(pending@[i]) == all[i],
        decreases pending.len(),
    {
        let event = pending.pop().unwrap();
        reversed.push(event);
    }
    let mut collector = ResponseCollector::new();
    let ghost mut done: int = 0;
    assert(all.skip(0) =~= all);
    while reversed.len() > 0
        invariant
            all == crate::message::events_view(events@),
            0 <= done,
            done + reversed@.len() == all.len(),
            forall|i: int|
                0 <= i < reversed@.len() ==> crate::message::event_view(reversed@[i]) == all[all.len()
                    - 1 - i],
            answer_of(all) == answer_from(collector.latest_view(), all.skip(done)),
        decreases reversed.len(),
    {
        let event = reversed.pop().unwrap();
        proof {
            assert(crate::message::event_view(event) == all[done]);
            assert(all.skip(done).first() == all[done]);
            assert(all.skip(done).drop_first() =~= all.skip(done + 1));
        }
        match collector.accept(event) {
            Reading::Continue => {},
            Reading::Finished => {
                return collector.finish();
            },
            Reading::Failed(e) => {
                return Err(e);
            },
        }
        proof {
            done = done + 1;
        }
    }
    collector.finish()
}

} // verus!
