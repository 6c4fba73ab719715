//! The tool registry: the tools an agent can run, by name.
//!
//! A tool is registered with its schema, its executor and, optionally, a
//! condition on the state under which it is offered to the model. The
//! registry keeps its tools in the order in which their names first came, and
//! no name twice. The library never runs an executor: it keeps it for the
//! caller, who does.

use vstd::prelude::*;
use crate::json::value_clone;
use crate::state::StateStore;
use crate::text::same_text;

verus! {

/// A tool as the registry holds it.
pub struct RegisteredTool<E, P> {
    /// The name by which the model calls the tool.
    pub name: String,
    /// The description of the tool that is sent to the model.
    pub schema: serde_json::Value,
    /// What runs the tool.
    pub executor: E,
    /// When the tool is offered. A tool without a condition always is.
    pub enablement_condition: Option<P>,
}

/// A tool as it is offered to the model.
#[derive(Debug, PartialEq)]
pub struct Tool {
    pub tool_type: String,
    pub function: serde_json::Value,
}

/// What an offered tool says: its type and its schema.
pub struct ToolView {
    pub tool_type: Seq<char>,
    pub function: serde_json::Value,
}

impl View for Tool {
    type V = ToolView;

    open spec fn view(&self) -> ToolView {
        ToolView { tool_type: self.tool_type@, function: self.function }
    }
}

/// The views of a sequence of offered tools, in order.
pub open spec fn offers_view(tools: Seq<Tool>) -> Seq<ToolView> {
    tools.map_values(|t: Tool| t@)
}

/// Whether the condition of a tool can be asked about every state.
pub open spec fn condition_total<E, P: Fn(&StateStore) -> bool>(tool: RegisteredTool<E, P>) -> bool {
    tool.enablement_condition matches Some(p) ==> forall|s: &StateStore|
        #[trigger] call_requires(p, (s,))
}

/// Whether the conditions of all tools can be asked about every state.
pub open spec fn conditions_total<E, P: Fn(&StateStore) -> bool>(
    tools: Seq<RegisteredTool<E, P>>,
) -> bool {
    forall|i: int| 0 <= i < tools.len() ==> condition_total(#[trigger] tools[i])
}

/// Whether `i` is the place of the tool named `name`.
pub open spec fn is_tool_at<E, P>(tools: Seq<RegisteredTool<E, P>>, name: Seq<char>, i: int) -> bool {
    0 <= i < tools.len() && tools[i].name@ == name
}

/// Whether a tool is named `name`.
pub open spec fn has_tool<E, P>(tools: Seq<RegisteredTool<E, P>>, name: Seq<char>) -> bool {
    exists|i: int| is_tool_at(tools, name, i)
}

/// Whether no two tools have the same name.
pub open spec fn names_distinct<E, P>(tools: Seq<RegisteredTool<E, P>>) -> bool {
    forall|i: int, j: int|
        0 <= i < tools.len() && 0 <= j < tools.len() && tools[i].name@ == tools[j].name@ ==> i
            == j
}

/// The names of the tools, as a set.
pub open spec fn tool_names<E, P>(tools: Seq<RegisteredTool<E, P>>) -> Set<Seq<char>> {
    Set::new(|name: Seq<char>| has_tool(tools, name))
}

/// The tools after one more is added: it takes the place of the tool of the
/// same name, or stands at the end where no tool has its name.
pub open spec fn with_tool<E, P>(tools: Seq<RegisteredTool<E, P>>, tool: RegisteredTool<E, P>) -> Seq<
    RegisteredTool<E, P>,
> {
    if has_tool(tools, tool.name@) {
        tools.update(choose|i: int| is_tool_at(tools, tool.name@, i), tool)
    } else {
        tools.push(tool)
    }
}

/// The tools after a sequence of tools is added, one after the other.
pub open spec fn with_tools<E, P>(
    tools: Seq<RegisteredTool<E, P>>,
    added: Seq<RegisteredTool<E, P>>,
) -> Seq<RegisteredTool<E, P>>
    decreases added.len(),
{
    if added.len() == 0 {
        tools
    } else {
        with_tool(with_tools(tools, added.drop_last()), added.last())
    }
}

/// Whether `decision` can be what the condition of `tool` says of `state`.
/// A tool without a condition is enabled.
pub open spec fn decided<E, P: Fn(&StateStore) -> bool>(
    tool: RegisteredTool<E, P>,
    state: &StateStore,
    decision: bool,
) -> bool {
    match tool.enablement_condition {
        Some(p) => call_ensures(p, (state,), decision),
        None => decision,
    }
}

/// The offers for the tools that `decisions` enables, in the order of the
/// tools.
pub open spec fn offered<E, P>(tools: Seq<RegisteredTool<E, P>>, decisions: Seq<bool>) -> Seq<
    ToolView,
>
    decreases tools.len(),
{
    if tools.len() == 0 || decisions.len() != tools.len() {
        Seq::empty()
    } else if decisions.last() {
        offered(tools.drop_last(), decisions.drop_last()).push(
            ToolView { tool_type: "function"@, function: tools.last().schema },
        )
    } else {
        offered(tools.drop_last(), decisions.drop_last())
    }
}

/// Whether `offers` is what the tools offer under `state`: there is a
/// decision for every tool, each one what the tool's condition says of the
/// state, and the offers are those of the enabled tools.
pub open spec fn offers_under<E, P: Fn(&StateStore) -> bool>(
    tools: Seq<RegisteredTool<E, P>>,
    state: &StateStore,
    offers: Seq<ToolView>,
) -> bool {
    exists|decisions: Seq<bool>|
        {
            &&& decisions.len() == tools.len()
            &&& forall|i: int|
                0 <= i < tools.len() ==> decided(#[trigger] tools[i], state, decisions[i])
            &&& offers == offered(tools, decisions)
        }
}

/// Every offer is the offer of a tool that the decisions enable: a tool whose
/// condition said no is not offered.
pub proof fn lemma_offer_source<E, P>(
    tools: Seq<RegisteredTool<E, P>>,
    decisions: Seq<bool>,
    k: int,
)
    requires
        decisions.len() == tools.len(),
        0 <= k < offered(tools, decisions).len(),
    ensures
        exists|i: int|
            0 <= i < tools.len() && #[trigger] decisions[i] && offered(tools, decisions)[k].function
                == tools[i].schema,
    decreases tools.len(),
{
    if tools.len() > 0 {
        let rest = offered(tools.drop_last(), decisions.drop_last());
        if decisions.last() && k == rest.len() {
            assert(decisions[tools.len() - 1]);
        } else {
            lemma_offer_source(tools.drop_last(), decisions.drop_last(), k);
            let i = choose|i: int|
                0 <= i < tools.drop_last().len() && #[trigger] decisions.drop_last()[i] && rest[k].function
                    == tools.drop_last()[i].schema;
            assert(decisions[i]);
        }
    }
}

/// Where no tool is enabled, nothing is offered.
pub proof fn lemma_none_enabled<E, P>(tools: Seq<RegisteredTool<E, P>>, decisions: Seq<bool>)
    requires
        decisions.len() == tools.len(),
        forall|i: int| 0 <= i < decisions.len() ==> !decisions[i],
    ensures
        offered(tools, decisions).len() == 0,
    decreases tools.len(),
{
    if tools.len() > 0 {
        assert(!decisions[tools.len() - 1]);
        lemma_none_enabled(tools.drop_last(), decisions.drop_last());
    }
}

/// The tools of one agent.
pub struct ToolRegistry<E, P: Fn(&StateStore) -> bool> {
    tools: Vec<RegisteredTool<E, P>>,
}

impl<E, P: Fn(&StateStore) -> bool> ToolRegistry<E, P> {
    #[verifier::type_invariant]
    spec fn well_formed(self) -> bool {
        names_distinct(self.tools@) && conditions_total(self.tools@)
    }

    /// The registered tools, in the order in which their names first came.
    pub closed spec fn entries(&self) -> Seq<RegisteredTool<E, P>> {
        self.tools@
    }

    /// An empty registry.
    pub fn new() -> (r: Self)
        ensures
            r.entries().len() == 0,
    {
        ToolRegistry { tools: Vec::new() }
    }

    /// The number of registered tools.
    pub fn len(&self) -> (r: usize)
        ensures
            r == self.entries().len(),
    {
        self.tools.len()
    }

    /// The place of the tool named `name`, if it is registered.
    fn position(&self, name: &str) -> (r: Option<usize>)
        ensures
            match r {
                Some(i) => is_tool_at(self.tools@, name@, i as int),
                None => !has_tool(self.tools@, name@),
            },
    {
        let wanted = name.to_owned();
        let mut i: usize = 0;
        while i < self.tools.len()
            invariant
                i <= self.tools.len(),
                wanted@ == name@,
                forall|j: int| 0 <= j < i ==> !is_tool_at(self.tools@, name@, j),
            decreases self.tools.len() - i,
        {
            if same_text(&self.tools[i].name, &wanted) {
                return Some(i);
            }
            i = i + 1;
        }
        None
    }

    /// Whether a tool named `name` is registered.
    pub fn contains(&self, name: &str) -> (r: bool)
        ensures
            r == has_tool(self.entries(), name@),
            r == tool_names(self.entries()).contains(name@),
    {
        self.position(name).is_some()
    }

    /// The tool named `name`, if it is registered.
    pub fn lookup(&self, name: &str) -> (r: Option<&RegisteredTool<E, P>>)
        ensures
            match r {
                Some(tool) => tool.name@ == name@ && exists|i: int|
                    is_tool_at(self.entries(), name@, i) && self.entries()[i] == *tool,
                None => !has_tool(self.entries(), name@),
            },
    {
        match self.position(name) {
            Some(i) => {
                let tool = &self.tools[i];
                assert(is_tool_at(self.entries(), name@, i as int) && self.entries()[i as int]
                    == *tool);
                Some(tool)
            },
            None => None,
        }
    }

    /// Registers a tool. It takes the place of a tool of the same name.
    pub fn add(&mut self, tool: RegisteredTool<E, P>)
        requires
            condition_total(tool),
        ensures
            final(self).entries() == with_tool(old(self).entries(), tool),
    {
        proof {
            use_type_invariant(&*self);
        }
        let found = self.position(tool.name.as_str());
        let mut taken = ToolRegistry { tools: Vec::new() };
        core::mem::swap(self, &mut taken);
        let ToolRegistry { tools } = taken;
        let mut tools = tools;
        let ghost before = tools@;
        match found {
            Some(i) => {
                tools.set(i, tool);
                proof {
                    let chosen = choose|j: int| is_tool_at(before, tool.name@, j);
                    assert(is_tool_at(before, tool.name@, i as int));
                    assert(chosen == i);
                    let after = tools@;
                    assert forall|a: int, b: int|
                        0 <= a < after.len() && 0 <= b < after.len() && after[a].name@
                            == after[b].name@ implies a == b by {
                        assert(after[a].name@ == before[a].name@);
                        assert(after[b].name@ == before[b].name@);
                    }
                    assert forall|a: int| 0 <= a < after.len() implies condition_total(
                        #[trigger] after[a],
                    ) by {
                        if a != i {
                            assert(after[a] == before[a]);
                        }
                    }
                }
            },
            None => {
                tools.push(tool);
                proof {
                    let after = tools@;
                    let last = before.len() as int;
                    assert forall|a: int, b: int|
                        0 <= a < after.len() && 0 <= b < after.len() && after[a].name@
                            == after[b].name@ implies a == b by {
                        if a != last && b == last {
                            assert(is_tool_at(before, tool.name@, a));
                        }
                        if b != last && a == last {
                            assert(is_tool_at(before, tool.name@, b));
                        }
                    }
                    assert forall|a: int| 0 <= a < after.len() implies condition_total(
                        #[trigger] after[a],
                    ) by {
                        if a != last {
                            assert(after[a] == before[a]);
                        }
                    }
                }
            },
        }
        *self = ToolRegistry { tools };
    }

    /// Registers a list of tools, one after the other.
    pub fn add_many(&mut self, tools: Vec<RegisteredTool<E, P>>)
        requires
            conditions_total(tools@),
        ensures
            final(self).entries() == with_tools(old(self).entries(), tools@),
    {
        let mut tools = tools;
        let ghost all = tools@;
        let ghost start = self.entries();
        let mut reversed: Vec<RegisteredTool<E, P>> = Vec::new();
        while tools.len() > 0
            invariant
                tools@.len() + reversed@.len() == all.len(),
                forall|i: int| 0 <= i < tools@.len() ==> tools@[i] == all[i],
                forall|i: int|
                    0 <= i < reversed@.len() ==> reversed@[i] == all[all.len() - 1 - i],
            decreases tools.len(),
        {
            let tool = tools.pop().unwrap();
            reversed.push(tool);
        }
        let ghost mut done: int = 0;
        assert(all.take(0) =~= Seq::empty());
        while reversed.len() > 0
            invariant
                conditions_total(all),
                done + reversed@.len() == all.len(),
                0 <= done,
                forall|i: int|
                    0 <= i < reversed@.len() ==> reversed@[i] == all[all.len() - 1 - i],
                self.entries() == with_tools(start, all.take(done)),
            decreases reversed.len(),
        {
            let tool = reversed.pop().unwrap();
            proof {
                assert(tool == all[done]);
                let next = all.take(done + 1);
                assert(next.drop_last() =~= all.take(done));
                assert(next.last() == tool);
            }
            self.add(tool);
            proof {
                done = done + 1;
            }
        }
        assert(all.take(done) =~= all);
    }

    /// Removes every tool.
    pub fn clear(&mut self)
        ensures
            final(self).entries().len() == 0,
    {
        *self = ToolRegistry { tools: Vec::new() };
    }

    /// The offers for the tools that are enabled under `state`, in the order
    /// of the tools. The condition of every tool is asked once, about this
    /// one state.
    pub fn list_enabled(&self, state: &StateStore) -> (r: Vec<Tool>)
        ensures
            offers_under(self.entries(), state, offers_view(r@)),
    {
        proof {
            use_type_invariant(self);
        }
        let mut out: Vec<Tool> = Vec::new();
        let ghost mut decisions: Seq<bool> = Seq::empty();
        let mut i: usize = 0;
        assert(self.tools@.take(0) =~= Seq::empty());
        while i < self.tools.len()
            invariant
                i <= self.tools.len(),
                conditions_total(self.tools@),
                decisions.len() == i,
                forall|j: int| 0 <= j < i ==> decided(#[trigger] self.tools@[j], state, decisions[j]),
                offers_view(out@) == offered(self.tools@.take(i as int), decisions),
            decreases self.tools.len() - i,
        {
            let tool = &self.tools[i];
            assert(condition_total(self.tools@[i as int]));
            let enabled = match &tool.enablement_condition {
                Some(condition) => condition(state),
                None => true,
            };
            let ghost before = offers_view(out@);
            if enabled {
                out.push(Tool { tool_type: "function".to_owned(), function: value_clone(&tool.schema) });
                assert(offers_view(out@) =~= before.push(
                    ToolView { tool_type: "function"@, function: tool.schema },
                ));
            }
            proof {
                let next = self.tools@.take(i as int + 1);
                assert(next.drop_last() =~= self.tools@.take(i as int));
                assert(next.last() == self.tools@[i as int]);
                assert(decisions.push(enabled).drop_last() =~= decisions);
                decisions = decisions.push(enabled);
            }
            i = i + 1;
        }
        assert(self.tools@.take(i as int) =~= self.tools@);
        out
    }
}

} // verus!
