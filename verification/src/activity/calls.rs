//! The running tool calls of a session: starting and finishing them.
use vstd::prelude::*;
use super::event::copy_opt;
use super::session::{ActiveTool, ToolModel, tools_view};

verus! {

fn copy_tool(t: &ActiveTool) -> (r: ActiveTool)
    ensures
        r@ == t@,
{
    ActiveTool {
        id: t.id.clone(),
        name: t.name.clone(),
        state: t.state,
        started_at: t.started_at,
        agent_id: copy_opt(&t.agent_id),
    }
}

/// Tools other than call `id` of the caller `agent` (`None`: the root).
pub open spec fn other_call(id: Seq<char>, agent: Option<Seq<char>>) -> spec_fn(ToolModel) -> bool {
    |t: ToolModel| !(t.id == id && t.agent_id == agent)
}

/// Tools not started by agent `id`.
pub open spec fn not_of_agent(id: Seq<char>) -> spec_fn(ToolModel) -> bool {
    |t: ToolModel| t.agent_id != Some(id)
}

fn eq_opt(a: &Option<String>, b: &Option<String>) -> (r: bool)
    ensures
        r == (a.deep_view() == b.deep_view()),
{
    match (a, b) {
        (Some(x), Some(y)) => *x == *y,
        (None, None) => true,
        _ => false,
    }
}

/// Drops every running call `id` of the caller `agent`.
pub(crate) fn drop_call(tools: &mut Vec<ActiveTool>, id: &String, agent: &Option<String>)
    ensures
        tools_view(final(tools)@) == tools_view(old(tools)@).filter(other_call(id@, agent.deep_view())),
{
    let ghost v = tools_view(tools@);
    let ghost pred = other_call(id@, agent.deep_view());
    let mut kept: Vec<ActiveTool> = Vec::new();
    let n = tools.len();
    let mut i: usize = 0;
    while i < n
        invariant
            n == tools@.len(),
            i <= n,
            v == tools_view(tools@),
            pred == other_call(id@, agent.deep_view()),
            tools_view(kept@) == v.take(i as int).filter(pred),
        decreases n - i,
    {
        proof {
            reveal(Seq::filter);
            assert(v.take(i + 1).drop_last() =~= v.take(i as int));
            assert(v.take(i + 1).last() == v[i as int]);
        }
        let t = &tools[i];
        if !(t.id == *id && eq_opt(&t.agent_id, agent)) {
            let c = copy_tool(t);
            let ghost before = kept@;
            kept.push(c);
            assert(tools_view(kept@) =~= tools_view(before).push(c@));
        }
        i = i + 1;
    }
    assert(v.take(n as int) =~= v);
    *tools = kept;
}

/// Drops every running call of agent `id`.
pub(crate) fn drop_agent_calls(tools: &mut Vec<ActiveTool>, id: &String)
    ensures
        tools_view(final(tools)@) == tools_view(old(tools)@).filter(not_of_agent(id@)),
{
    let ghost v = tools_view(tools@);
    let ghost pred = not_of_agent(id@);
    let mut kept: Vec<ActiveTool> = Vec::new();
    let n = tools.len();
    let mut i: usize = 0;
    while i < n
        invariant
            n == tools@.len(),
            i <= n,
            v == tools_view(tools@),
            pred == not_of_agent(id@),
            tools_view(kept@) == v.take(i as int).filter(pred),
        decreases n - i,
    {
        proof {
            reveal(Seq::filter);
            assert(v.take(i + 1).drop_last() =~= v.take(i as int));
            assert(v.take(i + 1).last() == v[i as int]);
        }
        let t = &tools[i];
        let of_agent = match &t.agent_id {
            Some(a) => *a == *id,
            None => false,
        };
        if !of_agent {
            let c = copy_tool(t);
            let ghost before = kept@;
            kept.push(c);
            assert(tools_view(kept@) =~= tools_view(before).push(c@));
        }
        i = i + 1;
    }
    assert(v.take(n as int) =~= v);
    *tools = kept;
}

/// Tool `t` is a call of the caller `agent` named `name` (any name when `name` is `None`).
pub open spec fn finishes(t: ToolModel, agent: Option<Seq<char>>, name: Option<Seq<char>>) -> bool {
    t.agent_id == agent && (name is None || t.name == name->0)
}

/// Position of the last running call that a finish without call identifier refers to.
pub open spec fn last_finished(
    tools: Seq<ToolModel>,
    agent: Option<Seq<char>>,
    name: Option<Seq<char>>,
) -> Option<int>
    decreases tools.len(),
{
    if tools.len() == 0 {
        None
    } else if finishes(tools.last(), agent, name) {
        Some(tools.len() - 1)
    } else {
        last_finished(tools.drop_last(), agent, name)
    }
}

/// The running calls after a finish without call identifier: the last matching call leaves.
pub open spec fn without_last_finished(
    tools: Seq<ToolModel>,
    agent: Option<Seq<char>>,
    name: Option<Seq<char>>,
) -> Seq<ToolModel> {
    match last_finished(tools, agent, name) {
        Some(p) => tools.remove(p),
        None => tools,
    }
}

/// Drops the last running call of `agent` named `name` (any name when `name` is `None`).
pub(crate) fn drop_last_finished(tools: &mut Vec<ActiveTool>, agent: &Option<String>, name: &Option<String>)
    ensures
        tools_view(final(tools)@) == without_last_finished(
            tools_view(old(tools)@),
            agent.deep_view(),
            name.deep_view(),
        ),
{
    let ghost v = tools_view(tools@);
    let mut n = tools.len();
    assert(v.take(n as int) =~= v);
    while n > 0
        invariant
            n <= tools@.len(),
            v == tools_view(tools@),
            v == tools_view(old(tools)@),
            last_finished(v.take(n as int), agent.deep_view(), name.deep_view()) == last_finished(
                v,
                agent.deep_view(),
                name.deep_view(),
            ),
        decreases n,
    {
        assert(v.take(n as int).drop_last() =~= v.take(n - 1));
        assert(v.take(n as int).last() == v[n - 1]);
        let t = &tools[n - 1];
        let named = match name {
            Some(x) => t.name == *x,
            None => true,
        };
        if eq_opt(&t.agent_id, agent) && named {
            assert(finishes(v[n - 1], agent.deep_view(), name.deep_view()));
            assert(last_finished(v.take(n as int), agent.deep_view(), name.deep_view()) == Some(
                n - 1,
            ));
            tools.remove(n - 1);
            assert(tools_view(tools@) =~= v.remove(n - 1));
            return;
        }
        n = n - 1;
    }
}

} // verus!
