//! What holds of every tracked session, and the proof that every event keeps it.
use vstd::prelude::*;
use super::calls::{last_finished, not_of_agent, other_call};
use super::event::{EventModel, HookEventKind};
use super::registry::EntryModel;
use super::session::{
    AgentModel, SessionModel, ToolModel, find_agent, latest_tool, shown_command, shown_state,
    spec_recompute, spec_update_agent,
};
use super::state::ActivityState;
use super::step::{
    is_stale_turn, not_completed, spec_absorb, spec_begin_turn, spec_dispatch, spec_step,
    spec_tool_phase, started_call,
};
use crate::unique::{
    all, lemma_all_filter, lemma_filter_from, lemma_unique_filter, lemma_unique_push,
    lemma_unique_remove, lemma_unique_update, unique_by,
};

verus! {

/// The key that tells sessions apart.
pub open spec fn session_key() -> spec_fn(EntryModel) -> Seq<char> {
    |e: EntryModel| e.session.id
}

/// The key that tells agents apart.
pub open spec fn agent_key() -> spec_fn(AgentModel) -> Seq<char> {
    |a: AgentModel| a.id
}

/// The key that tells running calls apart: call identifier and caller.
pub open spec fn call_key() -> spec_fn(ToolModel) -> (Seq<char>, Option<Seq<char>>) {
    |t: ToolModel| (t.id, t.agent_id)
}

/// The states a running call can show.
pub open spec fn is_tool_state(state: ActivityState) -> bool {
    state == ActivityState::RunningCommand || state == ActivityState::Editing || state
        == ActivityState::Searching || state == ActivityState::Connecting || state
        == ActivityState::Working
}

/// A running call shows a tool state.
pub open spec fn has_tool_state() -> spec_fn(ToolModel) -> bool {
    |t: ToolModel| is_tool_state(t.state)
}

/// What holds of every tracked session with its running calls: its shown state and command
/// are up to date with its running calls, it shows "completed" exactly when it has completed
/// (and then runs no call), it shows "idle" only before its first turn, its running calls show
/// tool states, and agents and calls are never recorded twice.
pub open spec fn session_ok(s: SessionModel, tools: Seq<ToolModel>) -> bool {
    &&& s.state == shown_state(s, tools)
    &&& s.current_command == shown_command(s, tools)
    &&& (s.state == ActivityState::Completed <==> s.completed_at is Some)
    &&& (s.state == ActivityState::Idle ==> s.started_at is None)
    &&& (s.completed_at is Some ==> tools.len() == 0)
    &&& all(tools, has_tool_state())
    &&& unique_by(s.agents, agent_key())
    &&& unique_by(tools, call_key())
}

/// The predicate [`entry_ok`].
pub open spec fn entry_ok_fn() -> spec_fn(EntryModel) -> bool {
    |e: EntryModel| entry_ok(e)
}

/// [`session_ok`] of an entry.
pub open spec fn entry_ok(e: EntryModel) -> bool {
    session_ok(e.session, e.tools)
}

pub(crate) proof fn lemma_find_agent_result(agents: Seq<AgentModel>, id: Seq<char>)
    ensures
        find_agent(agents, id) matches Some(j) ==> 0 <= j < agents.len() && agents[j].id == id,
        find_agent(agents, id) is None ==> forall|k: int|
            0 <= k < agents.len() ==> #[trigger] agents[k].id != id,
    decreases agents.len(),
{
    if agents.len() > 0 {
        let rest = agents.drop_first();
        lemma_find_agent_result(rest, id);
        if find_agent(agents, id) is None {
            assert forall|k: int| 0 <= k < agents.len() implies #[trigger] agents[k].id != id by {
                if k > 0 {
                    assert(agents[k] == rest[k - 1]);
                }
            }
        }
    }
}

proof fn lemma_update_agent_unique(
    agents: Seq<AgentModel>,
    id: Seq<char>,
    state: ActivityState,
    at: u64,
)
    requires
        unique_by(agents, agent_key()),
    ensures
        unique_by(spec_update_agent(agents, id, state, at), agent_key()),
{
    lemma_find_agent_result(agents, id);
    match find_agent(agents, id) {
        Some(j) => {
            lemma_unique_update(
                agents,
                agent_key(),
                j,
                AgentModel { state, last_activity_at: at, ..agents[j] },
            );
        },
        None => {
            lemma_unique_push(agents, agent_key(), AgentModel { id, state, last_activity_at: at });
        },
    }
}

pub(crate) proof fn lemma_latest_tool_state(tools: Seq<ToolModel>, root: bool)
    requires
        all(tools, has_tool_state()),
    ensures
        latest_tool(tools, root) matches Some(t) ==> is_tool_state(t.state),
    decreases tools.len(),
{
    if tools.len() > 0 {
        let rest = tools.drop_last();
        assert forall|i: int| 0 <= i < rest.len() implies #[trigger] has_tool_state()(rest[i]) by {
            assert(rest[i] == tools[i]);
        }
        lemma_latest_tool_state(rest, root);
        assert(has_tool_state()(tools[tools.len() - 1]));
    }
}

pub(crate) proof fn lemma_last_finished_range(
    tools: Seq<ToolModel>,
    agent: Option<Seq<char>>,
    name: Option<Seq<char>>,
)
    ensures
        last_finished(tools, agent, name) matches Some(p) ==> 0 <= p < tools.len(),
    decreases tools.len(),
{
    if tools.len() > 0 {
        lemma_last_finished_range(tools.drop_last(), agent, name);
    }
}

proof fn lemma_calls_remove(tools: Seq<ToolModel>, p: int)
    requires
        0 <= p < tools.len(),
        all(tools, has_tool_state()),
        unique_by(tools, call_key()),
    ensures
        all(tools.remove(p), has_tool_state()),
        unique_by(tools.remove(p), call_key()),
{
    lemma_unique_remove(tools, call_key(), p);
    let g = tools.remove(p);
    assert forall|i: int| 0 <= i < g.len() implies #[trigger] has_tool_state()(g[i]) by {
        let i2 = if i < p { i } else { i + 1 };
        assert(g[i] == tools[i2]);
    }
}

proof fn lemma_calls_filter(tools: Seq<ToolModel>, pred: spec_fn(ToolModel) -> bool)
    requires
        all(tools, has_tool_state()),
        unique_by(tools, call_key()),
    ensures
        all(tools.filter(pred), has_tool_state()),
        unique_by(tools.filter(pred), call_key()),
{
    lemma_all_filter(tools, pred, has_tool_state());
    lemma_unique_filter(tools, call_key(), pred);
}

proof fn lemma_tool_phase_ok(s: SessionModel, tools: Seq<ToolModel>, ev: EventModel)
    requires
        all(tools, has_tool_state()),
        unique_by(tools, call_key()),
        unique_by(s.agents, agent_key()),
    ensures
        all(spec_tool_phase(s, tools, ev).1, has_tool_state()),
        unique_by(spec_tool_phase(s, tools, ev).1, call_key()),
        unique_by(spec_tool_phase(s, tools, ev).0.agents, agent_key()),
{
    let at = ev.observed_at;
    if let Some(a) = ev.agent_id {
        lemma_update_agent_unique(s.agents, a, ActivityState::Working, at);
        lemma_update_agent_unique(s.agents, a, ActivityState::Thinking, at);
        lemma_update_agent_unique(s.agents, a, ActivityState::Waiting, at);
        lemma_update_agent_unique(s.agents, a, ActivityState::Composing, at);
    }
    match ev.kind {
        HookEventKind::PreToolUse => {
            let t = started_call(ev);
            let pred = other_call(t.id, ev.agent_id);
            lemma_calls_filter(tools, pred);
            let f = tools.filter(pred);
            assert forall|k: int| 0 <= k < f.len() implies call_key()(#[trigger] f[k]) != call_key()(t) by {
                lemma_filter_from(tools, pred, k);
            }
            lemma_unique_push(f, call_key(), t);
            let g = f.push(t);
            assert forall|i: int| 0 <= i < g.len() implies #[trigger] has_tool_state()(g[i]) by {
                if i < f.len() {
                    assert(g[i] == f[i]);
                }
            }
        },
        HookEventKind::PostToolUse => {
            match ev.tool_use_id {
                Some(id) => {
                    lemma_calls_filter(tools, other_call(id, ev.agent_id));
                },
                None => {
                    lemma_last_finished_range(tools, ev.agent_id, ev.tool_name);
                    if let Some(p) = last_finished(tools, ev.agent_id, ev.tool_name) {
                        lemma_calls_remove(tools, p);
                    }
                },
            }
        },
        _ => {},
    }
}

proof fn lemma_dispatch_ok(s: SessionModel, tools: Seq<ToolModel>, ev: EventModel)
    requires
        all(tools, has_tool_state()),
        unique_by(tools, call_key()),
        unique_by(s.agents, agent_key()),
        s.completed_at is Some ==> tools.len() == 0,
    ensures
        spec_dispatch(s, tools, ev).0.completed_at is Some ==> spec_dispatch(s, tools, ev).1.len()
            == 0,
        all(spec_dispatch(s, tools, ev).1, has_tool_state()),
        unique_by(spec_dispatch(s, tools, ev).1, call_key()),
        unique_by(spec_dispatch(s, tools, ev).0.agents, agent_key()),
{
    let at = ev.observed_at;
    let empty = Seq::<ToolModel>::empty();
    assert(all(empty, has_tool_state()));
    assert(unique_by(empty, call_key()));
    if let Some(a) = ev.agent_id {
        lemma_update_agent_unique(s.agents, a, ActivityState::Thinking, at);
        lemma_update_agent_unique(s.agents, a, ActivityState::Completed, at);
        lemma_calls_filter(tools, not_of_agent(a));
        tools.lemma_filter_len(not_of_agent(a));
    }
    lemma_unique_filter(s.agents, agent_key(), not_completed());
    match ev.kind {
        HookEventKind::PreToolUse | HookEventKind::PostToolUse | HookEventKind::PermissionRequest
        | HookEventKind::PreCompact | HookEventKind::PostCompact | HookEventKind::SubagentStart => {
            lemma_tool_phase_ok(spec_begin_turn(s, ev), tools, ev);
        },
        _ => {},
    }
}

proof fn lemma_recompute_ok(s: SessionModel, tools: Seq<ToolModel>)
    requires
        all(tools, has_tool_state()),
        unique_by(tools, call_key()),
        unique_by(s.agents, agent_key()),
        s.completed_at is Some ==> tools.len() == 0,
    ensures
        session_ok(spec_recompute(s, tools), tools),
{
    lemma_latest_tool_state(tools, true);
    lemma_latest_tool_state(tools, false);
}

pub(crate) proof fn lemma_step_ok(s: SessionModel, tools: Seq<ToolModel>, ev: EventModel, project: Option<Seq<char>>)
    requires
        session_ok(s, tools),
    ensures
        session_ok(spec_step(s, tools, ev, project).0, spec_step(s, tools, ev, project).1),
        spec_step(s, tools, ev, project).0.id == s.id,
{
    if !is_stale_turn(s, ev) {
        let a = spec_absorb(s, ev, project);
        lemma_dispatch_ok(a, tools, ev);
        let r = spec_dispatch(a, tools, ev);
        lemma_recompute_ok(r.0, r.1);
    }
}

} // verus!
