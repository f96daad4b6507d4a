//! The effect of one hook event on one session and its running calls.
use vstd::prelude::*;
use super::calls::{
    drop_agent_calls, drop_call, drop_last_finished, not_of_agent, other_call,
    without_last_finished,
};
use super::event::{EventModel, HookEvent, HookEventKind, copy_opt};
use super::session::{
    ActiveTool, Agent, AgentModel, Session, SessionModel, ToolModel, agents_view,
    recompute_session_state, spec_recompute, spec_update_agent, tools_view, update_agent,
};
use super::state::{ActivityState, spec_tool_state, tool_state};

verus! {

/// Session `s` with agent `id` seen in `state` at `at`.
pub open spec fn with_agent(s: SessionModel, id: Seq<char>, state: ActivityState, at: u64) -> SessionModel {
    SessionModel { agents: spec_update_agent(s.agents, id, state, at), ..s }
}

/// Agents that have not completed.
pub open spec fn not_completed() -> spec_fn(AgentModel) -> bool {
    |a: AgentModel| a.state != ActivityState::Completed
}

/// A root event that names another turn than the session's current one: it comes late
/// and must not change the session.
pub open spec fn is_stale_turn(s: SessionModel, ev: EventModel) -> bool {
    &&& ev.agent_id is None
    &&& ev.kind != HookEventKind::UserPromptSubmit
    &&& ev.kind != HookEventKind::SessionStart
    &&& ev.kind != HookEventKind::SessionEnd
    &&& s.current_turn_id is Some
    &&& ev.turn_id is Some
    &&& s.current_turn_id->0 != ev.turn_id->0
}

/// The metadata every accepted event brings: working directory and project (when the event
/// names a directory), model (when it names one) and the time of last activity.
pub open spec fn spec_absorb(s: SessionModel, ev: EventModel, project: Option<Seq<char>>) -> SessionModel {
    let s1 = if ev.cwd.len() > 0 {
        SessionModel { cwd: Some(ev.cwd), project, ..s }
    } else {
        s
    };
    let s2 = if ev.model is Some {
        SessionModel { model: ev.model, ..s1 }
    } else {
        s1
    };
    SessionModel { last_activity_at: ev.observed_at, ..s2 }
}

/// A tool, permission, compaction or agent event on a session that has not started, or has
/// completed, starts a new turn.
pub open spec fn spec_begin_turn(s: SessionModel, ev: EventModel) -> SessionModel {
    if s.started_at is None || s.completed_at is Some {
        SessionModel {
            started_at: Some(ev.observed_at),
            completed_at: None,
            current_turn_id: ev.turn_id,
            root_state: ActivityState::Thinking,
            ..s
        }
    } else {
        s
    }
}

/// The identifier of the call that a tool start opens.
pub open spec fn started_call_id(ev: EventModel) -> Seq<char> {
    match ev.tool_use_id {
        Some(id) => id,
        None => "legacy:"@ + ev.tool_name.unwrap_or(Seq::empty()),
    }
}

/// The call that a tool start opens.
pub open spec fn started_call(ev: EventModel) -> ToolModel {
    let name = ev.tool_name.unwrap_or(Seq::empty());
    ToolModel {
        id: started_call_id(ev),
        name,
        state: spec_tool_state(name),
        started_at: ev.observed_at,
        agent_id: ev.agent_id,
    }
}

/// The root state, or agent `ev.agent_id`, moved to `state`.
pub open spec fn with_actor(s: SessionModel, ev: EventModel, state: ActivityState) -> SessionModel {
    match ev.agent_id {
        Some(a) => with_agent(s, a, state, ev.observed_at),
        None => SessionModel { root_state: state, ..s },
    }
}

/// The effect of a tool, permission, compaction or agent start event on a started session.
pub open spec fn spec_tool_phase(s: SessionModel, tools: Seq<ToolModel>, ev: EventModel) -> (
    SessionModel,
    Seq<ToolModel>,
) {
    let at = ev.observed_at;
    match ev.kind {
        HookEventKind::PreToolUse => {
            let t = started_call(ev);
            let tools2 = tools.filter(other_call(t.id, ev.agent_id)).push(t);
            let s2 = match ev.agent_id {
                Some(a) => with_agent(s, a, ActivityState::Working, at),
                None => s,
            };
            (s2, tools2)
        },
        HookEventKind::PostToolUse => {
            let tools2 = match ev.tool_use_id {
                Some(id) => tools.filter(other_call(id, ev.agent_id)),
                None => without_last_finished(tools, ev.agent_id, ev.tool_name),
            };
            let s2 = match ev.agent_id {
                Some(a) => with_agent(s, a, ActivityState::Thinking, at),
                None => if s.root_state == ActivityState::Waiting {
                    SessionModel { root_state: ActivityState::Thinking, ..s }
                } else {
                    s
                },
            };
            (s2, tools2)
        },
        HookEventKind::PermissionRequest => (with_actor(s, ev, ActivityState::Waiting), tools),
        HookEventKind::PreCompact => (with_actor(s, ev, ActivityState::Composing), tools),
        HookEventKind::PostCompact => (with_actor(s, ev, ActivityState::Thinking), tools),
        HookEventKind::SubagentStart => match ev.agent_id {
            Some(a) => (with_agent(s, a, ActivityState::Thinking, at), tools),
            None => (s, tools),
        },
        _ => (s, tools),
    }
}

/// The effect of an event, after its metadata was taken, on a session and its running calls.
pub open spec fn spec_dispatch(s: SessionModel, tools: Seq<ToolModel>, ev: EventModel) -> (
    SessionModel,
    Seq<ToolModel>,
) {
    let at = ev.observed_at;
    match ev.kind {
        HookEventKind::SessionStart => (s, tools),
        HookEventKind::SessionEnd => (SessionModel { completed_at: Some(at), ..s }, Seq::empty()),
        HookEventKind::UserPromptSubmit => match ev.agent_id {
            None => (
                SessionModel {
                    agents: s.agents.filter(not_completed()),
                    current_turn_id: ev.turn_id,
                    root_state: ActivityState::Thinking,
                    started_at: Some(at),
                    completed_at: None,
                    ..s
                },
                Seq::empty(),
            ),
            Some(a) => (with_agent(s, a, ActivityState::Thinking, at), tools),
        },
        HookEventKind::PreToolUse | HookEventKind::PostToolUse | HookEventKind::PermissionRequest
        | HookEventKind::PreCompact | HookEventKind::PostCompact | HookEventKind::SubagentStart => {
            spec_tool_phase(spec_begin_turn(s, ev), tools, ev)
        },
        HookEventKind::SubagentStop => match ev.agent_id {
            Some(a) => (
                with_agent(s, a, ActivityState::Completed, at),
                tools.filter(not_of_agent(a)),
            ),
            None => (s, tools),
        },
        HookEventKind::Stop | HookEventKind::Interrupt => match ev.agent_id {
            Some(a) => (
                with_agent(s, a, ActivityState::Completed, at),
                tools.filter(not_of_agent(a)),
            ),
            None => (SessionModel { completed_at: Some(at), ..s }, Seq::empty()),
        },
    }
}

/// The effect of an event on a session and its running calls, `project` being what the
/// event's working directory names.
pub open spec fn spec_step(
    s: SessionModel,
    tools: Seq<ToolModel>,
    ev: EventModel,
    project: Option<Seq<char>>,
) -> (SessionModel, Seq<ToolModel>) {
    if is_stale_turn(s, ev) {
        (s, tools)
    } else {
        let r = spec_dispatch(spec_absorb(s, ev, project), tools, ev);
        (spec_recompute(r.0, r.1), r.1)
    }
}

fn retain_unfinished_agents(session: &mut Session)
    ensures
        final(session)@ == (SessionModel {
            agents: old(session)@.agents.filter(not_completed()),
            ..old(session)@
        }),
{
    let ghost v = agents_view(session.agents@);
    let mut kept: Vec<Agent> = Vec::new();
    let n = session.agents.len();
    let mut i: usize = 0;
    while i < n
        invariant
            n == session.agents@.len(),
            i <= n,
            v == agents_view(session.agents@),
            session == old(session),
            agents_view(kept@) == v.take(i as int).filter(not_completed()),
        decreases n - i,
    {
        proof {
            reveal(Seq::filter);
            assert(v.take(i + 1).drop_last() =~= v.take(i as int));
            assert(v.take(i + 1).last() == v[i as int]);
        }
        if session.agents[i].state != ActivityState::Completed {
            let a = Agent {
                id: session.agents[i].id.clone(),
                state: session.agents[i].state,
                last_activity_at: session.agents[i].last_activity_at,
            };
            let ghost before = kept@;
            kept.push(a);
            assert(agents_view(kept@) =~= agents_view(before).push(v[i as int]));
        }
        i = i + 1;
    }
    assert(v.take(n as int) =~= v);
    session.agents = kept;
}

fn set_actor(session: &mut Session, agent_id: &Option<String>, state: ActivityState, at: u64)
    ensures
        final(session)@ == (match agent_id.deep_view() {
            Some(a) => with_agent(old(session)@, a, state, at),
            None => SessionModel { root_state: state, ..old(session)@ },
        }),
{
    match agent_id {
        Some(a) => update_agent(session, a, state, at),
        None => {
            session.root_state = state;
        },
    }
}

fn legacy_call_id(name: &String) -> (id: String)
    ensures
        id@ == "legacy:"@ + name@,
{
    let mut id = String::new();
    id.append("legacy:");
    id.append(name.as_str());
    id
}

fn tool_phase(session: &mut Session, tools: &mut Vec<ActiveTool>, event: &HookEvent)
    ensures
        (final(session)@, tools_view(final(tools)@)) == spec_tool_phase(
            old(session)@,
            tools_view(old(tools)@),
            event@,
        ),
{
    let at = event.observed_at;
    match event.hook_event_name {
        HookEventKind::PreToolUse => {
            let name = match &event.tool_name {
                Some(n) => n.clone(),
                None => String::new(),
            };
            let id = match &event.tool_use_id {
                Some(i) => i.clone(),
                None => legacy_call_id(&name),
            };
            assert(id@ == started_call_id(event@));
            drop_call(tools, &id, &event.agent_id);
            let state = tool_state(name.as_str());
            let t = ActiveTool {
                id,
                name,
                state,
                started_at: at,
                agent_id: copy_opt(&event.agent_id),
            };
            assert(t@ == started_call(event@));
            let ghost before = tools@;
            tools.push(t);
            assert(tools_view(tools@) =~= tools_view(before).push(t@));
            if let Some(a) = &event.agent_id {
                update_agent(session, a, ActivityState::Working, at);
            }
        },
        HookEventKind::PostToolUse => {
            match &event.tool_use_id {
                Some(id) => drop_call(tools, id, &event.agent_id),
                None => drop_last_finished(tools, &event.agent_id, &event.tool_name),
            }
            match &event.agent_id {
                Some(a) => update_agent(session, a, ActivityState::Thinking, at),
                None => {
                    if session.root_state == ActivityState::Waiting {
                        session.root_state = ActivityState::Thinking;
                    }
                },
            }
        },
        HookEventKind::PermissionRequest => set_actor(
            session,
            &event.agent_id,
            ActivityState::Waiting,
            at,
        ),
        HookEventKind::PreCompact => set_actor(
            session,
            &event.agent_id,
            ActivityState::Composing,
            at,
        ),
        HookEventKind::PostCompact => set_actor(
            session,
            &event.agent_id,
            ActivityState::Thinking,
            at,
        ),
        HookEventKind::SubagentStart => {
            if let Some(a) = &event.agent_id {
                update_agent(session, a, ActivityState::Thinking, at);
            }
        },
        _ => {},
    }
}

fn dispatch(session: &mut Session, tools: &mut Vec<ActiveTool>, event: &HookEvent)
    ensures
        (final(session)@, tools_view(final(tools)@)) == spec_dispatch(
            old(session)@,
            tools_view(old(tools)@),
            event@,
        ),
{
    let at = event.observed_at;
    match event.hook_event_name {
        HookEventKind::SessionStart => {},
        HookEventKind::SessionEnd => {
            *tools = Vec::new();
            session.completed_at = Some(at);
            assert(tools_view(tools@) =~= Seq::<ToolModel>::empty());
        },
        HookEventKind::UserPromptSubmit => {
            match &event.agent_id {
                None => {
                    *tools = Vec::new();
                    retain_unfinished_agents(session);
                    session.current_turn_id = copy_opt(&event.turn_id);
                    session.root_state = ActivityState::Thinking;
                    session.started_at = Some(at);
                    session.completed_at = None;
                    assert(tools_view(tools@) =~= Seq::<ToolModel>::empty());
                },
                Some(a) => update_agent(session, a, ActivityState::Thinking, at),
            }
        },
        HookEventKind::PreToolUse | HookEventKind::PostToolUse | HookEventKind::PermissionRequest
        | HookEventKind::PreCompact | HookEventKind::PostCompact | HookEventKind::SubagentStart => {
            if session.started_at.is_none() || session.completed_at.is_some() {
                session.started_at = Some(at);
                session.completed_at = None;
                session.current_turn_id = copy_opt(&event.turn_id);
                session.root_state = ActivityState::Thinking;
            }
            tool_phase(session, tools, event);
        },
        HookEventKind::SubagentStop => {
            if let Some(a) = &event.agent_id {
                update_agent(session, a, ActivityState::Completed, at);
                drop_agent_calls(tools, a);
            }
        },
        HookEventKind::Stop | HookEventKind::Interrupt => {
            match &event.agent_id {
                Some(a) => {
                    update_agent(session, a, ActivityState::Completed, at);
                    drop_agent_calls(tools, a);
                },
                None => {
                    *tools = Vec::new();
                    session.completed_at = Some(at);
                    assert(tools_view(tools@) =~= Seq::<ToolModel>::empty());
                },
            }
        },
    }
}

/// Applies `event` to one session and its running calls; `project` is what the event's
/// working directory names.
pub(crate) fn step_session(
    session: &mut Session,
    tools: &mut Vec<ActiveTool>,
    event: &HookEvent,
    project: Option<String>,
)
    ensures
        (final(session)@, tools_view(final(tools)@)) == spec_step(
            old(session)@,
            tools_view(old(tools)@),
            event@,
            project.deep_view(),
        ),
{
    let kind = event.hook_event_name;
    if event.agent_id.is_none() && kind != HookEventKind::UserPromptSubmit && kind
        != HookEventKind::SessionStart && kind != HookEventKind::SessionEnd {
        if let (Some(current), Some(incoming)) = (&session.current_turn_id, &event.turn_id) {
            if *current != *incoming {
                return;
            }
        }
    }
    if !event.cwd.as_str().is_empty() {
        session.cwd = Some(event.cwd.clone());
        session.project = project;
    }
    if event.model.is_some() {
        session.model = copy_opt(&event.model);
    }
    session.last_activity_at = event.observed_at;
    let ghost absorbed = session@;
    assert(absorbed == spec_absorb(old(session)@, event@, project.deep_view()));
    dispatch(session, tools, event);
    recompute_session_state(session, tools);
}

} // verus!
