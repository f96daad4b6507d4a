//! What the activity tracker promises across events, cleanups and snapshots.
use vstd::prelude::*;
use crate::activity::calls::{last_finished, not_of_agent, other_call, without_last_finished};
use crate::activity::event::{EventModel, HookEventKind};
use crate::activity::consistency::{
    agent_key, call_key, entry_ok, has_tool_state, is_tool_state, lemma_last_finished_range,
    lemma_step_ok, session_key, session_ok,
};
use crate::activity::registry::{
    ACTIVE_AFTER_MS, COMPLETED_AFTER_MS, EntryModel, STALE_AFTER_MS, age, find_entry, fresh_session,
    keeps, kept_at, lemma_find_entry, next_stamp, sessions_of, shown, spec_apply_event,
    stepped_entry,
};
use crate::activity::session::{
    AgentModel, SessionModel, ToolModel, find_agent, latest_tool, spec_recompute, spec_update_agent,
};
use crate::activity::state::{ActivityState, last_separator, operation_of, spec_tool_state};
use crate::text::{ascii_lower, lower_char, starts_with};
use crate::activity::step::{is_stale_turn, not_completed, spec_begin_turn, spec_step, started_call};
use crate::unique::{lemma_filter_from, unique_by};

verus! {

broadcast use vstd::seq_lib::group_filter_ensures;

proof fn lemma_find_entry_result(entries: Seq<EntryModel>, id: Seq<char>)
    ensures
        find_entry(entries, id) matches Some(i) ==> 0 <= i < entries.len() && entries[i].session.id
            == id,
        find_entry(entries, id) is None ==> forall|k: int|
            0 <= k < entries.len() ==> #[trigger] entries[k].session.id != id,
    decreases entries.len(),
{
    if entries.len() > 0 {
        let rest = entries.drop_first();
        lemma_find_entry_result(rest, id);
        if find_entry(entries, id) is None {
            assert forall|k: int| 0 <= k < entries.len() implies #[trigger] entries[k].session.id
                != id by {
                if k > 0 {
                    assert(entries[k] == rest[k - 1]);
                }
            }
        }
    }
}

/// Sessions are independent: an event changes no other session than its own, and moves none.
pub proof fn law_other_sessions_untouched(
    entries: Seq<EntryModel>,
    ev: EventModel,
    project: Option<Seq<char>>,
    j: int,
)
    requires
        0 <= j < entries.len(),
        entries[j].session.id != ev.session_id,
    ensures
        spec_apply_event(entries, ev, project)[j] == entries[j],
        spec_apply_event(entries, ev, project).len() >= entries.len(),
{
    lemma_find_entry_result(entries, ev.session_id);
}

/// An event of a session that is not tracked yet starts tracking it, at the end.
pub proof fn law_new_session_tracked(entries: Seq<EntryModel>, ev: EventModel, project: Option<Seq<char>>)
    requires
        forall|k: int| 0 <= k < entries.len() ==> #[trigger] entries[k].session.id != ev.session_id,
    ensures
        spec_apply_event(entries, ev, project).len() == entries.len() + 1,
        spec_apply_event(entries, ev, project).last().session.id == ev.session_id,
{
    lemma_find_entry(entries, ev.session_id, entries.len() as int);
    let e = EntryModel {
        session: fresh_session(ev, project),
        tools: Seq::empty(),
    };
    assert(unique_by(Seq::<AgentModel>::empty(), agent_key()));
    assert(unique_by(Seq::<ToolModel>::empty(), call_key()));
    lemma_step_ok(e.session, e.tools, ev, project);
}

/// A late root event of an earlier turn leaves the tracked sessions as they were.
pub proof fn law_late_turn_event_ignored(
    entries: Seq<EntryModel>,
    ev: EventModel,
    project: Option<Seq<char>>,
    i: int,
)
    requires
        unique_by(entries, session_key()),
        0 <= i < entries.len(),
        entries[i].session.id == ev.session_id,
        is_stale_turn(entries[i].session, ev),
    ensures
        spec_apply_event(entries, ev, project) == entries,
{
    lemma_find_entry_result(entries, ev.session_id);
    let f = find_entry(entries, ev.session_id);
    assert(f == Some(i)) by {
        if let Some(k) = f {
            if k != i {
                assert(session_key()(entries[k]) != session_key()(entries[i]));
            }
        }
    }
    assert(entries.update(i, stepped_entry(entries[i], ev, project)) =~= entries);
}

/// Finishing a call with its identifier ends that call of that caller only: every other
/// running call stays, and none of that identifier and caller remains.
pub proof fn law_finish_only_own_call(
    s: SessionModel,
    tools: Seq<ToolModel>,
    ev: EventModel,
    project: Option<Seq<char>>,
    id: Seq<char>,
)
    requires
        ev.kind == HookEventKind::PostToolUse,
        ev.tool_use_id == Some(id),
        !is_stale_turn(s, ev),
    ensures
        forall|k: int|
            0 <= k < tools.len() && !(tools[k].id == id && tools[k].agent_id == ev.agent_id)
                ==> spec_step(s, tools, ev, project).1.contains(#[trigger] tools[k]),
        forall|k: int|
            0 <= k < spec_step(s, tools, ev, project).1.len() ==> !(
            #[trigger] spec_step(s, tools, ev, project).1[k].id == id && spec_step(
                s,
                tools,
                ev,
                project,
            ).1[k].agent_id == ev.agent_id),
{
    let pred = other_call(id, ev.agent_id);
    assert(spec_step(s, tools, ev, project).1 == tools.filter(pred));
    assert forall|k: int|
        0 <= k < tools.filter(pred).len() implies !(#[trigger] tools.filter(pred)[k].id == id
        && tools.filter(pred)[k].agent_id == ev.agent_id) by {
        lemma_filter_from(tools, pred, k);
    }
}

/// A new prompt of the user drops the agents that have completed and keeps every other one.
pub proof fn law_new_turn_drops_completed_agents(
    s: SessionModel,
    tools: Seq<ToolModel>,
    ev: EventModel,
    project: Option<Seq<char>>,
)
    requires
        ev.kind == HookEventKind::UserPromptSubmit,
        ev.agent_id is None,
    ensures
        forall|k: int|
            0 <= k < spec_step(s, tools, ev, project).0.agents.len() ==> (#[trigger] spec_step(
                s,
                tools,
                ev,
                project,
            ).0.agents[k]).state != ActivityState::Completed,
        forall|k: int|
            0 <= k < s.agents.len() && s.agents[k].state != ActivityState::Completed
                ==> spec_step(s, tools, ev, project).0.agents.contains(#[trigger] s.agents[k]),
        spec_step(s, tools, ev, project).1.len() == 0,
        spec_step(s, tools, ev, project).0.started_at == Some(ev.observed_at),
        spec_step(s, tools, ev, project).0.current_turn_id == ev.turn_id,
{
    let a = s.agents;
    let pred = not_completed();
    assert(spec_step(s, tools, ev, project).0.agents == a.filter(pred));
    assert forall|k: int| 0 <= k < a.filter(pred).len() implies (#[trigger] a.filter(pred)[k]).state
        != ActivityState::Completed by {
        lemma_filter_from(a, pred, k);
    }
}

/// A call of the root (not of an agent).
pub open spec fn is_root_call() -> spec_fn(ToolModel) -> bool {
    |t: ToolModel| t.agent_id is None
}

/// The running calls of the root.
pub open spec fn root_calls(tools: Seq<ToolModel>) -> Seq<ToolModel> {
    tools.filter(is_root_call())
}

proof fn lemma_root_calls_filter(tools: Seq<ToolModel>, p: spec_fn(ToolModel) -> bool)
    requires
        forall|t: ToolModel| #[trigger] p(t) || t.agent_id is Some,
    ensures
        root_calls(tools.filter(p)) == root_calls(tools),
    decreases tools.len(),
{
    reveal(Seq::filter);
    if tools.len() > 0 {
        lemma_root_calls_filter(tools.drop_last(), p);
        let t = tools.last();
        if p(t) {
            assert(tools.filter(p).drop_last() =~= tools.drop_last().filter(p));
            assert(tools.filter(p).last() == t);
        } else {
            assert(tools.filter(p) == tools.drop_last().filter(p));
        }
    }
}

proof fn lemma_root_calls_push(tools: Seq<ToolModel>, t: ToolModel)
    requires
        t.agent_id is Some,
    ensures
        root_calls(tools.push(t)) == root_calls(tools),
{
    reveal(Seq::filter);
    assert(tools.push(t).drop_last() =~= tools);
}

proof fn lemma_root_calls_remove(tools: Seq<ToolModel>, p: int)
    requires
        0 <= p < tools.len(),
        tools[p].agent_id is Some,
    ensures
        root_calls(tools.remove(p)) == root_calls(tools),
    decreases tools.len(),
{
    reveal(Seq::filter);
    let r = tools.remove(p);
    if p == tools.len() - 1 {
        assert(r =~= tools.drop_last());
    } else {
        lemma_root_calls_remove(tools.drop_last(), p);
        assert(r.drop_last() =~= tools.drop_last().remove(p));
        assert(r.last() == tools.last());
    }
}

proof fn lemma_latest_root(tools: Seq<ToolModel>)
    ensures
        latest_tool(tools, true) == latest_tool(root_calls(tools), true),
    decreases tools.len(),
{
    reveal(Seq::filter);
    if tools.len() > 0 {
        lemma_latest_root(tools.drop_last());
        let t = tools.last();
        if t.agent_id is None {
            assert(root_calls(tools).drop_last() =~= root_calls(tools.drop_last()));
        }
    }
}

proof fn lemma_last_finished_of_agent(
    tools: Seq<ToolModel>,
    agent: Option<Seq<char>>,
    name: Option<Seq<char>>,
)
    ensures
        last_finished_agent_ok(tools, agent, name),
    decreases tools.len(),
{
    lemma_last_finished_range(tools, agent, name);
    if tools.len() > 0 {
        lemma_last_finished_of_agent(tools.drop_last(), agent, name);
    }
}

/// The call that a finish without identifier ends belongs to the finishing caller.
pub open spec fn last_finished_agent_ok(
    tools: Seq<ToolModel>,
    agent: Option<Seq<char>>,
    name: Option<Seq<char>>,
) -> bool {
    last_finished(tools, agent, name) matches Some(p) ==> 0 <= p < tools.len()
        && tools[p].agent_id == agent
}

/// Events of an agent never change what the root does: the root's state, turn, start and
/// completion, and its running calls, stay as they were (for a session already in a turn);
/// so while a root call runs, the session keeps showing it.
pub proof fn law_agent_events_keep_root(
    s: SessionModel,
    tools: Seq<ToolModel>,
    ev: EventModel,
    project: Option<Seq<char>>,
)
    requires
        session_ok(s, tools),
        ev.agent_id is Some,
        ev.kind != HookEventKind::SessionEnd,
        s.started_at is Some,
        s.completed_at is None,
    ensures
        spec_step(s, tools, ev, project).0.root_state == s.root_state,
        spec_step(s, tools, ev, project).0.started_at == s.started_at,
        spec_step(s, tools, ev, project).0.completed_at == s.completed_at,
        spec_step(s, tools, ev, project).0.current_turn_id == s.current_turn_id,
        root_calls(spec_step(s, tools, ev, project).1) == root_calls(tools),
        latest_tool(tools, true) is Some && s.root_state != ActivityState::Waiting ==> spec_step(
            s,
            tools,
            ev,
            project,
        ).0.state == s.state && spec_step(s, tools, ev, project).0.current_command
            == s.current_command,
{
    let a = ev.agent_id->0;
    assert(spec_begin_turn(s, ev) == s);
    let r = spec_step(s, tools, ev, project);
    match ev.kind {
        HookEventKind::PreToolUse => {
            let t = started_call(ev);
            lemma_root_calls_filter(tools, other_call(t.id, ev.agent_id));
            lemma_root_calls_push(tools.filter(other_call(t.id, ev.agent_id)), t);
        },
        HookEventKind::PostToolUse => {
            match ev.tool_use_id {
                Some(id) => {
                    lemma_root_calls_filter(tools, other_call(id, ev.agent_id));
                },
                None => {
                    lemma_last_finished_of_agent(tools, ev.agent_id, ev.tool_name);
                    if let Some(p) = last_finished(tools, ev.agent_id, ev.tool_name) {
                        lemma_root_calls_remove(tools, p);
                    }
                    assert(r.1 == without_last_finished(tools, ev.agent_id, ev.tool_name));
                },
            }
        },
        HookEventKind::SubagentStop | HookEventKind::Stop | HookEventKind::Interrupt => {
            lemma_root_calls_filter(tools, not_of_agent(a));
        },
        _ => {},
    }
    lemma_latest_root(tools);
    lemma_latest_root(r.1);
}

/// A tool, permission, compaction or agent-start event puts its session in a turn: started,
/// not completed, neither idle nor shown as completed.
pub proof fn law_turn_events_start_session(
    s: SessionModel,
    tools: Seq<ToolModel>,
    ev: EventModel,
    project: Option<Seq<char>>,
)
    requires
        session_ok(s, tools),
        ev.kind == HookEventKind::PreToolUse || ev.kind == HookEventKind::PostToolUse || ev.kind
            == HookEventKind::PermissionRequest || ev.kind == HookEventKind::PreCompact || ev.kind
            == HookEventKind::PostCompact || ev.kind == HookEventKind::SubagentStart,
        !is_stale_turn(s, ev),
    ensures
        spec_step(s, tools, ev, project).0.started_at is Some,
        spec_step(s, tools, ev, project).0.completed_at is None,
        spec_step(s, tools, ev, project).0.state != ActivityState::Idle,
        spec_step(s, tools, ev, project).0.state != ActivityState::Completed,
{
    lemma_step_ok(s, tools, ev, project);
}

/// The end of a session, or a root stop or interrupt of the current turn, completes the
/// session at that time and ends every running call.
pub proof fn law_end_completes_session(
    s: SessionModel,
    tools: Seq<ToolModel>,
    ev: EventModel,
    project: Option<Seq<char>>,
)
    requires
        ev.kind == HookEventKind::SessionEnd || ((ev.kind == HookEventKind::Stop || ev.kind
            == HookEventKind::Interrupt) && ev.agent_id is None && !is_stale_turn(s, ev)),
    ensures
        spec_step(s, tools, ev, project).0.state == ActivityState::Completed,
        spec_step(s, tools, ev, project).0.completed_at == Some(ev.observed_at),
        spec_step(s, tools, ev, project).0.current_command is None,
        spec_step(s, tools, ev, project).1.len() == 0,
{
}

/// The tracked sessions are consistent after any event, whatever the project name.
pub proof fn law_event_keeps_sessions_consistent(
    e: EntryModel,
    ev: EventModel,
    project: Option<Seq<char>>,
)
    requires
        entry_ok(e),
    ensures
        entry_ok(stepped_entry(e, ev, project)),
        stepped_entry(e, ev, project).session.id == e.session.id,
{
    lemma_step_ok(e.session, e.tools, ev, project);
}

proof fn lemma_filter_len_all<A>(s: Seq<A>, p: spec_fn(A) -> bool)
    ensures
        s.filter(p).len() == s.len() <==> (forall|i: int| 0 <= i < s.len() ==> p(#[trigger] s[i])),
    decreases s.len(),
{
    reveal(Seq::filter);
    if s.len() > 0 {
        let rest = s.drop_last();
        lemma_filter_len_all(rest, p);
        rest.lemma_filter_len(p);
        if (forall|i: int| 0 <= i < s.len() ==> p(#[trigger] s[i])) {
            assert forall|i: int| 0 <= i < rest.len() implies p(#[trigger] rest[i]) by {
                assert(rest[i] == s[i]);
            }
            assert(p(s[s.len() - 1]));
        } else {
            let i = choose|i: int| 0 <= i < s.len() && !p(#[trigger] s[i]);
            if i < s.len() - 1 {
                assert(rest[i] == s[i]);
            }
        }
    }
}

/// A cleanup reports a change exactly when it drops some session.
pub proof fn law_cleanup_reports_drops(entries: Seq<EntryModel>, now: u64)
    ensures
        (entries.filter(kept_at(now)).len() != entries.len()) <==> exists|i: int|
            0 <= i < entries.len() && !keeps(#[trigger] entries[i], now),
{
    lemma_filter_len_all(entries, kept_at(now));
    if entries.filter(kept_at(now)).len() != entries.len() {
        let i = choose|i: int| 0 <= i < entries.len() && !kept_at(now)(#[trigger] entries[i]);
        assert(!keeps(entries[i], now));
    }
}

/// A completed session stays shown for the display period after its completion, then goes.
pub proof fn law_completed_shown_for_display_period(e: EntryModel, now: u64)
    requires
        entry_ok(e),
        e.session.state == ActivityState::Completed,
    ensures
        e.session.completed_at is Some,
        keeps(e, now) <==> age(now, e.session.completed_at->0) <= COMPLETED_AFTER_MS,
{
}

/// A session waiting for a permission, or with a running call, outlives the stale period: it
/// goes only when its last activity is older than the active period.
pub proof fn law_active_sessions_outlive_stale_period(e: EntryModel, now: u64)
    requires
        entry_ok(e),
        e.session.state == ActivityState::Waiting || e.tools.len() > 0,
    ensures
        keeps(e, now) <==> age(now, e.session.last_activity_at) <= ACTIVE_AFTER_MS,
        age(now, e.session.last_activity_at) <= STALE_AFTER_MS ==> keeps(e, now),
{
    if e.tools.len() > 0 {
        assert(has_tool_state()(e.tools[0]));
        assert(is_tool_state(e.tools[0].state));
    }
}

/// Snapshot stamps never go back: a stamp is at least the time it was taken at and, unless
/// the previous stamp is the largest time there is, later than the previous one.
pub proof fn law_stamps_increase(previous: u64, now: u64)
    ensures
        next_stamp(previous, now) >= now,
        next_stamp(previous, now) >= previous,
        previous < u64::MAX ==> next_stamp(previous, now) > previous,
{
}

/// A snapshot never shows an idle session.
pub proof fn law_snapshot_hides_idle(entries: Seq<EntryModel>)
    ensures
        forall|k: int|
            0 <= k < sessions_of(entries.filter(shown())).len() ==> (#[trigger] sessions_of(
                entries.filter(shown()),
            )[k]).state != ActivityState::Idle,
{
    assert forall|k: int| 0 <= k < sessions_of(entries.filter(shown())).len() implies (
    #[trigger] sessions_of(entries.filter(shown()))[k]).state != ActivityState::Idle by {
        lemma_filter_from(entries, shown(), k);
    }
}

/// The classes of tools that only a tool's operation decides.
pub open spec fn decided_by_operation(state: ActivityState) -> bool {
    state == ActivityState::RunningCommand || state == ActivityState::Editing || state
        == ActivityState::Searching
}

/// A `"__"` separator starts at `i`.
pub open spec fn separator_at(s: Seq<char>, i: int) -> bool {
    0 <= i && i + 1 < s.len() && s[i] == '_' && s[i + 1] == '_'
}

proof fn lemma_no_separator(s: Seq<char>)
    requires
        last_separator(s) is None,
    ensures
        forall|i: int| !#[trigger] separator_at(s, i),
    decreases s.len(),
{
    if s.len() >= 2 {
        lemma_no_separator(s.drop_last());
        assert forall|i: int| !#[trigger] separator_at(s, i) by {
            if separator_at(s, i) && i + 2 < s.len() {
                assert(separator_at(s.drop_last(), i));
            }
        }
    }
}

proof fn lemma_last_separator_at(s: Seq<char>, j: int, n: int)
    requires
        0 <= j,
        j + 2 <= n <= s.len(),
        separator_at(s, j),
        forall|i: int| j < i && i + 1 < n ==> !#[trigger] separator_at(s, i),
    ensures
        last_separator(s.take(n)) == Some(j),
    decreases n,
{
    let t = s.take(n);
    if n > j + 2 {
        assert(!separator_at(s, n - 2));
        assert(t.drop_last() =~= s.take(n - 1));
        lemma_last_separator_at(s, j, n - 1);
    }
}

proof fn lemma_last_separator_is_last(s: Seq<char>)
    ensures
        last_separator(s) matches Some(k) ==> {
            &&& separator_at(s, k)
            &&& forall|i: int| k < i ==> !#[trigger] separator_at(s, i)
        },
    decreases s.len(),
{
    if s.len() >= 2 && !(s[s.len() - 2] == '_' && s[s.len() - 1] == '_') {
        let t = s.drop_last();
        lemma_last_separator_is_last(t);
        if let Some(k) = last_separator(t) {
            assert(separator_at(t, k));
            assert forall|i: int| k < i implies !#[trigger] separator_at(s, i) by {
                if separator_at(s, i) && i + 2 < s.len() {
                    assert(separator_at(t, i));
                }
            }
        }
    }
}

/// Only the last `"__"`-separated segment of a tool's name decides whether the tool runs a
/// command, edits or searches: any prefix segments leave that class as it is.
pub proof fn law_tool_state_uses_last_segment(prefix: Seq<char>, op: Seq<char>)
    requires
        !(op.len() > 0 && op[0] == '_'),
        decided_by_operation(spec_tool_state(op)),
    ensures
        spec_tool_state(prefix + "__"@ + op) == spec_tool_state(op),
{
    reveal_strlit("__");
    let s = prefix + "__"@ + op;
    let j = prefix.len() as int;
    assert forall|i: int| 0 <= i < op.len() implies s[j + 2 + i] == op[i] by {}
    match last_separator(op) {
        None => {
            lemma_no_separator(op);
            assert(s[j] == '_' && s[j + 1] == '_');
            assert forall|i: int| j < i && i + 1 < s.len() implies !#[trigger] separator_at(
                s,
                i,
            ) by {
                if i == j + 1 {
                    assert(s[i + 1] == op[0]);
                } else {
                    assert(s[i] == op[i - j - 2] && s[i + 1] == op[i - j - 1]);
                    assert(!separator_at(op, i - j - 2));
                }
            }
            lemma_last_separator_at(s, j, s.len() as int);
            assert(s.take(s.len() as int) =~= s);
            assert(operation_of(s) =~= op);
        },
        Some(k) => {
            lemma_last_separator_is_last(op);
            let m = j + 2 + k;
            assert(separator_at(op, k));
            assert(s[m] == op[k] && s[m + 1] == op[k + 1]);
            assert forall|i: int| m < i && i + 1 < s.len() implies !#[trigger] separator_at(
                s,
                i,
            ) by {
                assert(s[i] == op[i - j - 2] && s[i + 1] == op[i - j - 1]);
                assert(!separator_at(op, i - j - 2));
            }
            lemma_last_separator_at(s, m, s.len() as int);
            assert(s.take(s.len() as int) =~= s);
            assert(operation_of(s) =~= operation_of(op));
        },
    }
}

proof fn lemma_last_separator_range(s: Seq<char>)
    ensures
        last_separator(s) matches Some(k) ==> 0 <= k && k + 2 <= s.len(),
    decreases s.len(),
{
    if s.len() >= 2 {
        lemma_last_separator_range(s.drop_last());
    }
}

proof fn lemma_same_separators(a: Seq<char>, b: Seq<char>)
    requires
        a.len() == b.len(),
        forall|i: int| 0 <= i < a.len() ==> (a[i] == '_' <==> b[i] == '_'),
    ensures
        last_separator(a) == last_separator(b),
    decreases a.len(),
{
    if a.len() >= 2 {
        lemma_same_separators(a.drop_last(), b.drop_last());
    }
}

/// ASCII case does not decide whether a tool runs a command, edits or searches: two names
/// that are equal ignoring ASCII case fall in the same of those classes.
pub proof fn law_tool_state_ignores_ascii_case(a: Seq<char>, b: Seq<char>)
    requires
        ascii_lower(a) == ascii_lower(b),
        decided_by_operation(spec_tool_state(a)),
    ensures
        spec_tool_state(b) == spec_tool_state(a),
{
    assert(a.len() == b.len()) by {
        assert(ascii_lower(a).len() == a.len() && ascii_lower(b).len() == b.len());
    }
    assert forall|i: int| 0 <= i < a.len() implies (a[i] == '_' <==> b[i] == '_') by {
        assert(ascii_lower(a)[i] == lower_char(a[i]));
        assert(ascii_lower(b)[i] == lower_char(b[i]));
    }
    lemma_same_separators(a, b);
    lemma_last_separator_range(a);
    match last_separator(a) {
        Some(k) => {
            assert(ascii_lower(operation_of(a)) =~= ascii_lower(a).skip(k + 2));
            assert(ascii_lower(operation_of(b)) =~= ascii_lower(b).skip(k + 2));
        },
        None => {},
    }
}

/// Operations that run a shell command.
pub open spec fn command_op(op: Seq<char>) -> bool {
    op == "bash"@ || op == "exec_command"@ || op == "shell_command"@
}

/// Operations that edit files: patches, edits and writes.
pub open spec fn editing_op(op: Seq<char>) -> bool {
    op == "apply_patch"@ || op == "edit"@ || op == "write"@ || starts_with(op, "write_"@)
        || starts_with(op, "edit_"@)
}

/// Operations that look things up: search, find, read, list, query and get, alone or
/// followed by `_`.
pub open spec fn searching_op(op: Seq<char>) -> bool {
    ||| op == "search"@ || starts_with(op, "search_"@)
    ||| op == "find"@ || starts_with(op, "find_"@)
    ||| op == "read"@ || starts_with(op, "read_"@)
    ||| op == "list"@ || starts_with(op, "list_"@)
    ||| op == "query"@ || starts_with(op, "query_"@)
    ||| op == "get"@ || starts_with(op, "get_"@)
}

/// How a tool's name classifies it, by its operation (what follows its last `"__"`, in ASCII
/// lower case): shell operations run a command; patches, edits and writes edit; lookups
/// search; any other tool of an MCP server (its name begins with `mcp__`) connects; anything
/// else works.
pub proof fn law_tool_state_classes(name: Seq<char>)
    ensures
        ({
            let op = ascii_lower(operation_of(name));
            let st = spec_tool_state(name);
            &&& st == ActivityState::RunningCommand <==> command_op(op)
            &&& st == ActivityState::Editing <==> editing_op(op)
            &&& st == ActivityState::Searching <==> searching_op(op)
            &&& st == ActivityState::Connecting <==> (!command_op(op) && !editing_op(op)
                && !searching_op(op) && starts_with(name, "mcp__"@))
            &&& st == ActivityState::Working <==> (!command_op(op) && !editing_op(op)
                && !searching_op(op) && !starts_with(name, "mcp__"@))
        }),
{
    reveal_strlit("bash");
    reveal_strlit("exec_command");
    reveal_strlit("shell_command");
    reveal_strlit("apply_patch");
    reveal_strlit("edit");
    reveal_strlit("write");
    reveal_strlit("write_");
    reveal_strlit("edit_");
    reveal_strlit("search");
    reveal_strlit("search_");
    reveal_strlit("find");
    reveal_strlit("find_");
    reveal_strlit("read");
    reveal_strlit("read_");
    reveal_strlit("list");
    reveal_strlit("list_");
    reveal_strlit("query");
    reveal_strlit("query_");
    reveal_strlit("get");
    reveal_strlit("get_");
    reveal_strlit("mcp__");
    assert("search"@.push('_') =~= "search_"@);
    assert("find"@.push('_') =~= "find_"@);
    assert("read"@.push('_') =~= "read_"@);
    assert("list"@.push('_') =~= "list_"@);
    assert("query"@.push('_') =~= "query_"@);
    assert("get"@.push('_') =~= "get_"@);
    let op = ascii_lower(operation_of(name));
    lemma_prefix_chars(op, "edit_"@);
    lemma_prefix_chars(op, "write_"@);
    lemma_prefix_chars(op, "search_"@);
    lemma_prefix_chars(op, "find_"@);
    lemma_prefix_chars(op, "read_"@);
    lemma_prefix_chars(op, "list_"@);
    lemma_prefix_chars(op, "query_"@);
    lemma_prefix_chars(op, "get_"@);
    if op.len() >= 2 {
        let c0 = op[0];
        let c1 = op[1];
        assert(c0 == op[0] && c1 == op[1]);
    }
}

proof fn lemma_prefix_chars(s: Seq<char>, p: Seq<char>)
    ensures
        starts_with(s, p) ==> forall|i: int| 0 <= i < p.len() ==> #[trigger] s[i] == p[i],
{
    if starts_with(s, p) {
        assert forall|i: int| 0 <= i < p.len() implies #[trigger] s[i] == p[i] by {
            assert(s.take(p.len() as int)[i] == s[i]);
        }
    }
}

/// The age of an event at `now`, in milliseconds: how long ago it happened (none yet when it
/// lies ahead).
pub open spec fn elapsed(now: u64, at: u64) -> int {
    if now >= at {
        now - at
    } else {
        0
    }
}

/// Which sessions a cleanup at `now` keeps: a completed one while its completion is at most the
/// display period old; one waiting for a permission or with a running call while its last
/// activity is at most the active period old; any other while its last activity is at most
/// the stale period old.
pub proof fn law_cleanup_periods(e: EntryModel, now: u64)
    ensures
        e.session.state == ActivityState::Completed ==> (keeps(e, now) <==> elapsed(
            now,
            match e.session.completed_at {
                Some(at) => at,
                None => e.session.last_activity_at,
            },
        ) <= COMPLETED_AFTER_MS),
        e.session.state != ActivityState::Completed && (e.session.state == ActivityState::Waiting
            || e.tools.len() > 0) ==> (keeps(e, now) <==> elapsed(now, e.session.last_activity_at)
            <= ACTIVE_AFTER_MS),
        e.session.state != ActivityState::Completed && e.session.state != ActivityState::Waiting
            && e.tools.len() == 0 ==> (keeps(e, now) <==> elapsed(now, e.session.last_activity_at)
            <= STALE_AFTER_MS),
{
}

/// A snapshot shows every session that is not idle, and nothing else, in the order the
/// sessions are tracked: in particular a completed session that is still kept shows.
pub proof fn law_snapshot_shows_every_busy_session(entries: Seq<EntryModel>)
    ensures
        sessions_of(entries.filter(shown())) == sessions_of(entries).filter(
            |s: SessionModel| s.state != ActivityState::Idle,
        ),
        forall|k: int|
            0 <= k < entries.len() && entries[k].session.state != ActivityState::Idle
                ==> sessions_of(entries.filter(shown())).contains(#[trigger] entries[k].session),
    decreases entries.len(),
{
    let busy = |s: SessionModel| s.state != ActivityState::Idle;
    if entries.len() > 0 {
        let rest = entries.drop_last();
        law_snapshot_shows_every_busy_session(rest);
        assert(entries =~= rest.push(entries.last()));
        assert(sessions_of(entries) =~= sessions_of(rest).push(entries.last().session));
        reveal(Seq::filter);
        assert(sessions_of(entries).drop_last() =~= sessions_of(rest));
        assert(entries.drop_last() =~= rest);
        if entries.last().session.state != ActivityState::Idle {
            assert(sessions_of(entries.filter(shown())) =~= sessions_of(rest.filter(shown())).push(
                entries.last().session,
            ));
        } else {
            assert(sessions_of(entries.filter(shown())) =~= sessions_of(rest.filter(shown())));
        }
    } else {
        assert(sessions_of(entries.filter(shown())) =~= Seq::<SessionModel>::empty());
        assert(sessions_of(entries).filter(busy) =~= Seq::<SessionModel>::empty());
    }
    let shown_sessions = sessions_of(entries.filter(shown()));
    assert forall|k: int|
        0 <= k < entries.len() && entries[k].session.state != ActivityState::Idle
            implies shown_sessions.contains(#[trigger] entries[k].session) by {
        assert(sessions_of(entries)[k] == entries[k].session);
        assert(sessions_of(entries).filter(busy).contains(entries[k].session));
    }
}

/// When a call of the root finishes, the root no longer waits for a permission: a pending
/// permission was answered and the root thinks again (on a session that has started and not
/// completed, a root in any other state keeps it). So once no call is running and no agent
/// waits, the session shows that it thinks.
pub proof fn law_root_call_end_clears_waiting(
    s: SessionModel,
    tools: Seq<ToolModel>,
    ev: EventModel,
    project: Option<Seq<char>>,
)
    requires
        ev.kind == HookEventKind::PostToolUse,
        ev.agent_id is None,
        !is_stale_turn(s, ev),
    ensures
        spec_step(s, tools, ev, project).0.root_state != ActivityState::Waiting,
        s.started_at is Some && s.completed_at is None ==> spec_step(s, tools, ev, project).0.root_state
            == (if s.root_state == ActivityState::Waiting {
            ActivityState::Thinking
        } else {
            s.root_state
        }),
        s.started_at is Some && s.completed_at is None && s.root_state == ActivityState::Waiting
            && spec_step(s, tools, ev, project).1.len() == 0 && (forall|j: int|
            0 <= j < s.agents.len() ==> #[trigger] s.agents[j].state != ActivityState::Waiting)
            ==> spec_step(s, tools, ev, project).0.state == ActivityState::Thinking,
{
    let r = spec_step(s, tools, ev, project);
    if s.started_at is Some && s.completed_at is None && s.root_state == ActivityState::Waiting
        && r.1.len() == 0 && (forall|j: int|
        0 <= j < s.agents.len() ==> #[trigger] s.agents[j].state != ActivityState::Waiting) {
        assert(latest_tool(r.1, true) is None);
        assert(latest_tool(r.1, false) is None);
        assert(r.0.agents == s.agents);
    }
}

/// A permission request of the root makes the session wait, whatever calls are running and
/// whatever state the session was in.
pub proof fn law_root_permission_waits(
    s: SessionModel,
    tools: Seq<ToolModel>,
    ev: EventModel,
    project: Option<Seq<char>>,
)
    requires
        ev.kind == HookEventKind::PermissionRequest,
        ev.agent_id is None,
        !is_stale_turn(s, ev),
    ensures
        spec_step(s, tools, ev, project).0.root_state == ActivityState::Waiting,
        spec_step(s, tools, ev, project).0.state == ActivityState::Waiting,
        spec_step(s, tools, ev, project).1 == tools,
{
}

proof fn lemma_latest_member(tools: Seq<ToolModel>, root: bool)
    ensures
        latest_tool(tools, root) matches Some(t) ==> (t.agent_id is None) == root && exists|j: int|
            0 <= j < tools.len() && #[trigger] tools[j] == t,
    decreases tools.len(),
{
    if tools.len() > 0 {
        let rest = tools.drop_last();
        lemma_latest_member(rest, root);
        if let Some(t) = latest_tool(rest, root) {
            let j = choose|j: int| 0 <= j < rest.len() && #[trigger] rest[j] == t;
            assert(tools[j] == t);
        }
        assert(tools[tools.len() - 1] == tools.last());
    }
}

proof fn lemma_latest_none(tools: Seq<ToolModel>, root: bool)
    requires
        forall|j: int| 0 <= j < tools.len() ==> (#[trigger] tools[j].agent_id is None) != root,
    ensures
        latest_tool(tools, root) is None,
    decreases tools.len(),
{
    if tools.len() > 0 {
        let rest = tools.drop_last();
        assert forall|j: int| 0 <= j < rest.len() implies (#[trigger] rest[j].agent_id is None)
            != root by {
            assert(rest[j] == tools[j]);
        }
        lemma_latest_none(rest, root);
        assert(tools.last() == tools[tools.len() - 1]);
    }
}

/// Call `k` is the one of its caller kind (`root`: the root's, else the agents') started last,
/// the last of them in order when several started at that time.
pub open spec fn started_last(tools: Seq<ToolModel>, root: bool, k: int) -> bool {
    &&& 0 <= k < tools.len()
    &&& (tools[k].agent_id is None) == root
    &&& forall|j: int|
        0 <= j < tools.len() && (tools[j].agent_id is None) == root ==> #[trigger] tools[j].started_at
            <= tools[k].started_at
    &&& forall|j: int|
        k < j < tools.len() && (tools[j].agent_id is None) == root ==> #[trigger] tools[j].started_at
            < tools[k].started_at
}

proof fn lemma_latest_is_started_last(tools: Seq<ToolModel>, root: bool, k: int)
    requires
        started_last(tools, root, k),
    ensures
        latest_tool(tools, root) == Some(tools[k]),
    decreases tools.len(),
{
    let n = tools.len() - 1;
    let rest = tools.drop_last();
    let t = tools.last();
    assert(t == tools[n]);
    if k == n {
        lemma_latest_member(rest, root);
        if let Some(e) = latest_tool(rest, root) {
            let j = choose|j: int| 0 <= j < rest.len() && #[trigger] rest[j] == e;
            assert(tools[j] == e);
        }
    } else {
        assert forall|j: int|
            0 <= j < rest.len() && (rest[j].agent_id is None) == root implies #[trigger] rest[j].started_at
            <= rest[k].started_at by {
            assert(rest[j] == tools[j]);
        }
        assert forall|j: int|
            k < j < rest.len() && (rest[j].agent_id is None) == root implies #[trigger] rest[j].started_at
            < rest[k].started_at by {
            assert(rest[j] == tools[j]);
        }
        assert(rest[k] == tools[k]);
        lemma_latest_is_started_last(rest, root, k);
    }
}

/// What a session shows. A completed session shows that it completed and no command; else a
/// root waiting for a permission shows first, whatever calls run.
pub proof fn law_shown_state_completed_and_waiting(s: SessionModel, tools: Seq<ToolModel>)
    ensures
        s.completed_at is Some ==> spec_recompute(s, tools).state == ActivityState::Completed
            && spec_recompute(s, tools).current_command is None,
        s.completed_at is None && s.root_state == ActivityState::Waiting ==> spec_recompute(
            s,
            tools,
        ).state == ActivityState::Waiting,
        spec_recompute(s, tools).id == s.id && spec_recompute(s, tools).root_state == s.root_state
            && spec_recompute(s, tools).agents == s.agents && spec_recompute(s, tools).started_at
            == s.started_at && spec_recompute(s, tools).last_activity_at == s.last_activity_at,
{
}

/// Else, with a call of the root running, the session shows the class of the root's call
/// started last, and its name as the command when it runs a command.
pub proof fn law_shown_state_latest_root_call(s: SessionModel, tools: Seq<ToolModel>, k: int)
    requires
        s.completed_at is None,
        s.root_state != ActivityState::Waiting,
        started_last(tools, true, k),
    ensures
        spec_recompute(s, tools).state == tools[k].state,
        spec_recompute(s, tools).current_command == (if tools[k].state
            == ActivityState::RunningCommand {
            Some(tools[k].name)
        } else {
            None
        }),
{
    lemma_latest_is_started_last(tools, true, k);
}

/// Else, with only calls of agents running, the session shows the class of the agents' call
/// started last, and no command.
pub proof fn law_shown_state_latest_agent_call(s: SessionModel, tools: Seq<ToolModel>, k: int)
    requires
        s.completed_at is None,
        s.root_state != ActivityState::Waiting,
        forall|j: int| 0 <= j < tools.len() ==> #[trigger] tools[j].agent_id is Some,
        started_last(tools, false, k),
    ensures
        spec_recompute(s, tools).state == tools[k].state,
        spec_recompute(s, tools).current_command is None,
{
    lemma_latest_none(tools, true);
    lemma_latest_is_started_last(tools, false, k);
}

/// Else, with no call running: a compacting root shows that; else a waiting agent makes the
/// session wait; else a started session thinks and one never started is idle.
pub proof fn law_shown_state_without_calls(s: SessionModel, tools: Seq<ToolModel>)
    requires
        s.completed_at is None,
        s.root_state != ActivityState::Waiting,
        tools.len() == 0,
    ensures
        spec_recompute(s, tools).current_command is None,
        spec_recompute(s, tools).state == (if s.root_state == ActivityState::Composing {
            ActivityState::Composing
        } else if exists|j: int|
            0 <= j < s.agents.len() && #[trigger] s.agents[j].state == ActivityState::Waiting {
            ActivityState::Waiting
        } else if s.started_at is Some {
            ActivityState::Thinking
        } else {
            ActivityState::Idle
        }),
{
}

/// Every event that is not a late one of an earlier turn is recorded as activity of its
/// session at its time: the session keeps its identifier, takes the event's model when it
/// names one, and the event's directory and project when it names a directory.
pub proof fn law_event_records_activity(
    s: SessionModel,
    tools: Seq<ToolModel>,
    ev: EventModel,
    project: Option<Seq<char>>,
)
    requires
        !is_stale_turn(s, ev),
    ensures
        spec_step(s, tools, ev, project).0.id == s.id,
        spec_step(s, tools, ev, project).0.last_activity_at == ev.observed_at,
        spec_step(s, tools, ev, project).0.model == (if ev.model is Some {
            ev.model
        } else {
            s.model
        }),
        ev.cwd.len() > 0 ==> spec_step(s, tools, ev, project).0.cwd == Some(ev.cwd) && spec_step(
            s,
            tools,
            ev,
            project,
        ).0.project == project,
        ev.cwd.len() == 0 ==> spec_step(s, tools, ev, project).0.cwd == s.cwd && spec_step(
            s,
            tools,
            ev,
            project,
        ).0.project == s.project,
{
}

proof fn lemma_find_agent_result(agents: Seq<AgentModel>, id: Seq<char>)
    ensures
        find_agent(agents, id) matches Some(j) ==> 0 <= j < agents.len() && agents[j].id == id,
    decreases agents.len(),
{
    if agents.len() > 0 {
        lemma_find_agent_result(agents.drop_first(), id);
    }
}

proof fn lemma_update_agent_fields(agents: Seq<AgentModel>, id: Seq<char>, state: ActivityState, at: u64)
    ensures
        exists|j: int|
            0 <= j < spec_update_agent(agents, id, state, at).len() && #[trigger] spec_update_agent(
                agents,
                id,
                state,
                at,
            )[j] == (AgentModel { id, state, last_activity_at: at }),
{
    lemma_find_agent_result(agents, id);
    let r = spec_update_agent(agents, id, state, at);
    match find_agent(agents, id) {
        Some(j) => {
            assert(r[j] == (AgentModel { id, state, last_activity_at: at }));
        },
        None => {
            assert(r[agents.len() as int] == (AgentModel { id, state, last_activity_at: at }));
        },
    }
}

/// The state an event of an agent puts that agent in: a tool start makes it work; a
/// permission request makes it wait; a compaction start makes it compact; a tool end, a
/// compaction end, its start or a prompt makes it think; its stop, a stop or an interrupt
/// completes it.
pub open spec fn agent_state_after(kind: HookEventKind) -> Option<ActivityState> {
    match kind {
        HookEventKind::PreToolUse => Some(ActivityState::Working),
        HookEventKind::PermissionRequest => Some(ActivityState::Waiting),
        HookEventKind::PreCompact => Some(ActivityState::Composing),
        HookEventKind::PostToolUse | HookEventKind::PostCompact | HookEventKind::SubagentStart
        | HookEventKind::UserPromptSubmit => Some(ActivityState::Thinking),
        HookEventKind::SubagentStop | HookEventKind::Stop | HookEventKind::Interrupt => Some(
            ActivityState::Completed,
        ),
        HookEventKind::SessionStart | HookEventKind::SessionEnd => None,
    }
}

/// An event of an agent records that agent, seen at the event's time, in the state the event
/// puts it in; when the agent stops, none of its calls keeps running.
pub proof fn law_agent_event_sets_agent(
    s: SessionModel,
    tools: Seq<ToolModel>,
    ev: EventModel,
    project: Option<Seq<char>>,
    state: ActivityState,
)
    requires
        ev.agent_id is Some,
        agent_state_after(ev.kind) == Some(state),
    ensures
        exists|j: int|
            0 <= j < spec_step(s, tools, ev, project).0.agents.len() && #[trigger] spec_step(
                s,
                tools,
                ev,
                project,
            ).0.agents[j] == (AgentModel {
                id: ev.agent_id->0,
                state,
                last_activity_at: ev.observed_at,
            }),
        state == ActivityState::Completed ==> forall|k: int|
            0 <= k < spec_step(s, tools, ev, project).1.len() ==> #[trigger] spec_step(
                s,
                tools,
                ev,
                project,
            ).1[k].agent_id != ev.agent_id,
{
    let a = ev.agent_id->0;
    assert(!is_stale_turn(s, ev));
    assert(spec_step(s, tools, ev, project).0.agents == spec_update_agent(
        s.agents,
        a,
        state,
        ev.observed_at,
    ));
    lemma_update_agent_fields(s.agents, a, state, ev.observed_at);
    if state == ActivityState::Completed {
        let r = spec_step(s, tools, ev, project);
        assert(r.1 == tools.filter(not_of_agent(a)));
        assert forall|k: int| 0 <= k < r.1.len() implies #[trigger] r.1[k].agent_id != ev.agent_id by {
            lemma_filter_from(tools, not_of_agent(a), k);
        }
    }
}

/// A tool start opens its call at the end of the running calls: named by its tool-use
/// identifier (or, without one, by `legacy:` and the tool's name), of the event's caller,
/// classified by the tool's name and started at the event's time. It replaces a running call
/// of the same identifier and caller, and every other running call stays.
pub proof fn law_tool_start_opens_call(
    s: SessionModel,
    tools: Seq<ToolModel>,
    ev: EventModel,
    project: Option<Seq<char>>,
)
    requires
        ev.kind == HookEventKind::PreToolUse,
        !is_stale_turn(s, ev),
    ensures
        ({
            let r = spec_step(s, tools, ev, project).1;
            let name = match ev.tool_name {
                Some(n) => n,
                None => Seq::empty(),
            };
            let id = match ev.tool_use_id {
                Some(i) => i,
                None => "legacy:"@ + name,
            };
            &&& r.len() > 0
            &&& r.last() == (ToolModel {
                id,
                name,
                state: spec_tool_state(name),
                started_at: ev.observed_at,
                agent_id: ev.agent_id,
            })
            &&& forall|k: int|
                0 <= k < tools.len() && !(tools[k].id == id && tools[k].agent_id == ev.agent_id)
                    ==> r.contains(#[trigger] tools[k])
            &&& forall|k: int|
                0 <= k < r.len() - 1 ==> !(#[trigger] r[k].id == id && r[k].agent_id
                    == ev.agent_id)
        }),
{
    let t = started_call(ev);
    let pred = other_call(t.id, ev.agent_id);
    let r = spec_step(s, tools, ev, project).1;
    assert(r == tools.filter(pred).push(t));
    assert forall|k: int|
        0 <= k < tools.len() && !(tools[k].id == t.id && tools[k].agent_id == ev.agent_id)
            implies r.contains(#[trigger] tools[k]) by {
        assert(tools.filter(pred).contains(tools[k]));
        let m = choose|m: int| 0 <= m < tools.filter(pred).len() && tools.filter(pred)[m] == tools[k];
        assert(r[m] == tools[k]);
    }
    assert forall|k: int| 0 <= k < r.len() - 1 implies !(#[trigger] r[k].id == t.id && r[k].agent_id
        == ev.agent_id) by {
        assert(r[k] == tools.filter(pred)[k]);
        lemma_filter_from(tools, pred, k);
    }
}

/// A prompt of the user starts a new turn of the root at the prompt's time: the root thinks,
/// the session is not completed, its turn is the prompt's, and no call runs; unless an agent
/// still waits for a permission, the session shows that it thinks.
pub proof fn law_prompt_starts_turn(
    s: SessionModel,
    tools: Seq<ToolModel>,
    ev: EventModel,
    project: Option<Seq<char>>,
)
    requires
        ev.kind == HookEventKind::UserPromptSubmit,
        ev.agent_id is None,
    ensures
        spec_step(s, tools, ev, project).0.root_state == ActivityState::Thinking,
        spec_step(s, tools, ev, project).0.started_at == Some(ev.observed_at),
        spec_step(s, tools, ev, project).0.completed_at is None,
        spec_step(s, tools, ev, project).0.current_turn_id == ev.turn_id,
        spec_step(s, tools, ev, project).1.len() == 0,
        spec_step(s, tools, ev, project).0.current_command is None,
        (forall|j: int| 0 <= j < s.agents.len() ==> #[trigger] s.agents[j].state
            != ActivityState::Waiting) ==> spec_step(s, tools, ev, project).0.state
            == ActivityState::Thinking,
{
    let r = spec_step(s, tools, ev, project);
    let kept = s.agents.filter(not_completed());
    assert(r.0.agents == kept);
    if forall|j: int| 0 <= j < s.agents.len() ==> #[trigger] s.agents[j].state != ActivityState::Waiting {
        assert forall|j: int| 0 <= j < kept.len() implies #[trigger] kept[j].state
            != ActivityState::Waiting by {
            lemma_filter_from(s.agents, not_completed(), j);
        }
    }
}

/// A compaction of the root shows while it lasts: its start makes the root compact and its end
/// makes the root think again; with no call running, the session shows that it compacts.
pub proof fn law_root_compaction(
    s: SessionModel,
    tools: Seq<ToolModel>,
    ev: EventModel,
    project: Option<Seq<char>>,
)
    requires
        ev.kind == HookEventKind::PreCompact || ev.kind == HookEventKind::PostCompact,
        ev.agent_id is None,
        !is_stale_turn(s, ev),
    ensures
        spec_step(s, tools, ev, project).0.root_state == (if ev.kind == HookEventKind::PreCompact {
            ActivityState::Composing
        } else {
            ActivityState::Thinking
        }),
        spec_step(s, tools, ev, project).1 == tools,
        ev.kind == HookEventKind::PreCompact && tools.len() == 0 ==> spec_step(
            s,
            tools,
            ev,
            project,
        ).0.state == ActivityState::Composing,
{
}

} // verus!
