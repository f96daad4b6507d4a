//! All tracked sessions: applying events, dropping old sessions, taking snapshots.
use vstd::prelude::*;
use crate::path_facts::names_directory;
use super::event::{EventModel, HookEvent, HookEventKind, copy_opt};
use super::consistency::{agent_key, call_key, entry_ok, entry_ok_fn, lemma_step_ok, session_key};
use super::session::{
    ActiveTool, Agent, AgentModel, Session, SessionModel, ToolModel, agents_view, tools_view,
};
use super::state::ActivityState;
use super::step::{spec_step, step_session};
use crate::unique::{
    all, lemma_all_filter, lemma_unique_filter, lemma_unique_push, lemma_unique_update, unique_by,
};

verus! {

/// The largest hook body, in bytes, that the listener accepts.
pub const MAX_HOOK_BYTES: u64 = 1048576;

/// A session older than this without a running tool or a pending permission is dropped.
pub const STALE_AFTER_MS: u64 = 600000;

/// A session with a running tool or a pending permission is dropped after this long.
pub const ACTIVE_AFTER_MS: u64 = 7200000;

/// A completed session stays shown this long.
pub const COMPLETED_AFTER_MS: u64 = 8000;

/// One tracked session with its running calls.
pub struct SessionEntry {
    pub session: Session,
    pub tools: Vec<ActiveTool>,
}

/// The mathematical value of a [`SessionEntry`].
pub struct EntryModel {
    pub session: SessionModel,
    pub tools: Seq<ToolModel>,
}

impl View for SessionEntry {
    type V = EntryModel;

    open spec fn view(&self) -> EntryModel {
        EntryModel { session: self.session@, tools: tools_view(self.tools@) }
    }
}

/// The models of a sequence of entries.
pub open spec fn entries_view(entries: Seq<SessionEntry>) -> Seq<EntryModel> {
    entries.map_values(|e: SessionEntry| e@)
}

/// All sessions the hooks have reported and not yet dropped.
pub struct SessionRegistry {
    entries: Vec<SessionEntry>,
    updated_at: u64,
}

/// The mathematical value of a [`SessionRegistry`].
pub struct RegistryModel {
    pub entries: Seq<EntryModel>,
    pub updated_at: u64,
}

impl View for SessionRegistry {
    type V = RegistryModel;

    closed spec fn view(&self) -> RegistryModel {
        RegistryModel { entries: entries_view(self.entries@), updated_at: self.updated_at }
    }
}

/// Position of the entry of session `id`.
pub open spec fn find_entry(entries: Seq<EntryModel>, id: Seq<char>) -> Option<int>
    decreases entries.len(),
{
    if entries.len() == 0 {
        None
    } else if entries[0].session.id == id {
        Some(0)
    } else {
        match find_entry(entries.drop_first(), id) {
            Some(j) => Some(j + 1),
            None => None,
        }
    }
}

pub(crate) proof fn lemma_find_entry(entries: Seq<EntryModel>, id: Seq<char>, i: int)
    requires
        0 <= i <= entries.len(),
        forall|k: int| 0 <= k < i ==> entries[k].session.id != id,
    ensures
        i < entries.len() && entries[i].session.id == id ==> find_entry(entries, id) == Some(i),
        i == entries.len() ==> find_entry(entries, id) is None,
    decreases i,
{
    if i > 0 {
        lemma_find_entry(entries.drop_first(), id, i - 1);
    }
}

/// The session that the first event of session `ev.session_id` creates.
pub open spec fn fresh_session(ev: EventModel, project: Option<Seq<char>>) -> SessionModel {
    SessionModel {
        id: ev.session_id,
        project,
        cwd: Some(ev.cwd),
        state: ActivityState::Idle,
        current_command: None,
        started_at: None,
        last_activity_at: ev.observed_at,
        completed_at: None,
        model: None,
        current_turn_id: None,
        root_state: ActivityState::Thinking,
        agents: Seq::empty(),
    }
}

/// The entry of `ev`'s session after `ev`.
pub open spec fn stepped_entry(e: EntryModel, ev: EventModel, project: Option<Seq<char>>) -> EntryModel {
    let r = spec_step(e.session, e.tools, ev, project);
    EntryModel { session: r.0, tools: r.1 }
}

/// The tracked sessions after `ev`: its session (created at the end when new) takes the event;
/// every other session stays as it was.
pub open spec fn spec_apply_event(
    entries: Seq<EntryModel>,
    ev: EventModel,
    project: Option<Seq<char>>,
) -> Seq<EntryModel> {
    match find_entry(entries, ev.session_id) {
        Some(i) => entries.update(i, stepped_entry(entries[i], ev, project)),
        None => entries.push(
            stepped_entry(EntryModel { session: fresh_session(ev, project), tools: Seq::empty() }, ev, project),
        ),
    }
}

/// How long ago `since` was at `now`, zero for a time not yet reached.
pub open spec fn age(now: u64, since: u64) -> int {
    if now >= since {
        now - since
    } else {
        0
    }
}

/// Whether a cleanup at `now` keeps a session: a completed one for a short display period after
/// its completion, one with a running call or a pending permission for a long period, any other
/// one for a shorter period after its last activity.
pub open spec fn keeps(e: EntryModel, now: u64) -> bool {
    let s = e.session;
    if s.state == ActivityState::Completed {
        age(now, s.completed_at.unwrap_or(s.last_activity_at)) <= COMPLETED_AFTER_MS
    } else if s.state == ActivityState::Waiting || e.tools.len() > 0 {
        age(now, s.last_activity_at) <= ACTIVE_AFTER_MS
    } else {
        age(now, s.last_activity_at) <= STALE_AFTER_MS
    }
}

/// The predicate [`keeps`] at `now`.
pub open spec fn kept_at(now: u64) -> spec_fn(EntryModel) -> bool {
    |e: EntryModel| keeps(e, now)
}

/// Sessions that a snapshot shows: all but idle ones.
pub open spec fn shown() -> spec_fn(EntryModel) -> bool {
    |e: EntryModel| e.session.state != ActivityState::Idle
}

/// The sessions of a sequence of entries.
pub open spec fn sessions_of(entries: Seq<EntryModel>) -> Seq<SessionModel> {
    entries.map_values(|e: EntryModel| e.session)
}

/// The sessions of a sequence of sessions, as models.
pub open spec fn sessions_view(sessions: Seq<Session>) -> Seq<SessionModel> {
    sessions.map_values(|s: Session| s@)
}

/// The time stamp of the snapshot after one stamped `previous`, taken at `now`: `now`, but
/// always later than `previous` (unless `previous` is the largest time there is).
pub open spec fn next_stamp(previous: u64, now: u64) -> u64 {
    let bumped = if previous == u64::MAX {
        previous
    } else {
        (previous + 1) as u64
    };
    if now >= bumped {
        now
    } else {
        bumped
    }
}

/// What the interface receives: the sessions worth showing and when they were taken.
#[derive(Debug)]
pub struct ActivitySnapshot {
    pub sessions: Vec<Session>,
    pub updated_at: u64,
}

fn copy_agents(agents: &Vec<Agent>) -> (r: Vec<Agent>)
    ensures
        agents_view(r@) == agents_view(agents@),
{
    let mut r: Vec<Agent> = Vec::new();
    let n = agents.len();
    let mut i: usize = 0;
    while i < n
        invariant
            n == agents@.len(),
            i <= n,
            agents_view(r@) =~= agents_view(agents@).take(i as int),
        decreases n - i,
    {
        let a = Agent {
            id: agents[i].id.clone(),
            state: agents[i].state,
            last_activity_at: agents[i].last_activity_at,
        };
        let ghost before = r@;
        r.push(a);
        assert(agents_view(r@) =~= agents_view(before).push(a@));
        assert(agents_view(agents@).take(i + 1) =~= agents_view(agents@).take(i as int).push(a@));
        i = i + 1;
    }
    r
}

/// A copy of `s`.
pub fn copy_session(s: &Session) -> (r: Session)
    ensures
        r@ == s@,
{
    Session {
        id: s.id.clone(),
        project: copy_opt(&s.project),
        cwd: copy_opt(&s.cwd),
        state: s.state,
        current_command: copy_opt(&s.current_command),
        started_at: s.started_at,
        last_activity_at: s.last_activity_at,
        completed_at: s.completed_at,
        model: copy_opt(&s.model),
        current_turn_id: copy_opt(&s.current_turn_id),
        root_state: s.root_state,
        agents: copy_agents(&s.agents),
    }
}

/// Whether the cleanup at `now` keeps entry `e`.
fn keeps_entry(e: &SessionEntry, now: u64) -> (r: bool)
    ensures
        r == keeps(e@, now),
{
    let s = &e.session;
    let since = if s.state == ActivityState::Completed {
        match s.completed_at {
            Some(at) => at,
            None => s.last_activity_at,
        }
    } else {
        s.last_activity_at
    };
    let elapsed = now.saturating_sub(since);
    if s.state == ActivityState::Completed {
        elapsed <= COMPLETED_AFTER_MS
    } else if s.state == ActivityState::Waiting || e.tools.len() > 0 {
        elapsed <= ACTIVE_AFTER_MS
    } else {
        elapsed <= STALE_AFTER_MS
    }
}

/// Calls `std::path::Path::file_name` on `cwd`: the last normal component of the path,
/// lossily turned into a string. Which characters separate components, and which prefixes a
/// path can have, depend on the platform, so the contract states only what holds on every
/// platform ([`names_directory`]); which name a Windows drive or verbatim path gives is left
/// unsaid.
#[verifier::external_body]
fn project_of(cwd: &String) -> (r: Option<String>)
    ensures
        names_directory(cwd@, r.deep_view()),
{
    match std::path::Path::new(cwd.as_str()).file_name() {
        Some(name) => Some(name.to_string_lossy().into_owned()),
        None => None,
    }
}

impl SessionRegistry {
    /// The registry invariant: one entry per session.
    pub open spec fn wf(self) -> bool {
        &&& unique_by(self@.entries, session_key())
        &&& all(self@.entries, entry_ok_fn())
    }

    /// An empty registry.
    pub fn new() -> (r: SessionRegistry)
        ensures
            r.wf(),
            r@.entries == Seq::<EntryModel>::empty(),
            r@.updated_at == 0,
    {
        let r = SessionRegistry { entries: Vec::new(), updated_at: 0 };
        assert(r@.entries =~= Seq::<EntryModel>::empty());
        r
    }

    fn find(&self, id: &String) -> (r: Option<usize>)
        ensures
            match r {
                Some(i) => i < self.entries@.len() && find_entry(self@.entries, id@) == Some(i as int)
                    && self@.entries[i as int].session.id == id@,
                None => find_entry(self@.entries, id@) is None && forall|k: int|
                    0 <= k < self@.entries.len() ==> #[trigger] self@.entries[k].session.id != id@,
            },
    {
        let n = self.entries.len();
        let mut i: usize = 0;
        while i < n
            invariant
                n == self.entries@.len(),
                i <= n,
                forall|k: int| 0 <= k < i ==> self@.entries[k].session.id != id@,
            decreases n - i,
        {
            if self.entries[i].session.id == *id {
                proof {
                    lemma_find_entry(self@.entries, id@, i as int);
                }
                return Some(i);
            }
            i = i + 1;
        }
        proof {
            lemma_find_entry(self@.entries, id@, n as int);
        }
        None
    }

    /// Applies `event` to its session, `project` being what the event's working directory names.
    pub fn apply_event_with_project(&mut self, event: HookEvent, project: Option<String>)
        requires
            old(self).wf(),
        ensures
            final(self).wf(),
            final(self)@.entries == spec_apply_event(
                old(self)@.entries,
                event@,
                project.deep_view(),
            ),
            final(self)@.updated_at == old(self)@.updated_at,
    {
        let ghost old_entries = self@.entries;
        let found = self.find(&event.session_id);
        let i = match found {
            Some(i) => i,
            None => {
                let session = Session {
                    id: event.session_id.clone(),
                    project: copy_opt(&project),
                    cwd: Some(event.cwd.clone()),
                    state: ActivityState::Idle,
                    current_command: None,
                    started_at: None,
                    last_activity_at: event.observed_at,
                    completed_at: None,
                    model: None,
                    current_turn_id: None,
                    root_state: ActivityState::Thinking,
                    agents: Vec::new(),
                };
                let entry = SessionEntry { session, tools: Vec::new() };
                assert(agents_view(entry.session.agents@) =~= Seq::<AgentModel>::empty());
                assert(entry@.session == fresh_session(event@, project.deep_view()));
                assert(entry@.tools =~= Seq::<ToolModel>::empty());
                self.entries.push(entry);
                assert(self@.entries =~= old_entries.push(entry@));
                proof {
                    lemma_unique_push(old_entries, session_key(), entry@);
                    assert(unique_by(Seq::<AgentModel>::empty(), agent_key()));
                    assert(unique_by(Seq::<ToolModel>::empty(), call_key()));
                    assert(entry_ok(entry@));
                    assert forall|k: int| 0 <= k < self@.entries.len() implies #[trigger] entry_ok_fn()(
                        self@.entries[k],
                    ) by {
                        if k < old_entries.len() {
                            assert(self@.entries[k] == old_entries[k]);
                        }
                    }
                }
                self.entries.len() - 1
            },
        };
        let ghost mid = self@.entries;
        let mut entry = self.entries.remove(i);
        let ghost before = entry@;
        step_session(&mut entry.session, &mut entry.tools, &event, project);
        proof {
            assert(entry_ok_fn()(mid[i as int]));
            lemma_step_ok(before.session, before.tools, event@, project.deep_view());
        }
        self.entries.insert(i, entry);
        assert(self@.entries =~= mid.update(i as int, entry@));
        proof {
            lemma_unique_update(mid, session_key(), i as int, entry@);
            assert forall|k: int| 0 <= k < self@.entries.len() implies #[trigger] entry_ok_fn()(
                self@.entries[k],
            ) by {
                if k != i {
                    assert(self@.entries[k] == mid[k]);
                }
            }
        }
        assert(self@.entries =~= spec_apply_event(old_entries, event@, project.deep_view()));
    }

    /// Applies `event` to its session; the session's project is the last component of the
    /// event's working directory.
    pub fn apply_event(&mut self, event: HookEvent)
        requires
            old(self).wf(),
        ensures
            final(self).wf(),
            exists|p: Option<Seq<char>>|
                names_directory(event@.cwd, p) && final(self)@.entries == #[trigger] spec_apply_event(
                    old(self)@.entries,
                    event@,
                    p,
                ),
            final(self)@.updated_at == old(self)@.updated_at,
    {
        let project = project_of(&event.cwd);
        let ghost p = project.deep_view();
        let ghost ev = event@;
        self.apply_event_with_project(event, project);
        assert(names_directory(ev.cwd, p) && self@.entries == spec_apply_event(old(self)@.entries, ev, p));
    }

    /// Drops the sessions that [`keeps`] gives up at `now`; tells whether any was dropped.
    pub fn cleanup_registry(&mut self, now: u64) -> (changed: bool)
        requires
            old(self).wf(),
        ensures
            final(self).wf(),
            final(self)@.entries == old(self)@.entries.filter(kept_at(now)),
            final(self)@.updated_at == old(self)@.updated_at,
            changed == (final(self)@.entries.len() != old(self)@.entries.len()),
    {
        let ghost orig = self@.entries;
        let mut rest: Vec<SessionEntry> = Vec::new();
        std::mem::swap(&mut rest, &mut self.entries);
        let before = rest.len();
        let mut kept: Vec<SessionEntry> = Vec::new();
        let ghost pred = kept_at(now);
        while rest.len() > 0
            invariant
                before == orig.len(),
                rest@.len() <= before,
                entries_view(rest@) == orig.skip(before - rest@.len()),
                entries_view(kept@) == orig.take(before - rest@.len()).filter(pred),
                pred == kept_at(now),
                self.updated_at == old(self).updated_at,
            decreases rest@.len(),
        {
            let ghost done = before - rest@.len();
            let ghost r0 = rest@;
            let e = rest.remove(0);
            proof {
                assert(entries_view(r0)[0] == e@);
                assert(orig.skip(done)[0] == orig[done]);
                assert(entries_view(rest@) =~= entries_view(r0).drop_first());
                reveal(Seq::filter);
                assert(orig.take(done + 1).drop_last() =~= orig.take(done));
                assert(orig[done] == e@);
                assert(orig.take(done + 1).last() == e@);
                assert(entries_view(rest@) =~= orig.skip(done + 1));
            }
            if keeps_entry(&e, now) {
                let ghost k = kept@;
                kept.push(e);
                assert(entries_view(kept@) =~= entries_view(k).push(orig[done]));
            }
        }
        assert(orig.take(before as int) =~= orig);
        let after = kept.len();
        self.entries = kept;
        proof {
            lemma_unique_filter(orig, session_key(), pred);
            lemma_all_filter(orig, pred, entry_ok_fn());
        }
        before != after
    }

    /// Stamps a new snapshot taken at `now` and returns the sessions worth showing.
    pub fn snapshot(&mut self, now: u64) -> (snap: ActivitySnapshot)
        requires
            old(self).wf(),
        ensures
            final(self).wf(),
            final(self)@.entries == old(self)@.entries,
            final(self)@.updated_at == next_stamp(old(self)@.updated_at, now),
            snap.updated_at == final(self)@.updated_at,
            sessions_view(snap.sessions@) == sessions_of(old(self)@.entries.filter(shown())),
    {
        let bumped = self.updated_at.saturating_add(1);
        self.updated_at = if now >= bumped {
            now
        } else {
            bumped
        };
        let ghost v = self@.entries;
        let ghost pred = shown();
        let mut sessions: Vec<Session> = Vec::new();
        let n = self.entries.len();
        let mut i: usize = 0;
        while i < n
            invariant
                n == self.entries@.len(),
                i <= n,
                v == self@.entries,
                pred == shown(),
                sessions_view(sessions@) == sessions_of(v.take(i as int).filter(pred)),
            decreases n - i,
        {
            proof {
                reveal(Seq::filter);
                assert(v.take(i + 1).drop_last() =~= v.take(i as int));
                assert(v.take(i + 1).last() == v[i as int]);
            }
            if self.entries[i].session.state != ActivityState::Idle {
                let c = copy_session(&self.entries[i].session);
                let ghost before = sessions@;
                sessions.push(c);
                assert(sessions_view(sessions@) =~= sessions_view(before).push(c@));
                assert(sessions_of(v.take(i + 1).filter(pred)) =~= sessions_of(
                    v.take(i as int).filter(pred),
                ).push(c@));
            } else {
                assert(v.take(i + 1).filter(pred) == v.take(i as int).filter(pred));
            }
            i = i + 1;
        }
        assert(v.take(n as int) =~= v);
        ActivitySnapshot { sessions, updated_at: self.updated_at }
    }

    /// Number of tracked sessions.
    pub fn session_count(&self) -> (n: usize)
        ensures
            n == self@.entries.len(),
    {
        self.entries.len()
    }

    /// The tracked session `id`, if any.
    pub fn session(&self, id: &str) -> (r: Option<&Session>)
        ensures
            match r {
                Some(s) => find_entry(self@.entries, id@) matches Some(i) && s@ == self@.entries[i].session,
                None => find_entry(self@.entries, id@) is None,
            },
    {
        let key = String::from_str(id);
        match self.find(&key) {
            Some(i) => Some(&self.entries[i].session),
            None => None,
        }
    }

    /// Number of running calls of session `id`, if it is tracked.
    pub fn active_tool_count(&self, id: &str) -> (r: Option<usize>)
        ensures
            match r {
                Some(n) => find_entry(self@.entries, id@) matches Some(i) && n == self@.entries[i].tools.len(),
                None => find_entry(self@.entries, id@) is None,
            },
    {
        let key = String::from_str(id);
        match self.find(&key) {
            Some(i) => Some(self.entries[i].tools.len()),
            None => None,
        }
    }

}

/// Drops the sessions given up at `now` and takes a snapshot of those left.
pub fn read_activity_snapshot(registry: &mut SessionRegistry, now: u64) -> (snap: ActivitySnapshot)
    requires
        old(registry).wf(),
    ensures
        final(registry).wf(),
        final(registry)@.entries == old(registry)@.entries.filter(kept_at(now)),
        final(registry)@.updated_at == next_stamp(old(registry)@.updated_at, now),
        snap.updated_at == final(registry)@.updated_at,
        sessions_view(snap.sessions@) == sessions_of(
            old(registry)@.entries.filter(kept_at(now)).filter(shown()),
        ),
{
    registry.cleanup_registry(now);
    registry.snapshot(now)
}

/// An event after which the rate limits are read again: the end of a session, or a stop of
/// the root (not of an agent).
pub open spec fn spec_refreshes_usage(ev: EventModel) -> bool {
    ev.kind == HookEventKind::SessionEnd || (ev.kind == HookEventKind::Stop && ev.agent_id is None)
}

/// Whether the rate limits are read again after `event`.
pub fn refreshes_usage(event: &HookEvent) -> (r: bool)
    ensures
        r == spec_refreshes_usage(event@),
{
    event.hook_event_name == HookEventKind::SessionEnd || (event.hook_event_name
        == HookEventKind::Stop && event.agent_id.is_none())
}

/// Takes in a hook event received at `now`: applies it, drops the sessions given up at `now`,
/// and takes a snapshot; tells also whether the rate limits are to be read again.
pub fn receive_event(registry: &mut SessionRegistry, event: HookEvent, now: u64) -> (r: (
    ActivitySnapshot,
    bool,
))
    requires
        old(registry).wf(),
    ensures
        final(registry).wf(),
        r.1 == spec_refreshes_usage(event@),
        exists|p: Option<Seq<char>>|
            names_directory(event@.cwd, p) && final(registry)@.entries == #[trigger] spec_apply_event(
                old(registry)@.entries,
                event@,
                p,
            ).filter(kept_at(now)),
        final(registry)@.updated_at == next_stamp(old(registry)@.updated_at, now),
        r.0.updated_at == final(registry)@.updated_at,
        sessions_view(r.0.sessions@) == sessions_of(final(registry)@.entries.filter(shown())),
{
    let refresh = refreshes_usage(&event);
    let ghost ev = event@;
    registry.apply_event(event);
    let ghost applied = registry@.entries;
    let ghost p = choose|p: Option<Seq<char>>|
        names_directory(ev.cwd, p) && applied == #[trigger] spec_apply_event(old(registry)@.entries, ev, p);
    registry.cleanup_registry(now);
    let snapshot = registry.snapshot(now);
    assert(names_directory(ev.cwd, p) && registry@.entries == spec_apply_event(
        old(registry)@.entries,
        ev,
        p,
    ).filter(kept_at(now)));
    (snapshot, refresh)
}

} // verus!
