//! Sessions and their agents: models, the shown state, and agent updates.
use vstd::prelude::*;
use super::state::ActivityState;

verus! {

/// A helper agent of a session.
#[derive(Debug)]
pub struct Agent {
    pub id: String,
    pub state: ActivityState,
    pub last_activity_at: u64,
}

/// The mathematical value of an [`Agent`].
pub struct AgentModel {
    pub id: Seq<char>,
    pub state: ActivityState,
    pub last_activity_at: u64,
}

impl View for Agent {
    type V = AgentModel;

    open spec fn view(&self) -> AgentModel {
        AgentModel { id: self.id@, state: self.state, last_activity_at: self.last_activity_at }
    }
}

/// One Codex session as the interface shows it.
#[derive(Debug)]
pub struct Session {
    pub id: String,
    pub project: Option<String>,
    pub cwd: Option<String>,
    pub state: ActivityState,
    pub current_command: Option<String>,
    pub started_at: Option<u64>,
    pub last_activity_at: u64,
    pub completed_at: Option<u64>,
    pub model: Option<String>,
    pub current_turn_id: Option<String>,
    pub root_state: ActivityState,
    pub agents: Vec<Agent>,
}

/// The mathematical value of a [`Session`].
pub struct SessionModel {
    pub id: Seq<char>,
    pub project: Option<Seq<char>>,
    pub cwd: Option<Seq<char>>,
    pub state: ActivityState,
    pub current_command: Option<Seq<char>>,
    pub started_at: Option<u64>,
    pub last_activity_at: u64,
    pub completed_at: Option<u64>,
    pub model: Option<Seq<char>>,
    pub current_turn_id: Option<Seq<char>>,
    pub root_state: ActivityState,
    pub agents: Seq<AgentModel>,
}

/// The models of a sequence of agents.
pub open spec fn agents_view(agents: Seq<Agent>) -> Seq<AgentModel> {
    agents.map_values(|a: Agent| a@)
}

impl View for Session {
    type V = SessionModel;

    open spec fn view(&self) -> SessionModel {
        SessionModel {
            id: self.id@,
            project: self.project.deep_view(),
            cwd: self.cwd.deep_view(),
            state: self.state,
            current_command: self.current_command.deep_view(),
            started_at: self.started_at,
            last_activity_at: self.last_activity_at,
            completed_at: self.completed_at,
            model: self.model.deep_view(),
            current_turn_id: self.current_turn_id.deep_view(),
            root_state: self.root_state,
            agents: agents_view(self.agents@),
        }
    }
}

/// A tool call that has started and not yet finished.
#[derive(Debug)]
pub struct ActiveTool {
    pub id: String,
    pub name: String,
    pub state: ActivityState,
    pub started_at: u64,
    pub agent_id: Option<String>,
}

/// The mathematical value of an [`ActiveTool`].
pub struct ToolModel {
    pub id: Seq<char>,
    pub name: Seq<char>,
    pub state: ActivityState,
    pub started_at: u64,
    pub agent_id: Option<Seq<char>>,
}

impl View for ActiveTool {
    type V = ToolModel;

    open spec fn view(&self) -> ToolModel {
        ToolModel {
            id: self.id@,
            name: self.name@,
            state: self.state,
            started_at: self.started_at,
            agent_id: self.agent_id.deep_view(),
        }
    }
}

/// The models of a sequence of tools.
pub open spec fn tools_view(tools: Seq<ActiveTool>) -> Seq<ToolModel> {
    tools.map_values(|t: ActiveTool| t@)
}

/// The tool started last among those of the root (`root`) or of the agents (`!root`);
/// of several started at the same time, the one that comes last.
pub open spec fn latest_tool(tools: Seq<ToolModel>, root: bool) -> Option<ToolModel>
    decreases tools.len(),
{
    if tools.len() == 0 {
        None
    } else {
        let earlier = latest_tool(tools.drop_last(), root);
        let t = tools.last();
        if (t.agent_id is None) == root && (earlier is None || earlier->0.started_at
            <= t.started_at) {
            Some(t)
        } else {
            earlier
        }
    }
}

/// Some agent waits for a permission.
pub open spec fn some_agent_waiting(agents: Seq<AgentModel>) -> bool {
    exists|j: int| 0 <= j < agents.len() && #[trigger] agents[j].state == ActivityState::Waiting
}

/// The state a session shows, given its root state, agents and running tools.
pub open spec fn shown_state(s: SessionModel, tools: Seq<ToolModel>) -> ActivityState {
    let root = latest_tool(tools, true);
    let other = latest_tool(tools, false);
    if s.completed_at is Some {
        ActivityState::Completed
    } else if s.root_state == ActivityState::Waiting {
        ActivityState::Waiting
    } else if root is Some {
        root->0.state
    } else if other is Some {
        other->0.state
    } else if s.root_state == ActivityState::Composing {
        ActivityState::Composing
    } else if some_agent_waiting(s.agents) {
        ActivityState::Waiting
    } else if s.started_at is Some {
        ActivityState::Thinking
    } else {
        ActivityState::Idle
    }
}

/// The command a session shows: the latest root tool's name, if that tool runs a command.
pub open spec fn shown_command(s: SessionModel, tools: Seq<ToolModel>) -> Option<Seq<char>> {
    if s.completed_at is Some {
        None
    } else {
        match latest_tool(tools, true) {
            Some(t) => if t.state == ActivityState::RunningCommand {
                Some(t.name)
            } else {
                None
            },
            None => None,
        }
    }
}

/// A session with its shown state and command brought up to date.
pub open spec fn spec_recompute(s: SessionModel, tools: Seq<ToolModel>) -> SessionModel {
    SessionModel { state: shown_state(s, tools), current_command: shown_command(s, tools), ..s }
}

fn latest_tool_index(tools: &Vec<ActiveTool>, root: bool) -> (r: Option<usize>)
    ensures
        match r {
            Some(i) => i < tools@.len() && latest_tool(tools_view(tools@), root) == Some(
                tools@[i as int]@,
            ),
            None => latest_tool(tools_view(tools@), root) is None,
        },
{
    let mut best: Option<usize> = None;
    let n = tools.len();
    let mut i: usize = 0;
    while i < n
        invariant
            n == tools@.len(),
            i <= n,
            match best {
                Some(b) => b < i && latest_tool(tools_view(tools@).take(i as int), root) == Some(
                    tools@[b as int]@,
                ),
                None => latest_tool(tools_view(tools@).take(i as int), root) is None,
            },
        decreases n - i,
    {
        let t = &tools[i];
        proof {
            let v = tools_view(tools@);
            assert(v.take(i + 1).drop_last() =~= v.take(i as int));
            assert(v.take(i + 1).last() == t@);
        }
        if t.agent_id.is_none() == root {
            match best {
                Some(b) => {
                    if tools[b].started_at <= t.started_at {
                        best = Some(i);
                    }
                },
                None => {
                    best = Some(i);
                },
            }
        }
        i = i + 1;
    }
    assert(tools_view(tools@).take(n as int) =~= tools_view(tools@));
    best
}

fn any_agent_waiting(agents: &Vec<Agent>) -> (r: bool)
    ensures
        r == some_agent_waiting(agents_view(agents@)),
{
    let n = agents.len();
    let mut i: usize = 0;
    while i < n
        invariant
            n == agents@.len(),
            i <= n,
            forall|j: int| 0 <= j < i ==> agents@[j].state != ActivityState::Waiting,
        decreases n - i,
    {
        if agents[i].state == ActivityState::Waiting {
            assert(agents_view(agents@)[i as int].state == ActivityState::Waiting);
            return true;
        }
        i = i + 1;
    }
    false
}

/// Brings the shown state and command of `session` up to date with its running `tools`.
pub fn recompute_session_state(session: &mut Session, tools: &Vec<ActiveTool>)
    ensures
        final(session)@ == spec_recompute(old(session)@, tools_view(tools@)),
{
    if session.completed_at.is_some() {
        session.state = ActivityState::Completed;
        session.current_command = None;
        return;
    }
    let root = latest_tool_index(tools, true);
    let other = latest_tool_index(tools, false);
    session.current_command = match root {
        Some(i) => if tools[i].state == ActivityState::RunningCommand {
            Some(tools[i].name.clone())
        } else {
            None
        },
        None => None,
    };
    session.state = if session.root_state == ActivityState::Waiting {
        ActivityState::Waiting
    } else if let Some(i) = root {
        tools[i].state
    } else if let Some(i) = other {
        tools[i].state
    } else if session.root_state == ActivityState::Composing {
        ActivityState::Composing
    } else if any_agent_waiting(&session.agents) {
        ActivityState::Waiting
    } else if session.started_at.is_some() {
        ActivityState::Thinking
    } else {
        ActivityState::Idle
    };
}

/// Position of the first agent with identifier `id`.
pub open spec fn find_agent(agents: Seq<AgentModel>, id: Seq<char>) -> Option<int>
    decreases agents.len(),
{
    if agents.len() == 0 {
        None
    } else if agents[0].id == id {
        Some(0)
    } else {
        match find_agent(agents.drop_first(), id) {
            Some(j) => Some(j + 1),
            None => None,
        }
    }
}

/// The agents after agent `id` was seen in `state` at `at`: the first agent with that
/// identifier takes the new state and time; when there is none, a new agent is appended.
pub open spec fn spec_update_agent(
    agents: Seq<AgentModel>,
    id: Seq<char>,
    state: ActivityState,
    at: u64,
) -> Seq<AgentModel> {
    match find_agent(agents, id) {
        Some(j) => agents.update(j, AgentModel { state, last_activity_at: at, ..agents[j] }),
        None => agents.push(AgentModel { id, state, last_activity_at: at }),
    }
}

proof fn lemma_find_agent(agents: Seq<AgentModel>, id: Seq<char>, i: int)
    requires
        0 <= i <= agents.len(),
        forall|k: int| 0 <= k < i ==> agents[k].id != id,
    ensures
        i < agents.len() && agents[i].id == id ==> find_agent(agents, id) == Some(i),
        i == agents.len() ==> find_agent(agents, id) is None,
    decreases i,
{
    if i > 0 {
        lemma_find_agent(agents.drop_first(), id, i - 1);
    }
}

/// Records that agent `id` of `session` is in `state` at time `at`.
pub fn update_agent(session: &mut Session, id: &String, state: ActivityState, at: u64)
    ensures
        final(session)@ == (SessionModel {
            agents: spec_update_agent(old(session)@.agents, id@, state, at),
            ..old(session)@
        }),
{
    let n = session.agents.len();
    let mut i: usize = 0;
    while i < n
        invariant
            n == session.agents@.len(),
            i <= n,
            forall|k: int| 0 <= k < i ==> session.agents@[k].id@ != id@,
            session == old(session),
        decreases n - i,
    {
        if session.agents[i].id == *id {
            proof {
                lemma_find_agent(agents_view(session.agents@), id@, i as int);
            }
            let agent = Agent {
                id: session.agents[i].id.clone(),
                state,
                last_activity_at: at,
            };
            session.agents.set(i, agent);
            assert(agents_view(session.agents@) =~= spec_update_agent(
                agents_view(old(session).agents@),
                id@,
                state,
                at,
            ));
            return;
        }
        i = i + 1;
    }
    proof {
        lemma_find_agent(agents_view(session.agents@), id@, n as int);
    }
    session.agents.push(Agent { id: id.clone(), state, last_activity_at: at });
    assert(agents_view(session.agents@) =~= spec_update_agent(
        agents_view(old(session).agents@),
        id@,
        state,
        at,
    ));
}

} // verus!
