//! The hook events that drive the tracker.
use vstd::prelude::*;

verus! {

/// The Codex hook events that the activity tracker understands.
#[derive(Clone, Copy, PartialEq, Eq, Structural, Debug)]
pub enum HookEventKind {
    SessionStart,
    SessionEnd,
    UserPromptSubmit,
    PreToolUse,
    PostToolUse,
    PreCompact,
    PostCompact,
    SubagentStart,
    SubagentStop,
    PermissionRequest,
    Stop,
    Interrupt,
}

/// The metadata of one hook call; tool inputs and prompts are never kept.
#[derive(Debug)]
pub struct HookEvent {
    pub hook_event_name: HookEventKind,
    pub session_id: String,
    pub cwd: String,
    pub observed_at: u64,
    pub model: Option<String>,
    pub agent_id: Option<String>,
    pub turn_id: Option<String>,
    pub tool_name: Option<String>,
    pub tool_use_id: Option<String>,
}

/// The mathematical value of a [`HookEvent`].
pub struct EventModel {
    pub kind: HookEventKind,
    pub session_id: Seq<char>,
    pub cwd: Seq<char>,
    pub observed_at: u64,
    pub model: Option<Seq<char>>,
    pub agent_id: Option<Seq<char>>,
    pub turn_id: Option<Seq<char>>,
    pub tool_name: Option<Seq<char>>,
    pub tool_use_id: Option<Seq<char>>,
}

impl View for HookEvent {
    type V = EventModel;

    open spec fn view(&self) -> EventModel {
        EventModel {
            kind: self.hook_event_name,
            session_id: self.session_id@,
            cwd: self.cwd@,
            observed_at: self.observed_at,
            model: self.model.deep_view(),
            agent_id: self.agent_id.deep_view(),
            turn_id: self.turn_id.deep_view(),
            tool_name: self.tool_name.deep_view(),
            tool_use_id: self.tool_use_id.deep_view(),
        }
    }
}

/// A copy of an optional string.
pub fn copy_opt(o: &Option<String>) -> (r: Option<String>)
    ensures
        r == *o,
{
    match o {
        Some(s) => Some(s.clone()),
        None => None,
    }
}

} // verus!
