use codexlimit_lib::activity::{
    tool_state, HookEvent, SessionRegistry, ACTIVE_AFTER_MS, COMPLETED_AFTER_MS, STALE_AFTER_MS,
};
use codexlimit_lib::hook::{event_kind, parse_hook_body};

fn hook(name: &str, id: &str, agent: Option<&str>, at: u64) -> HookEvent {
    HookEvent {
        hook_event_name: event_kind(name).expect("known event"),
        session_id: id.into(),
        cwd: "D:/Demo".into(),
        observed_at: at,
        model: None,
        agent_id: agent.map(str::to_string),
        turn_id: None,
        tool_name: None,
        tool_use_id: None,
    }
}

fn event(name: &str, id: &str, at: u64) -> HookEvent {
    hook(name, id, None, at)
}

fn state_of(registry: &SessionRegistry, id: &str) -> &'static str {
    registry.session(id).unwrap().state.as_str()
}

#[test]
fn tracks_independent_sessions_and_agents() {
    let mut registry = SessionRegistry::new();
    registry.apply_event(hook("UserPromptSubmit", "a", None, 1));
    registry.apply_event(hook("UserPromptSubmit", "b", None, 2));
    registry.apply_event(hook("SubagentStart", "a", Some("worker"), 3));
    registry.apply_event(hook("Stop", "a", None, 4));
    assert_eq!(registry.session_count(), 2);
    assert_eq!(registry.session("a").unwrap().agents.len(), 1);
    assert_eq!(state_of(&registry, "b"), "thinking");
}

#[test]
fn normalizes_only_metadata() {
    let body = br#"{"hook_event_name":"PreToolUse","session_id":"s1","cwd":"D:/Demo","tool_name":"Bash","tool_use_id":"call-1","tool_input":{"command":"secret"}}"#;
    let event = parse_hook_body(body, 0).unwrap();
    let saved = format!("{:?}", event);
    assert!(!saved.contains("secret"));
    assert_eq!(event.tool_use_id.as_deref(), Some("call-1"));
}

#[test]
fn classifies_tools_by_operation() {
    assert_eq!(tool_state("Bash").as_str(), "running-command");
    assert_eq!(tool_state("apply_patch").as_str(), "editing");
    assert_eq!(tool_state("mcp__filesystem__read_file").as_str(), "searching");
    assert_eq!(tool_state("mcp__service__create_item").as_str(), "connecting");
    assert_eq!(tool_state("functions.exec").as_str(), "working");
}

#[test]
fn post_tool_use_only_finishes_its_own_call() {
    let mut registry = SessionRegistry::new();
    let tool_event = |name: &str, tool: Option<&str>, call: Option<&str>, at: u64| {
        let mut e = event(name, "s1", at);
        e.tool_name = tool.map(str::to_string);
        e.tool_use_id = call.map(str::to_string);
        e
    };
    registry.apply_event(tool_event("UserPromptSubmit", None, None, 1));
    registry.apply_event(tool_event("PreToolUse", Some("Bash"), Some("shell"), 2));
    registry.apply_event(tool_event("PreToolUse", Some("mcp__filesystem__read_file"), Some("read"), 3));
    registry.apply_event(tool_event("PostToolUse", Some("mcp__filesystem__read_file"), Some("read"), 4));
    assert_eq!(state_of(&registry, "s1"), "running-command");
    registry.apply_event(tool_event("PostToolUse", Some("Bash"), Some("shell"), 5));
    assert_eq!(state_of(&registry, "s1"), "thinking");
}

#[test]
fn session_end_is_removed_after_display_period() {
    let mut registry = SessionRegistry::new();
    registry.apply_event(event("UserPromptSubmit", "a", 1));
    registry.apply_event(event("SessionEnd", "a", 2));
    assert!(!registry.cleanup_registry(2 + COMPLETED_AFTER_MS));
    assert_eq!(state_of(&registry, "a"), "completed");
    assert!(registry.cleanup_registry(3 + COMPLETED_AFTER_MS));
    assert_eq!(registry.session_count(), 0);
}

#[test]
fn stale_session_and_its_tools_are_removed() {
    let mut registry = SessionRegistry::new();
    registry.apply_event(event("UserPromptSubmit", "a", 1));
    let mut tool = event("PreToolUse", "a", 2);
    tool.tool_name = Some("Bash".into());
    tool.tool_use_id = Some("call".into());
    registry.apply_event(tool);
    assert_eq!(registry.active_tool_count("a"), Some(1));
    assert!(!registry.cleanup_registry(3 + STALE_AFTER_MS));
    assert_eq!(registry.active_tool_count("a"), Some(1));
    assert!(registry.cleanup_registry(3 + ACTIVE_AFTER_MS));
    assert_eq!(registry.session_count(), 0);
}

#[test]
fn waiting_session_survives_stale_cleanup() {
    let mut registry = SessionRegistry::new();
    registry.apply_event(event("UserPromptSubmit", "a", 1));
    registry.apply_event(event("PermissionRequest", "a", 2));
    assert!(!registry.cleanup_registry(3 + STALE_AFTER_MS));
    assert_eq!(state_of(&registry, "a"), "waiting");
}

#[test]
fn new_turn_drops_completed_agents_but_keeps_active_agents() {
    let mut registry = SessionRegistry::new();
    registry.apply_event(event("UserPromptSubmit", "a", 1));
    for id in ["finished", "active"] {
        let mut started = event("SubagentStart", "a", 2);
        started.agent_id = Some(id.into());
        registry.apply_event(started);
    }
    let mut stopped = event("SubagentStop", "a", 3);
    stopped.agent_id = Some("finished".into());
    registry.apply_event(stopped);
    registry.apply_event(event("UserPromptSubmit", "a", 4));
    let session = registry.session("a").unwrap();
    assert_eq!(session.agents.len(), 1);
    assert_eq!(session.agents[0].id, "active");
}

#[test]
fn compact_events_keep_session_active() {
    let mut registry = SessionRegistry::new();
    registry.apply_event(event("UserPromptSubmit", "a", 1));
    registry.apply_event(event("PreCompact", "a", 2));
    assert_eq!(state_of(&registry, "a"), "composing");
    registry.apply_event(event("PostCompact", "a", 3));
    assert_eq!(state_of(&registry, "a"), "thinking");
    for name in ["PreCompact", "PostCompact"] {
        let json = format!(r#"{{"hook_event_name": "{name}", "session_id": "a"}}"#);
        assert!(parse_hook_body(json.as_bytes(), 0).is_ok());
    }
}

#[test]
fn late_attach_recovers_tool_and_permission() {
    let mut registry = SessionRegistry::new();
    let mut bash = event("PreToolUse", "tool", 10);
    bash.tool_name = Some("Bash".into());
    registry.apply_event(bash);
    assert_eq!(registry.session("tool").unwrap().started_at, Some(10));
    assert_eq!(state_of(&registry, "tool"), "running-command");
    assert_eq!(registry.active_tool_count("tool"), Some(1));
    registry.apply_event(event("PermissionRequest", "permission", 11));
    assert_eq!(state_of(&registry, "permission"), "waiting");
}

#[test]
fn subagent_events_preserve_root_tool() {
    let mut registry = SessionRegistry::new();
    registry.apply_event(event("UserPromptSubmit", "a", 1));
    let mut bash = event("PreToolUse", "a", 2);
    bash.tool_name = Some("Bash".into());
    registry.apply_event(bash);
    for name in ["SubagentStart", "UserPromptSubmit", "PreCompact", "PostCompact"] {
        let mut sub = event(name, "a", 3);
        sub.agent_id = Some("agent-1".into());
        registry.apply_event(sub);
        let session = registry.session("a").unwrap();
        assert_eq!(session.state.as_str(), "running-command");
        assert_eq!(session.started_at, Some(1));
        assert_eq!(session.current_command.as_deref(), Some("Bash"));
    }
}

#[test]
fn previous_turn_event_does_not_change_new_turn() {
    let mut registry = SessionRegistry::new();
    let mut first = event("UserPromptSubmit", "a", 1);
    first.turn_id = Some("old".into());
    registry.apply_event(first);
    let mut second = event("UserPromptSubmit", "a", 2);
    second.turn_id = Some("new".into());
    registry.apply_event(second);
    let mut late = event("PreToolUse", "a", 3);
    late.turn_id = Some("old".into());
    late.tool_name = Some("Bash".into());
    registry.apply_event(late);
    let session = registry.session("a").unwrap();
    assert_eq!(session.state.as_str(), "thinking");
    assert_eq!(session.current_turn_id.as_deref(), Some("new"));
}
