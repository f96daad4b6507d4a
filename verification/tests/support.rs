use codexlimit_lib::activity::{tool_state, HookEvent, SessionRegistry, read_activity_snapshot, STALE_AFTER_MS};
use codexlimit_lib::app_paths::{
    app_home_dir, clear_suppress_auto_start, is_auto_start_suppressed, suppress_auto_start,
    suppress_auto_start_path, MarkerOutcome,
};
use codexlimit_lib::hook::event_kind;
use codexlimit_lib::limits::{assign_windows, window_kind, LimitWindowKind};

fn event(name: &str, id: &str, at: u64) -> HookEvent {
    HookEvent {
        hook_event_name: event_kind(name).unwrap(),
        session_id: id.into(),
        cwd: "D:/Demo".into(),
        observed_at: at,
        model: None,
        agent_id: None,
        turn_id: None,
        tool_name: None,
        tool_use_id: None,
    }
}

#[test]
fn unreadable_marker_is_an_error() {
    assert!(!is_auto_start_suppressed(&Err("无法确定用户 Home 目录".into())));
    assert!(!is_auto_start_suppressed(&Err("读取退出标记失败".into())));
    assert!(!is_auto_start_suppressed(&Ok(MarkerOutcome::Failed)));
}

#[test]
fn marker_outcomes() {
    assert!(is_auto_start_suppressed(&Ok(MarkerOutcome::Done)));
    assert!(!is_auto_start_suppressed(&Ok(MarkerOutcome::NotFound)));
    assert!(suppress_auto_start(Ok(MarkerOutcome::Done)).is_ok());
    assert_eq!(suppress_auto_start(Ok(MarkerOutcome::Failed)).unwrap_err(), "创建退出标记失败");
    assert_eq!(suppress_auto_start(Err("无法确定用户 Home 目录".into())).unwrap_err(), "无法确定用户 Home 目录");
    assert!(clear_suppress_auto_start(Ok(MarkerOutcome::NotFound)).is_ok());
    assert!(clear_suppress_auto_start(Ok(MarkerOutcome::Done)).is_ok());
    assert_eq!(clear_suppress_auto_start(Ok(MarkerOutcome::Failed)).unwrap_err(), "清除退出标记失败");
}

#[test]
fn marker_lives_below_the_home_directory() {
    assert_eq!(app_home_dir(None).unwrap_err(), "无法确定用户 Home 目录");
    assert_eq!(app_home_dir(Some(String::new())).unwrap_err(), "无法确定用户 Home 目录");
    let dir = app_home_dir(Some("/home/user".into())).unwrap();
    assert!(dir.starts_with("/home/user") && dir.ends_with(".codex-limit-island"));
    assert_ne!(dir, "/home/user");
    let path = suppress_auto_start_path(Some("/home/user".into())).unwrap();
    assert!(path.starts_with(&dir) && path.ends_with("suppress-auto-start"));
}

#[test]
fn windows_are_identified_by_length() {
    assert_eq!(window_kind(300), Some(LimitWindowKind::FiveHour));
    assert_eq!(window_kind(10080), Some(LimitWindowKind::Weekly));
    assert_eq!(window_kind(60), None);
    let slots = assign_windows(&[Some(10080), Some(300)]);
    assert_eq!(slots.five_hour, Some(1));
    assert_eq!(slots.weekly, Some(0));
    let slots = assign_windows(&[Some(300), Some(300)]);
    assert_eq!(slots.five_hour, Some(1));
    assert_eq!(slots.weekly, None);
    let slots = assign_windows(&[None, Some(42)]);
    assert_eq!((slots.five_hour, slots.weekly), (None, None));
}

#[test]
fn more_tool_names() {
    assert_eq!(tool_state("exec_command").as_str(), "running-command");
    assert_eq!(tool_state("mcp__x__SHELL_COMMAND").as_str(), "running-command");
    assert_eq!(tool_state("write_file").as_str(), "editing");
    assert_eq!(tool_state("Edit").as_str(), "editing");
    assert_eq!(tool_state("get").as_str(), "searching");
    assert_eq!(tool_state("listing").as_str(), "working");
    assert_eq!(tool_state("mcp__a___read").as_str(), "searching");
    assert_eq!(tool_state("mcp__").as_str(), "connecting");
}

#[test]
fn project_is_the_last_directory_name() {
    let mut registry = SessionRegistry::new();
    registry.apply_event(event("UserPromptSubmit", "a", 1));
    assert_eq!(registry.session("a").unwrap().project.as_deref(), Some("Demo"));
    assert_eq!(registry.session("a").unwrap().cwd.as_deref(), Some("D:/Demo"));
}

#[test]
fn snapshot_hides_idle_sessions_and_stamps_increase() {
    let mut registry = SessionRegistry::new();
    registry.apply_event(event("SessionStart", "idle", 1));
    registry.apply_event(event("UserPromptSubmit", "busy", 2));
    let first = registry.snapshot(100);
    assert_eq!(first.updated_at, 100);
    assert_eq!(first.sessions.len(), 1);
    assert_eq!(first.sessions[0].id, "busy");
    let second = registry.snapshot(50);
    assert_eq!(second.updated_at, 101);
    let third = read_activity_snapshot(&mut registry, 3 + STALE_AFTER_MS);
    assert_eq!(third.updated_at, 3 + STALE_AFTER_MS);
    assert!(third.sessions.is_empty());
    assert_eq!(registry.session_count(), 0);
}

#[test]
fn late_root_event_of_old_turn_is_ignored_but_agent_events_pass() {
    let mut registry = SessionRegistry::new();
    let mut first = event("UserPromptSubmit", "a", 1);
    first.turn_id = Some("t2".into());
    registry.apply_event(first);
    let mut late = event("Stop", "a", 2);
    late.turn_id = Some("t1".into());
    registry.apply_event(late);
    assert_eq!(registry.session("a").unwrap().state.as_str(), "thinking");
    assert_eq!(registry.session("a").unwrap().last_activity_at, 1);
    let mut agent = event("PermissionRequest", "a", 3);
    agent.turn_id = Some("t1".into());
    agent.agent_id = Some("helper".into());
    registry.apply_event(agent);
    let session = registry.session("a").unwrap();
    assert_eq!(session.state.as_str(), "waiting");
    assert_eq!(session.agents[0].state.as_str(), "waiting");
}

#[test]
fn finish_without_call_id_ends_latest_matching_call() {
    let mut registry = SessionRegistry::new();
    registry.apply_event(event("UserPromptSubmit", "a", 1));
    for (name, at) in [("Bash", 2), ("Read", 3), ("Bash", 4)] {
        let mut e = event("PreToolUse", "a", at);
        e.tool_name = Some(name.into());
        e.tool_use_id = Some(format!("c{at}"));
        registry.apply_event(e);
    }
    assert_eq!(registry.active_tool_count("a"), Some(3));
    let mut done = event("PostToolUse", "a", 5);
    done.tool_name = Some("Bash".into());
    registry.apply_event(done);
    assert_eq!(registry.active_tool_count("a"), Some(2));
    assert_eq!(registry.session("a").unwrap().state.as_str(), "searching");
    let mut legacy = event("PreToolUse", "a", 6);
    legacy.tool_name = Some("Bash".into());
    registry.apply_event(legacy);
    let mut again = event("PreToolUse", "a", 7);
    again.tool_name = Some("Bash".into());
    registry.apply_event(again);
    assert_eq!(registry.active_tool_count("a"), Some(3));
    assert_eq!(registry.session("a").unwrap().current_command.as_deref(), Some("Bash"));
}

#[test]
fn session_end_clears_calls_and_completes() {
    let mut registry = SessionRegistry::new();
    let mut bash = event("PreToolUse", "a", 1);
    bash.tool_name = Some("Bash".into());
    registry.apply_event(bash);
    registry.apply_event(event("SessionEnd", "a", 2));
    let session = registry.session("a").unwrap();
    assert_eq!(session.state.as_str(), "completed");
    assert_eq!(session.completed_at, Some(2));
    assert_eq!(session.current_command, None);
    assert_eq!(registry.active_tool_count("a"), Some(0));
}
