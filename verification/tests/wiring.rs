use codexlimit_lib::activity::registry::{receive_event, refreshes_usage};
use codexlimit_lib::activity::{tool_state, HookEvent, SessionRegistry, COMPLETED_AFTER_MS};
use codexlimit_lib::app_paths::suppress_auto_start_path;
use codexlimit_lib::hook::{event_kind, parse_hook_body};
use codexlimit_lib::sender::{hook_event_name, reply_outcome, SendOutcome};
use codexlimit_lib::server::{classify_server_line, limits_bucket, reply_verdict, ReplyVerdict, ServerLine};
use codexlimit_lib::usage::{usage_step, UsageAction, UsageWake, CALIBRATION_SECS, SETTLE_SECS};

fn event(name: &str, id: &str, agent: Option<&str>, at: u64) -> HookEvent {
    HookEvent {
        hook_event_name: event_kind(name).unwrap(),
        session_id: id.into(),
        cwd: "/work/demo/".into(),
        observed_at: at,
        model: None,
        agent_id: agent.map(str::to_string),
        turn_id: None,
        tool_name: None,
        tool_use_id: None,
    }
}

#[test]
fn hook_body_must_be_json_then_normalizes() {
    let err = parse_hook_body(b"{not json", 1).unwrap_err();
    assert!(err.starts_with("Hook JSON 无效："), "{err}");
    assert_eq!(parse_hook_body(br#"{"session_id":"a"}"#, 1).unwrap_err(), "Hook 缺少事件名");
    assert_eq!(parse_hook_body(br#"{"hook_event_name":"Nope","session_id":"a"}"#, 1).unwrap_err(), "未知 Hook 事件");
    assert_eq!(parse_hook_body(br#"{"hook_event_name":"Stop","session_id":7}"#, 1).unwrap_err(), "Hook 缺少会话 ID");
    let ev = parse_hook_body(br#"{"hook_event_name":"Stop","session_id":"a","model":"m","cwd":3}"#, 5).unwrap();
    assert_eq!(ev.session_id, "a");
    assert_eq!(ev.cwd, "");
    assert_eq!(ev.model.as_deref(), Some("m"));
    assert_eq!(ev.observed_at, 5);
}

#[test]
fn hook_input_event_name() {
    assert_eq!(hook_event_name(br#"{"hook_event_name":"SessionEnd"}"#).as_deref(), Some("SessionEnd"));
    assert_eq!(hook_event_name(br#"{"hook_event_name":1}"#), None);
    assert_eq!(hook_event_name(b"[]"), None);
    assert_eq!(hook_event_name(b"{"), None);
}

#[test]
fn server_lines_are_classified() {
    assert_eq!(classify_server_line(r#"{"method":"account/rateLimits/updated","params":{}}"#), ServerLine::RateLimitsUpdated);
    assert_eq!(classify_server_line(r#"{"id":2,"result":{}}"#), ServerLine::Reply);
    assert_eq!(classify_server_line(r#"{"id":null}"#), ServerLine::Reply);
    assert_eq!(classify_server_line(r#"{"method":"other"}"#), ServerLine::Ignored);
    assert_eq!(classify_server_line("log line"), ServerLine::Ignored);
}

#[test]
fn usage_is_read_on_notice_calibration_and_stops_when_closed() {
    assert_eq!(usage_step(UsageWake::Notified), UsageAction::SettleThenRead);
    assert_eq!(usage_step(UsageWake::TimedOut), UsageAction::Read);
    assert_eq!(usage_step(UsageWake::Disconnected), UsageAction::Stop);
    assert_eq!(CALIBRATION_SECS, 300);
    assert_eq!(SETTLE_SECS, 3);
}

#[test]
fn received_events_refresh_usage_on_session_end_and_root_stop() {
    assert!(refreshes_usage(&event("SessionEnd", "a", Some("x"), 1)));
    assert!(refreshes_usage(&event("Stop", "a", None, 1)));
    assert!(!refreshes_usage(&event("Stop", "a", Some("x"), 1)));
    assert!(!refreshes_usage(&event("Interrupt", "a", None, 1)));
    let mut registry = SessionRegistry::new();
    let (snap, refresh) = receive_event(&mut registry, event("UserPromptSubmit", "a", None, 1), 10);
    assert!(!refresh);
    assert_eq!(snap.updated_at, 10);
    assert_eq!(snap.sessions.len(), 1);
    assert_eq!(snap.sessions[0].project.as_deref(), Some("demo"));
    let (snap, refresh) = receive_event(&mut registry, event("SessionEnd", "b", None, 2), 3 + COMPLETED_AFTER_MS);
    assert!(refresh);
    assert_eq!(snap.updated_at, 3 + COMPLETED_AFTER_MS);
    assert_eq!(snap.sessions.len(), 1);
    assert_eq!(snap.sessions[0].id, "a");
}

#[test]
fn listener_replies_are_read_by_status() {
    assert_eq!(reply_outcome("HTTP/1.1 204 No Content\r\n"), SendOutcome::Delivered);
    assert_eq!(reply_outcome("HTTP/1.1 400 Bad Request\r\n"), SendOutcome::Rejected(400));
    assert_eq!(reply_outcome("  HTTP/1.1\t503"), SendOutcome::Rejected(503));
    assert_eq!(reply_outcome("HTTP/1.1 70000 x"), SendOutcome::InvalidResponse);
    assert_eq!(reply_outcome("HTTP/1.1"), SendOutcome::InvalidResponse);
    assert_eq!(reply_outcome(""), SendOutcome::InvalidResponse);
}

#[test]
fn tool_class_ignores_prefix_segments_and_case() {
    assert_eq!(tool_state("BASH").as_str(), "running-command");
    assert_eq!(tool_state("Apply_Patch").as_str(), "editing");
    assert_eq!(tool_state("x__y__Read_File").as_str(), "searching");
    assert_eq!(tool_state("anything__exec_command").as_str(), "running-command");
    assert_eq!(tool_state("outer__srv__find_files").as_str(), tool_state("srv__find_files").as_str());
}

#[test]
fn marker_path_has_one_separator_between_parts() {
    let path = suppress_auto_start_path(Some("/home/user".into())).unwrap();
    let sep = std::path::MAIN_SEPARATOR;
    assert_eq!(path, format!("/home/user{sep}.codex-limit-island{sep}suppress-auto-start"));
}

#[test]
fn replies_are_matched_to_their_request() {
    assert_eq!(reply_verdict(br#"{"id":3,"result":{}}"#, 3), ReplyVerdict::Answer);
    assert_eq!(reply_verdict(br#"{"id":2,"result":{}}"#, 3), ReplyVerdict::OtherRequest);
    assert_eq!(reply_verdict(br#"{"id":"3","result":{}}"#, 3), ReplyVerdict::OtherRequest);
    assert_eq!(
        reply_verdict(br#"{"id":3,"error":{"message":"not signed in"}}"#, 3),
        ReplyVerdict::Failed("not signed in".to_string())
    );
    assert_eq!(reply_verdict(br#"{"id":3,"error":{"code":1}}"#, 3), ReplyVerdict::Failed("Codex 查询失败".to_string()));
    assert_eq!(reply_verdict(b"{broken", 3), ReplyVerdict::Failed("Codex 返回了无法解析的数据".to_string()));
}

#[test]
fn limits_bucket_prefers_the_codex_limit() {
    assert_eq!(
        limits_bucket(br#"{"id":2,"result":{"rateLimitsByLimitId":{"codex":{}},"rateLimits":{}}}"#).as_deref(),
        Ok("/result/rateLimitsByLimitId/codex")
    );
    assert_eq!(limits_bucket(br#"{"id":2,"result":{"rateLimits":{"primary":null}}}"#).as_deref(), Ok("/result/rateLimits"));
    assert_eq!(limits_bucket(br#"{"id":2,"result":{}}"#).unwrap_err(), "Codex 未返回通用限额");
    assert_eq!(limits_bucket(br#"{"id":2}"#).unwrap_err(), "Codex 响应缺少结果");
}
