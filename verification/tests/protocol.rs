use codexlimit_lib::activity::{HookEventKind, MAX_HOOK_BYTES};
use codexlimit_lib::hook::{event_kind, normalize_hook, HookError, HookFields};
use codexlimit_lib::http::{header_progress, parse_request_head, HeaderProgress, RequestError, MAX_HEADER_BYTES};

fn head(lines: &[&str]) -> Vec<u8> {
    let mut text = lines.join("\r\n");
    text.push_str("\r\n\r\n");
    text.into_bytes()
}

fn fields(name: Option<&str>, session: Option<&str>) -> HookFields {
    HookFields {
        hook_event_name: name.map(str::to_string),
        session_id: session.map(str::to_string),
        cwd: None,
        model: Some("gpt".into()),
        agent_id: None,
        turn_id: Some("t1".into()),
        tool_name: None,
        tool_use_id: None,
    }
}

#[test]
fn accepts_the_hook_request_head() {
    let h = head(&["POST /api/codex/hook HTTP/1.1", "Host: 127.0.0.1:17321", "Content-Type: application/json", "Content-Length: 123", "Connection: close"]);
    assert_eq!(parse_request_head(&h), Ok(123));
    let h = head(&["POST /api/codex/hook HTTP/1.0", "content-LENGTH:7"]);
    assert_eq!(parse_request_head(&h), Ok(7));
}

#[test]
fn content_length_value_is_trimmed_and_may_carry_a_plus() {
    let h = head(&["POST /api/codex/hook HTTP/1.1", "Content-Length: \t+42 \u{3000}"]);
    assert_eq!(parse_request_head(&h), Ok(42));
}

#[test]
fn first_content_length_header_decides() {
    let h = head(&["POST /api/codex/hook HTTP/1.1", "Content-Length: x", "Content-Length: 5"]);
    assert_eq!(parse_request_head(&h), Err(RequestError::MissingContentLength));
    let h = head(&["POST /api/codex/hook HTTP/1.1", "X-Length: 9", "Content-Length: 5"]);
    assert_eq!(parse_request_head(&h), Ok(5));
}

#[test]
fn refuses_other_requests() {
    assert_eq!(parse_request_head(&head(&["GET /api/codex/hook HTTP/1.1", "Content-Length: 5"])), Err(RequestError::InvalidRequestLine));
    assert_eq!(parse_request_head(&head(&["POST /other HTTP/1.1", "Content-Length: 5"])), Err(RequestError::InvalidRequestLine));
    assert_eq!(parse_request_head(&head(&["POST /api/codex/hook HTTP/1.1"])), Err(RequestError::MissingContentLength));
    assert_eq!(parse_request_head(&head(&["POST /api/codex/hook HTTP/1.1", "Content-Length : 5"])), Err(RequestError::MissingContentLength));
    assert_eq!(parse_request_head(&head(&["POST /api/codex/hook HTTP/1.1", "Content-Length: -5"])), Err(RequestError::MissingContentLength));
    assert_eq!(parse_request_head(&head(&["POST /api/codex/hook HTTP/1.1", "Content-Length: 99999999999999999999"])), Err(RequestError::MissingContentLength));
    assert_eq!(parse_request_head(&head(&["POST /api/codex/hook HTTP/1.1", "Content-Length: 0"])), Err(RequestError::InvalidBodyLength));
    let too_large = format!("Content-Length: {}", MAX_HOOK_BYTES + 1);
    assert_eq!(parse_request_head(&head(&["POST /api/codex/hook HTTP/1.1", &too_large])), Err(RequestError::InvalidBodyLength));
    let largest = format!("Content-Length: {}", MAX_HOOK_BYTES);
    assert_eq!(parse_request_head(&head(&["POST /api/codex/hook HTTP/1.1", &largest])), Ok(MAX_HOOK_BYTES));
    let mut bad = head(&["POST /api/codex/hook HTTP/1.1", "Content-Length: 5"]);
    bad.insert(3, 0xff);
    assert_eq!(parse_request_head(&bad), Err(RequestError::InvalidEncoding));
    assert_eq!(RequestError::InvalidEncoding.message(), "HTTP 请求头编码无效");
}

#[test]
fn head_reading_stops_at_empty_line_or_limit() {
    assert_eq!(header_progress(b"POST / HTTP/1.1\r\n\r\n"), HeaderProgress::Complete);
    assert_eq!(header_progress(b"POST / HTTP/1.1\r\n"), HeaderProgress::NeedMore);
    assert_eq!(header_progress(&vec![b'a'; MAX_HEADER_BYTES]), HeaderProgress::TooLarge);
    assert_eq!(header_progress(&vec![b'a'; MAX_HEADER_BYTES - 1]), HeaderProgress::NeedMore);
}

#[test]
fn normalize_reports_each_missing_field() {
    assert_eq!(normalize_hook(fields(None, Some("s")), 1).unwrap_err(), HookError::MissingEventName);
    assert_eq!(normalize_hook(fields(Some("Unknown"), Some("s")), 1).unwrap_err(), HookError::UnknownEvent);
    assert_eq!(normalize_hook(fields(Some("Stop"), None), 1).unwrap_err(), HookError::MissingSessionId);
    assert_eq!(HookError::MissingSessionId.message(), "Hook 缺少会话 ID");
    let event = normalize_hook(fields(Some("Stop"), Some("s")), 9).unwrap();
    assert_eq!(event.hook_event_name, HookEventKind::Stop);
    assert_eq!(event.session_id, "s");
    assert_eq!(event.cwd, "");
    assert_eq!(event.observed_at, 9);
    assert_eq!(event.model.as_deref(), Some("gpt"));
    assert_eq!(event.turn_id.as_deref(), Some("t1"));
}

#[test]
fn knows_every_hook_event_name() {
    for name in ["SessionStart", "SessionEnd", "UserPromptSubmit", "PreToolUse", "PostToolUse", "PreCompact", "PostCompact", "SubagentStart", "SubagentStop", "PermissionRequest", "Stop", "Interrupt"] {
        assert!(event_kind(name).is_some(), "{name}");
    }
    assert_eq!(event_kind("stop"), None);
    assert_eq!(event_kind(""), None);
}
