use std::cell::Cell;
use std::time::{Duration, Instant};

use codexlimit_lib::activity::MAX_HOOK_BYTES;
use codexlimit_lib::sender::{
    logs_invocation, sender_start, sender_step, start_timeout_ms, validate_input, DeliveryError,
    SendOutcome, SenderAction, SenderEvent, SenderState, END_START_TIMEOUT_MS, START_TIMEOUT_MS,
};

/// Runs a delivery: the attempts, the suppression check and the start are the given closures;
/// the listener gets `deadline` to come up.
fn send_with_start(
    input: &[u8],
    suppressed: impl Fn() -> bool,
    start: impl Fn() -> Result<(), String>,
    send: impl Fn(&[u8]) -> SendOutcome,
    deadline: Duration,
) -> Result<(), String> {
    let (mut state, mut action) = sender_start();
    let mut until = None;
    loop {
        let event = match action {
            SenderAction::Send | SenderAction::PauseThenSend => SenderEvent::Sent(send(input)),
            SenderAction::CheckSuppressed => SenderEvent::Suppressed(suppressed()),
            SenderAction::StartListener => {
                let started = start();
                if started.is_ok() {
                    until = Some(Instant::now() + deadline);
                }
                SenderEvent::Started(started)
            }
            SenderAction::CheckClock => SenderEvent::Clock(Instant::now() < until.unwrap()),
            SenderAction::Finish(result) => return result.map_err(|e| e.message()),
        };
        (state, action) = sender_step(state, event);
    }
}

#[test]
fn running_listener_sends_without_start() {
    let starts = Cell::new(0);
    let result = send_with_start(b"{}", || true, || { starts.set(starts.get() + 1); Ok(()) }, |_| SendOutcome::Delivered, Duration::from_millis(1));
    assert!(result.is_ok());
    assert_eq!(starts.get(), 0);
}

#[test]
fn starts_and_retries_current_event() {
    let attempts = Cell::new(0);
    let starts = Cell::new(0);
    let result = send_with_start(b"{}", || false, || { starts.set(starts.get() + 1); Ok(()) }, |_| {
        attempts.set(attempts.get() + 1);
        if attempts.get() == 1 { SendOutcome::Unavailable } else { SendOutcome::Delivered }
    }, Duration::from_millis(300));
    assert!(result.is_ok());
    assert_eq!(starts.get(), 1);
    assert_eq!(attempts.get(), 2);
}

#[test]
fn suppressed_without_listener_does_not_start() {
    let starts = Cell::new(0);
    let result = send_with_start(b"{}", || true, || { starts.set(starts.get() + 1); Ok(()) }, |_| SendOutcome::Unavailable, Duration::from_millis(1));
    assert!(result.is_ok());
    assert_eq!(starts.get(), 0);
}

#[test]
fn timeout_and_rejection_are_bounded() {
    let timeout = send_with_start(b"{}", || false, || Ok(()), |_| SendOutcome::Unavailable, Duration::from_millis(1));
    assert!(timeout.unwrap_err().contains("超时"));
    let rejected = send_with_start(b"{}", || false, || panic!("不应启动"), |_| SendOutcome::Rejected(400), Duration::from_millis(1));
    assert!(rejected.unwrap_err().contains("400"));
}

#[test]
fn oversized_input_is_rejected() {
    assert!(validate_input(&vec![0; MAX_HOOK_BYTES as usize + 1]).is_err());
}

#[test]
fn input_length_bounds() {
    assert!(validate_input(b"").is_err());
    assert_eq!(validate_input(b"").unwrap_err(), "Hook 输入长度无效");
    assert!(validate_input(b"{}").is_ok());
    assert!(validate_input(&vec![0; MAX_HOOK_BYTES as usize]).is_ok());
}

#[test]
fn failed_start_is_reported() {
    let result = send_with_start(b"{}", || false, || Err("启动灵动岛失败".to_string()), |_| SendOutcome::Unavailable, Duration::from_millis(1));
    assert_eq!(result.unwrap_err(), "启动灵动岛失败");
}

#[test]
fn invalid_response_ends_delivery() {
    let starts = Cell::new(0);
    let result = send_with_start(b"{}", || false, || { starts.set(starts.get() + 1); Ok(()) }, |_| SendOutcome::InvalidResponse, Duration::from_millis(1));
    assert_eq!(result.unwrap_err(), "Hook 响应无效");
    assert_eq!(starts.get(), 0);
}

#[test]
fn rejection_message_names_status() {
    assert_eq!(DeliveryError::Rejected(400).message(), "Hook 请求被拒绝，HTTP 400");
    assert_eq!(DeliveryError::Rejected(7).message(), "Hook 请求被拒绝，HTTP 7");
    assert_eq!(DeliveryError::Rejected(65535).message(), "Hook 请求被拒绝，HTTP 65535");
    assert_eq!(DeliveryError::TimedOut.message(), "Hook 监听启动超时");
}

#[test]
fn retries_after_start_until_deadline_then_starts_no_more() {
    let (state, action) = sender_step(SenderState::FirstAttempt, SenderEvent::Sent(SendOutcome::Unavailable));
    assert!(matches!(action, SenderAction::CheckSuppressed));
    let (state, action) = sender_step(state, SenderEvent::Suppressed(false));
    assert!(matches!(action, SenderAction::StartListener));
    let (state, action) = sender_step(state, SenderEvent::Started(Ok(())));
    assert!(matches!(action, SenderAction::CheckClock));
    let (state, action) = sender_step(state, SenderEvent::Clock(true));
    assert!(matches!(action, SenderAction::PauseThenSend));
    let (state, action) = sender_step(state, SenderEvent::Sent(SendOutcome::Unavailable));
    assert!(matches!(action, SenderAction::CheckClock));
    let (state, action) = sender_step(state, SenderEvent::Clock(false));
    assert!(matches!(action, SenderAction::Finish(Err(DeliveryError::TimedOut))));
    assert_eq!(state, SenderState::Done);
}

#[test]
fn session_end_and_interrupt_get_a_short_start_window() {
    assert_eq!(start_timeout_ms(&Some("SessionEnd".into())), END_START_TIMEOUT_MS);
    assert_eq!(start_timeout_ms(&Some("Interrupt".into())), 2500);
    assert_eq!(start_timeout_ms(&Some("Stop".into())), START_TIMEOUT_MS);
    assert_eq!(start_timeout_ms(&None), 10000);
}

#[test]
fn only_session_boundaries_and_prompts_are_logged() {
    assert!(logs_invocation(&Some("SessionStart".into())));
    assert!(logs_invocation(&Some("UserPromptSubmit".into())));
    assert!(logs_invocation(&Some("SessionEnd".into())));
    assert!(!logs_invocation(&Some("PreToolUse".into())));
    assert!(!logs_invocation(&None));
}
