//! The hook side: checking the hook input and deciding, step by step, how to deliver it to
//! the listener, starting the listener when it is not running.
use vstd::prelude::*;
use crate::activity::registry::MAX_HOOK_BYTES;
use crate::json::{json_parses, json_str_field, json_string_member};
use crate::http::{is_white_space, parse_decimal, parse_u64, trim_start, white_space};
use crate::text::{chars_of, is_literal, sub_chars};

verus! {

/// How long the listener gets to come up for a session end or an interrupt, whose hooks
/// Codex waits for only briefly.
pub const END_START_TIMEOUT_MS: u64 = 2500;

/// How long the listener gets to come up for any other event.
pub const START_TIMEOUT_MS: u64 = 10000;

/// The pause between two delivery attempts while the listener comes up.
pub const RETRY_PAUSE_MS: u64 = 75;

/// A hook input of `len` bytes can be forwarded: it is not empty and not larger than
/// the listener accepts.
pub open spec fn input_len_ok(len: int) -> bool {
    0 < len <= MAX_HOOK_BYTES
}

/// Checks the length of the hook input.
pub fn validate_input(input: &[u8]) -> (r: Result<(), String>)
    ensures
        r is Ok <==> input_len_ok(input@.len() as int),
        r matches Err(m) ==> m@ == "Hook 输入长度无效"@,
{
    if input.len() == 0 || input.len() as u64 > MAX_HOOK_BYTES {
        Err(String::from_str("Hook 输入长度无效"))
    } else {
        Ok(())
    }
}

/// The event name of a hook input: its JSON object's string member `hook_event_name`, when
/// the input parses.
pub fn hook_event_name(input: &[u8]) -> (r: Option<String>)
    ensures
        r.deep_view() == (if json_parses(input@) {
            json_str_field(input@, "hook_event_name"@)
        } else {
            None
        }),
{
    json_string_member(input, "hook_event_name")
}

/// How long, in milliseconds, the listener gets to start for an event named `name`.
pub open spec fn spec_start_timeout(name: Option<Seq<char>>) -> u64 {
    match name {
        Some(n) => if n == "SessionEnd"@ || n == "Interrupt"@ {
            END_START_TIMEOUT_MS
        } else {
            START_TIMEOUT_MS
        },
        None => START_TIMEOUT_MS,
    }
}

/// How long, in milliseconds, the listener gets to start for an event named `name`.
pub fn start_timeout_ms(name: &Option<String>) -> (ms: u64)
    ensures
        ms == spec_start_timeout(name.deep_view()),
{
    match name {
        Some(n) => {
            let c = chars_of(n.as_str());
            if is_literal(c.as_slice(), "SessionEnd") || is_literal(c.as_slice(), "Interrupt") {
                END_START_TIMEOUT_MS
            } else {
                START_TIMEOUT_MS
            }
        },
        None => START_TIMEOUT_MS,
    }
}

/// Whether a call of the hook for an event named `name` is worth a line in the startup log:
/// session starts, prompts and session ends.
pub open spec fn spec_logs_invocation(name: Option<Seq<char>>) -> bool {
    match name {
        Some(n) => n == "SessionStart"@ || n == "UserPromptSubmit"@ || n == "SessionEnd"@,
        None => false,
    }
}

/// Whether a call of the hook for an event named `name` is worth a line in the startup log.
pub fn logs_invocation(name: &Option<String>) -> (r: bool)
    ensures
        r == spec_logs_invocation(name.deep_view()),
{
    match name {
        Some(n) => {
            let c = chars_of(n.as_str());
            is_literal(c.as_slice(), "SessionStart") || is_literal(c.as_slice(), "UserPromptSubmit")
                || is_literal(c.as_slice(), "SessionEnd")
        },
        None => false,
    }
}

/// What one attempt to post the hook to the listener gave.
#[derive(Debug, PartialEq, Eq, Structural)]
pub enum SendOutcome {
    /// The listener took the event.
    Delivered,
    /// The listener answered with another HTTP status.
    Rejected(u16),
    /// The answer was no HTTP status line.
    InvalidResponse,
    /// No listener could be reached.
    Unavailable,
}

/// The first word of `s`: its longest prefix without white space.
pub open spec fn first_word(s: Seq<char>) -> Seq<char>
    decreases s.len(),
{
    if s.len() == 0 || is_white_space(s[0]) {
        Seq::empty()
    } else {
        seq![s[0]] + first_word(s.drop_first())
    }
}

/// The second white-space-separated word of `s`, as `split_whitespace().nth(1)` gives it
/// (empty when there is none).
pub open spec fn second_word(s: Seq<char>) -> Seq<char> {
    let t = trim_start(s);
    first_word(trim_start(t.skip(first_word(t).len() as int)))
}

/// What an answer of the listener means: its status (the second word of the answer) `204`
/// delivers, another status rejects, and an answer without a status is invalid.
pub open spec fn spec_reply_outcome(reply: Seq<char>) -> SendOutcome {
    match parse_u64(second_word(reply)) {
        Some(n) => if n == 204 {
            SendOutcome::Delivered
        } else if n <= 65535 {
            SendOutcome::Rejected(n as u16)
        } else {
            SendOutcome::InvalidResponse
        },
        None => SendOutcome::InvalidResponse,
    }
}

fn skip_white(c: &[char], from: usize) -> (r: usize)
    requires
        from <= c@.len(),
    ensures
        from <= r <= c@.len(),
        trim_start(c@.skip(from as int)) == c@.skip(r as int),
{
    let n = c.len();
    let mut a = from;
    while a < n && white_space(c[a])
        invariant
            n == c@.len(),
            from <= a <= n,
            trim_start(c@.skip(from as int)) == trim_start(c@.skip(a as int)),
        decreases n - a,
    {
        assert(c@.skip(a as int).drop_first() =~= c@.skip(a + 1));
        a = a + 1;
    }
    a
}

fn word_end(c: &[char], from: usize) -> (r: usize)
    requires
        from <= c@.len(),
    ensures
        from <= r <= c@.len(),
        first_word(c@.skip(from as int)) == c@.subrange(from as int, r as int),
{
    let n = c.len();
    let mut b = from;
    while b < n && !white_space(c[b])
        invariant
            n == c@.len(),
            from <= b <= n,
            first_word(c@.skip(from as int)) == c@.subrange(from as int, b as int) + first_word(
                c@.skip(b as int),
            ),
        decreases n - b,
    {
        assert(c@.skip(b as int).drop_first() =~= c@.skip(b + 1));
        assert(c@.subrange(from as int, b + 1) =~= c@.subrange(from as int, b as int) + seq![c@[b as int]]);
        b = b + 1;
    }
    assert(c@.subrange(from as int, b as int) + first_word(c@.skip(b as int)) =~= c@.subrange(
        from as int,
        b as int,
    ));
    b
}

/// What an answer of the listener (its first bytes, as text) means.
pub fn reply_outcome(reply: &str) -> (o: SendOutcome)
    ensures
        o == spec_reply_outcome(reply@),
{
    let c = chars_of(reply);
    let s = c.as_slice();
    let a = skip_white(s, 0);
    let b = word_end(s, a);
    let d = skip_white(s, b);
    let e = word_end(s, d);
    proof {
        assert(s@.skip(0) =~= s@);
        let t = s@.skip(a as int);
        assert(first_word(t).len() == b - a);
        assert(t.skip(b - a) =~= s@.skip(b as int));
    }
    let word = sub_chars(s, d, e);
    match parse_decimal(word.as_slice()) {
        Some(n) => if n == 204 {
            SendOutcome::Delivered
        } else if n <= 65535 {
            SendOutcome::Rejected(n as u16)
        } else {
            SendOutcome::InvalidResponse
        },
        None => SendOutcome::InvalidResponse,
    }
}

/// Why a hook could not be delivered.
#[derive(Debug)]
pub enum DeliveryError {
    Rejected(u16),
    InvalidResponse,
    StartFailed(String),
    TimedOut,
}

/// The decimal digit character of `d` (below ten).
pub open spec fn digit_char(d: nat) -> char {
    (('0' as nat) + d) as char
}

/// The decimal notation of `n`, without leading zeros.
pub open spec fn decimal(n: nat) -> Seq<char>
    decreases n,
{
    if n < 10 {
        seq![digit_char(n)]
    } else {
        decimal(n / 10) + seq![digit_char(n % 10)]
    }
}

fn digit_str(d: u16) -> (s: &'static str)
    requires
        d < 10,
    ensures
        s@ == seq![digit_char(d as nat)],
{
    proof {
        reveal_strlit("0");
        reveal_strlit("1");
        reveal_strlit("2");
        reveal_strlit("3");
        reveal_strlit("4");
        reveal_strlit("5");
        reveal_strlit("6");
        reveal_strlit("7");
        reveal_strlit("8");
        reveal_strlit("9");
    }
    let s = match d {
        0 => "0",
        1 => "1",
        2 => "2",
        3 => "3",
        4 => "4",
        5 => "5",
        6 => "6",
        7 => "7",
        8 => "8",
        _ => "9",
    };
    assert(s@ =~= seq![digit_char(d as nat)]);
    s
}

/// Appends the decimal notation of `n` to `out`.
fn push_decimal(out: &mut String, n: u16)
    ensures
        final(out)@ == old(out)@ + decimal(n as nat),
    decreases n,
{
    if n < 10 {
        out.append(digit_str(n));
    } else {
        push_decimal(out, n / 10);
        out.append(digit_str(n % 10));
        assert(final(out)@ =~= old(out)@ + decimal(n as nat));
    }
}

impl DeliveryError {
    /// The message of the error.
    pub open spec fn spec_message(self) -> Seq<char> {
        match self {
            DeliveryError::Rejected(code) => "Hook 请求被拒绝，HTTP "@ + decimal(code as nat),
            DeliveryError::InvalidResponse => "Hook 响应无效"@,
            DeliveryError::StartFailed(e) => e@,
            DeliveryError::TimedOut => "Hook 监听启动超时"@,
        }
    }

    /// The message of the error.
    pub fn message(&self) -> (m: String)
        ensures
            m@ == self.spec_message(),
    {
        match self {
            DeliveryError::Rejected(code) => {
                let mut m = String::from_str("Hook 请求被拒绝，HTTP ");
                push_decimal(&mut m, *code);
                m
            },
            DeliveryError::InvalidResponse => String::from_str("Hook 响应无效"),
            DeliveryError::StartFailed(e) => e.clone(),
            DeliveryError::TimedOut => String::from_str("Hook 监听启动超时"),
        }
    }
}

/// Where a delivery stands.
#[derive(Debug, PartialEq, Eq, Structural)]
pub enum SenderState {
    /// The first attempt was made.
    FirstAttempt,
    /// The listener was unreachable; the user's choice to keep it closed is being read.
    CheckingSuppressed,
    /// The listener is being started.
    Starting,
    /// The listener was started; the clock is read before the next attempt.
    CheckingClock,
    /// A further attempt was made.
    Retrying,
    /// The delivery is over.
    Done,
}

/// What the side that does the work reports back.
#[derive(Debug)]
pub enum SenderEvent {
    /// The attempt asked for gave this.
    Sent(SendOutcome),
    /// Whether the user closed the listener on purpose.
    Suppressed(bool),
    /// How starting the listener went.
    Started(Result<(), String>),
    /// Whether the start deadline is still ahead.
    Clock(bool),
}

/// What the side that does the work must do next.
#[derive(Debug)]
pub enum SenderAction {
    /// Post the hook to the listener.
    Send,
    /// Read whether the user closed the listener on purpose.
    CheckSuppressed,
    /// Start the listener, then fix the deadline.
    StartListener,
    /// Read whether the deadline is still ahead.
    CheckClock,
    /// Pause briefly, then post the hook again.
    PauseThenSend,
    /// Stop with this result.
    Finish(Result<(), DeliveryError>),
}

/// The event reported fits the action the state asked for.
pub open spec fn event_fits(state: SenderState, event: SenderEvent) -> bool {
    match state {
        SenderState::FirstAttempt | SenderState::Retrying => event is Sent,
        SenderState::CheckingSuppressed => event is Suppressed,
        SenderState::Starting => event is Started,
        SenderState::CheckingClock => event is Clock,
        SenderState::Done => false,
    }
}

/// The end of a delivery after a definite answer of the listener.
pub open spec fn answered(outcome: SendOutcome) -> Option<Result<(), DeliveryError>> {
    match outcome {
        SendOutcome::Delivered => Some(Ok(())),
        SendOutcome::Rejected(code) => Some(Err(DeliveryError::Rejected(code))),
        SendOutcome::InvalidResponse => Some(Err(DeliveryError::InvalidResponse)),
        SendOutcome::Unavailable => None,
    }
}

/// One step of a delivery: a definite answer of the listener ends it; an unreachable listener
/// is started unless the user closed it on purpose (then the hook is dropped quietly); after
/// a start, attempts repeat until the deadline passes.
pub open spec fn spec_sender_step(state: SenderState, event: SenderEvent) -> (SenderState, SenderAction) {
    match (state, event) {
        (SenderState::FirstAttempt, SenderEvent::Sent(o)) => match answered(o) {
            Some(r) => (SenderState::Done, SenderAction::Finish(r)),
            None => (SenderState::CheckingSuppressed, SenderAction::CheckSuppressed),
        },
        (SenderState::CheckingSuppressed, SenderEvent::Suppressed(true)) => (
            SenderState::Done,
            SenderAction::Finish(Ok(())),
        ),
        (SenderState::CheckingSuppressed, SenderEvent::Suppressed(false)) => (
            SenderState::Starting,
            SenderAction::StartListener,
        ),
        (SenderState::Starting, SenderEvent::Started(Ok(()))) => (
            SenderState::CheckingClock,
            SenderAction::CheckClock,
        ),
        (SenderState::Starting, SenderEvent::Started(Err(e))) => (
            SenderState::Done,
            SenderAction::Finish(Err(DeliveryError::StartFailed(e))),
        ),
        (SenderState::CheckingClock, SenderEvent::Clock(true)) => (
            SenderState::Retrying,
            SenderAction::PauseThenSend,
        ),
        (SenderState::CheckingClock, SenderEvent::Clock(false)) => (
            SenderState::Done,
            SenderAction::Finish(Err(DeliveryError::TimedOut)),
        ),
        (SenderState::Retrying, SenderEvent::Sent(o)) => match answered(o) {
            Some(r) => (SenderState::Done, SenderAction::Finish(r)),
            None => (SenderState::CheckingClock, SenderAction::CheckClock),
        },
        _ => (SenderState::Done, SenderAction::Finish(Err(DeliveryError::InvalidResponse))),
    }
}

/// The first step of a delivery: one attempt.
pub fn sender_start() -> (r: (SenderState, SenderAction))
    ensures
        r == (SenderState::FirstAttempt, SenderAction::Send),
{
    (SenderState::FirstAttempt, SenderAction::Send)
}

fn answer_of(outcome: SendOutcome) -> (r: Option<Result<(), DeliveryError>>)
    ensures
        r == answered(outcome),
{
    match outcome {
        SendOutcome::Delivered => Some(Ok(())),
        SendOutcome::Rejected(code) => Some(Err(DeliveryError::Rejected(code))),
        SendOutcome::InvalidResponse => Some(Err(DeliveryError::InvalidResponse)),
        SendOutcome::Unavailable => None,
    }
}

/// The next state of a delivery and what to do, given what the last action gave.
pub fn sender_step(state: SenderState, event: SenderEvent) -> (r: (SenderState, SenderAction))
    requires
        event_fits(state, event),
    ensures
        r == spec_sender_step(state, event),
{
    match (state, event) {
        (SenderState::FirstAttempt, SenderEvent::Sent(o)) => match answer_of(o) {
            Some(r) => (SenderState::Done, SenderAction::Finish(r)),
            None => (SenderState::CheckingSuppressed, SenderAction::CheckSuppressed),
        },
        (SenderState::CheckingSuppressed, SenderEvent::Suppressed(suppressed)) => {
            if suppressed {
                (SenderState::Done, SenderAction::Finish(Ok(())))
            } else {
                (SenderState::Starting, SenderAction::StartListener)
            }
        },
        (SenderState::Starting, SenderEvent::Started(started)) => match started {
            Ok(()) => (SenderState::CheckingClock, SenderAction::CheckClock),
            Err(e) => (SenderState::Done, SenderAction::Finish(Err(DeliveryError::StartFailed(e)))),
        },
        (SenderState::CheckingClock, SenderEvent::Clock(ahead)) => {
            if ahead {
                (SenderState::Retrying, SenderAction::PauseThenSend)
            } else {
                (SenderState::Done, SenderAction::Finish(Err(DeliveryError::TimedOut)))
            }
        },
        (SenderState::Retrying, SenderEvent::Sent(o)) => match answer_of(o) {
            Some(r) => (SenderState::Done, SenderAction::Finish(r)),
            None => (SenderState::CheckingClock, SenderAction::CheckClock),
        },
        _ => (SenderState::Done, SenderAction::Finish(Err(DeliveryError::InvalidResponse))),
    }
}

/// The actions a delivery asks for, from `state` on, when the work done reports `events`;
/// the run stops at the first event that does not fit.
pub open spec fn run_actions(state: SenderState, events: Seq<SenderEvent>) -> Seq<SenderAction>
    decreases events.len(),
{
    if events.len() == 0 || !event_fits(state, events[0]) {
        Seq::empty()
    } else {
        let r = spec_sender_step(state, events[0]);
        seq![r.1] + run_actions(r.0, events.drop_first())
    }
}

/// How many times `actions` asks to start the listener.
pub open spec fn count_starts(actions: Seq<SenderAction>) -> nat
    decreases actions.len(),
{
    if actions.len() == 0 {
        0
    } else {
        (if actions[0] is StartListener {
            1nat
        } else {
            0nat
        }) + count_starts(actions.drop_first())
    }
}

proof fn lemma_count_starts_cons(a: SenderAction, rest: Seq<SenderAction>)
    ensures
        count_starts(seq![a] + rest) == (if a is StartListener {
            1nat
        } else {
            0nat
        }) + count_starts(rest),
{
    assert((seq![a] + rest).drop_first() =~= rest);
}

proof fn lemma_no_start_once_started(state: SenderState, events: Seq<SenderEvent>)
    requires
        state == SenderState::Starting || state == SenderState::CheckingClock || state
            == SenderState::Retrying || state == SenderState::Done,
    ensures
        count_starts(run_actions(state, events)) == 0,
    decreases events.len(),
{
    if events.len() > 0 && event_fits(state, events[0]) {
        let r = spec_sender_step(state, events[0]);
        lemma_no_start_once_started(r.0, events.drop_first());
        lemma_count_starts_cons(r.1, run_actions(r.0, events.drop_first()));
    }
}

/// A delivery starts the listener at most once, whatever the attempts give.
pub proof fn law_start_at_most_once(events: Seq<SenderEvent>)
    ensures
        count_starts(run_actions(SenderState::FirstAttempt, events)) <= 1,
{
    if events.len() > 0 && event_fits(SenderState::FirstAttempt, events[0]) {
        let r = spec_sender_step(SenderState::FirstAttempt, events[0]);
        let rest = events.drop_first();
        lemma_count_starts_cons(r.1, run_actions(r.0, rest));
        if r.0 == SenderState::CheckingSuppressed {
            if rest.len() > 0 && event_fits(r.0, rest[0]) {
                let r2 = spec_sender_step(r.0, rest[0]);
                lemma_no_start_once_started(r2.0, rest.drop_first());
                lemma_count_starts_cons(r2.1, run_actions(r2.0, rest.drop_first()));
            }
        } else {
            lemma_no_start_once_started(r.0, rest);
        }
    }
}

/// When the user closed the listener on purpose, an unreachable listener is not started and
/// the hook ends quietly.
pub proof fn law_suppressed_listener_not_started(events: Seq<SenderEvent>)
    requires
        events.len() >= 2,
        events[0] == SenderEvent::Sent(SendOutcome::Unavailable),
        events[1] == SenderEvent::Suppressed(true),
    ensures
        count_starts(run_actions(SenderState::FirstAttempt, events)) == 0,
        run_actions(SenderState::FirstAttempt, events).len() == 2,
        run_actions(SenderState::FirstAttempt, events)[1] == SenderAction::Finish(Ok(())),
{
    let rest = events.drop_first();
    let rest2 = rest.drop_first();
    assert(rest[0] == events[1]);
    assert(run_actions(SenderState::Done, rest2) == Seq::<SenderAction>::empty());
    assert(run_actions(SenderState::CheckingSuppressed, rest) =~= seq![SenderAction::Finish(Ok(()))]);
    lemma_count_starts_cons(SenderAction::CheckSuppressed, seq![SenderAction::Finish(Ok(()))]);
    lemma_count_starts_cons(SenderAction::Finish(Ok(())), Seq::empty());
}

/// A reachable listener is never started: the first answer ends the delivery with it.
pub proof fn law_answer_ends_delivery(state: SenderState, outcome: SendOutcome)
    requires
        state == SenderState::FirstAttempt || state == SenderState::Retrying,
        outcome != SendOutcome::Unavailable,
    ensures
        spec_sender_step(state, SenderEvent::Sent(outcome)) == (
            SenderState::Done,
            SenderAction::Finish(answered(outcome)->0),
        ),
        answered(outcome) matches Some(r) && (r is Ok <==> outcome == SendOutcome::Delivered),
{
}

/// A delivery stops exactly when it finishes, and nothing follows its end.
pub proof fn law_finish_is_final(state: SenderState, event: SenderEvent)
    requires
        event_fits(state, event),
    ensures
        (spec_sender_step(state, event).1 is Finish) <==> spec_sender_step(state, event).0
            == SenderState::Done,
        forall|e: SenderEvent| !event_fits(SenderState::Done, e),
{
}

} // verus!
