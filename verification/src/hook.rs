//! Turning the fields of a hook's JSON body into a [`HookEvent`].
use vstd::prelude::*;
use crate::activity::event::{EventModel, HookEvent, HookEventKind, copy_opt};
use crate::json::{json_parse_error, json_error_text, json_parses, json_string_member, str_member};
use crate::text::{chars_of, is_literal};

verus! {

/// The string fields of a hook body that the tracker reads; a field that is absent or not a
/// string is `None`. Everything else in the body (prompts, tool inputs) is never read.
#[derive(Debug)]
pub struct HookFields {
    pub hook_event_name: Option<String>,
    pub session_id: Option<String>,
    pub cwd: Option<String>,
    pub model: Option<String>,
    pub agent_id: Option<String>,
    pub turn_id: Option<String>,
    pub tool_name: Option<String>,
    pub tool_use_id: Option<String>,
}

/// Why a hook body was refused.
#[derive(Debug, PartialEq, Eq, Structural)]
pub enum HookError {
    MissingEventName,
    UnknownEvent,
    MissingSessionId,
}

impl HookError {
    /// The message of the error.
    pub open spec fn spec_message(self) -> Seq<char> {
        match self {
            HookError::MissingEventName => "Hook 缺少事件名"@,
            HookError::UnknownEvent => "未知 Hook 事件"@,
            HookError::MissingSessionId => "Hook 缺少会话 ID"@,
        }
    }

    /// The message of the error.
    pub fn message(&self) -> (m: &'static str)
        ensures
            m@ == self.spec_message(),
    {
        match self {
            HookError::MissingEventName => "Hook 缺少事件名",
            HookError::UnknownEvent => "未知 Hook 事件",
            HookError::MissingSessionId => "Hook 缺少会话 ID",
        }
    }
}

/// The event that a hook event name stands for.
pub open spec fn event_kind_of(name: Seq<char>) -> Option<HookEventKind> {
    if name == "SessionStart"@ {
        Some(HookEventKind::SessionStart)
    } else if name == "SessionEnd"@ {
        Some(HookEventKind::SessionEnd)
    } else if name == "UserPromptSubmit"@ {
        Some(HookEventKind::UserPromptSubmit)
    } else if name == "PreToolUse"@ {
        Some(HookEventKind::PreToolUse)
    } else if name == "PostToolUse"@ {
        Some(HookEventKind::PostToolUse)
    } else if name == "PreCompact"@ {
        Some(HookEventKind::PreCompact)
    } else if name == "PostCompact"@ {
        Some(HookEventKind::PostCompact)
    } else if name == "SubagentStart"@ {
        Some(HookEventKind::SubagentStart)
    } else if name == "SubagentStop"@ {
        Some(HookEventKind::SubagentStop)
    } else if name == "PermissionRequest"@ {
        Some(HookEventKind::PermissionRequest)
    } else if name == "Stop"@ {
        Some(HookEventKind::Stop)
    } else if name == "Interrupt"@ {
        Some(HookEventKind::Interrupt)
    } else {
        None
    }
}

/// The event that a hook event name stands for.
pub fn event_kind(name: &str) -> (k: Option<HookEventKind>)
    ensures
        k == event_kind_of(name@),
{
    let c = chars_of(name);
    let n = c.as_slice();
    if is_literal(n, "SessionStart") {
        Some(HookEventKind::SessionStart)
    } else if is_literal(n, "SessionEnd") {
        Some(HookEventKind::SessionEnd)
    } else if is_literal(n, "UserPromptSubmit") {
        Some(HookEventKind::UserPromptSubmit)
    } else if is_literal(n, "PreToolUse") {
        Some(HookEventKind::PreToolUse)
    } else if is_literal(n, "PostToolUse") {
        Some(HookEventKind::PostToolUse)
    } else if is_literal(n, "PreCompact") {
        Some(HookEventKind::PreCompact)
    } else if is_literal(n, "PostCompact") {
        Some(HookEventKind::PostCompact)
    } else if is_literal(n, "SubagentStart") {
        Some(HookEventKind::SubagentStart)
    } else if is_literal(n, "SubagentStop") {
        Some(HookEventKind::SubagentStop)
    } else if is_literal(n, "PermissionRequest") {
        Some(HookEventKind::PermissionRequest)
    } else if is_literal(n, "Stop") {
        Some(HookEventKind::Stop)
    } else if is_literal(n, "Interrupt") {
        Some(HookEventKind::Interrupt)
    } else {
        None
    }
}

/// The views of the string fields of a hook body.
pub open spec fn fields_name(f: HookFields) -> Option<Seq<char>> {
    f.hook_event_name.deep_view()
}

/// The known event that a hook body names, if it names one.
pub open spec fn accepted_kind(f: HookFields) -> Option<HookEventKind> {
    match fields_name(f) {
        Some(n) => event_kind_of(n),
        None => None,
    }
}

/// The event a valid hook body describes, observed at `observed_at`.
pub open spec fn normalized(f: HookFields, kind: HookEventKind, observed_at: u64) -> EventModel {
    EventModel {
        kind,
        session_id: f.session_id.deep_view().unwrap_or(Seq::empty()),
        cwd: f.cwd.deep_view().unwrap_or(Seq::empty()),
        observed_at,
        model: f.model.deep_view(),
        agent_id: f.agent_id.deep_view(),
        turn_id: f.turn_id.deep_view(),
        tool_name: f.tool_name.deep_view(),
        tool_use_id: f.tool_use_id.deep_view(),
    }
}

/// Checks a hook body and keeps only its metadata: the event name must be present and
/// known, the session identifier present; a missing working directory reads as empty.
pub fn normalize_hook(fields: HookFields, observed_at: u64) -> (r: Result<HookEvent, HookError>)
    ensures
        fields.hook_event_name is None ==> r == Err::<HookEvent, HookError>(
            HookError::MissingEventName,
        ),
        fields_name(fields) matches Some(n) && event_kind_of(n) is None ==> r == Err::<
            HookEvent,
            HookError,
        >(HookError::UnknownEvent),
        fields_name(fields) matches Some(n) && event_kind_of(n) is Some
            && fields.session_id is None ==> r == Err::<HookEvent, HookError>(
            HookError::MissingSessionId,
        ),
        accepted_kind(fields) matches Some(k) ==> (fields.session_id is Some ==> (r matches Ok(ev)
            && ev@ == normalized(fields, k, observed_at))),
{
    let kind = match &fields.hook_event_name {
        None => {
            return Err(HookError::MissingEventName);
        },
        Some(name) => match event_kind(name.as_str()) {
            Some(k) => k,
            None => {
                return Err(HookError::UnknownEvent);
            },
        },
    };
    let session_id = match &fields.session_id {
        Some(id) => id.clone(),
        None => {
            return Err(HookError::MissingSessionId);
        },
    };
    let cwd = match &fields.cwd {
        Some(c) => c.clone(),
        None => String::new(),
    };
    Ok(
        HookEvent {
            hook_event_name: kind,
            session_id,
            cwd,
            observed_at,
            model: copy_opt(&fields.model),
            agent_id: copy_opt(&fields.agent_id),
            turn_id: copy_opt(&fields.turn_id),
            tool_name: copy_opt(&fields.tool_name),
            tool_use_id: copy_opt(&fields.tool_use_id),
        },
    )
}

/// The metadata fields that a hook body's JSON gives, when it parses.
pub fn hook_fields_of(body: &[u8]) -> (r: Option<HookFields>)
    ensures
        r is Some <==> json_parses(body@),
        r matches Some(f) ==> {
            &&& f.hook_event_name.deep_view() == str_member(body@, "hook_event_name"@)
            &&& f.session_id.deep_view() == str_member(body@, "session_id"@)
            &&& f.cwd.deep_view() == str_member(body@, "cwd"@)
            &&& f.model.deep_view() == str_member(body@, "model"@)
            &&& f.agent_id.deep_view() == str_member(body@, "agent_id"@)
            &&& f.turn_id.deep_view() == str_member(body@, "turn_id"@)
            &&& f.tool_name.deep_view() == str_member(body@, "tool_name"@)
            &&& f.tool_use_id.deep_view() == str_member(body@, "tool_use_id"@)
        },
{
    if json_parse_error(body).is_some() {
        return None;
    }
    Some(
        HookFields {
            hook_event_name: json_string_member(body, "hook_event_name"),
            session_id: json_string_member(body, "session_id"),
            cwd: json_string_member(body, "cwd"),
            model: json_string_member(body, "model"),
            agent_id: json_string_member(body, "agent_id"),
            turn_id: json_string_member(body, "turn_id"),
            tool_name: json_string_member(body, "tool_name"),
            tool_use_id: json_string_member(body, "tool_use_id"),
        },
    )
}

/// The event that a hook body describes, observed at `at`, or the message of why it is
/// refused: it must be JSON, then [`normalize_hook`] decides on its string members.
pub open spec fn spec_parse_hook_body(body: Seq<u8>, at: u64) -> Result<EventModel, Seq<char>> {
    let m = |n: Seq<char>| str_member(body, n);
    if !json_parses(body) {
        Err("Hook JSON 无效："@ + json_error_text(body))
    } else {
        match m("hook_event_name"@) {
            None => Err(HookError::MissingEventName.spec_message()),
            Some(name) => match event_kind_of(name) {
                None => Err(HookError::UnknownEvent.spec_message()),
                Some(kind) => match m("session_id"@) {
                    None => Err(HookError::MissingSessionId.spec_message()),
                    Some(session_id) => Ok(
                        EventModel {
                            kind,
                            session_id,
                            cwd: m("cwd"@).unwrap_or(Seq::empty()),
                            observed_at: at,
                            model: m("model"@),
                            agent_id: m("agent_id"@),
                            turn_id: m("turn_id"@),
                            tool_name: m("tool_name"@),
                            tool_use_id: m("tool_use_id"@),
                        },
                    ),
                },
            },
        }
    }
}

/// The models of a parse result.
pub open spec fn parsed_view(r: Result<HookEvent, String>) -> Result<EventModel, Seq<char>> {
    match r {
        Ok(ev) => Ok(ev@),
        Err(m) => Err(m@),
    }
}

/// Parses a hook body received at `observed_at` into the event it describes.
pub fn parse_hook_body(body: &[u8], observed_at: u64) -> (r: Result<HookEvent, String>)
    ensures
        parsed_view(r) == spec_parse_hook_body(body@, observed_at),
{
    if let Some(error) = json_parse_error(body) {
        let mut message = String::from_str("Hook JSON 无效：");
        message.append(error.as_str());
        return Err(message);
    }
    let fields = match hook_fields_of(body) {
        Some(f) => f,
        None => {
            proof {
                assert(false);
            }
            return Err(String::new());
        },
    };
    match normalize_hook(fields, observed_at) {
        Ok(event) => Ok(event),
        Err(error) => Err(String::from_str(error.message())),
    }
}

} // verus!
