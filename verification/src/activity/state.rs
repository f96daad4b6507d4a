//! What sessions, agents and running calls show, and how a tool's name maps to it.
use vstd::prelude::*;
use crate::text::{
    ascii_lower, chars_eq, chars_of, chars_start_with, has_literal_prefix, is_literal, starts_with,
    sub_chars, to_ascii_lower,
};

verus! {

/// What a session, an agent or a running tool is doing.
#[derive(Clone, Copy, PartialEq, Eq, Structural, Debug)]
pub enum ActivityState {
    Idle,
    Thinking,
    Waiting,
    Composing,
    Completed,
    RunningCommand,
    Editing,
    Searching,
    Connecting,
    Working,
}

impl ActivityState {
    /// The name shown to the interface.
    pub open spec fn spec_name(self) -> Seq<char> {
        match self {
            ActivityState::Idle => "idle"@,
            ActivityState::Thinking => "thinking"@,
            ActivityState::Waiting => "waiting"@,
            ActivityState::Composing => "composing"@,
            ActivityState::Completed => "completed"@,
            ActivityState::RunningCommand => "running-command"@,
            ActivityState::Editing => "editing"@,
            ActivityState::Searching => "searching"@,
            ActivityState::Connecting => "connecting"@,
            ActivityState::Working => "working"@,
        }
    }

    /// The name shown to the interface.
    pub fn as_str(&self) -> (s: &'static str)
        ensures
            s@ == self.spec_name(),
    {
        match self {
            ActivityState::Idle => "idle",
            ActivityState::Thinking => "thinking",
            ActivityState::Waiting => "waiting",
            ActivityState::Composing => "composing",
            ActivityState::Completed => "completed",
            ActivityState::RunningCommand => "running-command",
            ActivityState::Editing => "editing",
            ActivityState::Searching => "searching",
            ActivityState::Connecting => "connecting",
            ActivityState::Working => "working",
        }
    }
}

/// Index of the last `"__"` separator in `s` (the start of its rightmost occurrence).
pub open spec fn last_separator(s: Seq<char>) -> Option<int>
    decreases s.len(),
{
    if s.len() < 2 {
        None
    } else if s[s.len() - 2] == '_' && s[s.len() - 1] == '_' {
        Some(s.len() - 2)
    } else {
        last_separator(s.drop_last())
    }
}

/// The operation part of a tool name: what follows its last `"__"`, or the whole name.
pub open spec fn operation_of(name: Seq<char>) -> Seq<char> {
    match last_separator(name) {
        Some(k) => name.skip(k + 2),
        None => name,
    }
}

/// `op` is `verb` itself or begins with `verb` followed by `_`.
pub open spec fn is_verb(op: Seq<char>, verb: Seq<char>) -> bool {
    op == verb || starts_with(op, verb.push('_'))
}

/// How a running tool shows in a session, from the tool's name.
pub open spec fn spec_tool_state(name: Seq<char>) -> ActivityState {
    let op = ascii_lower(operation_of(name));
    if op == "bash"@ || op == "exec_command"@ || op == "shell_command"@ {
        ActivityState::RunningCommand
    } else if op == "apply_patch"@ || op == "edit"@ || op == "write"@ || starts_with(op, "write_"@)
        || starts_with(op, "edit_"@) {
        ActivityState::Editing
    } else if is_verb(op, "search"@) || is_verb(op, "find"@) || is_verb(op, "read"@) || is_verb(
        op,
        "list"@,
    ) || is_verb(op, "query"@) || is_verb(op, "get"@) {
        ActivityState::Searching
    } else if starts_with(name, "mcp__"@) {
        ActivityState::Connecting
    } else {
        ActivityState::Working
    }
}

fn find_last_separator(s: &[char]) -> (r: Option<usize>)
    ensures
        r matches Some(k) ==> last_separator(s@) == Some(k as int) && k + 2 <= s@.len(),
        r is None ==> last_separator(s@) is None,
{
    let mut n = s.len();
    assert(s@.take(n as int) =~= s@);
    while n >= 2
        invariant
            n <= s@.len(),
            last_separator(s@.take(n as int)) == last_separator(s@),
        decreases n,
    {
        assert(s@.take(n as int).drop_last() =~= s@.take(n - 1));
        if s[n - 2] == '_' && s[n - 1] == '_' {
            return Some(n - 2);
        }
        n = n - 1;
    }
    None
}

fn is_verb_exec(op: &[char], verb: &str) -> (r: bool)
    ensures
        r == is_verb(op@, verb@),
{
    let v = chars_of(verb);
    if chars_eq(op, v.as_slice()) {
        return true;
    }
    let mut w = v;
    w.push('_');
    chars_start_with(op, w.as_slice())
}

/// How a running tool shows in a session, from the tool's name.
pub fn tool_state(name: &str) -> (state: ActivityState)
    ensures
        state == spec_tool_state(name@),
{
    let chars = chars_of(name);
    let found = find_last_separator(chars.as_slice());
    let segment = match found {
        Some(k) => {
            let n = chars.len();
            assert(k + 2 <= n);
            sub_chars(chars.as_slice(), k + 2, n)
        },
        None => sub_chars(chars.as_slice(), 0, chars.len()),
    };
    assert(segment@ =~= operation_of(name@));
    let op = to_ascii_lower(segment.as_slice());
    let o = op.as_slice();
    if is_literal(o, "bash") || is_literal(o, "exec_command") || is_literal(o, "shell_command") {
        ActivityState::RunningCommand
    } else if is_literal(o, "apply_patch") || is_literal(o, "edit") || is_literal(o, "write")
        || has_literal_prefix(o, "write_") || has_literal_prefix(o, "edit_") {
        ActivityState::Editing
    } else if is_verb_exec(o, "search") || is_verb_exec(o, "find") || is_verb_exec(o, "read")
        || is_verb_exec(o, "list") || is_verb_exec(o, "query") || is_verb_exec(o, "get") {
        ActivityState::Searching
    } else if has_literal_prefix(chars.as_slice(), "mcp__") {
        ActivityState::Connecting
    } else {
        ActivityState::Working
    }
}

} // verus!
