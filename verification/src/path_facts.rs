//! What holds of `std::path` results on every platform.
use vstd::prelude::*;
use crate::app_paths::ends_with;
use crate::text::starts_with;

verus! {

/// A path that may carry a Windows verbatim prefix (`\\?\`), where only `\` separates
/// components and pushing onto the path normalises it.
pub open spec fn is_verbatim(p: Seq<char>) -> bool {
    p.len() >= 3 && p[0] == '\\' && p[1] == '\\' && p[2] == '?'
}

/// A character that separates path components on some platform.
pub open spec fn is_separator(c: char) -> bool {
    c == '/' || c == '\\'
}

/// A bare Windows drive prefix such as `C:`.
pub open spec fn bare_drive(p: Seq<char>) -> bool {
    p.len() == 2 && p[1] == ':'
}

/// A path that every platform splits at `/` alone: no `\`, no `:`, and no leading `//`.
pub open spec fn plain_path(p: Seq<char>) -> bool {
    !p.contains('\\') && !p.contains(':') && !starts_with(p, "//"@)
}

/// What follows the last `/` of `p` (all of `p` when it has none).
pub open spec fn after_last_slash(p: Seq<char>) -> Seq<char>
    decreases p.len(),
{
    if p.len() == 0 {
        p
    } else if p.last() == '/' {
        Seq::empty()
    } else {
        after_last_slash(p.drop_last()).push(p.last())
    }
}

/// A plain path whose last component is an ordinary name: it does not end with `/`, and its
/// last segment is neither `.` nor `..`.
pub open spec fn ends_in_name(p: Seq<char>) -> bool {
    &&& plain_path(p)
    &&& p.len() > 0
    &&& p.last() != '/'
    &&& after_last_slash(p) != "."@
    &&& after_last_slash(p) != ".."@
}

/// What holds, on every platform, of the name `p` that `Path::file_name` gives for the
/// directory `cwd`: an empty path names nothing; a name is never empty; outside verbatim paths
/// a name holds no `/`; and a plain path that ends in a name gives that name.
pub open spec fn names_directory(cwd: Seq<char>, p: Option<Seq<char>>) -> bool {
    &&& cwd.len() == 0 ==> p is None
    &&& p matches Some(n) ==> n.len() > 0
    &&& !is_verbatim(cwd) ==> (p matches Some(n) ==> !n.contains('/'))
    &&& ends_in_name(cwd) ==> p == Some(after_last_slash(cwd))
}

/// What holds, on every platform, of `joined`, the path `base` extended by the relative
/// single-component path `part`: it ends with `part`; an empty base gives `part` alone;
/// outside verbatim paths it begins with `base` and at most one character stands between
/// them; and when `base` does not already end in a separator and is not a bare drive prefix,
/// exactly one separator stands between them.
pub open spec fn joins(base: Seq<char>, part: Seq<char>, joined: Seq<char>) -> bool {
    &&& ends_with(joined, part)
    &&& base.len() == 0 ==> joined == part
    &&& !is_verbatim(base) ==> {
        &&& starts_with(joined, base)
        &&& base.len() + part.len() <= joined.len() <= base.len() + part.len() + 1
    }
    &&& (!is_verbatim(base) && base.len() > 0 && !is_separator(base.last()) && !bare_drive(base))
        ==> {
        &&& joined.len() == base.len() + part.len() + 1
        &&& is_separator(joined[base.len() as int])
    }
}

} // verus!
