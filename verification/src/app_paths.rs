//! Where the application keeps its own state, and what the marker file that disables
//! automatic start means.
use vstd::prelude::*;
use crate::path_facts::{bare_drive, is_separator, is_verbatim, joins};

verus! {

/// The directory, below the user's home, that holds the application's state.
pub open spec fn app_dir_name() -> Seq<char> {
    ".codex-limit-island"@
}

/// The marker file whose presence keeps the hook from starting the application.
pub open spec fn suppress_file_name() -> Seq<char> {
    "suppress-auto-start"@
}

/// `s` ends with `p`.
pub open spec fn ends_with(s: Seq<char>, p: Seq<char>) -> bool {
    p.len() <= s.len() && s.skip(s.len() - p.len()) == p
}

/// Calls `std::path::Path::join`, pushing the relative single-component `part` onto `base`.
/// Which separator is placed between them (`/` or `\`), and how a verbatim base is
/// normalised, depend on the platform; the contract states what holds on every platform
/// ([`joins`]).
#[verifier::external_body]
fn join_path(base: &String, part: &str) -> (r: String)
    requires
        part@.len() > 0,
        !part@.contains('/'),
        !part@.contains('\\'),
        !part@.contains(':'),
        part@ != "."@,
        part@ != ".."@,
    ensures
        joins(base@, part@, r@),
{
    std::path::Path::new(base.as_str()).join(part).to_string_lossy().into_owned()
}

/// A home directory as platforms usually give it: not empty, not verbatim, not ending in a
/// separator, not a bare drive prefix.
pub open spec fn usual_dir(h: Seq<char>) -> bool {
    h.len() > 0 && !is_verbatim(h) && !is_separator(h.last()) && !bare_drive(h)
}

/// `p` is `base`, one separator, then `part`.
pub open spec fn below(base: Seq<char>, part: Seq<char>, p: Seq<char>) -> bool {
    &&& p.len() == base.len() + 1 + part.len()
    &&& p.take(base.len() as int) == base
    &&& is_separator(p[base.len() as int])
    &&& p.skip(base.len() + 1int) == part
}

proof fn lemma_joins_below(base: Seq<char>, part: Seq<char>, joined: Seq<char>)
    requires
        joins(base, part, joined),
        usual_dir(base),
    ensures
        below(base, part, joined),
{
    assert(joined.take(base.len() as int) =~= base);
    assert(joined.skip(base.len() + 1int) =~= joined.skip(joined.len() - part.len() as int));
}

/// The message when no home directory is known.
pub open spec fn no_home_message() -> Seq<char> {
    "无法确定用户 Home 目录"@
}

/// The application's state directory below `home` (the user's home directory, as the
/// environment gives it); an absent or empty home is an error.
pub fn app_home_dir(home: Option<String>) -> (r: Result<String, String>)
    ensures
        match home {
            Some(h) if h@.len() > 0 => r matches Ok(p) && joins(h@, app_dir_name(), p@),
            _ => r matches Err(m) && m@ == no_home_message(),
        },
        match home {
            Some(h) => usual_dir(h@) ==> (r matches Ok(p) && below(h@, app_dir_name(), p@)),
            None => true,
        },
{
    proof {
        reveal_strlit(".codex-limit-island");
        reveal_strlit(".");
        reveal_strlit("..");
    }
    match home {
        Some(h) => {
            if h.as_str().is_empty() {
                Err(String::from_str("无法确定用户 Home 目录"))
            } else {
                let p = join_path(&h, ".codex-limit-island");
                proof {
                    if usual_dir(h@) {
                        lemma_joins_below(h@, app_dir_name(), p@);
                    }
                }
                Ok(p)
            }
        },
        None => Err(String::from_str("无法确定用户 Home 目录")),
    }
}

/// The marker file that keeps the hook from starting the application.
pub fn suppress_auto_start_path(home: Option<String>) -> (r: Result<String, String>)
    ensures
        match home {
            Some(h) if h@.len() > 0 => r matches Ok(p) && exists|dir: Seq<char>|
                joins(h@, app_dir_name(), dir) && joins(dir, suppress_file_name(), p@),
            _ => r matches Err(m) && m@ == no_home_message(),
        },
        match home {
            Some(h) => usual_dir(h@) ==> (r matches Ok(p) && below(
                h@,
                app_dir_name(),
                p@.take(h@.len() + 1int + app_dir_name().len()),
            ) && below(p@.take(h@.len() + 1int + app_dir_name().len()), suppress_file_name(), p@)),
            None => true,
        },
{
    proof {
        reveal_strlit("suppress-auto-start");
        reveal_strlit(".");
        reveal_strlit("..");
    }
    let ghost h = home;
    proof {
        reveal_strlit(".codex-limit-island");
    }
    let dir = app_home_dir(home)?;
    let p = join_path(&dir, "suppress-auto-start");
    assert(joins(dir@, suppress_file_name(), p@));
    proof {
        if let Some(hh) = h {
          if usual_dir(hh@) {
            let hv = hh@;
            let d = dir@;
            assert(below(hv, app_dir_name(), d));
            assert(d.len() > 2);
            assert(d.last() == app_dir_name().last()) by {
                assert(d.skip(hv.len() + 1int)[app_dir_name().len() - 1] == d[d.len() - 1]);
            }
            assert(!is_verbatim(d)) by {
                if hv.len() >= 3 {
                    assert(d.take(hv.len() as int)[0] == d[0]);
                    assert(d.take(hv.len() as int)[1] == d[1]);
                    assert(d.take(hv.len() as int)[2] == d[2]);
                } else if hv.len() == 2 {
                    assert(is_separator(d[2]));
                } else {
                    assert(d.skip(hv.len() + 1int)[0] == d[2]);
                }
            }
            assert(usual_dir(d));
            lemma_joins_below(d, suppress_file_name(), p@);
            assert(p@.take(hv.len() + 1int + app_dir_name().len()) =~= d);
          }
        }
    }
    Ok(p)
}

/// What a file operation on the marker gave.
#[derive(Debug, PartialEq, Eq, Structural, Clone, Copy)]
pub enum MarkerOutcome {
    /// The operation succeeded (for a probe: the marker exists).
    Done,
    /// The marker does not exist.
    NotFound,
    /// The operation failed otherwise.
    Failed,
}

/// The result of creating the marker, given the attempt: the marker path's error, or what
/// creating its directory and the file gave.
pub fn suppress_auto_start(attempt: Result<MarkerOutcome, String>) -> (r: Result<(), String>)
    ensures
        match attempt {
            Ok(MarkerOutcome::Done) => r is Ok,
            Ok(_) => r matches Err(m) && m@ == "创建退出标记失败"@,
            Err(e) => r matches Err(m) && m == e,
        },
{
    match attempt {
        Ok(MarkerOutcome::Done) => Ok(()),
        Ok(_) => Err(String::from_str("创建退出标记失败")),
        Err(e) => Err(e),
    }
}

/// The result of removing the marker, given the attempt: a marker that was already gone
/// counts as removed.
pub fn clear_suppress_auto_start(attempt: Result<MarkerOutcome, String>) -> (r: Result<(), String>)
    ensures
        match attempt {
            Ok(MarkerOutcome::Done) | Ok(MarkerOutcome::NotFound) => r is Ok,
            Ok(MarkerOutcome::Failed) => r matches Err(m) && m@ == "清除退出标记失败"@,
            Err(e) => r matches Err(m) && m == e,
        },
{
    match attempt {
        Ok(MarkerOutcome::Done) | Ok(MarkerOutcome::NotFound) => Ok(()),
        Ok(MarkerOutcome::Failed) => Err(String::from_str("清除退出标记失败")),
        Err(e) => Err(e),
    }
}

/// Whether automatic start is disabled, given the probe of the marker: only a marker that
/// is known to exist disables it; any failure to find out leaves automatic start on.
pub fn is_auto_start_suppressed(attempt: &Result<MarkerOutcome, String>) -> (r: bool)
    ensures
        r == (attempt matches Ok(MarkerOutcome::Done)),
{
    match attempt {
        Ok(MarkerOutcome::Done) => true,
        _ => false,
    }
}

} // verus!
