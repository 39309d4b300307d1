//! From Windows paths to paths inside the WSL guest.

use crate::text::{
    concat_chars, from_chars, has_prefix, replace, replaced, strip_prefix, to_chars, trim, trimmed,
};
use vstd::prelude::*;

verus! {

/// A Windows path with its backslashes turned into slashes.
pub open spec fn slashed(windows_path: Seq<char>) -> Seq<char> {
    replaced(windows_path, '\\', '/')
}

/// The path under which the guest sees a path of drive C: the drive prefix
/// `C:/` or `c:/` becomes `/mnt/c/`. A path of another form only has its
/// backslashes turned into slashes.
pub open spec fn mounted_path(windows_path: Seq<char>) -> Seq<char> {
    let normalized = slashed(windows_path);
    if has_prefix(normalized, "C:/"@) {
        "/mnt/c/"@ + normalized.skip("C:/"@.len() as int)
    } else if has_prefix(normalized, "c:/"@) {
        "/mnt/c/"@ + normalized.skip("c:/"@.len() as int)
    } else {
        normalized
    }
}

/// The guest path for `windows_path`, given what the guest's own `wslpath`
/// printed for it, if it ran successfully: that output, trimmed, unless it
/// is empty; else the path by the drive rule.
pub open spec fn guest_path(tool_output: Option<Seq<char>>, windows_path: Seq<char>) -> Seq<char> {
    match tool_output {
        Some(out) if trimmed(out).len() > 0 => trimmed(out),
        _ => mounted_path(windows_path),
    }
}

/// Turns the backslashes of a path into slashes.
pub fn to_slashes(windows_path: &str) -> (out: String)
    ensures
        out@ == slashed(windows_path@),
{
    let v = to_chars(windows_path);
    from_chars(&replace(&v, '\\', '/'))
}

/// Translates a path of drive C by rule, without asking the guest.
pub fn to_mounted_path(windows_path: &str) -> (out: String)
    ensures
        out@ == mounted_path(windows_path@),
{
    let v = to_chars(windows_path);
    let normalized = replace(&v, '\\', '/');
    let upper = to_chars("C:/");
    let lower = to_chars("c:/");
    let mount = to_chars("/mnt/c/");
    match strip_prefix(&normalized, &upper) {
        Some(rest) => from_chars(&concat_chars(&mount, &rest)),
        None => match strip_prefix(&normalized, &lower) {
            Some(rest) => from_chars(&concat_chars(&mount, &rest)),
            None => from_chars(&normalized),
        },
    }
}

/// Translates a Windows path, preferring what the guest's `wslpath` printed.
/// `tool_output` is the standard output of `wslpath -u`, or `None` where the
/// tool could not be run or reported failure.
pub fn resolve_guest_path(tool_output: Option<&str>, windows_path: &str) -> (out: String)
    ensures
        out@ == guest_path(
            match tool_output {
                Some(s) => Some(s@),
                None => None,
            },
            windows_path@,
        ),
{
    match tool_output {
        Some(text) => {
            let t = trim(&to_chars(text));
            if t.len() > 0 {
                from_chars(&t)
            } else {
                to_mounted_path(windows_path)
            }
        },
        None => to_mounted_path(windows_path),
    }
}

} // verus!
