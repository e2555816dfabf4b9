//! The text of the usage statistics report.
use vstd::prelude::*;
use vstd::string::StringExecFns;
use crate::stats::recorder::{FileUsage, ServerUsage, ToolUsage};
use crate::text::{
    decimal, i64_text, pad_left, pad_right, push_i64, push_pad_left, push_pad_right, signed_decimal,
};

verus! {

/// A duration in whole seconds as the report shows it: `Ns`, `Mm Ss` or `Hh Mm`;
/// negative durations show as `0s`.
pub open spec fn duration_secs_text(secs: int) -> Seq<char> {
    if secs < 0 {
        "0s"@
    } else if secs < 60 {
        decimal(secs as nat) + "s"@
    } else if secs < 3600 {
        decimal((secs / 60) as nat) + "m "@ + decimal((secs % 60) as nat) + "s"@
    } else {
        decimal((secs / 3600) as nat) + "h "@ + decimal(((secs % 3600) / 60) as nat) + "m"@
    }
}

/// Formats a duration in whole seconds: `Ns`, `Mm Ss` or `Hh Mm`; negative as `0s`.
pub fn format_duration_secs(secs: i64) -> (r: String)
    ensures
        r@ == duration_secs_text(secs as int),
{
    if secs < 0 {
        return String::from_str("0s");
    }
    let mut s = String::new();
    if secs < 60 {
        push_i64(&mut s, secs);
        s.append("s");
    } else if secs < 3600 {
        push_i64(&mut s, secs / 60);
        s.append("m ");
        push_i64(&mut s, secs % 60);
        s.append("s");
    } else {
        push_i64(&mut s, secs / 3600);
        s.append("h ");
        push_i64(&mut s, (secs % 3600) / 60);
        s.append("m");
    }
    assert(s@ =~= duration_secs_text(secs as int));
    s
}


/// What `std::path::Path::strip_prefix` gives: the rest of `path` below `base`, as text.
pub uninterp spec fn path_strip_prefix(path: Seq<char>, base: Seq<char>) -> Option<Seq<char>>;

/// The part of `path` below `base` (`Path::strip_prefix`, shown with `display()`).
#[verifier::external_body]
fn strip_path_prefix(path: &str, base: &str) -> (r: Option<String>)
    ensures
        match r {
            Some(t) => path_strip_prefix(path@, base@) == Some(t@),
            None => path_strip_prefix(path@, base@) is None,
        },
{
    std::path::Path::new(path).strip_prefix(base).ok().map(|p| p.display().to_string())
}

/// The report line of one tool.
pub open spec fn tool_usage_line_text(t: ToolUsage) -> Seq<char> {
    "  "@ + pad_right(t.tool@, 22) + " "@ + pad_left(signed_decimal(t.calls as int), 3) + " calls  "@
        + pad_left(signed_decimal(t.avg_ms as int), 5) + "ms avg  "@ + pad_left(signed_decimal(t.errors as int), 2)
        + " errors"@
}

/// The report line of one tool.
pub fn tool_usage_line(t: &ToolUsage) -> (r: String)
    ensures
        r@ == tool_usage_line_text(*t),
{
    let mut s = String::from_str("  ");
    push_pad_right(&mut s, t.tool.as_str(), 22);
    s.append(" ");
    push_pad_left(&mut s, i64_text(t.calls).as_str(), 3);
    s.append(" calls  ");
    push_pad_left(&mut s, i64_text(t.avg_ms).as_str(), 5);
    s.append("ms avg  ");
    push_pad_left(&mut s, i64_text(t.errors).as_str(), 2);
    s.append(" errors");
    assert(s@ =~= tool_usage_line_text(*t));
    s
}

/// How a file is named in the report: relative to the project root when it lies below it.
pub open spec fn display_path_text(file_path: Seq<char>, root: Seq<char>) -> Seq<char> {
    match path_strip_prefix(file_path, root) {
        Some(rel) => rel,
        None => file_path,
    }
}

/// The report line of one file.
pub open spec fn file_usage_line_text(f: FileUsage, root: Seq<char>) -> Seq<char> {
    "  "@ + pad_right(display_path_text(f.file_path@, root), 40) + " "@ + pad_left(signed_decimal(f.calls as int), 3)
        + " calls"@
}

/// The report line of one file, named relative to `project_root` where it can be.
pub fn file_usage_line(f: &FileUsage, project_root: &str) -> (r: String)
    ensures
        r@ == file_usage_line_text(*f, project_root@),
{
    let shown = match strip_path_prefix(f.file_path.as_str(), project_root) {
        Some(rel) => rel,
        None => f.file_path.clone(),
    };
    let mut s = String::from_str("  ");
    push_pad_right(&mut s, shown.as_str(), 40);
    s.append(" ");
    push_pad_left(&mut s, i64_text(f.calls).as_str(), 3);
    s.append(" calls");
    assert(s@ =~= file_usage_line_text(*f, project_root@));
    s
}

/// The report line of one language server, given its average startup time and total
/// uptime already written out.
pub open spec fn server_usage_line_text(u: ServerUsage, startup: Seq<char>) -> Seq<char> {
    "  "@ + pad_right(u.language@, 10) + " started "@ + pad_left(signed_decimal(u.startups as int), 2)
        + "\u{00d7}  avg startup "@ + pad_left(startup, 6) + "  uptime "@ + duration_secs_text(
        u.total_uptime_secs as int,
    ) + " total"@
}

/// The report line of one language server; `startup` is the average startup time as text.
pub fn server_usage_line(u: &ServerUsage, startup: &str) -> (r: String)
    ensures
        r@ == server_usage_line_text(*u, startup@),
{
    let mut s = String::from_str("  ");
    push_pad_right(&mut s, u.language.as_str(), 10);
    s.append(" started ");
    push_pad_left(&mut s, i64_text(u.startups).as_str(), 2);
    s.append("\u{00d7}  avg startup ");
    push_pad_left(&mut s, startup, 6);
    s.append("  uptime ");
    s.append(format_duration_secs(u.total_uptime_secs).as_str());
    s.append(" total");
    assert(s@ =~= server_usage_line_text(*u, startup@));
    s
}

} // verus!
