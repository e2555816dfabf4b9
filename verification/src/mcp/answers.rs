//! What each tool answers, given what the language server returned.
use vstd::prelude::*;
use vstd::string::StringExecFns;
use crate::json::{Json, JsonValue};
use crate::lsp::types::{CallHierarchyItem, Diagnostic, Hover, Location, WorkspaceEdit, locations_view};
use crate::mcp::handlers::{
    QueryKind, call_hierarchy_json_value, call_hierarchy_text, change_count, diagnostics_json_value,
    diagnostics_text, displayable, format_call_hierarchy_json, format_call_hierarchy_text, format_diagnostics_json,
    format_diagnostics_text, format_hover_json, format_hover_text, format_json, format_rename_json,
    format_rename_text, format_text, hover_json_value, hover_text, locations_json_value, locations_text,
    no_results_message, no_results_text, rename_displayable, rename_json_value, rename_text, workspace_edits,
};
use crate::mcp::tools::ToolError;

verus! {

/// The text a tool hands back: plain text, or JSON written compactly or pretty-printed.
pub enum ToolText {
    Plain(String),
    Compact(Json),
    Pretty(Json),
}

/// The mathematical form of a `ToolText`.
pub enum ToolTextView {
    Plain(Seq<char>),
    Compact(JsonValue),
    Pretty(JsonValue),
}

pub open spec fn tool_text_view(t: ToolText) -> ToolTextView {
    match t {
        ToolText::Plain(s) => ToolTextView::Plain(s@),
        ToolText::Compact(j) => ToolTextView::Compact(j@),
        ToolText::Pretty(j) => ToolTextView::Pretty(j@),
    }
}

/// The answer of a location query (references, definition, implementations);
/// `line_texts[i]` is the source line of location `i`.
pub open spec fn query_answer(
    kind: QueryKind,
    locs: Seq<(Seq<char>, crate::lsp::types::Range)>,
    line_texts: Seq<Seq<char>>,
    json: bool,
) -> ToolTextView {
    if json {
        ToolTextView::Compact(locations_json_value(locs, line_texts))
    } else {
        ToolTextView::Plain(locations_text(locs, line_texts, no_results_text(kind)))
    }
}

/// The answer of a location query.
pub fn query_output(kind: QueryKind, locations: &Vec<Location>, line_texts: &Vec<String>, json: bool) -> (r: ToolText)
    requires
        line_texts@.len() == locations@.len(),
        forall|i: int| 0 <= i < locations@.len() ==> displayable(#[trigger] locations@[i].range.start),
    ensures
        tool_text_view(r) == query_answer(kind, locations_view(locations@), line_texts@.map_values(|t: String| t@), json),
{
    if json {
        ToolText::Compact(format_json(locations, line_texts))
    } else {
        ToolText::Plain(format_text(locations, line_texts, no_results_message(kind)))
    }
}

/// The arrow, the item label and the empty answer of a call hierarchy direction.
pub open spec fn direction_words(incoming: bool) -> (Seq<char>, Seq<char>, Seq<char>) {
    if incoming {
        ("\u{2190}"@, "caller"@, "No callers found"@)
    } else {
        ("\u{2192}"@, "callee"@, "No callees found"@)
    }
}

/// The answer of a call hierarchy query: the callers (`incoming`) or callees of the
/// prepared item; `line_texts[i]` is the source line of item `i`.
pub open spec fn call_hierarchy_answer(
    items: Seq<CallHierarchyItem>,
    line_texts: Seq<Seq<char>>,
    incoming: bool,
    json: bool,
) -> ToolTextView {
    if json {
        ToolTextView::Compact(call_hierarchy_json_value(items, line_texts))
    } else {
        let (arrow, label, none) = direction_words(incoming);
        ToolTextView::Plain(call_hierarchy_text(items, arrow, label, none))
    }
}

/// The answer of a call hierarchy query.
pub fn call_hierarchy_output(
    items: &Vec<CallHierarchyItem>,
    line_texts: &Vec<String>,
    incoming: bool,
    json: bool,
) -> (r: ToolText)
    requires
        line_texts@.len() == items@.len(),
        forall|i: int| 0 <= i < items@.len() ==> displayable(#[trigger] items@[i].selection_range.start),
    ensures
        tool_text_view(r) == call_hierarchy_answer(items@, line_texts@.map_values(|t: String| t@), incoming, json),
{
    if json {
        ToolText::Compact(format_call_hierarchy_json(items, line_texts))
    } else if incoming {
        ToolText::Plain(format_call_hierarchy_text(items, "\u{2190}", "caller", "No callers found"))
    } else {
        ToolText::Plain(format_call_hierarchy_text(items, "\u{2192}", "callee", "No callees found"))
    }
}

/// The answer when no callable symbol is at the position: an empty result list, or
/// the sentence saying so.
pub fn no_callable_output(json: bool) -> (r: ToolText)
    ensures
        tool_text_view(r) == if json {
            ToolTextView::Compact(call_hierarchy_json_value(Seq::empty(), Seq::empty()))
        } else {
            ToolTextView::Plain("No callable symbol at this position"@)
        },
{
    if json {
        let items: Vec<CallHierarchyItem> = Vec::new();
        let lines: Vec<String> = Vec::new();
        let r = format_call_hierarchy_json(&items, &lines);
        assert(items@ =~= Seq::<CallHierarchyItem>::empty());
        assert(lines@.map_values(|t: String| t@) =~= Seq::<Seq<char>>::empty());
        ToolText::Compact(r)
    } else {
        ToolText::Plain(String::from_str("No callable symbol at this position"))
    }
}

/// The answer of the hover tool.
pub open spec fn hover_answer(result: Option<Hover>, json: bool) -> ToolTextView {
    match result {
        None => ToolTextView::Plain("No hover information available"@),
        Some(h) => if json {
            ToolTextView::Pretty(hover_json_value(h))
        } else {
            ToolTextView::Plain(hover_text(h.contents@))
        },
    }
}

/// The answer of the hover tool.
pub fn hover_output(result: Option<&Hover>, json: bool) -> (r: ToolText)
    ensures
        tool_text_view(r) == hover_answer(match result { Some(h) => Some(*h), None => None }, json),
{
    match result {
        None => ToolText::Plain(String::from_str("No hover information available")),
        Some(h) => if json {
            ToolText::Pretty(format_hover_json(h))
        } else {
            ToolText::Plain(format_hover_text(&h.contents))
        },
    }
}

/// The answer of the diagnostics tool: the sentence for none, else the list.
pub open spec fn diagnostics_answer(file_path: Seq<char>, ds: Seq<Diagnostic>, json: bool) -> ToolTextView {
    if ds.len() == 0 {
        ToolTextView::Plain("No diagnostics found"@)
    } else if json {
        ToolTextView::Pretty(diagnostics_json_value(file_path, ds))
    } else {
        ToolTextView::Plain(diagnostics_text(ds))
    }
}

/// The answer of the diagnostics tool.
pub fn diagnostics_output(file_path: &str, ds: &Vec<Diagnostic>, json: bool) -> (r: ToolText)
    requires
        forall|i: int| 0 <= i < ds@.len() ==> displayable(#[trigger] ds@[i].range.start),
    ensures
        tool_text_view(r) == diagnostics_answer(file_path@, ds@, json),
{
    if ds.len() == 0 {
        ToolText::Plain(String::from_str("No diagnostics found"))
    } else if json {
        ToolText::Pretty(format_diagnostics_json(file_path, ds))
    } else {
        ToolText::Plain(format_diagnostics_text(ds))
    }
}

/// The answer of the rename tool.
pub open spec fn rename_answer(result: Option<WorkspaceEdit>, json: bool) -> ToolTextView {
    match result {
        None => ToolTextView::Plain("No rename changes"@),
        Some(e) => if json {
            ToolTextView::Pretty(rename_json_value(workspace_edits(e)))
        } else {
            ToolTextView::Plain(rename_text(workspace_edits(e)))
        },
    }
}

/// The answer of the rename tool.
pub fn rename_output(result: Option<&WorkspaceEdit>, json: bool) -> (r: ToolText)
    requires
        result matches Some(e) ==> change_count(workspace_edits(*e)) <= usize::MAX && rename_displayable(workspace_edits(*e)),
    ensures
        tool_text_view(r) == rename_answer(match result { Some(e) => Some(*e), None => None }, json),
{
    match result {
        None => ToolText::Plain(String::from_str("No rename changes")),
        Some(e) => if json {
            ToolText::Pretty(format_rename_json(e))
        } else {
            ToolText::Plain(format_rename_text(e))
        },
    }
}

/// What checking the file named by a tool's `file_path` gives: `exists` is the outcome of
/// asking whether the path exists (with the error's text), `is_file` whether it is a file.
pub open spec fn file_check_spec(file_path: Seq<char>, exists: Result<bool, Seq<char>>, is_file: bool) -> Result<(), (int, Seq<char>)> {
    match exists {
        Err(e) => Err(crate::mcp::handlers::invalid("cannot check path "@ + file_path + ": "@ + e)),
        Ok(false) => Err(crate::mcp::handlers::invalid("file not found: "@ + file_path)),
        Ok(true) => if is_file {
            Ok(())
        } else {
            Err(crate::mcp::handlers::invalid("not a file: "@ + file_path))
        },
    }
}

/// Checks that `file_path` names an existing file.
pub fn file_check(file_path: &str, exists: Result<bool, String>, is_file: bool) -> (r: Result<(), ToolError>)
    ensures
        match r {
            Ok(()) => file_check_spec(file_path@, match exists { Ok(b) => Ok(b), Err(e) => Err(e@) }, is_file) == Ok::<(), (int, Seq<char>)>(()),
            Err(e) => file_check_spec(file_path@, match exists { Ok(b) => Ok(b), Err(e) => Err(e@) }, is_file)
                == Err::<(), (int, Seq<char>)>(crate::mcp::handlers::tool_error_view(e)),
        },
{
    match exists {
        Err(e) => Err(ToolError::invalid_params(
            String::from_str("cannot check path ").concat(file_path).concat(": ").concat(e.as_str()),
        )),
        Ok(false) => Err(ToolError::invalid_params(String::from_str("file not found: ").concat(file_path))),
        Ok(true) => if is_file {
            Ok(())
        } else {
            Err(ToolError::invalid_params(String::from_str("not a file: ").concat(file_path)))
        },
    }
}

} // verus!
