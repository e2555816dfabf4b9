//! MCP tool handlers: argument checking and output formatting.
use vstd::prelude::*;
use vstd::string::{StrSliceExecFns, StringExecFns};
use crate::json::{
    Json, JsonNumber, JsonValue, NumberValue, json_array, json_object, json_text, json_uint, lemma_view_empty,
    lemma_view_items, push_item, push_member, view_entries, view_items, view_json,
};
use crate::lsp::types::{
    CallHierarchyItem, Diagnostic, Hover, Location, Position, Range, TextEdit, WorkspaceEdit, location_view, locations_view, text_edit_view,
    text_edits_from_json, text_edits_of, text_edits_view,
};
use crate::uri::{uri_path_text, uri_to_path};
use crate::mcp::protocol::{INTERNAL_ERROR, INVALID_PARAMS};
use crate::mcp::tools::ToolError;
use crate::server::manager::ManagerError;
use crate::text::{trim, trim_text, decimal, i64_text, join, joined, push_u64, trim_end, trim_end_text, u64_text, signed_decimal};

verus! {

/// The error a tool argument check reports: code and message.
pub open spec fn invalid(message: Seq<char>) -> (int, Seq<char>) {
    (INVALID_PARAMS as int, message)
}

pub open spec fn tool_error_view(e: ToolError) -> (int, Seq<char>) {
    (e.code as int, e.message@)
}

/// Reading a required integer argument that must fit in 32 bits.
pub open spec fn u32_arg(value: JsonValue, field: Seq<char>) -> Result<u32, (int, Seq<char>)> {
    match value.u64_field(field) {
        None => Err(invalid("missing or invalid "@ + field)),
        Some(raw) => if raw <= u32::MAX {
            Ok(raw as u32)
        } else {
            Err(invalid(field + " value "@ + decimal(raw) + " is out of range"@))
        },
    }
}

/// Parse a JSON integer field, rejecting values that don't fit in u32.
pub fn parse_u32_field(value: &Json, field: &str) -> (r: Result<u32, ToolError>)
    ensures
        match r {
            Ok(n) => u32_arg(value@, field@) == Ok::<u32, (int, Seq<char>)>(n),
            Err(e) => u32_arg(value@, field@) == Err::<u32, (int, Seq<char>)>(tool_error_view(e)),
        },
{
    match value.u64_field(field) {
        None => Err(ToolError::invalid_params(String::from_str("missing or invalid ").concat(field))),
        Some(raw) => {
            if raw <= 4294967295u64 {
                Ok(raw as u32)
            } else {
                let msg = String::from_str(field).concat(" value ").concat(u64_text(raw).as_str()).concat(
                    " is out of range",
                );
                Err(ToolError::invalid_params(msg))
            }
        },
    }
}

/// Position arguments of a query tool.
pub struct ToolParams {
    pub file_path: String,
    pub line: u32,
    pub column: u32,
    pub json: bool,
}

/// The arguments `file_path`, `line`, `column` (both at least 1) and `json` (default
/// `false`), or the first problem found, in that order.
pub open spec fn tool_params_of(v: JsonValue) -> Result<(Seq<char>, u32, u32, bool), (int, Seq<char>)> {
    match v.str_field("file_path"@) {
        None => Err(invalid("missing or invalid file_path"@)),
        Some(file_path) => match u32_arg(v, "line"@) {
            Err(e) => Err(e),
            Ok(line) => if line == 0 {
                Err(invalid("line must be >= 1"@))
            } else {
                match u32_arg(v, "column"@) {
                    Err(e) => Err(e),
                    Ok(column) => if column == 0 {
                        Err(invalid("column must be >= 1"@))
                    } else {
                        Ok(
                            (
                                file_path,
                                line,
                                column,
                                match v.bool_field("json"@) {
                                    Some(b) => b,
                                    None => false,
                                },
                            ),
                        )
                    },
                }
            },
        },
    }
}

pub open spec fn tool_params_view(p: ToolParams) -> (Seq<char>, u32, u32, bool) {
    (p.file_path@, p.line, p.column, p.json)
}

impl ToolParams {
    pub fn parse(value: &Json) -> (r: Result<Self, ToolError>)
        ensures
            match r {
                Ok(p) => tool_params_of(value@) == Ok::<(Seq<char>, u32, u32, bool), (int, Seq<char>)>(tool_params_view(p)),
                Err(e) => tool_params_of(value@) == Err::<(Seq<char>, u32, u32, bool), (int, Seq<char>)>(tool_error_view(e)),
            },
    {
        let file_path = match value.str_field("file_path") {
            Some(f) => f.clone(),
            None => return Err(ToolError::invalid_params(String::from_str("missing or invalid file_path"))),
        };
        let line = match parse_u32_field(value, "line") {
            Ok(n) => n,
            Err(e) => return Err(e),
        };
        if line == 0 {
            return Err(ToolError::invalid_params(String::from_str("line must be >= 1")));
        }
        let column = match parse_u32_field(value, "column") {
            Ok(n) => n,
            Err(e) => return Err(e),
        };
        if column == 0 {
            return Err(ToolError::invalid_params(String::from_str("column must be >= 1")));
        }
        let json = match value.bool_field("json") {
            Some(b) => b,
            None => false,
        };
        Ok(ToolParams { file_path, line, column, json })
    }
}

/// Position arguments of a call hierarchy tool.
pub struct CallHierarchyParams {
    pub file_path: String,
    pub line: u32,
    pub column: u32,
    pub json: bool,
}

/// As `tool_params_of`, then `depth`, which must be absent or the integer 1.
pub open spec fn call_hierarchy_params_of(v: JsonValue) -> Result<(Seq<char>, u32, u32, bool), (int, Seq<char>)> {
    match tool_params_of(v) {
        Err(e) => Err(e),
        Ok(p) => match v.field("depth"@) {
            None => Ok(p),
            Some(d) => match d.u64_value() {
                None => Err(invalid("depth must be the integer 1"@)),
                Some(n) => if n == 1 { Ok(p) } else { Err(invalid("Only depth 1 is supported"@)) },
            },
        },
    }
}

impl CallHierarchyParams {
    pub fn parse(value: &Json) -> (r: Result<Self, ToolError>)
        ensures
            match r {
                Ok(p) => call_hierarchy_params_of(value@) == Ok::<(Seq<char>, u32, u32, bool), (int, Seq<char>)>(
                    (p.file_path@, p.line, p.column, p.json),
                ),
                Err(e) => call_hierarchy_params_of(value@) == Err::<(Seq<char>, u32, u32, bool), (int, Seq<char>)>(tool_error_view(e)),
            },
    {
        let p = match ToolParams::parse(value) {
            Ok(p) => p,
            Err(e) => return Err(e),
        };
        match value.get("depth") {
            None => {},
            Some(d) => match d.as_u64() {
                None => return Err(ToolError::invalid_params(String::from_str("depth must be the integer 1"))),
                Some(n) => {
                    if n != 1 {
                        return Err(ToolError::invalid_params(String::from_str("Only depth 1 is supported")));
                    }
                },
            },
        }
        Ok(CallHierarchyParams { file_path: p.file_path, line: p.line, column: p.column, json: p.json })
    }
}


/// The name of an LSP diagnostic severity.
pub open spec fn severity_text(severity: i32) -> Seq<char> {
    if severity == 1 {
        "error"@
    } else if severity == 2 {
        "warning"@
    } else if severity == 3 {
        "info"@
    } else if severity == 4 {
        "hint"@
    } else {
        "unknown"@
    }
}

/// The name of an LSP diagnostic severity.
pub fn severity_name(severity: i32) -> (r: &'static str)
    ensures
        r@ == severity_text(severity),
{
    if severity == 1 {
        "error"
    } else if severity == 2 {
        "warning"
    } else if severity == 3 {
        "info"
    } else if severity == 4 {
        "hint"
    } else {
        "unknown"
    }
}

/// Wrap text output in the MCP `tools/call` result envelope.
pub open spec fn tool_result_value(text: Seq<char>) -> JsonValue {
    JsonValue::Object(
        seq![
            ("content"@, JsonValue::Array(seq![JsonValue::Object(seq![("type"@, JsonValue::Str("text"@)), ("text"@, JsonValue::Str(text))])])),
        ],
    )
}

/// Wrap text output in the MCP `tools/call` result envelope.
pub fn mcp_tool_result(text: String) -> (r: Json)
    ensures
        r@ == tool_result_value(text@),
{
    proof {
        lemma_view_empty();
    }
    let ghost t = text@;
    let mut inner: Vec<(String, Json)> = Vec::new();
    push_member(&mut inner, "type", json_text("text"));
    push_member(&mut inner, "text", Json::String(text));
    assert(view_entries(inner@) =~= seq![("type"@, JsonValue::Str("text"@)), ("text"@, JsonValue::Str(t))]);
    let mut items: Vec<Json> = Vec::new();
    push_item(&mut items, json_object(inner));
    let mut outer: Vec<(String, Json)> = Vec::new();
    let ghost inner_v = JsonValue::Object(seq![("type"@, JsonValue::Str("text"@)), ("text"@, JsonValue::Str(t))]);
    assert(view_items(items@) =~= seq![inner_v]);
    push_member(&mut outer, "content", json_array(items));
    assert(view_entries(outer@) =~= seq![("content"@, JsonValue::Array(seq![inner_v]))]);
    json_object(outer)
}

/// LSP positions are 0-based; tool arguments are 1-based.
pub fn lsp_position(line: u32, column: u32) -> (r: Position)
    ensures
        r.line == if line == 0 { 0 } else { line - 1 },
        r.character == if column == 0 { 0 } else { column - 1 },
{
    Position { line: if line == 0 { 0 } else { line - 1 }, character: if column == 0 { 0 } else { column - 1 } }
}

/// The query tools that answer with a list of locations.
#[derive(Clone, Copy, PartialEq, Eq, Structural)]
pub enum QueryKind {
    References,
    Definition,
    Implementations,
}

/// What a query tool answers when the server finds nothing.
pub open spec fn no_results_text(kind: QueryKind) -> Seq<char> {
    match kind {
        QueryKind::References => "No references found"@,
        QueryKind::Definition => "No definition found"@,
        QueryKind::Implementations => "No implementations found"@,
    }
}

/// What a query tool answers when the server finds nothing.
pub fn no_results_message(kind: QueryKind) -> (r: &'static str)
    ensures
        r@ == no_results_text(kind),
{
    match kind {
        QueryKind::References => "No references found",
        QueryKind::Definition => "No definition found",
        QueryKind::Implementations => "No implementations found",
    }
}

/// A position that can be shown 1-based without overflow.
pub open spec fn displayable(p: Position) -> bool {
    p.line < u32::MAX && p.character < u32::MAX
}

/// `<path>:<line>:<column>`, 1-based.
pub open spec fn position_text(path: Seq<char>, p: Position) -> Seq<char> {
    path + ":"@ + decimal((p.line + 1) as nat) + ":"@ + decimal((p.character + 1) as nat)
}

/// One line of the text answer: the position and the source line, trailing space removed.
pub open spec fn location_line_text(loc: (Seq<char>, Range), line_text: Seq<char>) -> Seq<char> {
    position_text(uri_path_text(loc.0), loc.1.start) + "  "@ + trim_end_text(line_text)
}

pub open spec fn location_lines(locs: Seq<(Seq<char>, Range)>, line_texts: Seq<Seq<char>>) -> Seq<Seq<char>> {
    Seq::new(locs.len(), |i: int| location_line_text(locs[i], line_texts[i]))
}

/// The text answer for a list of locations; `line_texts[i]` is the source line of the
/// `i`-th location.
pub open spec fn locations_text(
    locs: Seq<(Seq<char>, Range)>,
    line_texts: Seq<Seq<char>>,
    no_results: Seq<char>,
) -> Seq<char> {
    if locs.len() == 0 {
        no_results
    } else {
        decimal(locs.len() as nat) + " results:\n"@ + joined(location_lines(locs, line_texts), "\n"@)
    }
}

fn push_position(s: &mut String, path: &str, p: Position)
    requires
        displayable(p),
    ensures
        final(s)@ == old(s)@ + position_text(path@, p),
{
    s.append(path);
    s.append(":");
    push_u64(s, (p.line + 1) as u64);
    s.append(":");
    push_u64(s, (p.character + 1) as u64);
    assert(final(s)@ =~= old(s)@ + position_text(path@, p));
}

/// The text answer for a list of locations.
pub fn format_text(locations: &Vec<Location>, line_texts: &Vec<String>, no_results_msg: &str) -> (r: String)
    requires
        line_texts@.len() == locations@.len(),
        forall|i: int| 0 <= i < locations@.len() ==> displayable(#[trigger] locations@[i].range.start),
    ensures
        r@ == locations_text(locations_view(locations@), line_texts@.map_values(|t: String| t@), no_results_msg@),
{
    let ghost lv = locations_view(locations@);
    let ghost tv = line_texts@.map_values(|t: String| t@);
    if locations.len() == 0 {
        return String::from_str(no_results_msg);
    }
    let mut lines: Vec<String> = Vec::new();
    let mut i: usize = 0;
    while i < locations.len()
        invariant
            i <= locations@.len(),
            line_texts@.len() == locations@.len(),
            forall|k: int| 0 <= k < locations@.len() ==> displayable(#[trigger] locations@[k].range.start),
            lv == locations_view(locations@),
            tv == line_texts@.map_values(|t: String| t@),
            lines@.len() == i,
            forall|k: int| 0 <= k < i ==> #[trigger] lines@[k]@ == location_line_text(lv[k], tv[k]),
        decreases locations@.len() - i,
    {
        let loc = &locations[i];
        let path = uri_to_path(loc.uri.as_str());
        let mut line = String::new();
        push_position(&mut line, path.as_str(), loc.range.start);
        line.append("  ");
        line.append(trim_end(line_texts[i].as_str()).as_str());
        assert(line@ =~= location_line_text(lv[i as int], tv[i as int]));
        lines.push(line);
        i = i + 1;
    }
    let mut r = u64_text(locations.len() as u64);
    r.append(" results:\n");
    r.append(join(&lines, "\n").as_str());
    assert(lines@.map_values(|t: String| t@) =~= location_lines(lv, tv));
    r
}

/// One entry of the JSON answer for a location.
pub open spec fn location_entry_value(loc: (Seq<char>, Range), line_text: Seq<char>) -> JsonValue {
    JsonValue::Object(
        seq![
            ("file_path"@, JsonValue::Str(uri_path_text(loc.0))),
            ("line"@, JsonValue::Number(NumberValue::PosInt((loc.1.start.line + 1) as nat))),
            ("column"@, JsonValue::Number(NumberValue::PosInt((loc.1.start.character + 1) as nat))),
            ("line_text"@, JsonValue::Str(trim_end_text(line_text))),
        ],
    )
}

/// The JSON answer for a list of locations: `{"results": [{file_path, line, column, line_text}]}`.
pub open spec fn locations_json_value(locs: Seq<(Seq<char>, Range)>, line_texts: Seq<Seq<char>>) -> JsonValue {
    JsonValue::Object(
        seq![("results"@, JsonValue::Array(Seq::new(locs.len(), |i: int| location_entry_value(locs[i], line_texts[i]))))],
    )
}

/// The JSON answer for a list of locations.
pub fn format_json(locations: &Vec<Location>, line_texts: &Vec<String>) -> (r: Json)
    requires
        line_texts@.len() == locations@.len(),
        forall|i: int| 0 <= i < locations@.len() ==> displayable(#[trigger] locations@[i].range.start),
    ensures
        r@ == locations_json_value(locations_view(locations@), line_texts@.map_values(|t: String| t@)),
{
    let ghost lv = locations_view(locations@);
    let ghost tv = line_texts@.map_values(|t: String| t@);
    proof {
        lemma_view_empty();
    }
    let mut items: Vec<Json> = Vec::new();
    let mut i: usize = 0;
    while i < locations.len()
        invariant
            i <= locations@.len(),
            line_texts@.len() == locations@.len(),
            forall|k: int| 0 <= k < locations@.len() ==> displayable(#[trigger] locations@[k].range.start),
            lv == locations_view(locations@),
            tv == line_texts@.map_values(|t: String| t@),
            view_items(items@) =~= Seq::new(i as nat, |k: int| location_entry_value(lv[k], tv[k])),
        decreases locations@.len() - i,
    {
        let loc = &locations[i];
        let path = uri_to_path(loc.uri.as_str());
        let mut es: Vec<(String, Json)> = Vec::new();
        push_member(&mut es, "file_path", Json::String(path));
        push_member(&mut es, "line", json_uint((loc.range.start.line + 1) as u64));
        push_member(&mut es, "column", json_uint((loc.range.start.character + 1) as u64));
        push_member(&mut es, "line_text", Json::String(trim_end(line_texts[i].as_str())));
        assert(view_entries(es@) =~= seq![
            ("file_path"@, JsonValue::Str(uri_path_text(lv[i as int].0))),
            ("line"@, JsonValue::Number(NumberValue::PosInt((lv[i as int].1.start.line + 1) as nat))),
            ("column"@, JsonValue::Number(NumberValue::PosInt((lv[i as int].1.start.character + 1) as nat))),
            ("line_text"@, JsonValue::Str(trim_end_text(tv[i as int]))),
        ]);
        push_item(&mut items, json_object(es));
        i = i + 1;
    }
    let mut outer: Vec<(String, Json)> = Vec::new();
    let ghost arr = view_items(items@);
    push_member(&mut outer, "results", json_array(items));
    assert(view_entries(outer@) =~= seq![("results"@, JsonValue::Array(arr))]);
    json_object(outer)
}


/// The text `serde_json` writes for a scalar JSON value.
pub open spec fn scalar_text(v: JsonValue) -> Seq<char> {
    match v {
        JsonValue::Null => "null"@,
        JsonValue::Bool(b) => if b { "true"@ } else { "false"@ },
        JsonValue::Number(NumberValue::PosInt(n)) => decimal(n),
        JsonValue::Number(NumberValue::NegInt(n)) => signed_decimal(n),
        JsonValue::Number(NumberValue::Float(t)) => t,
        _ => Seq::empty(),
    }
}

/// Hover contents (a string, a `MarkupContent`/`MarkedString` object, or an array of
/// them) as one human-readable text: objects give their `value`, arrays their non-empty
/// parts separated by a blank line.
pub open spec fn hover_text(v: JsonValue) -> Seq<char>
    decreases v,
{
    match v {
        JsonValue::Str(s) => s,
        JsonValue::Object(es) => match crate::json::lookup(es, "value"@) {
            Some(JsonValue::Str(t)) => t,
            _ => Seq::empty(),
        },
        JsonValue::Array(items) => joined(hover_parts(items), "\n\n"@),
        _ => scalar_text(v),
    }
}

/// The non-empty hover texts of the elements, in order.
pub open spec fn hover_parts(items: Seq<JsonValue>) -> Seq<Seq<char>>
    decreases items,
{
    if items.len() == 0 {
        Seq::empty()
    } else {
        let t = hover_text(items.last());
        if t.len() == 0 {
            hover_parts(items.drop_last())
        } else {
            hover_parts(items.drop_last()).push(t)
        }
    }
}

fn scalar_string(v: &Json) -> (r: String)
    ensures
        r@ == scalar_text(v@),
{
    match v {
        Json::Null => String::from_str("null"),
        Json::Bool(b) => if *b { String::from_str("true") } else { String::from_str("false") },
        Json::Number(JsonNumber::PosInt(n)) => u64_text(*n),
        Json::Number(JsonNumber::NegInt(n)) => i64_text(*n),
        Json::Number(JsonNumber::Float(t)) => t.clone(),
        _ => String::new(),
    }
}

/// Normalize `Hover.contents` into a single human-readable string.
#[verifier::loop_isolation(false)]
pub fn format_hover_text(contents: &Json) -> (r: String)
    ensures
        r@ == hover_text(contents@),
    decreases contents,
{
    match contents {
        Json::String(s) => s.clone(),
        Json::Object(_) => match contents.get("value") {
            Some(v) => match v.as_str() {
                Some(t) => t.clone(),
                None => String::new(),
            },
            None => String::new(),
        },
        Json::Array(items) => {
            proof {
                lemma_view_items(items@);
            }
            let ghost vs = view_items(items@);
            assert(contents@ == JsonValue::Array(vs));
            let mut parts: Vec<String> = Vec::new();
            let mut i: usize = 0;
            assert(vs.take(0) =~= Seq::<JsonValue>::empty());
            assert(parts@.map_values(|t: String| t@) =~= Seq::<Seq<char>>::empty());
            while i < items.len()
                invariant
                    i <= items@.len(),
                    parts@.map_values(|t: String| t@) == hover_parts(vs.take(i as int)),
                decreases items@.len() - i,
            {
                proof {
                    assert(decreases_to!(items => items@));
                    assert(decreases_to!(items@ => items@[i as int]));
                }
                let t = format_hover_text(&items[i]);
                assert(vs.take(i + 1).drop_last() =~= vs.take(i as int));
                assert(vs.take(i + 1).last() == vs[i as int]);
                if t.unicode_len() != 0 {
                    let ghost before = parts@;
                    parts.push(t);
                    assert(parts@.map_values(|x: String| x@) =~= before.map_values(|x: String| x@).push(t@));
                }
                i = i + 1;
            }
            assert(vs.take(items@.len() as int) =~= vs);
            join(&parts, "\n\n")
        },
        _ => scalar_string(contents),
    }
}


/// The per-URI edits of a rename, in order: first the `changes`, then each document change
/// that names a URI and whose `edits` all read as text edits (others are skipped).
pub type RenameEditsView = Seq<(Seq<char>, Seq<(Range, Seq<char>)>)>;

pub open spec fn changes_view(cs: Seq<(String, Vec<TextEdit>)>) -> RenameEditsView {
    cs.map_values(|c: (String, Vec<TextEdit>)| (c.0@, text_edits_view(c.1@)))
}

/// The edits of one document change, when it names a URI and carries readable edits.
pub open spec fn document_change_of(doc: JsonValue) -> Option<(Seq<char>, Seq<(Range, Seq<char>)>)> {
    let uri = match doc.field("textDocument"@) {
        Some(td) => td.str_field("uri"@),
        None => None,
    };
    let edits = match doc.field("edits"@) {
        Some(e) => text_edits_of(e),
        None => None,
    };
    match (uri, edits) {
        (Some(u), Some(es)) => Some((u, es)),
        _ => None,
    }
}

pub open spec fn document_changes_of(docs: Seq<JsonValue>) -> RenameEditsView
    decreases docs.len(),
{
    if docs.len() == 0 {
        Seq::empty()
    } else {
        match document_change_of(docs.last()) {
            Some(c) => document_changes_of(docs.drop_last()).push(c),
            None => document_changes_of(docs.drop_last()),
        }
    }
}

pub open spec fn rename_edits_of(changes: Option<RenameEditsView>, document_changes: Option<JsonValue>) -> RenameEditsView {
    let first = match changes {
        Some(cs) => cs,
        None => Seq::empty(),
    };
    let second = match document_changes {
        Some(JsonValue::Array(docs)) => document_changes_of(docs),
        _ => Seq::empty(),
    };
    first + second
}

pub open spec fn workspace_edit_changes(edit: WorkspaceEdit) -> Option<RenameEditsView> {
    match edit.changes {
        Some(cs) => Some(changes_view(cs@)),
        None => None,
    }
}

pub open spec fn workspace_edit_documents(edit: WorkspaceEdit) -> Option<JsonValue> {
    match edit.document_changes {
        Some(d) => Some(d@),
        None => None,
    }
}

/// All the edits of a `WorkspaceEdit`, by URI.
pub open spec fn workspace_edits(edit: WorkspaceEdit) -> RenameEditsView {
    rename_edits_of(workspace_edit_changes(edit), workspace_edit_documents(edit))
}

fn copy_edits(es: &Vec<TextEdit>) -> (r: Vec<TextEdit>)
    ensures
        text_edits_view(r@) == text_edits_view(es@),
{
    let mut r: Vec<TextEdit> = Vec::new();
    let mut i: usize = 0;
    while i < es.len()
        invariant
            i <= es@.len(),
            text_edits_view(r@) == text_edits_view(es@.take(i as int)),
        decreases es@.len() - i,
    {
        let ghost before = r@;
        r.push(TextEdit { range: es[i].range, new_text: es[i].new_text.clone() });
        assert(text_edits_view(r@) =~= text_edits_view(before).push(text_edit_view(es@[i as int])));
        assert(es@.take(i + 1) =~= es@.take(i as int).push(es@[i as int]));
        assert(text_edits_view(es@.take(i + 1)) =~= text_edits_view(es@.take(i as int)).push(text_edit_view(es@[i as int])));
        i = i + 1;
    }
    assert(es@.take(es@.len() as int) =~= es@);
    r
}

/// Normalize both `changes` and `document_changes` of a `WorkspaceEdit` into one list of
/// `(uri, edits)` pairs.
#[verifier::loop_isolation(false)]
pub fn collect_rename_edits(edit: &WorkspaceEdit) -> (r: Vec<(String, Vec<TextEdit>)>)
    ensures
        changes_view(r@) == workspace_edits(*edit),
{
    let mut result: Vec<(String, Vec<TextEdit>)> = Vec::new();
    assert(changes_view(result@) =~= Seq::empty());
    match &edit.changes {
        Some(cs) => {
            let mut i: usize = 0;
            while i < cs.len()
                invariant
                    i <= cs@.len(),
                    changes_view(result@) == changes_view(cs@.take(i as int)),
                decreases cs@.len() - i,
            {
                let ghost before = result@;
                result.push((cs[i].0.clone(), copy_edits(&cs[i].1)));
                assert(changes_view(result@) =~= changes_view(before).push((cs@[i as int].0@, text_edits_view(cs@[i as int].1@))));
                assert(cs@.take(i + 1) =~= cs@.take(i as int).push(cs@[i as int]));
                assert(changes_view(cs@.take(i + 1)) =~= changes_view(cs@.take(i as int)).push((cs@[i as int].0@, text_edits_view(cs@[i as int].1@))));
                i = i + 1;
            }
            assert(cs@.take(cs@.len() as int) =~= cs@);
        },
        None => {},
    }
    let ghost first = changes_view(result@);
    match &edit.document_changes {
        Some(Json::Array(docs)) => {
            proof {
                lemma_view_items(docs@);
            }
            let ghost vs = view_items(docs@);
            let mut i: usize = 0;
            assert(vs.take(0) =~= Seq::<JsonValue>::empty());
            assert(first + document_changes_of(vs.take(0)) =~= first);
            while i < docs.len()
                invariant
                    i <= docs@.len(),
                    changes_view(result@) == first + document_changes_of(vs.take(i as int)),
                decreases docs@.len() - i,
            {
                let doc = &docs[i];
                assert(vs.take(i + 1).drop_last() =~= vs.take(i as int));
                assert(vs.take(i + 1).last() == vs[i as int]);
                let uri = match doc.get("textDocument") {
                    Some(td) => td.str_field("uri"),
                    None => None,
                };
                let edits = match doc.get("edits") {
                    Some(e) => text_edits_from_json(e),
                    None => None,
                };
                match (uri, edits) {
                    (Some(u), Some(es)) => {
                        let ghost before = result@;
                        let ghost ev = text_edits_view(es@);
                        result.push((u.clone(), es));
                        assert(changes_view(result@) =~= changes_view(before).push((u@, ev)));
                    },
                    _ => {},
                }
                i = i + 1;
            }
            assert(vs.take(docs@.len() as int) =~= vs);
        },
        _ => {
            assert(first + Seq::<(Seq<char>, Seq<(Range, Seq<char>)>)>::empty() =~= first);
        },
    }
    result
}


/// The report lines of one file's rename edits.
pub open spec fn edit_lines(g: (Seq<char>, Seq<(Range, Seq<char>)>)) -> Seq<Seq<char>> {
    Seq::new(g.1.len(), |k: int| position_text(uri_path_text(g.0), g.1[k].0.start) + "  \u{2192}  "@ + g.1[k].1)
}

/// The report lines of all rename edits, file by file.
pub open spec fn rename_lines(groups: RenameEditsView) -> Seq<Seq<char>>
    decreases groups.len(),
{
    if groups.len() == 0 {
        Seq::empty()
    } else {
        rename_lines(groups.drop_last()) + edit_lines(groups.last())
    }
}

/// Number of edits over all files.
pub open spec fn change_count(groups: RenameEditsView) -> int
    decreases groups.len(),
{
    if groups.len() == 0 {
        0
    } else {
        change_count(groups.drop_last()) + groups.last().1.len()
    }
}

/// All edit positions can be shown 1-based.
pub open spec fn rename_displayable(groups: RenameEditsView) -> bool {
    forall|i: int, k: int| 0 <= i < groups.len() && 0 <= k < groups[i].1.len() ==> displayable(#[trigger] groups[i].1[k].0.start)
}

/// The text answer of a rename: one line per edit, then `(N changes in M files)`.
pub open spec fn rename_text(groups: RenameEditsView) -> Seq<char> {
    joined(
        rename_lines(groups).push("("@ + decimal(change_count(groups) as nat) + " changes in "@ + decimal(groups.len() as nat) + " files)"@),
        "\n"@,
    )
}

pub proof fn lemma_change_count_nonneg(groups: RenameEditsView)
    ensures
        change_count(groups) >= 0,
        rename_lines(groups).len() == change_count(groups),
    decreases groups.len(),
{
    if groups.len() > 0 {
        lemma_change_count_nonneg(groups.drop_last());
    }
}

/// The text answer of a rename.
#[verifier::loop_isolation(false)]
pub fn format_rename_text(edit: &WorkspaceEdit) -> (r: String)
    requires
        change_count(workspace_edits(*edit)) <= usize::MAX,
        rename_displayable(workspace_edits(*edit)),
    ensures
        r@ == rename_text(workspace_edits(*edit)),
{
    let groups = collect_rename_edits(edit);
    let ghost gv = changes_view(groups@);
    let mut lines: Vec<String> = Vec::new();
    let mut total: usize = 0;
    let mut i: usize = 0;
    assert(gv.take(0) =~= Seq::<(Seq<char>, Seq<(Range, Seq<char>)>)>::empty());
    assert(lines@.map_values(|t: String| t@) =~= Seq::<Seq<char>>::empty());
    while i < groups.len()
        invariant
            i <= groups@.len(),
            gv == changes_view(groups@),
            lines@.map_values(|t: String| t@) == rename_lines(gv.take(i as int)),
            total == change_count(gv.take(i as int)),
        decreases groups@.len() - i,
    {
        let uri = &groups[i].0;
        let edits = &groups[i].1;
        let path = uri_to_path(uri.as_str());
        let ghost g = gv[i as int];
        assert(gv.take(i + 1).drop_last() =~= gv.take(i as int));
        assert(gv.take(i + 1).last() == g);
        proof {
            lemma_change_count_nonneg(gv.take(i + 1));
            lemma_change_count_prefix(gv, i + 1);
        }
        let ghost start = lines@.map_values(|t: String| t@);
        let mut k: usize = 0;
        while k < edits.len()
            invariant
                k <= edits@.len(),
                g == gv[i as int],
                g.1 == text_edits_view(edits@),
                lines@.map_values(|t: String| t@) == start + edit_lines(g).take(k as int),
                total == change_count(gv.take(i as int)) + k,
            decreases edits@.len() - k,
        {
            let te = &edits[k];
            assert(g.1[k as int] == text_edit_view(*te));
            assert(displayable(te.range.start)) by {
                assert(gv[i as int].1[k as int].0.start == te.range.start);
            }
            let mut line = String::new();
            push_position(&mut line, path.as_str(), te.range.start);
            line.append("  \u{2192}  ");
            line.append(te.new_text.as_str());
            let ghost before = lines@;
            lines.push(line);
            assert(edit_lines(g).take(k + 1) =~= edit_lines(g).take(k as int).push(line@));
            assert(lines@.map_values(|t: String| t@) =~= before.map_values(|t: String| t@).push(line@));
            total = total + 1;
            k = k + 1;
        }
        assert(edit_lines(g).take(edits@.len() as int) =~= edit_lines(g));
        i = i + 1;
    }
    assert(gv.take(groups@.len() as int) =~= gv);
    let mut last = String::from_str("(");
    push_u64(&mut last, total as u64);
    last.append(" changes in ");
    push_u64(&mut last, groups.len() as u64);
    last.append(" files)");
    let ghost before = lines@;
    lines.push(last);
    assert(lines@.map_values(|t: String| t@) =~= before.map_values(|t: String| t@).push(last@));
    join(&lines, "\n")
}

proof fn lemma_change_count_prefix(gv: RenameEditsView, j: int)
    requires
        0 <= j <= gv.len(),
    ensures
        change_count(gv.take(j)) <= change_count(gv),
    decreases gv.len() - j,
{
    if j < gv.len() {
        assert(gv.take(j + 1).drop_last() =~= gv.take(j));
        lemma_change_count_prefix(gv, j + 1);
    } else {
        assert(gv.take(j) =~= gv);
    }
}


/// Members after setting `key` to `value`: replaces the first member with that key, or
/// appends one (what inserting into a JSON object map does).
pub open spec fn set_member(es: Seq<(Seq<char>, JsonValue)>, key: Seq<char>, value: JsonValue) -> Seq<(Seq<char>, JsonValue)>
    decreases es.len(),
{
    if es.len() == 0 {
        seq![(key, value)]
    } else if es[0].0 == key {
        es.update(0, (key, value))
    } else {
        seq![es[0]] + set_member(es.drop_first(), key, value)
    }
}

proof fn lemma_set_member(es: Seq<(Seq<char>, JsonValue)>, key: Seq<char>, value: JsonValue, i: int)
    requires
        0 <= i <= es.len(),
        forall|k: int| 0 <= k < i ==> es[k].0 != key,
    ensures
        i < es.len() && es[i].0 == key ==> set_member(es, key, value) == es.update(i, (key, value)),
        i == es.len() ==> set_member(es, key, value) == es.push((key, value)),
    decreases i,
{
    if i > 0 {
        lemma_set_member(es.drop_first(), key, value, i - 1);
        if i < es.len() && es[i].0 == key {
            assert(seq![es[0]] + es.drop_first().update(i - 1, (key, value)) =~= es.update(i, (key, value)));
        }
        if i == es.len() {
            assert(seq![es[0]] + es.drop_first().push((key, value)) =~= es.push((key, value)));
        }
    } else {
        if es.len() == 0 {
            assert(seq![(key, value)] =~= es.push((key, value)));
        }
    }
}

/// Sets member `key` of a list of object members to `value`.
pub fn set_object_member(es: &mut Vec<(String, Json)>, key: String, value: Json)
    ensures
        view_entries(final(es)@) == set_member(view_entries(old(es)@), key@, value@),
{
    proof {
        crate::json::lemma_view_entries(es@);
    }
    let ghost ev = view_entries(es@);
    let mut i: usize = 0;
    while i < es.len()
        invariant
            i <= es@.len(),
            es@ == old(es)@,
            ev == view_entries(es@),
            ev.len() == es@.len(),
            forall|k: int| 0 <= k < es@.len() ==> #[trigger] ev[k] == (es@[k].0@, view_json(es@[k].1)),
            forall|k: int| 0 <= k < i ==> ev[k].0 != key@,
        decreases es@.len() - i,
    {
        if es[i].0 == key {
            let ghost kv = key@;
            let ghost vv = value@;
            es.set(i, (key, value));
            proof {
                crate::json::lemma_view_entries(es@);
                lemma_set_member(ev, kv, vv, i as int);
                assert(view_entries(es@) =~= ev.update(i as int, (kv, vv)));
            }
            return;
        }
        i = i + 1;
    }
    proof {
        lemma_set_member(ev, key@, value@, i as int);
    }
    push_member_owned(es, key, value);
}

fn push_member_owned(es: &mut Vec<(String, Json)>, key: String, value: Json)
    ensures
        view_entries(final(es)@) == view_entries(old(es)@).push((key@, value@)),
{
    let ghost before = es@;
    es.push((key, value));
    assert(es@.drop_last() =~= before);
}

/// One edit in the JSON answer of a rename.
pub open spec fn edit_entry_value(e: (Range, Seq<char>)) -> JsonValue {
    JsonValue::Object(
        seq![
            ("line"@, JsonValue::Number(NumberValue::PosInt((e.0.start.line + 1) as nat))),
            ("column"@, JsonValue::Number(NumberValue::PosInt((e.0.start.character + 1) as nat))),
            ("new_text"@, JsonValue::Str(e.1)),
        ],
    )
}

/// The `changes` object of the JSON answer: each file's path mapped to its edits; a
/// later entry for the same path replaces an earlier one.
pub open spec fn rename_changes_members(groups: RenameEditsView) -> Seq<(Seq<char>, JsonValue)>
    decreases groups.len(),
{
    if groups.len() == 0 {
        Seq::empty()
    } else {
        let g = groups.last();
        set_member(
            rename_changes_members(groups.drop_last()),
            uri_path_text(g.0),
            JsonValue::Array(Seq::new(g.1.len(), |k: int| edit_entry_value(g.1[k]))),
        )
    }
}

/// The JSON answer of a rename: `{"changes": {path: [{line, column, new_text}]}}`.
pub open spec fn rename_json_value(groups: RenameEditsView) -> JsonValue {
    JsonValue::Object(seq![("changes"@, JsonValue::Object(rename_changes_members(groups)))])
}

/// The JSON answer of a rename.
#[verifier::loop_isolation(false)]
pub fn format_rename_json(edit: &WorkspaceEdit) -> (r: Json)
    requires
        rename_displayable(workspace_edits(*edit)),
    ensures
        r@ == rename_json_value(workspace_edits(*edit)),
{
    proof {
        lemma_view_empty();
    }
    let groups = collect_rename_edits(edit);
    let ghost gv = changes_view(groups@);
    let mut members: Vec<(String, Json)> = Vec::new();
    let mut i: usize = 0;
    assert(gv.take(0) =~= Seq::<(Seq<char>, Seq<(Range, Seq<char>)>)>::empty());
    while i < groups.len()
        invariant
            i <= groups@.len(),
            gv == changes_view(groups@),
            view_entries(members@) == rename_changes_members(gv.take(i as int)),
        decreases groups@.len() - i,
    {
        let edits = &groups[i].1;
        let path = uri_to_path(groups[i].0.as_str());
        let ghost g = gv[i as int];
        assert(gv.take(i + 1).drop_last() =~= gv.take(i as int));
        assert(gv.take(i + 1).last() == g);
        let mut entries: Vec<Json> = Vec::new();
        let mut k: usize = 0;
        while k < edits.len()
            invariant
                k <= edits@.len(),
                g == gv[i as int],
                g.1 == text_edits_view(edits@),
                view_items(entries@) =~= Seq::new(k as nat, |m: int| edit_entry_value(g.1[m])),
            decreases edits@.len() - k,
        {
            let te = &edits[k];
            assert(g.1[k as int] == text_edit_view(*te));
            assert(displayable(te.range.start)) by {
                assert(gv[i as int].1[k as int].0.start == te.range.start);
            }
            let mut es: Vec<(String, Json)> = Vec::new();
            push_member(&mut es, "line", json_uint((te.range.start.line + 1) as u64));
            push_member(&mut es, "column", json_uint((te.range.start.character + 1) as u64));
            push_member(&mut es, "new_text", Json::String(te.new_text.clone()));
            assert(view_entries(es@) =~= seq![
                ("line"@, JsonValue::Number(NumberValue::PosInt((te.range.start.line + 1) as nat))),
                ("column"@, JsonValue::Number(NumberValue::PosInt((te.range.start.character + 1) as nat))),
                ("new_text"@, JsonValue::Str(te.new_text@)),
            ]);
            push_item(&mut entries, json_object(es));
            k = k + 1;
        }
        set_object_member(&mut members, path, json_array(entries));
        i = i + 1;
    }
    assert(gv.take(groups@.len() as int) =~= gv);
    let ghost mv = view_entries(members@);
    let mut outer: Vec<(String, Json)> = Vec::new();
    push_member(&mut outer, "changes", json_object(members));
    assert(view_entries(outer@) =~= seq![("changes"@, JsonValue::Object(mv))]);
    json_object(outer)
}


/// What a diagnostic shows: range, severity, code, source and message.
pub open spec fn diagnostic_view(d: Diagnostic) -> (Range, Option<i32>, Option<JsonValue>, Option<Seq<char>>, Seq<char>) {
    (
        d.range,
        d.severity,
        match d.code { Some(c) => Some(c@), None => None },
        match d.source { Some(s) => Some(s@), None => None },
        d.message@,
    )
}

/// One line of the text answer for a diagnostic: `<line>:<column> [<severity>] <message>`.
pub open spec fn diagnostic_line(d: Diagnostic) -> Seq<char> {
    decimal((d.range.start.line + 1) as nat) + ":"@ + decimal((d.range.start.character + 1) as nat) + " ["@
        + match d.severity { Some(s) => severity_text(s), None => "unknown"@ } + "] "@ + d.message@
}

/// The text answer of the diagnostics tool.
pub open spec fn diagnostics_text(ds: Seq<Diagnostic>) -> Seq<char> {
    if ds.len() == 0 {
        "No diagnostics found"@
    } else {
        joined(
            Seq::new(ds.len(), |i: int| diagnostic_line(ds[i])).push("("@ + decimal(ds.len() as nat) + " diagnostics)"@),
            "\n"@,
        )
    }
}

/// The text answer of the diagnostics tool.
pub fn format_diagnostics_text(ds: &Vec<Diagnostic>) -> (r: String)
    requires
        forall|i: int| 0 <= i < ds@.len() ==> displayable(#[trigger] ds@[i].range.start),
    ensures
        r@ == diagnostics_text(ds@),
{
    if ds.len() == 0 {
        return String::from_str("No diagnostics found");
    }
    let mut lines: Vec<String> = Vec::new();
    let mut i: usize = 0;
    while i < ds.len()
        invariant
            i <= ds@.len(),
            forall|k: int| 0 <= k < ds@.len() ==> displayable(#[trigger] ds@[k].range.start),
            lines@.map_values(|t: String| t@) =~= Seq::new(i as nat, |k: int| diagnostic_line(ds@[k])),
        decreases ds@.len() - i,
    {
        let d = &ds[i];
        assert(displayable(ds@[i as int].range.start));
        let mut line = String::new();
        push_u64(&mut line, (d.range.start.line + 1) as u64);
        line.append(":");
        push_u64(&mut line, (d.range.start.character + 1) as u64);
        line.append(" [");
        match d.severity {
            Some(sev) => line.append(severity_name(sev)),
            None => line.append("unknown"),
        }
        line.append("] ");
        line.append(d.message.as_str());
        assert(line@ =~= diagnostic_line(*d));
        let ghost before = lines@;
        lines.push(line);
        assert(lines@.map_values(|t: String| t@) =~= before.map_values(|t: String| t@).push(line@));
        i = i + 1;
    }
    let mut last = String::from_str("(");
    push_u64(&mut last, ds.len() as u64);
    last.append(" diagnostics)");
    let ghost before = lines@;
    lines.push(last);
    assert(lines@.map_values(|t: String| t@) =~= before.map_values(|t: String| t@).push(last@));
    join(&lines, "\n")
}

/// The members of one diagnostic in the JSON answer; severity, code and source appear
/// only when the diagnostic has them.
pub open spec fn diagnostic_members(file_path: Seq<char>, d: Diagnostic) -> Seq<(Seq<char>, JsonValue)> {
    let base = seq![
        ("file_path"@, JsonValue::Str(file_path)),
        ("line"@, JsonValue::Number(NumberValue::PosInt((d.range.start.line + 1) as nat))),
        ("column"@, JsonValue::Number(NumberValue::PosInt((d.range.start.character + 1) as nat))),
    ];
    let with_sev = match d.severity {
        Some(s) => base.push(("severity"@, JsonValue::Str(severity_text(s)))),
        None => base,
    };
    let with_code = match d.code {
        Some(c) => with_sev.push(("code"@, c@)),
        None => with_sev,
    };
    let with_source = match d.source {
        Some(src) => with_code.push(("source"@, JsonValue::Str(src@))),
        None => with_code,
    };
    with_source.push(("message"@, JsonValue::Str(d.message@)))
}

/// The JSON answer of the diagnostics tool (for a non-empty list).
pub open spec fn diagnostics_json_value(file_path: Seq<char>, ds: Seq<Diagnostic>) -> JsonValue {
    JsonValue::Array(Seq::new(ds.len(), |i: int| JsonValue::Object(diagnostic_members(file_path, ds[i]))))
}

/// The JSON answer of the diagnostics tool.
pub fn format_diagnostics_json(file_path: &str, ds: &Vec<Diagnostic>) -> (r: Json)
    requires
        forall|i: int| 0 <= i < ds@.len() ==> displayable(#[trigger] ds@[i].range.start),
    ensures
        r@ == diagnostics_json_value(file_path@, ds@),
{
    proof {
        lemma_view_empty();
    }
    let mut items: Vec<Json> = Vec::new();
    let mut i: usize = 0;
    while i < ds.len()
        invariant
            i <= ds@.len(),
            forall|k: int| 0 <= k < ds@.len() ==> displayable(#[trigger] ds@[k].range.start),
            view_items(items@) =~= Seq::new(i as nat, |k: int| JsonValue::Object(diagnostic_members(file_path@, ds@[k]))),
        decreases ds@.len() - i,
    {
        let d = &ds[i];
        assert(displayable(ds@[i as int].range.start));
        let mut es: Vec<(String, Json)> = Vec::new();
        push_member(&mut es, "file_path", json_text(file_path));
        push_member(&mut es, "line", json_uint((d.range.start.line + 1) as u64));
        push_member(&mut es, "column", json_uint((d.range.start.character + 1) as u64));
        match d.severity {
            Some(sev) => push_member(&mut es, "severity", json_text(severity_name(sev))),
            None => {},
        }
        match &d.code {
            Some(c) => push_member(&mut es, "code", c.copy()),
            None => {},
        }
        match &d.source {
            Some(src) => push_member(&mut es, "source", Json::String(src.clone())),
            None => {},
        }
        push_member(&mut es, "message", Json::String(d.message.clone()));
        assert(view_entries(es@) =~= diagnostic_members(file_path@, *d));
        push_item(&mut items, json_object(es));
        i = i + 1;
    }
    json_array(items)
}

/// A range as JSON: `{"start": {line, character}, "end": {line, character}}`.
pub open spec fn range_value(r: Range) -> JsonValue {
    JsonValue::Object(
        seq![
            ("start"@, JsonValue::Object(seq![("line"@, JsonValue::Number(NumberValue::PosInt(r.start.line as nat))), ("character"@, JsonValue::Number(NumberValue::PosInt(r.start.character as nat)))])),
            ("end"@, JsonValue::Object(seq![("line"@, JsonValue::Number(NumberValue::PosInt(r.end.line as nat))), ("character"@, JsonValue::Number(NumberValue::PosInt(r.end.character as nat)))])),
        ],
    )
}

/// A position as JSON: `{"line": .., "character": ..}` (0-based, as LSP has it).
pub open spec fn position_value(p: Position) -> JsonValue {
    JsonValue::Object(seq![("line"@, JsonValue::Number(NumberValue::PosInt(p.line as nat))), ("character"@, JsonValue::Number(NumberValue::PosInt(p.character as nat)))])
}

/// A position as JSON.
pub fn position_json(p: Position) -> (r: Json)
    ensures
        r@ == position_value(p),
{
    proof {
        lemma_view_empty();
    }
    let mut es: Vec<(String, Json)> = Vec::new();
    push_member(&mut es, "line", json_uint(p.line as u64));
    push_member(&mut es, "character", json_uint(p.character as u64));
    assert(view_entries(es@) =~= seq![("line"@, JsonValue::Number(NumberValue::PosInt(p.line as nat))), ("character"@, JsonValue::Number(NumberValue::PosInt(p.character as nat)))]);
    json_object(es)
}

/// A range as JSON.
pub fn range_json(r: Range) -> (j: Json)
    ensures
        j@ == range_value(r),
{
    proof {
        lemma_view_empty();
    }
    let mut es: Vec<(String, Json)> = Vec::new();
    push_member(&mut es, "start", position_json(r.start));
    push_member(&mut es, "end", position_json(r.end));
    assert(view_entries(es@) =~= seq![
        ("start"@, JsonValue::Object(seq![("line"@, JsonValue::Number(NumberValue::PosInt(r.start.line as nat))), ("character"@, JsonValue::Number(NumberValue::PosInt(r.start.character as nat)))])),
        ("end"@, JsonValue::Object(seq![("line"@, JsonValue::Number(NumberValue::PosInt(r.end.line as nat))), ("character"@, JsonValue::Number(NumberValue::PosInt(r.end.character as nat)))])),
    ]);
    json_object(es)
}

/// The JSON answer of the hover tool: `{"contents": ..., "range": ...}` (range only when known).
pub open spec fn hover_json_value(h: Hover) -> JsonValue {
    match h.range {
        Some(r) => JsonValue::Object(seq![("contents"@, h.contents@), ("range"@, range_value(r))]),
        None => JsonValue::Object(seq![("contents"@, h.contents@)]),
    }
}

/// The JSON answer of the hover tool.
pub fn format_hover_json(h: &Hover) -> (r: Json)
    ensures
        r@ == hover_json_value(*h),
{
    proof {
        lemma_view_empty();
    }
    let mut es: Vec<(String, Json)> = Vec::new();
    push_member(&mut es, "contents", h.contents.copy());
    match h.range {
        Some(range) => {
            push_member(&mut es, "range", range_json(range));
            assert(view_entries(es@) =~= seq![("contents"@, h.contents@), ("range"@, range_value(range))]);
        },
        None => {
            assert(view_entries(es@) =~= seq![("contents"@, h.contents@)]);
        },
    }
    json_object(es)
}

/// One line of the text answer of a call hierarchy tool.
pub open spec fn call_line(arrow: Seq<char>, item: CallHierarchyItem) -> Seq<char> {
    "  "@ + arrow + " "@ + position_text(uri_path_text(item.uri@), item.selection_range.start) + "  "@ + item.name@
        + "()\n"@
}

pub open spec fn call_lines(arrow: Seq<char>, items: Seq<CallHierarchyItem>) -> Seq<char>
    decreases items.len(),
{
    if items.len() == 0 {
        Seq::empty()
    } else {
        call_lines(arrow, items.drop_last()) + call_line(arrow, items.last())
    }
}

/// The text answer of a call hierarchy tool: one line per caller/callee, then
/// `(<n> <label>s)`; `no_results` when there are none.
pub open spec fn call_hierarchy_text(
    items: Seq<CallHierarchyItem>,
    arrow: Seq<char>,
    label: Seq<char>,
    no_results: Seq<char>,
) -> Seq<char> {
    if items.len() == 0 {
        no_results
    } else {
        call_lines(arrow, items) + "("@ + decimal(items.len() as nat) + " "@ + label + "s)"@
    }
}

/// The text answer of a call hierarchy tool.
pub fn format_call_hierarchy_text(
    items: &Vec<CallHierarchyItem>,
    arrow: &str,
    label: &str,
    no_results_msg: &str,
) -> (r: String)
    requires
        forall|i: int| 0 <= i < items@.len() ==> displayable(#[trigger] items@[i].selection_range.start),
    ensures
        r@ == call_hierarchy_text(items@, arrow@, label@, no_results_msg@),
{
    if items.len() == 0 {
        return String::from_str(no_results_msg);
    }
    let mut s = String::new();
    let mut i: usize = 0;
    assert(items@.take(0) =~= Seq::<CallHierarchyItem>::empty());
    while i < items.len()
        invariant
            i <= items@.len(),
            forall|k: int| 0 <= k < items@.len() ==> displayable(#[trigger] items@[k].selection_range.start),
            s@ == call_lines(arrow@, items@.take(i as int)),
        decreases items@.len() - i,
    {
        let item = &items[i];
        assert(displayable(items@[i as int].selection_range.start));
        let path = uri_to_path(item.uri.as_str());
        let ghost before = s@;
        s.append("  ");
        s.append(arrow);
        s.append(" ");
        push_position(&mut s, path.as_str(), item.selection_range.start);
        s.append("  ");
        s.append(item.name.as_str());
        s.append("()\n");
        assert(items@.take(i + 1).drop_last() =~= items@.take(i as int));
        assert(s@ =~= before + call_line(arrow@, *item));
        i = i + 1;
    }
    assert(items@.take(items@.len() as int) =~= items@);
    s.append("(");
    push_u64(&mut s, items.len() as u64);
    s.append(" ");
    s.append(label);
    s.append("s)");
    s
}

/// One entry of the JSON answer of a call hierarchy tool.
pub open spec fn call_entry_value(item: CallHierarchyItem, line_text: Seq<char>) -> JsonValue {
    JsonValue::Object(
        seq![
            ("name"@, JsonValue::Str(item.name@)),
            ("file_path"@, JsonValue::Str(uri_path_text(item.uri@))),
            ("line"@, JsonValue::Number(NumberValue::PosInt((item.selection_range.start.line + 1) as nat))),
            ("column"@, JsonValue::Number(NumberValue::PosInt((item.selection_range.start.character + 1) as nat))),
            ("line_text"@, JsonValue::Str(trim_end_text(line_text))),
        ],
    )
}

/// The JSON answer of a call hierarchy tool: `{"results": [...]}`.
pub open spec fn call_hierarchy_json_value(items: Seq<CallHierarchyItem>, line_texts: Seq<Seq<char>>) -> JsonValue {
    JsonValue::Object(
        seq![("results"@, JsonValue::Array(Seq::new(items.len(), |i: int| call_entry_value(items[i], line_texts[i]))))],
    )
}

/// The JSON answer of a call hierarchy tool; `line_texts[i]` is the source line of item `i`.
pub fn format_call_hierarchy_json(items: &Vec<CallHierarchyItem>, line_texts: &Vec<String>) -> (r: Json)
    requires
        line_texts@.len() == items@.len(),
        forall|i: int| 0 <= i < items@.len() ==> displayable(#[trigger] items@[i].selection_range.start),
    ensures
        r@ == call_hierarchy_json_value(items@, line_texts@.map_values(|t: String| t@)),
{
    let ghost tv = line_texts@.map_values(|t: String| t@);
    proof {
        lemma_view_empty();
    }
    let mut out: Vec<Json> = Vec::new();
    let mut i: usize = 0;
    while i < items.len()
        invariant
            i <= items@.len(),
            line_texts@.len() == items@.len(),
            tv == line_texts@.map_values(|t: String| t@),
            forall|k: int| 0 <= k < items@.len() ==> displayable(#[trigger] items@[k].selection_range.start),
            view_items(out@) =~= Seq::new(i as nat, |k: int| call_entry_value(items@[k], tv[k])),
        decreases items@.len() - i,
    {
        let item = &items[i];
        assert(displayable(items@[i as int].selection_range.start));
        let mut es: Vec<(String, Json)> = Vec::new();
        push_member(&mut es, "name", Json::String(item.name.clone()));
        push_member(&mut es, "file_path", Json::String(uri_to_path(item.uri.as_str())));
        push_member(&mut es, "line", json_uint((item.selection_range.start.line + 1) as u64));
        push_member(&mut es, "column", json_uint((item.selection_range.start.character + 1) as u64));
        push_member(&mut es, "line_text", Json::String(trim_end(line_texts[i].as_str())));
        assert(view_entries(es@) =~= seq![
            ("name"@, JsonValue::Str(item.name@)),
            ("file_path"@, JsonValue::Str(uri_path_text(item.uri@))),
            ("line"@, JsonValue::Number(NumberValue::PosInt((item.selection_range.start.line + 1) as nat))),
            ("column"@, JsonValue::Number(NumberValue::PosInt((item.selection_range.start.character + 1) as nat))),
            ("line_text"@, JsonValue::Str(trim_end_text(tv[i as int]))),
        ]);
        push_item(&mut out, json_object(es));
        i = i + 1;
    }
    let ghost arr = view_items(out@);
    let mut outer: Vec<(String, Json)> = Vec::new();
    push_member(&mut outer, "results", json_array(out));
    assert(view_entries(outer@) =~= seq![("results"@, JsonValue::Array(arr))]);
    json_object(outer)
}

/// The `new_name` argument of the rename tool, trimmed; it must be a non-empty string.
pub open spec fn new_name_of(v: JsonValue) -> Result<Seq<char>, (int, Seq<char>)> {
    match v.str_field("new_name"@) {
        None => Err(invalid("missing new_name"@)),
        Some(n) => if trim_text(n).len() == 0 {
            Err(invalid("new_name must be non-empty"@))
        } else {
            Ok(trim_text(n))
        },
    }
}

/// Reads the `new_name` argument of the rename tool.
pub fn rename_new_name(params: &Json) -> (r: Result<String, ToolError>)
    ensures
        match r {
            Ok(n) => new_name_of(params@) == Ok::<Seq<char>, (int, Seq<char>)>(n@),
            Err(e) => new_name_of(params@) == Err::<Seq<char>, (int, Seq<char>)>(tool_error_view(e)),
        },
{
    match params.str_field("new_name") {
        None => Err(ToolError::invalid_params(String::from_str("missing new_name"))),
        Some(n) => {
            let t = trim(n.as_str());
            if t.unicode_len() == 0 {
                Err(ToolError::invalid_params(String::from_str("new_name must be non-empty")))
            } else {
                Ok(t)
            }
        },
    }
}

/// The arguments of the diagnostics tool: `file_path` (required) and `json` (default false).
pub open spec fn diagnostics_args_of(v: JsonValue) -> Result<(Seq<char>, bool), (int, Seq<char>)> {
    match v.str_field("file_path"@) {
        None => Err(invalid("missing file_path"@)),
        Some(f) => Ok((f, match v.bool_field("json"@) { Some(b) => b, None => false })),
    }
}

/// Reads the arguments of the diagnostics tool.
pub fn diagnostics_args(params: &Json) -> (r: Result<(String, bool), ToolError>)
    ensures
        match r {
            Ok((f, j)) => diagnostics_args_of(params@) == Ok::<(Seq<char>, bool), (int, Seq<char>)>((f@, j)),
            Err(e) => diagnostics_args_of(params@) == Err::<(Seq<char>, bool), (int, Seq<char>)>(tool_error_view(e)),
        },
{
    match params.str_field("file_path") {
        None => Err(ToolError::invalid_params(String::from_str("missing file_path"))),
        Some(f) => {
            let json = match params.bool_field("json") {
                Some(b) => b,
                None => false,
            };
            Ok((f.clone(), json))
        },
    }
}

/// The tool error for a failure to get a language server: an unsupported file type is
/// the caller's mistake (invalid params), a failed startup or client error is internal.
pub fn tool_error_for_manager(e: &ManagerError) -> (r: ToolError)
    ensures
        r.message@ == e.message_spec(),
        r.code == match e {
            ManagerError::UnsupportedLanguage(_) => INVALID_PARAMS,
            _ => INTERNAL_ERROR,
        },
{
    match e {
        ManagerError::UnsupportedLanguage(_) => ToolError::invalid_params(e.message()),
        _ => ToolError::internal(e.message()),
    }
}


/// A schema property of a given JSON type with a description.
pub open spec fn prop_value(ty: Seq<char>, desc: Seq<char>) -> JsonValue {
    JsonValue::Object(seq![("type"@, JsonValue::Str(ty)), ("description"@, JsonValue::Str(desc))])
}

/// The `json` flag property shared by all tools.
pub open spec fn json_flag_value() -> JsonValue {
    JsonValue::Object(
        seq![
            ("type"@, JsonValue::Str("boolean"@)),
            ("default"@, JsonValue::Bool(false)),
            ("description"@, JsonValue::Str("Return JSON output instead of human-readable text"@)),
        ],
    )
}

/// The `depth` property of the call hierarchy tools (only 1 is supported).
pub open spec fn depth_prop_value() -> JsonValue {
    JsonValue::Object(
        seq![
            ("type"@, JsonValue::Str("integer"@)),
            ("enum"@, JsonValue::Array(seq![JsonValue::Number(NumberValue::PosInt(1))])),
            ("default"@, JsonValue::Number(NumberValue::PosInt(1))),
            ("description"@, JsonValue::Str("Call chain depth (currently only 1 is supported)"@)),
        ],
    )
}

pub open spec fn file_path_prop() -> (Seq<char>, JsonValue) {
    ("file_path"@, prop_value("string"@, "Absolute path to the source file"@))
}

pub open spec fn line_prop() -> (Seq<char>, JsonValue) {
    ("line"@, prop_value("integer"@, "Line number (1-based)"@))
}

pub open spec fn column_prop() -> (Seq<char>, JsonValue) {
    ("column"@, prop_value("integer"@, "Column number (1-based)"@))
}

/// An object schema with the given properties and required property names.
pub open spec fn schema_value(props: Seq<(Seq<char>, JsonValue)>, required: Seq<Seq<char>>) -> JsonValue {
    JsonValue::Object(
        seq![
            ("type"@, JsonValue::Str("object"@)),
            ("properties"@, JsonValue::Object(props)),
            ("required"@, JsonValue::Array(Seq::new(required.len(), |i: int| JsonValue::Str(required[i])))),
        ],
    )
}

/// The input schema of the position query tools.
pub open spec fn query_schema_value() -> JsonValue {
    schema_value(
        seq![file_path_prop(), line_prop(), column_prop(), ("json"@, json_flag_value())],
        seq!["file_path"@, "line"@, "column"@],
    )
}

/// The input schema of the call hierarchy tools.
pub open spec fn call_hierarchy_schema_value() -> JsonValue {
    schema_value(
        seq![file_path_prop(), line_prop(), column_prop(), ("depth"@, depth_prop_value()), ("json"@, json_flag_value())],
        seq!["file_path"@, "line"@, "column"@],
    )
}

/// The input schema of the diagnostics tool.
pub open spec fn diagnostics_schema_value() -> JsonValue {
    schema_value(seq![file_path_prop(), ("json"@, json_flag_value())], seq!["file_path"@])
}

/// The input schema of the rename tool.
pub open spec fn rename_schema_value() -> JsonValue {
    schema_value(
        seq![
            file_path_prop(),
            line_prop(),
            column_prop(),
            ("new_name"@, prop_value("string"@, "The new name for the symbol"@)),
            ("json"@, json_flag_value()),
        ],
        seq!["file_path"@, "line"@, "column"@, "new_name"@],
    )
}

fn prop_json(ty: &str, desc: &str) -> (r: Json)
    ensures
        r@ == prop_value(ty@, desc@),
{
    proof {
        lemma_view_empty();
    }
    let mut es: Vec<(String, Json)> = Vec::new();
    push_member(&mut es, "type", json_text(ty));
    push_member(&mut es, "description", json_text(desc));
    assert(view_entries(es@) =~= seq![("type"@, JsonValue::Str(ty@)), ("description"@, JsonValue::Str(desc@))]);
    json_object(es)
}

fn json_flag_json() -> (r: Json)
    ensures
        r@ == json_flag_value(),
{
    proof {
        lemma_view_empty();
    }
    let mut es: Vec<(String, Json)> = Vec::new();
    push_member(&mut es, "type", json_text("boolean"));
    push_member(&mut es, "default", Json::Bool(false));
    push_member(&mut es, "description", json_text("Return JSON output instead of human-readable text"));
    assert(view_entries(es@) =~= seq![
        ("type"@, JsonValue::Str("boolean"@)),
        ("default"@, JsonValue::Bool(false)),
        ("description"@, JsonValue::Str("Return JSON output instead of human-readable text"@)),
    ]);
    json_object(es)
}

fn depth_prop_json() -> (r: Json)
    ensures
        r@ == depth_prop_value(),
{
    proof {
        lemma_view_empty();
    }
    let mut one: Vec<Json> = Vec::new();
    push_item(&mut one, json_uint(1));
    assert(view_items(one@) =~= seq![JsonValue::Number(NumberValue::PosInt(1))]);
    let mut es: Vec<(String, Json)> = Vec::new();
    push_member(&mut es, "type", json_text("integer"));
    push_member(&mut es, "enum", json_array(one));
    push_member(&mut es, "default", json_uint(1));
    push_member(&mut es, "description", json_text("Call chain depth (currently only 1 is supported)"));
    assert(view_entries(es@) =~= seq![
        ("type"@, JsonValue::Str("integer"@)),
        ("enum"@, JsonValue::Array(seq![JsonValue::Number(NumberValue::PosInt(1))])),
        ("default"@, JsonValue::Number(NumberValue::PosInt(1))),
        ("description"@, JsonValue::Str("Call chain depth (currently only 1 is supported)"@)),
    ]);
    json_object(es)
}

fn schema_json(props: Vec<(String, Json)>, required: &[&str]) -> (r: Json)
    ensures
        r@ == schema_value(view_entries(props@), required@.map_values(|t: &str| t@)),
{
    proof {
        lemma_view_empty();
    }
    let ghost rv = required@.map_values(|t: &str| t@);
    let mut req: Vec<Json> = Vec::new();
    let mut i: usize = 0;
    while i < required.len()
        invariant
            i <= required@.len(),
            rv == required@.map_values(|t: &str| t@),
            view_items(req@) =~= Seq::new(i as nat, |k: int| JsonValue::Str(rv[k])),
        decreases required@.len() - i,
    {
        push_item(&mut req, json_text(required[i]));
        i = i + 1;
    }
    let ghost pv = view_entries(props@);
    let ghost qv = view_items(req@);
    let mut es: Vec<(String, Json)> = Vec::new();
    push_member(&mut es, "type", json_text("object"));
    push_member(&mut es, "properties", json_object(props));
    push_member(&mut es, "required", json_array(req));
    assert(view_entries(es@) =~= seq![
        ("type"@, JsonValue::Str("object"@)),
        ("properties"@, JsonValue::Object(pv)),
        ("required"@, JsonValue::Array(qv)),
    ]);
    json_object(es)
}

fn position_props() -> (r: Vec<(String, Json)>)
    ensures
        view_entries(r@) == seq![file_path_prop(), line_prop(), column_prop()],
{
    proof {
        lemma_view_empty();
    }
    let mut props: Vec<(String, Json)> = Vec::new();
    push_member(&mut props, "file_path", prop_json("string", "Absolute path to the source file"));
    push_member(&mut props, "line", prop_json("integer", "Line number (1-based)"));
    push_member(&mut props, "column", prop_json("integer", "Column number (1-based)"));
    assert(view_entries(props@) =~= seq![file_path_prop(), line_prop(), column_prop()]);
    props
}

/// The input schema of the position query tools.
pub fn query_schema() -> (r: Json)
    ensures
        r@ == query_schema_value(),
{
    let mut props = position_props();
    push_member(&mut props, "json", json_flag_json());
    assert(view_entries(props@) =~= seq![file_path_prop(), line_prop(), column_prop(), ("json"@, json_flag_value())]);
    let r = schema_json(props, &["file_path", "line", "column"]);
    assert(seq!["file_path", "line", "column"].map_values(|t: &str| t@) =~= seq!["file_path"@, "line"@, "column"@]);
    r
}

/// The input schema of the call hierarchy tools.
pub fn call_hierarchy_schema() -> (r: Json)
    ensures
        r@ == call_hierarchy_schema_value(),
{
    let mut props = position_props();
    push_member(&mut props, "depth", depth_prop_json());
    push_member(&mut props, "json", json_flag_json());
    assert(view_entries(props@) =~= seq![file_path_prop(), line_prop(), column_prop(), ("depth"@, depth_prop_value()), ("json"@, json_flag_value())]);
    let r = schema_json(props, &["file_path", "line", "column"]);
    assert(seq!["file_path", "line", "column"].map_values(|t: &str| t@) =~= seq!["file_path"@, "line"@, "column"@]);
    r
}

/// The input schema of `find_references`.
pub fn find_references_schema() -> (r: Json)
    ensures
        r@ == query_schema_value(),
{
    query_schema()
}

/// The input schema of `goto_definition`.
pub fn goto_definition_schema() -> (r: Json)
    ensures
        r@ == query_schema_value(),
{
    query_schema()
}

/// The input schema of `find_implementations`.
pub fn find_implementations_schema() -> (r: Json)
    ensures
        r@ == query_schema_value(),
{
    query_schema()
}

/// The input schema of `incoming_calls`.
pub fn incoming_calls_schema() -> (r: Json)
    ensures
        r@ == call_hierarchy_schema_value(),
{
    call_hierarchy_schema()
}

/// The input schema of `outgoing_calls`.
pub fn outgoing_calls_schema() -> (r: Json)
    ensures
        r@ == call_hierarchy_schema_value(),
{
    call_hierarchy_schema()
}

/// The input schema of `hover`.
pub fn hover_schema() -> (r: Json)
    ensures
        r@ == query_schema_value(),
{
    query_schema()
}

/// The input schema of `diagnostics`.
pub fn diagnostics_schema() -> (r: Json)
    ensures
        r@ == diagnostics_schema_value(),
{
    proof {
        lemma_view_empty();
    }
    let mut props: Vec<(String, Json)> = Vec::new();
    push_member(&mut props, "file_path", prop_json("string", "Absolute path to the source file"));
    push_member(&mut props, "json", json_flag_json());
    assert(view_entries(props@) =~= seq![file_path_prop(), ("json"@, json_flag_value())]);
    let names: [&str; 1] = ["file_path"];
    let r = schema_json(props, &names);
    assert(names@.map_values(|t: &str| t@) =~= seq!["file_path"@]);
    r
}

/// The input schema of `rename`.
pub fn rename_schema() -> (r: Json)
    ensures
        r@ == rename_schema_value(),
{
    let mut props = position_props();
    push_member(&mut props, "new_name", prop_json("string", "The new name for the symbol"));
    push_member(&mut props, "json", json_flag_json());
    assert(view_entries(props@) =~= seq![
        file_path_prop(),
        line_prop(),
        column_prop(),
        ("new_name"@, prop_value("string"@, "The new name for the symbol"@)),
        ("json"@, json_flag_value()),
    ]);
    let r = schema_json(props, &["file_path", "line", "column", "new_name"]);
    assert(seq!["file_path", "line", "column", "new_name"].map_values(|t: &str| t@) =~= seq!["file_path"@, "line"@, "column"@, "new_name"@]);
    r
}

} // verus!
