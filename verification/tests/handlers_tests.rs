use symtrace_mcp::json::{Json, JsonNumber};
use symtrace_mcp::lsp::types::{Position, Range, TextEdit, WorkspaceEdit, Diagnostic, Hover, Location, CallHierarchyItem};
use symtrace_mcp::mcp::handlers::{
    format_hover_text, severity_name, format_rename_text, format_rename_json, ToolParams,
    CallHierarchyParams, format_text, format_json, format_diagnostics_text, format_diagnostics_json,
    format_hover_json, format_call_hierarchy_text, format_call_hierarchy_json, rename_new_name,
    diagnostics_args, tool_error_for_manager, mcp_tool_result, collect_rename_edits,
};
use symtrace_mcp::mcp::protocol::INVALID_PARAMS;
use symtrace_mcp::mcp::answers::{
    call_hierarchy_output, diagnostics_output, file_check, hover_output, no_callable_output, query_output,
    rename_output, ToolText,
};
use symtrace_mcp::mcp::handlers::QueryKind;
use symtrace_mcp::server::manager::ManagerError;

fn s(t: &str) -> Json {
    Json::String(t.to_string())
}

fn n(v: u64) -> Json {
    Json::Number(JsonNumber::PosInt(v))
}

fn obj(entries: Vec<(&str, Json)>) -> Json {
    Json::Object(entries.into_iter().map(|(k, v)| (k.to_string(), v)).collect())
}

fn member<'a>(j: &'a Json, key: &str) -> &'a Json {
    j.get(key).expect("member present")
}

fn range(l1: u32, c1: u32, l2: u32, c2: u32) -> Range {
    Range { start: Position { line: l1, character: c1 }, end: Position { line: l2, character: c2 } }
}

fn lsp_range_json(l1: u64, c1: u64, l2: u64, c2: u64) -> Json {
    obj(vec![
        ("start", obj(vec![("line", n(l1)), ("character", n(c1))])),
        ("end", obj(vec![("line", n(l2)), ("character", n(c2))])),
    ])
}

fn document_change(uri: &str, version: u64, r: Json, new_text: &str) -> Json {
    obj(vec![
        ("textDocument", obj(vec![("uri", s(uri)), ("version", n(version))])),
        ("edits", Json::Array(vec![obj(vec![("range", r), ("newText", s(new_text))])])),
    ])
}

fn object_entries(j: &Json) -> &Vec<(String, Json)> {
    match j {
        Json::Object(es) => es,
        _ => panic!("not an object"),
    }
}

fn array_items(j: &Json) -> &Vec<Json> {
    match j {
        Json::Array(items) => items,
        _ => panic!("not an array"),
    }
}

fn as_text(j: &Json) -> String {
    j.as_str().expect("a string").clone()
}

#[test]
fn hover_text_plain_string() {
    assert_eq!(format_hover_text(&s("hello")), "hello");
}

#[test]
fn hover_text_markup_content() {
    let contents = obj(vec![("kind", s("markdown")), ("value", s("pub fn foo()"))]);
    assert_eq!(format_hover_text(&contents), "pub fn foo()");
}

#[test]
fn hover_text_array_joins_with_blank_line() {
    let contents = Json::Array(vec![s("first"), obj(vec![("value", s("second"))])]);
    assert_eq!(format_hover_text(&contents), "first\n\nsecond");
}

#[test]
fn hover_text_empty_strings_filtered() {
    let contents = Json::Array(vec![s("hello"), s(""), obj(vec![("value", s(""))]), s("world")]);
    assert_eq!(format_hover_text(&contents), "hello\n\nworld");
}

#[test]
fn severity_names() {
    assert_eq!(severity_name(1), "error");
    assert_eq!(severity_name(2), "warning");
    assert_eq!(severity_name(3), "info");
    assert_eq!(severity_name(4), "hint");
    assert_eq!(severity_name(99), "unknown");
}

#[test]
fn rename_text_single_file() {
    let edit = WorkspaceEdit {
        changes: Some(vec![(
            "file:///src/main.rs".to_string(),
            vec![TextEdit { range: range(9, 4, 9, 7), new_text: "foo".to_string() }],
        )]),
        document_changes: None,
    };
    let text = format_rename_text(&edit);
    assert!(text.contains("foo"));
    assert!(text.contains("(1 changes in 1 files)"));
}

#[test]
fn rename_text_empty_edit() {
    let edit = WorkspaceEdit { changes: None, document_changes: None };
    let text = format_rename_text(&edit);
    assert_eq!(text, "(0 changes in 0 files)");
}

#[test]
fn rename_json_output() {
    let edit = WorkspaceEdit {
        changes: Some(vec![(
            "file:///src/main.rs".to_string(),
            vec![TextEdit { range: range(4, 7, 4, 10), new_text: "bar".to_string() }],
        )]),
        document_changes: None,
    };
    let parsed = format_rename_json(&edit);
    let changes = object_entries(member(&parsed, "changes"));
    assert!(changes.len() == 1);
    let entries = array_items(&changes[0].1);
    assert_eq!(member(&entries[0], "line").as_u64(), Some(5));
    assert_eq!(member(&entries[0], "column").as_u64(), Some(8));
    assert_eq!(as_text(member(&entries[0], "new_text")), "bar");
}

#[test]
fn tool_params_valid() {
    let params = obj(vec![
        ("file_path", s("/src/main.rs")),
        ("line", n(10)),
        ("column", n(5)),
        ("json", Json::Bool(true)),
    ]);
    let p = ToolParams::parse(&params).ok().unwrap();
    assert_eq!(p.file_path, "/src/main.rs");
    assert_eq!(p.line, 10);
    assert_eq!(p.column, 5);
    assert!(p.json);
}

#[test]
fn tool_params_defaults_json_false() {
    let params = obj(vec![("file_path", s("/src/main.rs")), ("line", n(1)), ("column", n(1))]);
    let p = ToolParams::parse(&params).ok().unwrap();
    assert!(!p.json);
}

#[test]
fn tool_params_missing_field() {
    let params = obj(vec![("file_path", s("/src/main.rs"))]);
    assert!(ToolParams::parse(&params).is_err());
}

#[test]
fn rename_text_document_changes() {
    let edit = WorkspaceEdit {
        changes: None,
        document_changes: Some(Json::Array(vec![document_change(
            "file:///src/lib.rs",
            3,
            lsp_range_json(0, 4, 0, 7),
            "baz",
        )])),
    };
    let text = format_rename_text(&edit);
    assert!(text.contains("baz"));
    assert!(text.contains("(1 changes in 1 files)"));
}

#[test]
fn rename_json_document_changes() {
    let edit = WorkspaceEdit {
        changes: None,
        document_changes: Some(Json::Array(vec![document_change(
            "file:///src/lib.rs",
            1,
            lsp_range_json(2, 0, 2, 3),
            "qux",
        )])),
    };
    let parsed = format_rename_json(&edit);
    let changes = object_entries(member(&parsed, "changes"));
    let entries = array_items(&changes[0].1);
    assert_eq!(as_text(member(&entries[0], "new_text")), "qux");
}

#[test]
fn rename_both_changes_and_document_changes() {
    let edit = WorkspaceEdit {
        changes: Some(vec![(
            "file:///src/a.rs".to_string(),
            vec![TextEdit { range: range(0, 0, 0, 3), new_text: "x".to_string() }],
        )]),
        document_changes: Some(Json::Array(vec![document_change(
            "file:///src/b.rs",
            1,
            lsp_range_json(1, 0, 1, 3),
            "y",
        )])),
    };
    let text = format_rename_text(&edit);
    assert!(text.contains("x"));
    assert!(text.contains("y"));
    assert!(text.contains("(2 changes in 2 files)"));
}

#[test]
fn rename_text_lists_each_edit_with_one_based_position() {
    let edit = WorkspaceEdit {
        changes: Some(vec![(
            "file:///src/main.rs".to_string(),
            vec![TextEdit { range: range(9, 4, 9, 7), new_text: "foo".to_string() }],
        )]),
        document_changes: None,
    };
    assert_eq!(
        format_rename_text(&edit),
        "/src/main.rs:10:5  \u{2192}  foo\n(1 changes in 1 files)"
    );
}

#[test]
fn rename_skips_document_change_without_uri() {
    let bad = obj(vec![("edits", Json::Array(vec![]))]);
    let edit = WorkspaceEdit { changes: None, document_changes: Some(Json::Array(vec![bad])) };
    assert_eq!(collect_rename_edits(&edit).len(), 0);
    assert_eq!(format_rename_text(&edit), "(0 changes in 0 files)");
}

#[test]
fn tool_params_reject_line_zero_and_wrong_types() {
    let zero = obj(vec![("file_path", s("/a.rs")), ("line", n(0)), ("column", n(1))]);
    let e = ToolParams::parse(&zero).err().unwrap();
    assert_eq!(e.code, INVALID_PARAMS);
    let text_line = obj(vec![("file_path", s("/a.rs")), ("line", s("3")), ("column", n(1))]);
    assert!(ToolParams::parse(&text_line).is_err());
    let no_path = obj(vec![("line", n(1)), ("column", n(1))]);
    assert!(ToolParams::parse(&no_path).is_err());
}

#[test]
fn call_hierarchy_params_parse() {
    let params = obj(vec![("file_path", s("/a.rs")), ("line", n(3)), ("column", n(2))]);
    let p = CallHierarchyParams::parse(&params).ok().unwrap();
    assert_eq!(p.file_path, "/a.rs");
    assert_eq!((p.line, p.column, p.json), (3, 2, false));
}

#[test]
fn format_text_lists_locations_with_context() {
    let locs = vec![Location { uri: "file:///src/lib.rs".to_string(), range: range(0, 3, 0, 6) }];
    let lines = vec!["fn foo() {}".to_string()];
    let text = format_text(&locs, &lines, "No references found.");
    assert_eq!(text, "1 results:\n/src/lib.rs:1:4  fn foo() {}");
    let none: Vec<Location> = Vec::new();
    assert_eq!(format_text(&none, &Vec::new(), "No references found."), "No references found.");
}

#[test]
fn format_json_gives_one_based_positions() {
    let locs = vec![Location { uri: "file:///src/lib.rs".to_string(), range: range(4, 0, 4, 2) }];
    let lines = vec!["  let x = 1;".to_string()];
    let j = format_json(&locs, &lines);
    let items = array_items(member(&j, "results"));
    assert_eq!(items.len(), 1);
    assert_eq!(as_text(member(&items[0], "file_path")), "/src/lib.rs");
    assert_eq!(as_text(member(&items[0], "line_text")), "  let x = 1;");
    assert_eq!(member(&items[0], "line").as_u64(), Some(5));
    assert_eq!(member(&items[0], "column").as_u64(), Some(1));
}

#[test]
fn diagnostics_text_and_json() {
    let ds = vec![Diagnostic {
        range: range(2, 4, 2, 8),
        severity: Some(1),
        code: None,
        source: Some("rustc".to_string()),
        message: "mismatched types".to_string(),
    }];
    let text = format_diagnostics_text(&ds);
    assert_eq!(text, "3:5 [error] mismatched types\n(1 diagnostics)");
    let j = format_diagnostics_json("/src/main.rs", &ds);
    let items = array_items(&j);
    assert_eq!(as_text(member(&items[0], "file_path")), "/src/main.rs");
    assert_eq!(as_text(member(&items[0], "severity")), "error");
    assert_eq!(as_text(member(&items[0], "source")), "rustc");
    assert!(items[0].get("code").is_none());
    let empty: Vec<Diagnostic> = Vec::new();
    assert_eq!(format_diagnostics_text(&empty), "No diagnostics found");
}

#[test]
fn hover_json_has_contents() {
    let h = Hover { contents: s("pub fn foo() -> i32"), range: None };
    let j = format_hover_json(&h);
    assert_eq!(as_text(member(&j, "contents")), "pub fn foo() -> i32");
}

#[test]
fn call_hierarchy_text_and_json() {
    let items = vec![CallHierarchyItem {
        name: "caller".to_string(),
        uri: "file:///src/lib.rs".to_string(),
        selection_range: range(6, 3, 6, 9),
    }];
    let lines = vec!["fn caller() {".to_string()];
    let text = format_call_hierarchy_text(&items, "\u{2190}", "caller", "No incoming calls found");
    assert_eq!(text, "  \u{2190} /src/lib.rs:7:4  caller()\n(1 callers)");
    let j = format_call_hierarchy_json(&items, &lines);
    let arr = array_items(member(&j, "results"));
    assert_eq!(as_text(member(&arr[0], "name")), "caller");
    assert_eq!(member(&arr[0], "line").as_u64(), Some(7));
}

#[test]
fn rename_and_diagnostics_arguments() {
    assert_eq!(rename_new_name(&obj(vec![("new_name", s("bar"))])).ok().unwrap(), "bar");
    assert!(rename_new_name(&obj(vec![])).is_err());
    let (path, json) = diagnostics_args(&obj(vec![("file_path", s("/a.rs")), ("json", Json::Bool(true))])).ok().unwrap();
    assert_eq!(path, "/a.rs");
    assert!(json);
    assert!(diagnostics_args(&obj(vec![])).is_err());
}

#[test]
fn manager_errors_become_tool_errors() {
    let e = tool_error_for_manager(&ManagerError::UnsupportedLanguage("xyz".to_string()));
    assert!(e.message.contains("xyz"));
}

#[test]
fn tool_result_wraps_text_content() {
    let j = mcp_tool_result("hello".to_string());
    let content = array_items(member(&j, "content"));
    assert_eq!(as_text(member(&content[0], "type")), "text");
    assert_eq!(as_text(member(&content[0], "text")), "hello");
}

fn plain(t: ToolText) -> String {
    match t {
        ToolText::Plain(s) => s,
        _ => panic!("expected plain text"),
    }
}

#[test]
fn tool_answers_choose_text_or_json() {
    let none: Vec<Location> = Vec::new();
    assert_eq!(plain(query_output(QueryKind::Definition, &none, &Vec::new(), false)), "No definition found");
    assert_eq!(plain(query_output(QueryKind::Implementations, &none, &Vec::new(), false)), "No implementations found");
    assert!(matches!(query_output(QueryKind::References, &none, &Vec::new(), true), ToolText::Compact(_)));
    assert_eq!(plain(hover_output(None, true)), "No hover information available");
    let h = Hover { contents: s("doc"), range: Some(range(1, 2, 1, 5)) };
    assert_eq!(plain(hover_output(Some(&h), false)), "doc");
    match hover_output(Some(&h), true) {
        ToolText::Pretty(j) => assert_eq!(member(member(member(&j, "range"), "start"), "line").as_u64(), Some(1)),
        _ => panic!("expected pretty JSON"),
    }
    let empty: Vec<Diagnostic> = Vec::new();
    assert_eq!(plain(diagnostics_output("/a.rs", &empty, true)), "No diagnostics found");
    assert_eq!(plain(rename_output(None, false)), "No rename changes");
    assert_eq!(plain(no_callable_output(false)), "No callable symbol at this position");
    match no_callable_output(true) {
        ToolText::Compact(j) => assert!(array_items(member(&j, "results")).is_empty()),
        _ => panic!("expected compact JSON"),
    }
    let items: Vec<CallHierarchyItem> = Vec::new();
    assert_eq!(plain(call_hierarchy_output(&items, &Vec::new(), true, false)), "No callers found");
    assert_eq!(plain(call_hierarchy_output(&items, &Vec::new(), false, false)), "No callees found");
}

#[test]
fn file_checks() {
    assert!(file_check("/a.rs", Ok(true), true).is_ok());
    assert_eq!(file_check("/a.rs", Ok(false), false).err().unwrap().message, "file not found: /a.rs");
    assert_eq!(file_check("/d", Ok(true), false).err().unwrap().message, "not a file: /d");
    assert_eq!(
        file_check("/x", Err("denied".to_string()), false).err().unwrap().message,
        "cannot check path /x: denied"
    );
}
