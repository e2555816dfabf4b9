use symtrace_mcp::lsp::requests::{
    did_change_params, did_open_params, document_params, index_poll, initialize_params, position_params,
    published_uri, references_params, rename_params, require_provider, symbol_query, symbols_ready, IndexPoll,
    OpenDocuments,
};
use symtrace_mcp::lsp::types::Position;
use symtrace_mcp::json::{Json, JsonNumber};
use symtrace_mcp::lsp::client::{parse_location_list, provider_enabled, ClientError};
use symtrace_mcp::lsp::file_manager::{FileError, FileManager, FileStamp, OpenAction};
use symtrace_mcp::lsp::transport::{
    content_length_header, header_step, read_frame, FrameRead, incoming_action, incoming_id, notification_message, parse_usize,
    request_message, HeaderStep, IncomingAction, LspError, MAX_BODY_BYTES,
};
use symtrace_mcp::mcp::protocol::{error_response, success_response, INVALID_REQUEST, METHOD_NOT_FOUND};
use symtrace_mcp::mcp::tools::{
    handle_initialize, prepare_tool_call, route_message, tool_call_outcome, tool_catalog, unknown_tool_outcome,
    Route, ToolError,
};
use symtrace_mcp::stats::query::{file_usage_line, format_duration_secs, server_usage_line, tool_usage_line};
use symtrace_mcp::stats::recorder::{summarize_server_usage, ts_to_secs, FileUsage, ServerEventRow, ServerUsage, ToolUsage};

fn text(t: &str) -> Json {
    Json::String(t.to_string())
}

fn num(v: u64) -> Json {
    Json::Number(JsonNumber::PosInt(v))
}

fn object(entries: Vec<(&str, Json)>) -> Json {
    Json::Object(entries.into_iter().map(|(k, v)| (k.to_string(), v)).collect())
}

fn field<'a>(j: &'a Json, key: &str) -> &'a Json {
    j.get(key).expect("member present")
}

fn text_of(j: &Json) -> String {
    j.as_str().expect("a string").clone()
}

#[test]
fn provider_enabled_none() {
    assert!(!provider_enabled(None));
}

#[test]
fn provider_enabled_bool() {
    assert!(provider_enabled(Some(&Json::Bool(true))));
    assert!(!provider_enabled(Some(&Json::Bool(false))));
}

#[test]
fn provider_enabled_object() {
    assert!(provider_enabled(Some(&object(vec![("documentSelector", Json::Array(vec![]))]))));
}

#[test]
fn location_lists_accept_plain_and_link_forms() {
    let range = object(vec![
        ("start", object(vec![("line", num(1)), ("character", num(2))])),
        ("end", object(vec![("line", num(1)), ("character", num(5))])),
    ]);
    let loc = object(vec![("uri", text("file:///a.rs")), ("range", range.copy())]);
    let link = object(vec![("targetUri", text("file:///b.rs")), ("targetRange", range.copy())]);
    let list = parse_location_list(&Json::Array(vec![loc.copy(), link, Json::Null]));
    assert_eq!(list.len(), 2);
    assert_eq!(list[0].uri, "file:///a.rs");
    assert_eq!(list[0].range.start.character, 2);
    assert_eq!(list[1].uri, "file:///b.rs");
    assert_eq!(parse_location_list(&loc).len(), 0);
    assert_eq!(parse_location_list(&Json::Null).len(), 0);
}

#[test]
fn client_error_messages() {
    assert_eq!(ClientError::Transport("broken pipe".to_string()).message(), "transport error: broken pipe");
    assert_eq!(ClientError::IndexTimeout.message(), "language server failed to become ready in time");
    assert_eq!(FileError::Io("boom".to_string()).message(), "file error: boom");
    assert_eq!(
        LspError::JsonRpc { code: -32601, message: "nope".to_string() }.message(),
        "JSON-RPC error (-32601): nope"
    );
}

#[test]
fn header_counts_utf8_bytes() {
    assert_eq!(content_length_header("{}"), "Content-Length: 2\r\n\r\n");
    assert_eq!(content_length_header("\u{e9}"), "Content-Length: 2\r\n\r\n");
}

#[test]
fn header_round_trip_reads_back_the_length() {
    let header = content_length_header("hello");
    let mut lines = header.split_inclusive("\r\n");
    let first = lines.next().unwrap();
    let len = match header_step(None, Some(first)) {
        HeaderStep::Continue(c) => c,
        _ => panic!("expected to continue"),
    };
    assert_eq!(len, Some(5));
    match header_step(len, Some("\r\n")) {
        HeaderStep::Body(n) => assert_eq!(n, 5),
        _ => panic!("expected the body"),
    }
}

#[test]
fn header_errors() {
    assert!(matches!(header_step(None, None), HeaderStep::Fail(LspError::ProcessExited)));
    match header_step(None, Some("\r\n")) {
        HeaderStep::Fail(e) => assert_eq!(e.message(), "transport error: missing Content-Length header"),
        _ => panic!("expected a failure"),
    }
    match header_step(None, Some("Content-Length: x\r\n")) {
        HeaderStep::Fail(e) => assert_eq!(e.message(), "transport error: invalid Content-Length: invalid digit found in string"),
        _ => panic!("expected a failure"),
    }
    match header_step(Some(MAX_BODY_BYTES + 1), Some("\r\n")) {
        HeaderStep::Fail(e) => assert!(e.message().contains("exceeds maximum")),
        _ => panic!("expected a failure"),
    }
    assert!(matches!(header_step(Some(3), Some("Content-Type: x\r\n")), HeaderStep::Continue(Some(3))));
}

#[test]
fn usize_parsing_matches_std() {
    assert_eq!(parse_usize("42").ok(), Some(42));
    assert_eq!(parse_usize("+7").ok(), Some(7));
    assert!(parse_usize("").is_err());
    assert!(parse_usize("-1").is_err());
    assert!(parse_usize("99999999999999999999999").is_err());
}

#[test]
fn requests_and_notifications_are_framed_as_json_rpc() {
    let r = request_message(7, "textDocument/hover", object(vec![]));
    assert_eq!(text_of(field(&r, "jsonrpc")), "2.0");
    assert_eq!(field(&r, "id").as_i64(), Some(7));
    assert_eq!(text_of(field(&r, "method")), "textDocument/hover");
    let n = notification_message("initialized", object(vec![]));
    assert!(n.get("id").is_none());
    assert_eq!(text_of(field(&n, "method")), "initialized");
}

#[test]
fn incoming_messages_are_routed() {
    let response = object(vec![("id", num(3)), ("result", text("ok"))]);
    assert_eq!(incoming_id(&response), Some(3));
    match incoming_action(&response, true) {
        IncomingAction::Deliver(Ok(v)) => assert_eq!(text_of(&v), "ok"),
        _ => panic!("expected delivery"),
    }
    assert!(matches!(incoming_action(&response, false), IncomingAction::Ignore));
    let failed = object(vec![("id", num(4)), ("error", object(vec![("code", Json::Number(JsonNumber::NegInt(-32600))), ("message", text("bad"))]))]);
    match incoming_action(&failed, true) {
        IncomingAction::Deliver(Err(e)) => assert_eq!(e.message(), "JSON-RPC error (-32600): bad"),
        _ => panic!("expected an error delivery"),
    }
    let server_request = object(vec![("id", num(9)), ("method", text("workspace/configuration"))]);
    match incoming_action(&server_request, false) {
        IncomingAction::Reply(reply) => {
            let err = field(&reply, "error");
            assert_eq!(field(err, "code").as_i64(), Some(-32601));
            assert_eq!(text_of(field(err, "message")), "unsupported server request: workspace/configuration");
        },
        _ => panic!("expected a reply"),
    }
    let note = object(vec![("method", text("textDocument/publishDiagnostics"))]);
    match incoming_action(&note, false) {
        IncomingAction::Notify(m, params) => {
            assert_eq!(m, "textDocument/publishDiagnostics");
            assert!(matches!(params, Json::Object(ref es) if es.is_empty()));
        },
        _ => panic!("expected a notification"),
    }
}

#[test]
fn mcp_messages_are_routed() {
    let init = object(vec![("jsonrpc", text("2.0")), ("id", num(1)), ("method", text("initialize"))]);
    assert!(matches!(route_message(&init), Route::Initialize(_)));
    let list = object(vec![("id", num(2)), ("method", text("tools/list"))]);
    assert!(matches!(route_message(&list), Route::ToolsList(_)));
    let call = object(vec![("id", num(3)), ("method", text("tools/call")), ("params", object(vec![("name", text("hover"))]))]);
    assert!(matches!(route_message(&call), Route::ToolsCall(_, Some(_))));
    let note = object(vec![("method", text("notifications/initialized"))]);
    assert!(matches!(route_message(&note), Route::Ignore));
    let unknown = object(vec![("id", num(4)), ("method", text("bogus"))]);
    match route_message(&unknown) {
        Route::Reply(r) => {
            let err = field(&r, "error");
            assert_eq!(field(err, "code").as_i64(), Some(METHOD_NOT_FOUND));
            assert_eq!(text_of(field(err, "message")), "unknown method: bogus");
            assert_eq!(field(&r, "id").as_u64(), Some(4));
        },
        _ => panic!("expected an error reply"),
    }
    let missing = object(vec![("id", num(5))]);
    match route_message(&missing) {
        Route::Reply(r) => assert_eq!(field(field(&r, "error"), "code").as_i64(), Some(INVALID_REQUEST)),
        _ => panic!("expected an error reply"),
    }
}

#[test]
fn initialize_reports_server_info() {
    let r = handle_initialize(&num(1), "0.1.0");
    let result = field(&r, "result");
    assert_eq!(text_of(field(result, "protocolVersion")), "2024-11-05");
    assert_eq!(text_of(field(field(result, "serverInfo"), "name")), "symtrace-mcp");
    assert_eq!(text_of(field(field(result, "serverInfo"), "version")), "0.1.0");
}

#[test]
fn catalog_lists_eight_tools() {
    let tools = tool_catalog();
    let names: Vec<&str> = tools.iter().map(|t| t.name.as_str()).collect();
    assert_eq!(
        names,
        vec![
            "find_references",
            "goto_definition",
            "find_implementations",
            "incoming_calls",
            "outgoing_calls",
            "hover",
            "diagnostics",
            "rename"
        ]
    );
}

#[test]
fn tool_calls_are_checked_and_answered() {
    let id = num(5);
    assert!(prepare_tool_call(&id, None).is_err());
    let params = object(vec![("name", text("hover")), ("arguments", object(vec![("file_path", text("/a.rs"))]))]);
    let call = prepare_tool_call(&id, Some(&params)).ok().unwrap();
    assert_eq!(call.name, "hover");
    assert_eq!(call.file_path, Some("/a.rs".to_string()));
    let (resp, ok, err) = unknown_tool_outcome(&id, "nope");
    assert!(!ok);
    assert_eq!(err, Some("unknown tool".to_string()));
    assert_eq!(text_of(field(field(&resp, "error"), "message")), "unknown tool: nope");
    let (resp, ok, err) = tool_call_outcome(&id, Err(ToolError::internal("boom".to_string())));
    assert!(!ok);
    assert_eq!(err, Some("boom".to_string()));
    assert_eq!(field(field(&resp, "error"), "code").as_i64(), Some(-32603));
    let (resp, ok, _) = tool_call_outcome(&id, Ok(text("done")));
    assert!(ok);
    assert_eq!(text_of(field(&resp, "result")), "done");
}

#[test]
fn responses_carry_the_id() {
    let ok = success_response(&num(8), Json::Null);
    assert_eq!(field(&ok, "id").as_u64(), Some(8));
    let err = error_response(Json::Null, -32700, "parse error");
    assert!(matches!(field(&err, "id"), Json::Null));
    assert_eq!(text_of(field(field(&err, "error"), "message")), "parse error");
    let e = ToolError::invalid_params("bad".to_string());
    assert_eq!(e.code, -32602);
}

#[test]
fn file_manager_plans_open_change_and_nothing() {
    let mut fm = FileManager::new();
    let t1 = FileStamp { secs: 100, nanos: 0 };
    let t2 = FileStamp { secs: 200, nanos: 5 };
    assert_eq!(fm.plan_open("file:///a.rs", t1), OpenAction::Open { version: 1 });
    fm.record("file:///a.rs".to_string(), 1, t1);
    assert!(fm.is_open("file:///a.rs"));
    assert_eq!(fm.plan_open("file:///a.rs", t1), OpenAction::Unchanged);
    assert_eq!(fm.plan_open("file:///a.rs", t2), OpenAction::Change { version: 2 });
    fm.record("file:///a.rs".to_string(), 2, t2);
    assert_eq!(fm.version_of("file:///a.rs"), Some(2));
    assert!(fm.close("file:///a.rs"));
    assert!(!fm.close("file:///a.rs"));
    assert_eq!(fm.plan_open("file:///a.rs", t2), OpenAction::Open { version: 1 });
}

#[test]
fn close_all_hands_back_every_open_file() {
    let mut fm = FileManager::new();
    let t = FileStamp { secs: 1, nanos: 0 };
    fm.record("file:///a.rs".to_string(), 1, t);
    fm.record("file:///b.rs".to_string(), 1, t);
    fm.record("file:///a.rs".to_string(), 2, t);
    let mut uris = fm.close_all();
    uris.sort();
    assert_eq!(uris, vec!["file:///a.rs".to_string(), "file:///b.rs".to_string()]);
    assert!(!fm.is_open("file:///a.rs"));
}

#[test]
fn timestamps_parse_to_epoch_seconds() {
    assert_eq!(ts_to_secs("1970-01-01 00:00:00"), Some(0));
    assert_eq!(ts_to_secs("2000-02-29 01:02:03"), Some(951782400 + 3723));
    assert_eq!(ts_to_secs("garbage"), None);
    assert_eq!(ts_to_secs("2024-1x-01 00:00:00"), None);
}

fn event(language: &str, event: &str, duration_ms: Option<i64>, timestamp: &str) -> ServerEventRow {
    ServerEventRow {
        language: language.to_string(),
        event: event.to_string(),
        duration_ms,
        timestamp: timestamp.to_string(),
    }
}

#[test]
fn server_usage_sums_startups_and_uptime() {
    let rows = vec![
        event("Rust", "started", Some(1000), "2024-01-01 00:00:00"),
        event("Rust", "stopped", None, "2024-01-01 01:00:00"),
        event("Rust", "started", Some(3000), "2024-01-01 02:00:00"),
        event("TypeScript", "startup_failed", Some(50), "2024-01-01 00:00:00"),
    ];
    let now = ts_to_secs("2024-01-01 02:30:00").unwrap();
    let usage = summarize_server_usage(&rows, now).unwrap();
    assert_eq!(usage.len(), 2);
    assert_eq!(usage[0].language, "Rust");
    assert_eq!(usage[0].startups, 2);
    assert_eq!(usage[0].avg_startup_ms, 2000);
    assert_eq!(usage[0].total_uptime_secs, 3600 + 1800);
    assert_eq!(usage[1].language, "TypeScript");
    assert_eq!(usage[1].startups, 0);
    assert_eq!(usage[1].avg_startup_ms, 0);
    assert_eq!(usage[1].total_uptime_secs, 0);
}

#[test]
fn report_lines() {
    assert_eq!(format_duration_secs(-5), "0s");
    assert_eq!(format_duration_secs(42), "42s");
    assert_eq!(format_duration_secs(125), "2m 5s");
    assert_eq!(format_duration_secs(7384), "2h 3m");
    let t = ToolUsage { tool: "hover".to_string(), calls: 3, avg_ms: 12, errors: 0 };
    assert_eq!(tool_usage_line(&t), format!("  {:<22} {:>3} calls  {:>5}ms avg  {:>2} errors", "hover", 3, 12, 0));
    let f = FileUsage { file_path: "/work/src/main.rs".to_string(), calls: 4 };
    assert_eq!(file_usage_line(&f, "/work"), format!("  {:<40} {:>3} calls", "src/main.rs", 4));
    assert_eq!(file_usage_line(&f, "/elsewhere"), format!("  {:<40} {:>3} calls", "/work/src/main.rs", 4));
    let u = ServerUsage { language: "Rust".to_string(), startups: 2, avg_startup_ms: 1500, total_uptime_secs: 90 };
    assert_eq!(
        server_usage_line(&u, "1.5s"),
        format!("  {:<10} started {:>2}\u{00d7}  avg startup {:>6}  uptime {} total", "Rust", 2, "1.5s", "1m 30s")
    );
}

#[test]
fn no_pull_diagnostics_capability() {
    let caps = symtrace_mcp::language::typescript::client_capabilities();
    let text_doc = caps.get("textDocument").unwrap();
    assert!(text_doc.get("diagnostic").is_none(), "TypeScript capabilities should not include pull diagnostics");
}

#[test]
fn rust_capabilities_ask_for_pull_diagnostics() {
    let caps = symtrace_mcp::language::rust::client_capabilities();
    let text_doc = field(&caps, "textDocument");
    assert_eq!(field(field(text_doc, "diagnostic"), "dynamicRegistration").as_bool(), Some(false));
    assert_eq!(field(field(text_doc, "definition"), "linkSupport").as_bool(), Some(true));
    assert_eq!(field(field(field(&caps, "workspace"), "workspaceEdit"), "documentChanges").as_bool(), Some(true));
}

#[test]
fn request_parameters() {
    let pos = Position { line: 3, character: 7 };
    let p = position_params("file:///a.rs", pos);
    assert_eq!(text_of(field(field(&p, "textDocument"), "uri")), "file:///a.rs");
    assert_eq!(field(field(&p, "position"), "character").as_u64(), Some(7));
    let r = references_params("file:///a.rs", pos);
    assert_eq!(field(field(&r, "context"), "includeDeclaration").as_bool(), Some(false));
    let n = rename_params("file:///a.rs", pos, "bar");
    assert_eq!(text_of(field(&n, "newName")), "bar");
    let o = did_open_params("file:///a.rs", "fn main() {}", 1, "rust");
    let doc = field(&o, "textDocument");
    assert_eq!(text_of(field(doc, "languageId")), "rust");
    assert_eq!(field(doc, "version").as_i64(), Some(1));
    assert_eq!(text_of(field(doc, "text")), "fn main() {}");
    let c = did_change_params("file:///a.rs", "x", 2);
    assert_eq!(field(field(&c, "textDocument"), "version").as_i64(), Some(2));
    match field(&c, "contentChanges") {
        Json::Array(items) => assert_eq!(text_of(field(&items[0], "text")), "x"),
        _ => panic!("expected an array"),
    }
    assert!(field(&document_params("file:///a.rs"), "textDocument").get("uri").is_some());
    assert_eq!(text_of(field(&symbol_query(""), "query")), "");
    let init = initialize_params(42, "file:///w", "/w", Json::Null);
    assert_eq!(field(&init, "processId").as_u64(), Some(42));
    assert_eq!(text_of(field(&init, "rootPath")), "/w");
}

#[test]
fn server_answers_and_capability_checks() {
    assert!(symbols_ready(&Json::Array(vec![Json::Null])));
    assert!(!symbols_ready(&Json::Array(vec![])));
    assert!(!symbols_ready(&Json::Null));
    assert!(require_provider(Some(&Json::Bool(true)), "hover").is_ok());
    match require_provider(None, "rename") {
        Err(ClientError::Protocol(m)) => assert_eq!(m, "language server does not support rename"),
        _ => panic!("expected a protocol error"),
    }
    let params = object(vec![("uri", text("file:///a.rs")), ("diagnostics", Json::Array(vec![]))]);
    assert_eq!(published_uri("textDocument/publishDiagnostics", &params), Some("file:///a.rs".to_string()));
    assert_eq!(published_uri("window/logMessage", &params), None);
    assert_eq!(index_poll(true, 99, 10), IndexPoll::Ready);
    assert_eq!(index_poll(false, 10, 10), IndexPoll::TimedOut);
    assert_eq!(index_poll(false, 9, 10), IndexPoll::Retry);
    let mut docs = OpenDocuments::new();
    docs.insert("file:///a.rs");
    docs.insert("file:///a.rs");
    docs.insert("file:///b.rs");
    assert!(docs.contains("file:///a.rs"));
    docs.remove("file:///a.rs");
    assert!(!docs.contains("file:///a.rs"));
    assert_eq!(docs.take_all(), vec!["file:///b.rs".to_string()]);
    assert!(!docs.contains("file:///b.rs"));
}

#[test]
fn server_usage_overflow_is_refused() {
    let rows = vec![
        event("Rust", "started", Some(i64::MAX), "2024-01-01 00:00:00"),
        event("Rust", "started", Some(1), "2024-01-01 00:00:01"),
    ];
    assert!(summarize_server_usage(&rows, 0).is_none());
    let fine = vec![event("Rust", "started", Some(5), "2024-01-01 00:00:00")];
    let now = ts_to_secs("2024-01-01 00:00:10").unwrap();
    let usage = summarize_server_usage(&fine, now).unwrap();
    assert_eq!(usage[0].total_uptime_secs, 10);
}

fn framed(body: &str) -> Vec<u8> {
    let mut bytes = content_length_header(body).into_bytes();
    bytes.extend_from_slice(body.as_bytes());
    bytes
}

#[test]
fn frames_read_back_what_was_written() {
    let body = "{\"jsonrpc\":\"2.0\",\"id\":1,\"result\":\"h\u{e9}\"}";
    let mut bytes = framed(body);
    let len = bytes.len();
    bytes.extend_from_slice(b"Content-Length: 2\r\n");
    match read_frame(&bytes, false) {
        FrameRead::Complete(b, consumed) => {
            assert_eq!(b, body);
            assert_eq!(consumed, len);
        },
        _ => panic!("expected a whole message"),
    }
    assert!(matches!(read_frame(&bytes[..len - 1], false), FrameRead::NeedMore(true)));
    assert!(matches!(read_frame(b"Content-Len", false), FrameRead::NeedMore(false)));
}

#[test]
fn frame_errors() {
    assert!(matches!(read_frame(b"", true), FrameRead::Fail(LspError::ProcessExited)));
    assert!(matches!(read_frame(b"Content-Length: 5\r\n", true), FrameRead::Fail(LspError::ProcessExited)));
    match read_frame(b"X-Other: 1\r\n\r\n", false) {
        FrameRead::Fail(e) => assert_eq!(e.message(), "transport error: missing Content-Length header"),
        _ => panic!("expected a failure"),
    }
    match read_frame(b"Content-Length: 99999999999\r\n\r\n", false) {
        FrameRead::Fail(e) => assert!(e.message().contains("exceeds maximum")),
        _ => panic!("expected a failure"),
    }
    match read_frame(b"Content-Length: 4\r\n\r\nab", true) {
        FrameRead::Fail(e) => assert_eq!(e.message(), "transport error: body read failed: early eof"),
        _ => panic!("expected a failure"),
    }
    match read_frame(b"Content-Length: 2\r\n\r\n\xff\xfe", false) {
        FrameRead::Fail(e) => assert!(e.message().starts_with("transport error: invalid UTF-8: ")),
        _ => panic!("expected a failure"),
    }
    match read_frame(b"Content-Length: 2\xff\r\n\r\n{}", false) {
        FrameRead::Fail(e) => assert!(e.message().starts_with("transport error: header read failed: ")),
        _ => panic!("expected a failure"),
    }
}

#[test]
fn written_timestamps_read_back() {
    assert_eq!(ts_to_secs("2000-01-01 00:00:00"), Some(946684800));
    assert_eq!(ts_to_secs("0999-12-31 23:59:59"), Some(-30610224001));
}
