//! MCP request dispatch decisions.
use vstd::prelude::*;
use vstd::string::StringExecFns;
use crate::json::{
    Json, JsonValue, NumberValue, json_array, json_object, json_text, json_uint, lemma_view_empty, push_item,
    push_member, view_entries, view_items,
};
use crate::mcp::protocol::{
    error_response, error_response_value, success_response, success_response_value, INTERNAL_ERROR, INVALID_PARAMS,
    INVALID_REQUEST, METHOD_NOT_FOUND,
};
use crate::text::str_eq;
use crate::mcp::handlers::{
    call_hierarchy_schema_value, diagnostics_schema, diagnostics_schema_value, find_implementations_schema,
    find_references_schema, goto_definition_schema, hover_schema, incoming_calls_schema, outgoing_calls_schema,
    query_schema_value, rename_schema, rename_schema_value,
};

verus! {

/// Error returned by tool handlers, carrying an MCP error code.
pub struct ToolError {
    pub code: i64,
    pub message: String,
}

impl ToolError {
    /// An "invalid params" error (`-32602`).
    pub fn invalid_params(msg: String) -> (r: Self)
        ensures
            r.code == INVALID_PARAMS,
            r.message == msg,
    {
        ToolError { code: INVALID_PARAMS, message: msg }
    }

    /// An "internal error" error (`-32603`).
    pub fn internal(msg: String) -> (r: Self)
        ensures
            r.code == INTERNAL_ERROR,
            r.message == msg,
    {
        ToolError { code: INTERNAL_ERROR, message: msg }
    }
}


/// What the server does with one incoming MCP message.
pub enum Route {
    /// Write this response.
    Reply(Json),
    /// Answer `initialize` for this id.
    Initialize(Json),
    /// Answer `tools/list` for this id.
    ToolsList(Json),
    /// Run `tools/call` for this id with these params.
    ToolsCall(Json, Option<Json>),
    /// Nothing to answer.
    Ignore,
}

pub enum RouteView {
    Reply(JsonValue),
    Initialize(JsonValue),
    ToolsList(JsonValue),
    ToolsCall(JsonValue, Option<JsonValue>),
    Ignore,
}

pub open spec fn route_view(r: Route) -> RouteView {
    match r {
        Route::Reply(j) => RouteView::Reply(j@),
        Route::Initialize(id) => RouteView::Initialize(id@),
        Route::ToolsList(id) => RouteView::ToolsList(id@),
        Route::ToolsCall(id, p) => RouteView::ToolsCall(id@, match p { Some(p) => Some(p@), None => None }),
        Route::Ignore => RouteView::Ignore,
    }
}

/// How a message is routed. A message without `id` is a notification and is never
/// answered; requests get `initialize`, `tools/list` and `tools/call` handled, a missing
/// method is an invalid request and other methods are unknown.
pub open spec fn route_spec(msg: JsonValue) -> RouteView {
    let is_notification = msg.field("id"@) is None;
    let id = match msg.field("id"@) {
        Some(v) => v,
        None => JsonValue::Null,
    };
    match msg.str_field("method"@) {
        None => if is_notification {
            RouteView::Ignore
        } else {
            RouteView::Reply(error_response_value(id, INVALID_REQUEST as int, "missing method field"@))
        },
        Some(m) => if is_notification {
            RouteView::Ignore
        } else if m == "initialize"@ {
            RouteView::Initialize(id)
        } else if m == "notifications/initialized"@ {
            RouteView::Ignore
        } else if m == "tools/list"@ {
            RouteView::ToolsList(id)
        } else if m == "tools/call"@ {
            RouteView::ToolsCall(id, msg.field("params"@))
        } else {
            RouteView::Reply(error_response_value(id, METHOD_NOT_FOUND as int, "unknown method: "@ + m))
        },
    }
}

/// Decides how to handle one incoming MCP message.
pub fn route_message(message: &Json) -> (r: Route)
    ensures
        route_view(r) == route_spec(message@),
{
    let id_opt = message.get("id");
    let is_notification = id_opt.is_none();
    let id = match id_opt {
        Some(v) => v.copy(),
        None => Json::Null,
    };
    let method = match message.str_field("method") {
        Some(m) => m,
        None => {
            if !is_notification {
                return Route::Reply(error_response(id, INVALID_REQUEST, "missing method field"));
            }
            return Route::Ignore;
        },
    };
    if is_notification {
        return Route::Ignore;
    }
    if str_eq(method.as_str(), "initialize") {
        Route::Initialize(id)
    } else if str_eq(method.as_str(), "notifications/initialized") {
        Route::Ignore
    } else if str_eq(method.as_str(), "tools/list") {
        Route::ToolsList(id)
    } else if str_eq(method.as_str(), "tools/call") {
        let params = match message.get("params") {
            Some(p) => Some(p.copy()),
            None => None,
        };
        Route::ToolsCall(id, params)
    } else {
        let text = String::from_str("unknown method: ").concat(method.as_str());
        Route::Reply(error_response(id, METHOD_NOT_FOUND, text.as_str()))
    }
}

/// The result of `initialize`.
pub open spec fn initialize_result_value(version: Seq<char>) -> JsonValue {
    JsonValue::Object(
        seq![
            ("protocolVersion"@, JsonValue::Str("2024-11-05"@)),
            ("capabilities"@, JsonValue::Object(seq![("tools"@, JsonValue::Object(Seq::empty()))])),
            ("serverInfo"@, JsonValue::Object(seq![("name"@, JsonValue::Str("symtrace-mcp"@)), ("version"@, JsonValue::Str(version))])),
        ],
    )
}

/// The response to `initialize`; `version` is the server's version.
pub fn handle_initialize(id: &Json, version: &str) -> (r: Json)
    ensures
        r@ == success_response_value(id@, initialize_result_value(version@)),
{
    proof {
        lemma_view_empty();
    }
    let mut tools: Vec<(String, Json)> = Vec::new();
    push_member(&mut tools, "tools", json_object(Vec::new()));
    let mut info: Vec<(String, Json)> = Vec::new();
    push_member(&mut info, "name", json_text("symtrace-mcp"));
    push_member(&mut info, "version", json_text(version));
    let mut es: Vec<(String, Json)> = Vec::new();
    push_member(&mut es, "protocolVersion", json_text("2024-11-05"));
    let ghost tv = view_entries(tools@);
    push_member(&mut es, "capabilities", json_object(tools));
    let ghost iv = view_entries(info@);
    push_member(&mut es, "serverInfo", json_object(info));
    assert(tv =~= seq![("tools"@, JsonValue::Object(Seq::empty()))]);
    assert(iv =~= seq![("name"@, JsonValue::Str("symtrace-mcp"@)), ("version"@, JsonValue::Str(version@))]);
    assert(view_entries(es@) =~= seq![
        ("protocolVersion"@, JsonValue::Str("2024-11-05"@)),
        ("capabilities"@, JsonValue::Object(seq![("tools"@, JsonValue::Object(Seq::empty()))])),
        ("serverInfo"@, JsonValue::Object(seq![("name"@, JsonValue::Str("symtrace-mcp"@)), ("version"@, JsonValue::Str(version@))])),
    ]);
    success_response(id, json_object(es))
}

/// A tool offered by the server.
pub struct ToolSpec {
    pub name: String,
    pub description: String,
    pub input_schema: Json,
}

/// One tool as `tools/list` lists it.
pub open spec fn tool_entry_value(t: ToolSpec) -> JsonValue {
    JsonValue::Object(
        seq![
            ("name"@, JsonValue::Str(t.name@)),
            ("description"@, JsonValue::Str(t.description@)),
            ("inputSchema"@, t.input_schema@),
        ],
    )
}

/// The response to `tools/list`.
pub open spec fn tools_list_value(id: JsonValue, tools: Seq<ToolSpec>) -> JsonValue {
    success_response_value(
        id,
        JsonValue::Object(seq![("tools"@, JsonValue::Array(Seq::new(tools.len(), |i: int| tool_entry_value(tools[i]))))]),
    )
}

/// The response to `tools/list`.
pub fn handle_tools_list(id: &Json, tools: &Vec<ToolSpec>) -> (r: Json)
    ensures
        r@ == tools_list_value(id@, tools@),
{
    proof {
        lemma_view_empty();
    }
    let mut items: Vec<Json> = Vec::new();
    let mut i: usize = 0;
    while i < tools.len()
        invariant
            i <= tools@.len(),
            view_items(items@) =~= Seq::new(i as nat, |k: int| tool_entry_value(tools@[k])),
        decreases tools@.len() - i,
    {
        let t = &tools[i];
        let mut es: Vec<(String, Json)> = Vec::new();
        push_member(&mut es, "name", Json::String(t.name.clone()));
        push_member(&mut es, "description", Json::String(t.description.clone()));
        push_member(&mut es, "inputSchema", t.input_schema.copy());
        assert(view_entries(es@) =~= seq![
            ("name"@, JsonValue::Str(t.name@)),
            ("description"@, JsonValue::Str(t.description@)),
            ("inputSchema"@, t.input_schema@),
        ]);
        push_item(&mut items, json_object(es));
        i = i + 1;
    }
    let ghost arr = view_items(items@);
    let mut outer: Vec<(String, Json)> = Vec::new();
    push_member(&mut outer, "tools", json_array(items));
    assert(view_entries(outer@) =~= seq![("tools"@, JsonValue::Array(arr))]);
    success_response(id, json_object(outer))
}

/// A `tools/call` request, checked: the tool's name, its arguments (default `{}`) and
/// the `file_path` argument when there is a string one (for the usage statistics).
pub struct ToolCall {
    pub name: String,
    pub arguments: Json,
    pub file_path: Option<String>,
}

/// What checking `tools/call` params gives: the call, or the error response.
pub open spec fn tool_call_spec(id: JsonValue, params: Option<JsonValue>) -> Result<(Seq<char>, JsonValue, Option<Seq<char>>), JsonValue> {
    match params {
        None => Err(error_response_value(id, INVALID_REQUEST as int, "missing params"@)),
        Some(p) => match p.str_field("name"@) {
            None => Err(error_response_value(id, INVALID_REQUEST as int, "missing or invalid tools/call.params.name"@)),
            Some(name) => Ok(
                (
                    name,
                    match p.field("arguments"@) {
                        Some(a) => a,
                        None => JsonValue::Object(Seq::empty()),
                    },
                    match p.field("arguments"@) {
                        Some(a) => a.str_field("file_path"@),
                        None => None,
                    },
                ),
            ),
        },
    }
}

/// Checks the params of a `tools/call` request.
pub fn prepare_tool_call(id: &Json, params: Option<&Json>) -> (r: Result<ToolCall, Json>)
    ensures
        match r {
            Ok(c) => tool_call_spec(id@, match params { Some(p) => Some(p@), None => None })
                == Ok::<(Seq<char>, JsonValue, Option<Seq<char>>), JsonValue>(
                (c.name@, c.arguments@, match c.file_path { Some(f) => Some(f@), None => None }),
            ),
            Err(e) => tool_call_spec(id@, match params { Some(p) => Some(p@), None => None })
                == Err::<(Seq<char>, JsonValue, Option<Seq<char>>), JsonValue>(e@),
        },
{
    let p = match params {
        Some(p) => p,
        None => return Err(error_response(id.copy(), INVALID_REQUEST, "missing params")),
    };
    let name = match p.str_field("name") {
        Some(n) => n.clone(),
        None => return Err(error_response(id.copy(), INVALID_REQUEST, "missing or invalid tools/call.params.name")),
    };
    proof {
        lemma_view_empty();
    }
    let (arguments, file_path) = match p.get("arguments") {
        Some(a) => (a.copy(), match a.str_field("file_path") {
            Some(f) => Some(f.clone()),
            None => None,
        }),
        None => (Json::Object(Vec::new()), None),
    };
    Ok(ToolCall { name, arguments, file_path })
}

/// The response to a call of a tool the server does not offer, with what the usage
/// statistics record for it: failure, with the error `unknown tool`.
pub fn unknown_tool_outcome(id: &Json, name: &str) -> (r: (Json, bool, Option<String>))
    ensures
        r.0@ == error_response_value(id@, INVALID_PARAMS as int, "unknown tool: "@ + name@),
        !r.1,
        r.2 matches Some(m) && m@ == "unknown tool"@,
{
    let text = String::from_str("unknown tool: ").concat(name);
    (error_response(id.copy(), INVALID_PARAMS, text.as_str()), false, Some(String::from_str("unknown tool")))
}

/// The response to a tool call given the handler's result, with what the usage
/// statistics record: success, or failure with the error message.
pub fn tool_call_outcome(id: &Json, result: Result<Json, ToolError>) -> (r: (Json, bool, Option<String>))
    ensures
        match result {
            Ok(v) => r.0@ == success_response_value(id@, v@) && r.1 && r.2 is None,
            Err(e) => r.0@ == error_response_value(id@, e.code as int, e.message@) && !r.1 && r.2 == Some(e.message),
        },
{
    match result {
        Ok(v) => (success_response(id, v), true, None),
        Err(e) => {
            let response = error_response(id.copy(), e.code, e.message.as_str());
            (response, false, Some(e.message))
        },
    }
}


/// The tools the server offers, in order: name, description and input schema.
pub open spec fn catalog_entry(i: int) -> (Seq<char>, Seq<char>, JsonValue) {
    if i == 0 {
        ("find_references"@, "Find all references to the symbol at the given position."@, query_schema_value())
    } else if i == 1 {
        ("goto_definition"@, "Go to the definition of the symbol at the given position."@, query_schema_value())
    } else if i == 2 {
        ("find_implementations"@, "Find implementations of the trait or type at the given position."@, query_schema_value())
    } else if i == 3 {
        ("incoming_calls"@, "Find callers (incoming calls) of the function or method at the given position."@, call_hierarchy_schema_value())
    } else if i == 4 {
        ("outgoing_calls"@, "Find callees (outgoing calls) from the function or method at the given position."@, call_hierarchy_schema_value())
    } else if i == 5 {
        ("hover"@, "Show type information, documentation, and signature for the symbol at the given position."@, query_schema_value())
    } else if i == 6 {
        ("diagnostics"@, "Report the errors and warnings the language server has for the given file."@, diagnostics_schema_value())
    } else {
        ("rename"@, "Rename the symbol at the given position across the project."@, rename_schema_value())
    }
}

fn push_tool(tools: &mut Vec<ToolSpec>, name: &str, description: &str, input_schema: Json)
    ensures
        final(tools)@.len() == old(tools)@.len() + 1,
        forall|k: int| 0 <= k < old(tools)@.len() ==> final(tools)@[k] == old(tools)@[k],
        final(tools)@.last().name@ == name@,
        final(tools)@.last().description@ == description@,
        final(tools)@.last().input_schema@ == input_schema@,
{
    tools.push(ToolSpec { name: String::from_str(name), description: String::from_str(description), input_schema });
}

/// The tools the server offers.
pub fn tool_catalog() -> (r: Vec<ToolSpec>)
    ensures
        r@.len() == 8,
        forall|i: int| 0 <= i < 8 ==> {
            let (n, d, sch) = #[trigger] catalog_entry(i);
            &&& r@[i].name@ == n
            &&& r@[i].description@ == d
            &&& r@[i].input_schema@ == sch
        },
{
    let mut t: Vec<ToolSpec> = Vec::new();
    push_tool(&mut t, "find_references", "Find all references to the symbol at the given position.", find_references_schema());
    push_tool(&mut t, "goto_definition", "Go to the definition of the symbol at the given position.", goto_definition_schema());
    push_tool(&mut t, "find_implementations", "Find implementations of the trait or type at the given position.", find_implementations_schema());
    push_tool(&mut t, "incoming_calls", "Find callers (incoming calls) of the function or method at the given position.", incoming_calls_schema());
    push_tool(&mut t, "outgoing_calls", "Find callees (outgoing calls) from the function or method at the given position.", outgoing_calls_schema());
    push_tool(&mut t, "hover", "Show type information, documentation, and signature for the symbol at the given position.", hover_schema());
    push_tool(&mut t, "diagnostics", "Report the errors and warnings the language server has for the given file.", diagnostics_schema());
    push_tool(&mut t, "rename", "Rename the symbol at the given position across the project.", rename_schema());
    t
}

/// A notification (a message without `id`) is never answered.
pub proof fn law_notifications_are_not_answered(msg: JsonValue)
    requires
        msg.field("id"@) is None,
    ensures
        route_spec(msg) == RouteView::Ignore,
{
}

/// Every response the server writes for a request carries the request's `id`: error
/// replies of the router, and the responses to `initialize`, `tools/list` and `tools/call`.
pub proof fn law_responses_carry_the_request_id(msg: JsonValue, result: JsonValue, code: int, message: Seq<char>)
    requires
        msg.field("id"@) is Some,
    ensures
        route_spec(msg) matches RouteView::Reply(r) ==> r.field("id"@) == msg.field("id"@),
        route_spec(msg) matches RouteView::Initialize(id) ==> Some(id) == msg.field("id"@),
        route_spec(msg) matches RouteView::ToolsList(id) ==> Some(id) == msg.field("id"@),
        route_spec(msg) matches RouteView::ToolsCall(id, _) ==> Some(id) == msg.field("id"@),
        success_response_value(msg.field("id"@).unwrap(), result).field("id"@) == msg.field("id"@),
        error_response_value(msg.field("id"@).unwrap(), code, message).field("id"@) == msg.field("id"@),
{
    reveal_strlit("id");
    reveal_strlit("jsonrpc");
    let id = msg.field("id"@).unwrap();
    assert("jsonrpc"@.len() == 7 && "id"@.len() == 2);
    assert("jsonrpc"@ != "id"@);
    let sv = seq![("jsonrpc"@, JsonValue::Str("2.0"@)), ("id"@, id), ("result"@, result)];
    assert(sv[0].0 != "id"@);
    assert(sv.drop_first()[0].0 == "id"@);
    assert(crate::json::lookup(sv, "id"@) == crate::json::lookup(sv.drop_first(), "id"@));
    let ev = |c: int, m: Seq<char>| seq![
        ("jsonrpc"@, JsonValue::Str("2.0"@)),
        ("id"@, id),
        ("error"@, JsonValue::Object(seq![("code"@, JsonValue::Number(crate::json::int_number(c))), ("message"@, JsonValue::Str(m))])),
    ];
    assert forall|c: int, m: Seq<char>| #[trigger] crate::json::lookup(ev(c, m), "id"@) == Some(id) by {
        let e = ev(c, m);
        assert(e[0].0 != "id"@);
        assert(e.drop_first()[0].0 == "id"@);
        assert(crate::json::lookup(e, "id"@) == crate::json::lookup(e.drop_first(), "id"@));
    }
    assert(crate::json::lookup(ev(code, message), "id"@) == Some(id));
    assert(crate::json::lookup(ev(INVALID_REQUEST as int, "missing method field"@), "id"@) == Some(id));
    match msg.str_field("method"@) {
        Some(m) => {
            assert(crate::json::lookup(ev(METHOD_NOT_FOUND as int, "unknown method: "@ + m), "id"@) == Some(id));
        },
        None => {},
    }
}

} // verus!
