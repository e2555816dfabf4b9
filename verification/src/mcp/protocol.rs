//! JSON-RPC 2.0 messages of the MCP stdio protocol.
use vstd::prelude::*;
use crate::json::{view_entries, Json, JsonValue, NumberValue, int_number, json_int, json_object, json_text, push_member};

verus! {

// --- Standard JSON-RPC error codes ---
pub const PARSE_ERROR: i64 = -32700;
pub const INVALID_REQUEST: i64 = -32600;
pub const METHOD_NOT_FOUND: i64 = -32601;
pub const INVALID_PARAMS: i64 = -32602;
pub const INTERNAL_ERROR: i64 = -32603;

/// A JSON-RPC success response.
pub open spec fn success_response_value(id: JsonValue, result: JsonValue) -> JsonValue {
    JsonValue::Object(seq![("jsonrpc"@, JsonValue::Str("2.0"@)), ("id"@, id), ("result"@, result)])
}

/// A JSON-RPC error response.
pub open spec fn error_response_value(id: JsonValue, code: int, message: Seq<char>) -> JsonValue {
    JsonValue::Object(
        seq![
            ("jsonrpc"@, JsonValue::Str("2.0"@)),
            ("id"@, id),
            ("error"@, JsonValue::Object(seq![("code"@, JsonValue::Number(int_number(code))), ("message"@, JsonValue::Str(message))])),
        ],
    )
}

/// Builds a JSON-RPC success response.
pub fn success_response(id: &Json, result: Json) -> (r: Json)
    ensures
        r@ == success_response_value(id@, result@),
{
    let mut es: Vec<(String, Json)> = Vec::new();
    proof { crate::json::lemma_view_empty(); }
    push_member(&mut es, "jsonrpc", json_text("2.0"));
    push_member(&mut es, "id", id.copy());
    push_member(&mut es, "result", result);
    assert(view_entries(es@) =~= seq![("jsonrpc"@, JsonValue::Str("2.0"@)), ("id"@, id@), ("result"@, result@)]);
    let r = json_object(es);
    r
}

/// Builds a JSON-RPC error response.
pub fn error_response(id: Json, code: i64, message: &str) -> (r: Json)
    ensures
        r@ == error_response_value(id@, code as int, message@),
{
    let mut err: Vec<(String, Json)> = Vec::new();
    proof { crate::json::lemma_view_empty(); }
    push_member(&mut err, "code", json_int(code));
    push_member(&mut err, "message", json_text(message));
    assert(view_entries(err@) =~= seq![("code"@, JsonValue::Number(int_number(code as int))), ("message"@, JsonValue::Str(message@))]);
    let mut es: Vec<(String, Json)> = Vec::new();
    proof { crate::json::lemma_view_empty(); }
    push_member(&mut es, "jsonrpc", json_text("2.0"));
    push_member(&mut es, "id", id);
    let ghost idv = id@;
    push_member(&mut es, "error", json_object(err));
    assert(view_entries(es@) =~= seq![
        ("jsonrpc"@, JsonValue::Str("2.0"@)),
        ("id"@, idv),
        ("error"@, JsonValue::Object(seq![("code"@, JsonValue::Number(int_number(code as int))), ("message"@, JsonValue::Str(message@))])),
    ]);
    let r = json_object(es);
    r
}

} // verus!
