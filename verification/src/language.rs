//! The client capabilities announced to each language server.
use vstd::prelude::*;
use crate::server::manager::Language;
use crate::json::{Json, JsonValue, json_array, json_object, json_text, lemma_view_empty, lemma_view_items, push_item, push_member, view_entries, view_items};

pub mod rust;
pub mod typescript;

verus! {

/// `{"dynamicRegistration": false}`.
pub open spec fn static_registration_value() -> JsonValue {
    JsonValue::Object(seq![("dynamicRegistration"@, JsonValue::Bool(false))])
}

/// The `textDocument` client capabilities; `pull_diagnostics` adds the `diagnostic` one.
pub open spec fn text_document_capabilities_value(pull_diagnostics: bool) -> JsonValue {
    let base = seq![
        ("hover"@, JsonValue::Object(seq![("contentFormat"@, JsonValue::Array(seq![JsonValue::Str("plaintext"@), JsonValue::Str("markdown"@)]))])),
        ("references"@, static_registration_value()),
        ("definition"@, JsonValue::Object(seq![("dynamicRegistration"@, JsonValue::Bool(false)), ("linkSupport"@, JsonValue::Bool(true))])),
        ("implementation"@, static_registration_value()),
        ("documentSymbol"@, static_registration_value()),
        ("rename"@, JsonValue::Object(seq![("dynamicRegistration"@, JsonValue::Bool(false)), ("prepareSupport"@, JsonValue::Bool(false))])),
    ];
    JsonValue::Object(if pull_diagnostics { base.push(("diagnostic"@, static_registration_value())) } else { base })
}

/// The `workspace` client capabilities.
pub open spec fn workspace_capabilities_value() -> JsonValue {
    JsonValue::Object(
        seq![
            ("symbol"@, static_registration_value()),
            ("workspaceEdit"@, JsonValue::Object(seq![("documentChanges"@, JsonValue::Bool(true))])),
        ],
    )
}

/// The client capabilities; `pull_diagnostics` says whether to ask for pull diagnostics.
pub open spec fn capabilities_value(pull_diagnostics: bool) -> JsonValue {
    JsonValue::Object(
        seq![
            ("textDocument"@, text_document_capabilities_value(pull_diagnostics)),
            ("workspace"@, workspace_capabilities_value()),
        ],
    )
}

fn static_registration() -> (r: Json)
    ensures
        r@ == static_registration_value(),
{
    proof {
        lemma_view_empty();
    }
    let mut es: Vec<(String, Json)> = Vec::new();
    push_member(&mut es, "dynamicRegistration", Json::Bool(false));
    assert(view_entries(es@) =~= seq![("dynamicRegistration"@, JsonValue::Bool(false))]);
    json_object(es)
}

fn two_flags(k1: &str, b1: bool, k2: &str, b2: bool) -> (r: Json)
    ensures
        r@ == JsonValue::Object(seq![(k1@, JsonValue::Bool(b1)), (k2@, JsonValue::Bool(b2))]),
{
    proof {
        lemma_view_empty();
    }
    let mut es: Vec<(String, Json)> = Vec::new();
    push_member(&mut es, k1, Json::Bool(b1));
    push_member(&mut es, k2, Json::Bool(b2));
    assert(view_entries(es@) =~= seq![(k1@, JsonValue::Bool(b1)), (k2@, JsonValue::Bool(b2))]);
    json_object(es)
}

fn hover_capability() -> (r: Json)
    ensures
        r@ == JsonValue::Object(seq![("contentFormat"@, JsonValue::Array(seq![JsonValue::Str("plaintext"@), JsonValue::Str("markdown"@)]))]),
{
    proof {
        lemma_view_empty();
    }
    let mut formats: Vec<Json> = Vec::new();
    push_item(&mut formats, json_text("plaintext"));
    push_item(&mut formats, json_text("markdown"));
    assert(view_items(formats@) =~= seq![JsonValue::Str("plaintext"@), JsonValue::Str("markdown"@)]);
    let ghost fv = view_items(formats@);
    let mut es: Vec<(String, Json)> = Vec::new();
    push_member(&mut es, "contentFormat", json_array(formats));
    assert(view_entries(es@) =~= seq![("contentFormat"@, JsonValue::Array(fv))]);
    json_object(es)
}

/// The client capabilities; `pull_diagnostics` says whether to ask for pull diagnostics.
pub fn capabilities_with(pull_diagnostics: bool) -> (r: Json)
    ensures
        r@ == capabilities_value(pull_diagnostics),
{
    proof {
        lemma_view_empty();
    }
    let mut td: Vec<(String, Json)> = Vec::new();
    push_member(&mut td, "hover", hover_capability());
    push_member(&mut td, "references", static_registration());
    push_member(&mut td, "definition", two_flags("dynamicRegistration", false, "linkSupport", true));
    push_member(&mut td, "implementation", static_registration());
    push_member(&mut td, "documentSymbol", static_registration());
    push_member(&mut td, "rename", two_flags("dynamicRegistration", false, "prepareSupport", false));
    if pull_diagnostics {
        push_member(&mut td, "diagnostic", static_registration());
    }
    let ghost tdv = view_entries(td@);
    let mut ws: Vec<(String, Json)> = Vec::new();
    push_member(&mut ws, "symbol", static_registration());
    let mut edit: Vec<(String, Json)> = Vec::new();
    push_member(&mut edit, "documentChanges", Json::Bool(true));
    assert(view_entries(edit@) =~= seq![("documentChanges"@, JsonValue::Bool(true))]);
    push_member(&mut ws, "workspaceEdit", json_object(edit));
    let ghost wsv = view_entries(ws@);
    let mut caps: Vec<(String, Json)> = Vec::new();
    push_member(&mut caps, "textDocument", json_object(td));
    push_member(&mut caps, "workspace", json_object(ws));
    assert(JsonValue::Object(tdv) == text_document_capabilities_value(pull_diagnostics)) by {
        let base = seq![
            ("hover"@, JsonValue::Object(seq![("contentFormat"@, JsonValue::Array(seq![JsonValue::Str("plaintext"@), JsonValue::Str("markdown"@)]))])),
            ("references"@, static_registration_value()),
            ("definition"@, JsonValue::Object(seq![("dynamicRegistration"@, JsonValue::Bool(false)), ("linkSupport"@, JsonValue::Bool(true))])),
            ("implementation"@, static_registration_value()),
            ("documentSymbol"@, static_registration_value()),
            ("rename"@, JsonValue::Object(seq![("dynamicRegistration"@, JsonValue::Bool(false)), ("prepareSupport"@, JsonValue::Bool(false))])),
        ];
        if pull_diagnostics {
            assert(tdv =~= base.push(("diagnostic"@, static_registration_value())));
        } else {
            assert(tdv =~= base);
        }
    }
    assert(wsv =~= seq![
        ("symbol"@, static_registration_value()),
        ("workspaceEdit"@, JsonValue::Object(seq![("documentChanges"@, JsonValue::Bool(true))])),
    ]);
    assert(view_entries(caps@) =~= seq![
        ("textDocument"@, text_document_capabilities_value(pull_diagnostics)),
        ("workspace"@, workspace_capabilities_value()),
    ]);
    json_object(caps)
}

/// The capabilities announced to the server of `language`: rust-analyzer is asked for
/// pull diagnostics, typescript-language-server (which publishes them) is not.
pub fn capabilities_for(language: Language) -> (r: Json)
    ensures
        r@ == capabilities_value(language == Language::Rust),
{
    match language {
        Language::Rust => rust::client_capabilities(),
        Language::TypeScript => typescript::client_capabilities(),
    }
}

} // verus!
