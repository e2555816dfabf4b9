//! The parameters the client sends to a language server, and what it reads back from
//! the simplest answers.
use vstd::prelude::*;
use vstd::string::StringExecFns;
use crate::json::{Json, JsonValue, NumberValue, int_number, json_int, json_object, json_text, json_uint, lemma_view_empty, push_member, view_entries, view_items, lemma_view_items};
use crate::lsp::client::{ClientError, provider_enabled, provider_enabled_spec};
use crate::lsp::types::Position;
use crate::mcp::handlers::{position_json, position_value};

verus! {

/// `{"uri": uri}`.
pub open spec fn document_id_value(uri: Seq<char>) -> JsonValue {
    JsonValue::Object(seq![("uri"@, JsonValue::Str(uri))])
}

/// `{"textDocument": {"uri": uri}}`: the parameters of requests about a whole document.
pub open spec fn document_params_value(uri: Seq<char>) -> JsonValue {
    JsonValue::Object(seq![("textDocument"@, document_id_value(uri))])
}

/// `{"textDocument": {"uri": uri}, "position": position}`.
pub open spec fn position_params_value(uri: Seq<char>, p: Position) -> JsonValue {
    JsonValue::Object(seq![("textDocument"@, document_id_value(uri)), ("position"@, position_value(p))])
}

/// The parameters of `textDocument/references`: declarations are left out.
pub open spec fn references_params_value(uri: Seq<char>, p: Position) -> JsonValue {
    JsonValue::Object(
        seq![
            ("textDocument"@, document_id_value(uri)),
            ("position"@, position_value(p)),
            ("context"@, JsonValue::Object(seq![("includeDeclaration"@, JsonValue::Bool(false))])),
        ],
    )
}

/// The parameters of `textDocument/rename`.
pub open spec fn rename_params_value(uri: Seq<char>, p: Position, new_name: Seq<char>) -> JsonValue {
    JsonValue::Object(
        seq![
            ("textDocument"@, document_id_value(uri)),
            ("position"@, position_value(p)),
            ("newName"@, JsonValue::Str(new_name)),
        ],
    )
}

/// The parameters of `textDocument/didOpen`.
pub open spec fn did_open_params_value(uri: Seq<char>, text: Seq<char>, version: i32, language_id: Seq<char>) -> JsonValue {
    JsonValue::Object(
        seq![
            ("textDocument"@, JsonValue::Object(
                seq![
                    ("uri"@, JsonValue::Str(uri)),
                    ("languageId"@, JsonValue::Str(language_id)),
                    ("version"@, JsonValue::Number(int_number(version as int))),
                    ("text"@, JsonValue::Str(text)),
                ],
            )),
        ],
    )
}

/// The parameters of `textDocument/didChange`: the whole new text as one change.
pub open spec fn did_change_params_value(uri: Seq<char>, text: Seq<char>, version: i32) -> JsonValue {
    JsonValue::Object(
        seq![
            ("textDocument"@, JsonValue::Object(
                seq![("uri"@, JsonValue::Str(uri)), ("version"@, JsonValue::Number(int_number(version as int)))],
            )),
            ("contentChanges"@, JsonValue::Array(seq![JsonValue::Object(seq![("text"@, JsonValue::Str(text))])])),
        ],
    )
}

/// The parameters of `workspace/symbol`.
pub open spec fn symbol_query_value(query: Seq<char>) -> JsonValue {
    JsonValue::Object(seq![("query"@, JsonValue::Str(query))])
}

/// The parameters of `callHierarchy/incomingCalls` and `outgoingCalls`: the prepared item.
pub open spec fn call_item_params_value(item: JsonValue) -> JsonValue {
    JsonValue::Object(seq![("item"@, item)])
}

/// The parameters of `initialize`.
pub open spec fn initialize_params_value(process_id: u32, root_uri: Seq<char>, root_path: Seq<char>, caps: JsonValue) -> JsonValue {
    JsonValue::Object(
        seq![
            ("processId"@, JsonValue::Number(NumberValue::PosInt(process_id as nat))),
            ("rootUri"@, JsonValue::Str(root_uri)),
            ("rootPath"@, JsonValue::Str(root_path)),
            ("capabilities"@, caps),
        ],
    )
}

fn document_id(uri: &str) -> (r: Json)
    ensures
        r@ == document_id_value(uri@),
{
    proof {
        lemma_view_empty();
    }
    let mut es: Vec<(String, Json)> = Vec::new();
    push_member(&mut es, "uri", json_text(uri));
    assert(view_entries(es@) =~= seq![("uri"@, JsonValue::Str(uri@))]);
    json_object(es)
}

/// `{"textDocument": {"uri": uri}}`.
pub fn document_params(uri: &str) -> (r: Json)
    ensures
        r@ == document_params_value(uri@),
{
    proof {
        lemma_view_empty();
    }
    let mut es: Vec<(String, Json)> = Vec::new();
    push_member(&mut es, "textDocument", document_id(uri));
    assert(view_entries(es@) =~= seq![("textDocument"@, document_id_value(uri@))]);
    json_object(es)
}

/// The parameters of a request about a position in a document.
pub fn position_params(uri: &str, p: Position) -> (r: Json)
    ensures
        r@ == position_params_value(uri@, p),
{
    proof {
        lemma_view_empty();
    }
    let mut es: Vec<(String, Json)> = Vec::new();
    push_member(&mut es, "textDocument", document_id(uri));
    push_member(&mut es, "position", position_json(p));
    assert(view_entries(es@) =~= seq![("textDocument"@, document_id_value(uri@)), ("position"@, position_value(p))]);
    json_object(es)
}

/// The parameters of `textDocument/references`.
pub fn references_params(uri: &str, p: Position) -> (r: Json)
    ensures
        r@ == references_params_value(uri@, p),
{
    proof {
        lemma_view_empty();
    }
    let mut ctx: Vec<(String, Json)> = Vec::new();
    push_member(&mut ctx, "includeDeclaration", Json::Bool(false));
    let ghost cv = view_entries(ctx@);
    let mut es: Vec<(String, Json)> = Vec::new();
    push_member(&mut es, "textDocument", document_id(uri));
    push_member(&mut es, "position", position_json(p));
    push_member(&mut es, "context", json_object(ctx));
    assert(cv =~= seq![("includeDeclaration"@, JsonValue::Bool(false))]);
    assert(view_entries(es@) =~= seq![
        ("textDocument"@, document_id_value(uri@)),
        ("position"@, position_value(p)),
        ("context"@, JsonValue::Object(seq![("includeDeclaration"@, JsonValue::Bool(false))])),
    ]);
    json_object(es)
}

/// The parameters of `textDocument/rename`.
pub fn rename_params(uri: &str, p: Position, new_name: &str) -> (r: Json)
    ensures
        r@ == rename_params_value(uri@, p, new_name@),
{
    proof {
        lemma_view_empty();
    }
    let mut es: Vec<(String, Json)> = Vec::new();
    push_member(&mut es, "textDocument", document_id(uri));
    push_member(&mut es, "position", position_json(p));
    push_member(&mut es, "newName", json_text(new_name));
    assert(view_entries(es@) =~= seq![
        ("textDocument"@, document_id_value(uri@)),
        ("position"@, position_value(p)),
        ("newName"@, JsonValue::Str(new_name@)),
    ]);
    json_object(es)
}

/// The parameters of `textDocument/didOpen`.
pub fn did_open_params(uri: &str, text: &str, version: i32, language_id: &str) -> (r: Json)
    ensures
        r@ == did_open_params_value(uri@, text@, version, language_id@),
{
    proof {
        lemma_view_empty();
    }
    let mut doc: Vec<(String, Json)> = Vec::new();
    push_member(&mut doc, "uri", json_text(uri));
    push_member(&mut doc, "languageId", json_text(language_id));
    push_member(&mut doc, "version", json_int(version as i64));
    push_member(&mut doc, "text", json_text(text));
    let ghost dv = view_entries(doc@);
    let mut es: Vec<(String, Json)> = Vec::new();
    push_member(&mut es, "textDocument", json_object(doc));
    assert(dv =~= seq![
        ("uri"@, JsonValue::Str(uri@)),
        ("languageId"@, JsonValue::Str(language_id@)),
        ("version"@, JsonValue::Number(int_number(version as int))),
        ("text"@, JsonValue::Str(text@)),
    ]);
    assert(view_entries(es@) =~= seq![("textDocument"@, JsonValue::Object(dv))]);
    json_object(es)
}

/// The parameters of `textDocument/didChange`.
pub fn did_change_params(uri: &str, text: &str, version: i32) -> (r: Json)
    ensures
        r@ == did_change_params_value(uri@, text@, version),
{
    proof {
        lemma_view_empty();
    }
    let mut doc: Vec<(String, Json)> = Vec::new();
    push_member(&mut doc, "uri", json_text(uri));
    push_member(&mut doc, "version", json_int(version as i64));
    let ghost dv = view_entries(doc@);
    let mut change: Vec<(String, Json)> = Vec::new();
    push_member(&mut change, "text", json_text(text));
    let ghost chv = view_entries(change@);
    let mut changes: Vec<Json> = Vec::new();
    changes.push(json_object(change));
    let ghost csv = view_items(changes@);
    let mut es: Vec<(String, Json)> = Vec::new();
    push_member(&mut es, "textDocument", json_object(doc));
    push_member(&mut es, "contentChanges", Json::Array(changes));
    assert(dv =~= seq![("uri"@, JsonValue::Str(uri@)), ("version"@, JsonValue::Number(int_number(version as int)))]);
    assert(chv =~= seq![("text"@, JsonValue::Str(text@))]);
    proof {
        lemma_view_items(changes@);
    }
    assert(csv =~= seq![JsonValue::Object(chv)]);
    assert(view_entries(es@) =~= seq![
        ("textDocument"@, JsonValue::Object(dv)),
        ("contentChanges"@, JsonValue::Array(csv)),
    ]);
    json_object(es)
}

/// The parameters of `workspace/symbol`.
pub fn symbol_query(query: &str) -> (r: Json)
    ensures
        r@ == symbol_query_value(query@),
{
    proof {
        lemma_view_empty();
    }
    let mut es: Vec<(String, Json)> = Vec::new();
    push_member(&mut es, "query", json_text(query));
    assert(view_entries(es@) =~= seq![("query"@, JsonValue::Str(query@))]);
    json_object(es)
}

/// The parameters of `callHierarchy/incomingCalls` and `outgoingCalls`.
pub fn call_item_params(item: Json) -> (r: Json)
    ensures
        r@ == call_item_params_value(item@),
{
    proof {
        lemma_view_empty();
    }
    let ghost iv = item@;
    let mut es: Vec<(String, Json)> = Vec::new();
    push_member(&mut es, "item", item);
    assert(view_entries(es@) =~= seq![("item"@, iv)]);
    json_object(es)
}

/// The parameters of `initialize`.
pub fn initialize_params(process_id: u32, root_uri: &str, root_path: &str, caps: Json) -> (r: Json)
    ensures
        r@ == initialize_params_value(process_id, root_uri@, root_path@, caps@),
{
    proof {
        lemma_view_empty();
    }
    let ghost cv = caps@;
    let mut es: Vec<(String, Json)> = Vec::new();
    push_member(&mut es, "processId", json_uint(process_id as u64));
    push_member(&mut es, "rootUri", json_text(root_uri));
    push_member(&mut es, "rootPath", json_text(root_path));
    push_member(&mut es, "capabilities", caps);
    assert(view_entries(es@) =~= seq![
        ("processId"@, JsonValue::Number(NumberValue::PosInt(process_id as nat))),
        ("rootUri"@, JsonValue::Str(root_uri@)),
        ("rootPath"@, JsonValue::Str(root_path@)),
        ("capabilities"@, cv),
    ]);
    json_object(es)
}

/// Whether a `workspace/symbol` or `documentSymbol` answer shows a ready server: a
/// non-empty array.
pub open spec fn symbols_ready_spec(v: JsonValue) -> bool {
    match v {
        JsonValue::Array(items) => items.len() > 0,
        _ => false,
    }
}

/// Whether a symbol answer shows a ready server.
pub fn symbols_ready(result: &Json) -> (r: bool)
    ensures
        r == symbols_ready_spec(result@),
{
    match result {
        Json::Array(items) => {
            proof {
                lemma_view_items(items@);
            }
            items.len() > 0
        },
        _ => false,
    }
}

/// What a capability check gives: go on when the server announced the capability, else
/// the protocol error `language server does not support <feature>`.
pub fn require_provider(provider: Option<&Json>, feature: &str) -> (r: Result<(), ClientError>)
    ensures
        match r {
            Ok(()) => provider_enabled_spec(match provider { Some(p) => Some(p@), None => None }),
            Err(e) => !provider_enabled_spec(match provider { Some(p) => Some(p@), None => None })
                && (e matches ClientError::Protocol(m) && m@ == "language server does not support "@ + feature@),
        },
{
    if provider_enabled(provider) {
        Ok(())
    } else {
        Err(ClientError::Protocol(String::from_str("language server does not support ").concat(feature)))
    }
}

/// The URI a `textDocument/publishDiagnostics` notification is about; `None` for other
/// notifications, or when it names no URI.
pub open spec fn published_uri_spec(method: Seq<char>, params: JsonValue) -> Option<Seq<char>> {
    if method == "textDocument/publishDiagnostics"@ {
        params.str_field("uri"@)
    } else {
        None
    }
}

/// The URI whose diagnostics a server notification publishes.
pub fn published_uri(method: &str, params: &Json) -> (r: Option<String>)
    ensures
        match r {
            Some(u) => published_uri_spec(method@, params@) == Some(u@),
            None => published_uri_spec(method@, params@) is None,
        },
{
    if crate::text::str_eq(method, "textDocument/publishDiagnostics") {
        match params.str_field("uri") {
            Some(u) => Some(u.clone()),
            None => None,
        }
    } else {
        None
    }
}

/// What to do after one poll of a server that is indexing.
#[derive(PartialEq, Eq, Debug, Structural)]
pub enum IndexPoll {
    /// The server answered with symbols: it is ready.
    Ready,
    /// Not ready and the time is up: fail with `IndexTimeout`.
    TimedOut,
    /// Not ready yet: wait and poll again.
    Retry,
}

/// The decision after a poll: `ready` tells whether the poll found symbols; `elapsed`
/// and `timeout` are in nanoseconds.
pub fn index_poll(ready: bool, elapsed: u128, timeout: u128) -> (r: IndexPoll)
    ensures
        r == (if ready {
            IndexPoll::Ready
        } else if elapsed >= timeout {
            IndexPoll::TimedOut
        } else {
            IndexPoll::Retry
        }),
{
    if ready {
        IndexPoll::Ready
    } else if elapsed >= timeout {
        IndexPoll::TimedOut
    } else {
        IndexPoll::Retry
    }
}

/// The documents the client has told the server are open.
pub struct OpenDocuments {
    uris: Vec<String>,
}

impl OpenDocuments {
    #[verifier::type_invariant]
    spec fn distinct(&self) -> bool {
        forall|i: int, j: int| 0 <= i < j < self.uris@.len() ==> #[trigger] self.uris@[i]@ != #[trigger] self.uris@[j]@
    }

    /// The open documents' URIs.
    pub closed spec fn uris(&self) -> Set<Seq<char>> {
        Set::new(|k: Seq<char>| exists|i: int| 0 <= i < self.uris@.len() && #[trigger] self.uris@[i]@ == k)
    }

    /// No document open.
    pub fn new() -> (r: Self)
        ensures
            r.uris() == Set::<Seq<char>>::empty(),
    {
        let r = OpenDocuments { uris: Vec::new() };
        assert(r.uris() =~= Set::<Seq<char>>::empty());
        r
    }

    fn find(&self, uri: &str) -> (r: Option<usize>)
        ensures
            match r {
                Some(i) => i < self.uris@.len() && self.uris@[i as int]@ == uri@,
                None => !self.uris().contains(uri@),
            },
    {
        let mut i: usize = 0;
        while i < self.uris.len()
            invariant
                i <= self.uris@.len(),
                forall|k: int| 0 <= k < i ==> self.uris@[k]@ != uri@,
            decreases self.uris@.len() - i,
        {
            if crate::text::str_eq(self.uris[i].as_str(), uri) {
                return Some(i);
            }
            i = i + 1;
        }
        None
    }

    /// Whether `uri` is open.
    pub fn contains(&self, uri: &str) -> (r: bool)
        ensures
            r == self.uris().contains(uri@),
    {
        self.find(uri).is_some()
    }

    /// Marks `uri` open.
    pub fn insert(&mut self, uri: &str)
        ensures
            final(self).uris() == old(self).uris().insert(uri@),
    {
        proof {
            use_type_invariant(&*self);
        }
        if self.find(uri).is_none() {
            let ghost before = self.uris@;
            let mut uris = Vec::new();
            std::mem::swap(&mut uris, &mut self.uris);
            uris.push(String::from_str(uri));
            assert forall|i: int, j: int| 0 <= i < j < uris@.len() implies #[trigger] uris@[i]@ != #[trigger] uris@[j]@ by {
                if j == uris@.len() - 1 {
                    assert(before[i]@ != uri@) by {
                        if before[i]@ == uri@ {
                            assert(old(self).uris().contains(uri@));
                        }
                    }
                } else {
                    assert(before[i] == uris@[i] && before[j] == uris@[j]);
                }
            }
            self.uris = uris;
            assert forall|k: Seq<char>| self.uris().contains(k) <==> old(self).uris().insert(uri@).contains(k) by {
                if self.uris().contains(k) {
                    let i = choose|i: int| 0 <= i < self.uris@.len() && #[trigger] self.uris@[i]@ == k;
                    if i < before.len() {
                        assert(before[i]@ == k);
                    }
                }
                if old(self).uris().contains(k) {
                    let i = choose|i: int| 0 <= i < before.len() && #[trigger] before[i]@ == k;
                    assert(self.uris@[i]@ == k);
                }
                if k == uri@ {
                    assert(self.uris@[before.len() as int]@ == k);
                }
            }
            assert(self.uris() =~= old(self).uris().insert(uri@));
        } else {
            assert(self.uris() =~= old(self).uris().insert(uri@));
        }
    }

    /// Marks `uri` closed.
    pub fn remove(&mut self, uri: &str)
        ensures
            final(self).uris() == old(self).uris().remove(uri@),
    {
        proof {
            use_type_invariant(&*self);
        }
        match self.find(uri) {
            Some(i) => {
                let ghost before = self.uris@;
                let mut uris = Vec::new();
                std::mem::swap(&mut uris, &mut self.uris);
                let _ = uris.remove(i);
                assert forall|a: int, b: int| 0 <= a < b < uris@.len() implies #[trigger] uris@[a]@ != #[trigger] uris@[b]@ by {
                    let a2 = if a < i { a } else { a + 1 };
                    let b2 = if b < i { b } else { b + 1 };
                    assert(uris@[a] == before[a2] && uris@[b] == before[b2]);
                }
                self.uris = uris;
                assert forall|k: Seq<char>| self.uris().contains(k) <==> old(self).uris().remove(uri@).contains(k) by {
                    if self.uris().contains(k) {
                        let j = choose|j: int| 0 <= j < self.uris@.len() && #[trigger] self.uris@[j]@ == k;
                        let j2 = if j < i { j } else { j + 1 };
                        assert(self.uris@[j] == before[j2]);
                        assert(before[j2]@ == k);
                        assert(j2 != i);
                    }
                    if old(self).uris().remove(uri@).contains(k) {
                        let j = choose|j: int| 0 <= j < before.len() && #[trigger] before[j]@ == k;
                        assert(j != i);
                        let j1 = if j < i { j } else { j - 1 };
                        assert(self.uris@[j1] == before[j]);
                    }
                }
                assert(self.uris() =~= old(self).uris().remove(uri@));
            },
            None => {
                assert(self.uris() =~= old(self).uris().remove(uri@));
            },
        }
    }

    /// Forgets every open document and hands back their URIs, each once.
    pub fn take_all(&mut self) -> (r: Vec<String>)
        ensures
            final(self).uris() == Set::<Seq<char>>::empty(),
            forall|k: Seq<char>| old(self).uris().contains(k) <==> exists|i: int| 0 <= i < r@.len() && #[trigger] r@[i]@ == k,
            forall|i: int, j: int| 0 <= i < j < r@.len() ==> #[trigger] r@[i]@ != #[trigger] r@[j]@,
    {
        proof {
            use_type_invariant(&*self);
        }
        let mut uris = Vec::new();
        std::mem::swap(&mut uris, &mut self.uris);
        assert(self.uris() =~= Set::<Seq<char>>::empty());
        uris
    }
}

} // verus!
