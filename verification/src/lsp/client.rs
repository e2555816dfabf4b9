//! What the LSP client decides from the server's answers.
use vstd::prelude::*;
use vstd::string::StringExecFns;
use crate::json::{Json, JsonValue, lemma_view_items, view_items, view_json};
use crate::lsp::types::{Location, Range, location_from_json, location_of, location_view, locations_view, range_from_json, range_of};

verus! {

/// Error type for LSP client operations.
pub enum ClientError {
    Transport(String),
    Protocol(String),
    IndexTimeout,
}

impl ClientError {
    /// The human-readable description of the error.
    pub open spec fn message_spec(&self) -> Seq<char> {
        match self {
            ClientError::Transport(m) => "transport error: "@ + m@,
            ClientError::Protocol(m) => "protocol error: "@ + m@,
            ClientError::IndexTimeout => "language server failed to become ready in time"@,
        }
    }

    /// The human-readable description of the error.
    pub fn message(&self) -> (r: String)
        ensures
            r@ == self.message_spec(),
    {
        match self {
            ClientError::Transport(m) => String::from_str("transport error: ").concat(m.as_str()),
            ClientError::Protocol(m) => String::from_str("protocol error: ").concat(m.as_str()),
            ClientError::IndexTimeout => String::from_str("language server failed to become ready in time"),
        }
    }
}


/// Whether a server capability is enabled: absent and `false` mean disabled, `true` and
/// any object form mean enabled.
pub open spec fn provider_enabled_spec(provider: Option<JsonValue>) -> bool {
    match provider {
        None => false,
        Some(JsonValue::Bool(b)) => b,
        Some(_) => true,
    }
}

/// Check if a provider capability is enabled.
/// LSP allows `true`, `false`, or an object (e.g. `{"documentSelector": ...}`).
/// Both absent and `false` mean the capability is disabled.
pub fn provider_enabled(provider: Option<&Json>) -> (r: bool)
    ensures
        r == provider_enabled_spec(match provider { Some(p) => Some(p@), None => None }),
{
    match provider {
        None => false,
        Some(Json::Bool(b)) => *b,
        Some(_) => true,
    }
}

/// One element of a definition/references answer: a `LocationLink` (`targetUri` with a
/// readable `targetRange`) or else a plain `Location`; `None` when it is neither.
pub open spec fn location_of_item(v: JsonValue) -> Option<(Seq<char>, Range)> {
    match (v.str_field("targetUri"@), v.field("targetRange"@)) {
        (Some(uri), Some(r)) => match range_of(r) {
            Some(range) => Some((uri, range)),
            None => location_of(v),
        },
        _ => location_of(v),
    }
}

/// The locations of the readable elements, in order; unreadable elements are skipped.
pub open spec fn locations_of_items(items: Seq<JsonValue>) -> Seq<(Seq<char>, Range)>
    decreases items.len(),
{
    if items.len() == 0 {
        Seq::empty()
    } else {
        match location_of_item(items.last()) {
            Some(l) => locations_of_items(items.drop_last()).push(l),
            None => locations_of_items(items.drop_last()),
        }
    }
}

/// The locations of a definition/references/implementation answer: an array of
/// `Location`s and/or `LocationLink`s; anything else (such as `null`) gives none.
pub open spec fn location_list_of(v: JsonValue) -> Seq<(Seq<char>, Range)> {
    match v {
        JsonValue::Array(items) => locations_of_items(items),
        _ => Seq::empty(),
    }
}

fn location_from_item(item: &Json) -> (r: Option<Location>)
    ensures
        match r {
            Some(l) => location_of_item(item@) == Some(location_view(l)),
            None => location_of_item(item@) is None,
        },
{
    match (item.str_field("targetUri"), item.get("targetRange")) {
        (Some(uri), Some(rv)) => match range_from_json(rv) {
            Some(range) => {
                return Some(Location { uri: uri.clone(), range });
            },
            None => {},
        },
        _ => {},
    }
    location_from_json(item)
}

/// Parse a definition / references answer into a flat list of locations.
/// LSP allows `Location[]`, `LocationLink[]`, or `null`.
#[verifier::loop_isolation(false)]
pub fn parse_location_list(value: &Json) -> (r: Vec<Location>)
    ensures
        locations_view(r@) == location_list_of(value@),
{
    match value {
        Json::Array(items) => {
            proof {
                lemma_view_items(items@);
            }
            let ghost vs = view_items(items@);
            assert(value@ == JsonValue::Array(vs));
            let mut out: Vec<Location> = Vec::new();
            let mut i: usize = 0;
            assert(locations_view(out@) =~= Seq::empty());
            assert(vs.take(0) =~= Seq::<JsonValue>::empty());
            while i < items.len()
                invariant
                    i <= items@.len(),
                    locations_view(out@) == locations_of_items(vs.take(i as int)),
                decreases items@.len() - i,
            {
                assert(vs.take(i + 1).drop_last() =~= vs.take(i as int));
                assert(vs.take(i + 1).last() == vs[i as int]);
                match location_from_item(&items[i]) {
                    Some(l) => {
                        let ghost before = out@;
                        out.push(l);
                        assert(locations_view(out@) =~= locations_view(before).push(location_view(l)));
                    },
                    None => {},
                }
                i = i + 1;
            }
            assert(vs.take(items@.len() as int) =~= vs);
            out
        },
        _ => Vec::new(),
    }
}

} // verus!
