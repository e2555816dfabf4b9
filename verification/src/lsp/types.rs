//! The LSP data this server reads from language servers, and how it is read from JSON.
//!
//! Structures are read from JSON objects by member name (camelCase, as LSP writes them);
//! unknown members are ignored, a missing or ill-typed required member makes the
//! structure unreadable, and an optional member that is absent or `null` reads as absent.
use vstd::prelude::*;
use crate::json::{Json, JsonValue, lemma_view_items, lemma_view_entries, view_items, view_json};

verus! {

#[derive(Clone, Copy, PartialEq, Eq, Debug, Structural)]
pub struct Position {
    pub line: u32,
    pub character: u32,
}

#[derive(Clone, Copy, PartialEq, Eq, Debug, Structural)]
pub struct Range {
    pub start: Position,
    pub end: Position,
}

pub struct Location {
    pub uri: String,
    pub range: Range,
}

pub struct TextEdit {
    pub range: Range,
    pub new_text: String,
}

/// A member that must be an unsigned integer fitting in 32 bits.
pub open spec fn u32_member(v: JsonValue, key: Seq<char>) -> Option<u32> {
    match v.u64_field(key) {
        Some(n) => if n <= u32::MAX { Some(n as u32) } else { None },
        None => None,
    }
}

pub open spec fn position_of(v: JsonValue) -> Option<Position> {
    match (u32_member(v, "line"@), u32_member(v, "character"@)) {
        (Some(line), Some(character)) => Some(Position { line, character }),
        _ => None,
    }
}

pub open spec fn range_of(v: JsonValue) -> Option<Range> {
    match (v.field("start"@), v.field("end"@)) {
        (Some(s), Some(e)) => match (position_of(s), position_of(e)) {
            (Some(start), Some(end)) => Some(Range { start, end }),
            _ => None,
        },
        _ => None,
    }
}

/// A `Location`: `uri` and `range`.
pub open spec fn location_of(v: JsonValue) -> Option<(Seq<char>, Range)> {
    match (v.str_field("uri"@), v.field("range"@)) {
        (Some(uri), Some(r)) => match range_of(r) {
            Some(range) => Some((uri, range)),
            None => None,
        },
        _ => None,
    }
}

/// A `TextEdit`: `range` and `newText`.
pub open spec fn text_edit_of(v: JsonValue) -> Option<(Range, Seq<char>)> {
    match (v.field("range"@), v.str_field("newText"@)) {
        (Some(r), Some(t)) => match range_of(r) {
            Some(range) => Some((range, t)),
            None => None,
        },
        _ => None,
    }
}

/// Every element read as a `TextEdit`; `None` as soon as one cannot be.
pub open spec fn text_edits_of_items(items: Seq<JsonValue>) -> Option<Seq<(Range, Seq<char>)>>
    decreases items.len(),
{
    if items.len() == 0 {
        Some(Seq::empty())
    } else {
        match (text_edits_of_items(items.drop_last()), text_edit_of(items.last())) {
            (Some(es), Some(e)) => Some(es.push(e)),
            _ => None,
        }
    }
}

/// An array of `TextEdit`s.
pub open spec fn text_edits_of(v: JsonValue) -> Option<Seq<(Range, Seq<char>)>> {
    match v {
        JsonValue::Array(items) => text_edits_of_items(items),
        _ => None,
    }
}

pub open spec fn text_edit_view(e: TextEdit) -> (Range, Seq<char>) {
    (e.range, e.new_text@)
}

pub open spec fn text_edits_view(es: Seq<TextEdit>) -> Seq<(Range, Seq<char>)> {
    es.map_values(|e: TextEdit| text_edit_view(e))
}

pub open spec fn location_view(l: Location) -> (Seq<char>, Range) {
    (l.uri@, l.range)
}

pub open spec fn locations_view(ls: Seq<Location>) -> Seq<(Seq<char>, Range)> {
    ls.map_values(|l: Location| location_view(l))
}

fn u32_member_of(v: &Json, key: &str) -> (r: Option<u32>)
    ensures
        r == u32_member(v@, key@),
{
    match v.u64_field(key) {
        Some(n) => if n <= 4294967295u64 { Some(n as u32) } else { None },
        None => None,
    }
}

/// Reads a `Position`.
pub fn position_from_json(v: &Json) -> (r: Option<Position>)
    ensures
        r == position_of(v@),
{
    match (u32_member_of(v, "line"), u32_member_of(v, "character")) {
        (Some(line), Some(character)) => Some(Position { line, character }),
        _ => None,
    }
}

/// Reads a `Range`.
pub fn range_from_json(v: &Json) -> (r: Option<Range>)
    ensures
        r == range_of(v@),
{
    match (v.get("start"), v.get("end")) {
        (Some(s), Some(e)) => match (position_from_json(s), position_from_json(e)) {
            (Some(start), Some(end)) => Some(Range { start, end }),
            _ => None,
        },
        _ => None,
    }
}

/// Reads a `Location`.
pub fn location_from_json(v: &Json) -> (r: Option<Location>)
    ensures
        match r {
            Some(l) => location_of(v@) == Some(location_view(l)),
            None => location_of(v@) is None,
        },
{
    match (v.str_field("uri"), v.get("range")) {
        (Some(uri), Some(rv)) => match range_from_json(rv) {
            Some(range) => Some(Location { uri: uri.clone(), range }),
            None => None,
        },
        _ => None,
    }
}

/// Reads a `TextEdit`.
pub fn text_edit_from_json(v: &Json) -> (r: Option<TextEdit>)
    ensures
        match r {
            Some(e) => text_edit_of(v@) == Some(text_edit_view(e)),
            None => text_edit_of(v@) is None,
        },
{
    match (v.get("range"), v.str_field("newText")) {
        (Some(rv), Some(t)) => match range_from_json(rv) {
            Some(range) => Some(TextEdit { range, new_text: t.clone() }),
            None => None,
        },
        _ => None,
    }
}

/// Reads an array of `TextEdit`s; `None` unless every element is one.
#[verifier::loop_isolation(false)]
pub fn text_edits_from_json(v: &Json) -> (r: Option<Vec<TextEdit>>)
    ensures
        match r {
            Some(es) => text_edits_of(v@) == Some(text_edits_view(es@)),
            None => text_edits_of(v@) is None,
        },
{
    match v {
        Json::Array(items) => {
            proof {
                lemma_view_items(items@);
            }
            let ghost vs = view_items(items@);
            assert(v@ == JsonValue::Array(vs));
            let mut out: Vec<TextEdit> = Vec::new();
            let mut i: usize = 0;
            while i < items.len()
                invariant
                    i <= items@.len(),
                    vs == view_items(items@),
                    vs.len() == items@.len(),
                    forall|k: int| 0 <= k < items@.len() ==> #[trigger] vs[k] == view_json(items@[k]),
                    text_edits_of_items(vs.take(i as int)) == Some(text_edits_view(out@)),
                decreases items@.len() - i,
            {
                assert(vs.take(i + 1).drop_last() =~= vs.take(i as int));
                assert(vs.take(i + 1).last() == vs[i as int]);
                match text_edit_from_json(&items[i]) {
                    Some(e) => {
                        let ghost before = out@;
                        out.push(e);
                        assert(text_edits_view(out@) =~= text_edits_view(before).push(text_edit_view(e)));
                    },
                    None => {
                        proof {
                            assert(text_edit_of(vs[i as int]) is None);
                            assert(text_edits_of_items(vs.take(i + 1)) is None);
                            lemma_text_edits_none_extends(vs, i as int);
                        }
                        return None;
                    },
                }
                i = i + 1;
            }
            assert(vs.take(items@.len() as int) =~= vs);
            Some(out)
        },
        _ => None,
    }
}

proof fn lemma_text_edits_none_extends(vs: Seq<JsonValue>, i: int)
    requires
        0 <= i < vs.len(),
        text_edits_of_items(vs.take(i + 1)) is None,
    ensures
        text_edits_of_items(vs) is None,
    decreases vs.len() - i,
{
    if i + 1 < vs.len() {
        assert(vs.take(i + 2).drop_last() =~= vs.take(i + 1));
        lemma_text_edits_none_extends(vs, i + 1);
    } else {
        assert(vs.take(i + 1) =~= vs);
    }
}


/// An LSP `Diagnostic`, as far as this server reports it.
pub struct Diagnostic {
    pub range: Range,
    pub severity: Option<i32>,
    pub code: Option<Json>,
    pub source: Option<String>,
    pub message: String,
}

/// An LSP `Hover` result.
pub struct Hover {
    pub contents: Json,
    pub range: Option<Range>,
}

/// An LSP `WorkspaceEdit`: per-URI edits and/or document changes.
pub struct WorkspaceEdit {
    pub changes: Option<Vec<(String, Vec<TextEdit>)>>,
    pub document_changes: Option<Json>,
}

/// An LSP `CallHierarchyItem`, as far as the call hierarchy report shows it.
pub struct CallHierarchyItem {
    pub name: String,
    pub uri: String,
    pub selection_range: Range,
}

} // verus!
