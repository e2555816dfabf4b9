//! What the text answers of the tools are, line by line.
use vstd::prelude::*;
use crate::lsp::types::{CallHierarchyItem, Diagnostic, Range};
use crate::mcp::handlers::{
    RenameEditsView, call_hierarchy_text, call_line, call_lines, change_count, diagnostic_line, diagnostics_text,
    edit_lines, location_line_text, location_lines, locations_text, position_text, rename_lines, rename_text,
    severity_text,
};
use crate::text::{
    decimal, joined, lemma_decimal_no_newline, lemma_split_concat, lemma_split_joined, lemma_split_single,
    lemma_trim_end_no_newline, no_newline, split_lines, trim_end_text,
};
use crate::uri::uri_path_text;

verus! {

proof fn lemma_no_newline_concat(a: Seq<char>, b: Seq<char>)
    requires
        no_newline(a),
        no_newline(b),
    ensures
        no_newline(a + b),
{
    assert forall|i: int| 0 <= i < (a + b).len() implies (a + b)[i] != '\n' by {
        if i < a.len() {
            assert((a + b)[i] == a[i]);
        } else {
            assert((a + b)[i] == b[i - a.len()]);
        }
    }
}

proof fn lemma_literals_no_newline()
    ensures
        no_newline(":"@),
        no_newline("  "@),
        no_newline(" "@),
        no_newline(" results:"@),
        no_newline("()"@),
        no_newline("("@),
        no_newline("s)"@),
        no_newline(" ["@),
        no_newline("] "@),
        no_newline("unknown"@),
        no_newline(" diagnostics)"@),
        no_newline(" changes in "@),
        no_newline(" files)"@),
        no_newline("  \u{2192}  "@),
{
    reveal_strlit(":");
    reveal_strlit("  ");
    reveal_strlit(" ");
    reveal_strlit(" results:");
    reveal_strlit("()");
    reveal_strlit("(");
    reveal_strlit("s)");
    reveal_strlit(" [");
    reveal_strlit("] ");
    reveal_strlit("unknown");
    reveal_strlit(" diagnostics)");
    reveal_strlit(" changes in ");
    reveal_strlit(" files)");
    reveal_strlit("  \u{2192}  ");
}

/// `path:line:col`, 1-based, without `\n` when the path has none.
proof fn lemma_position_no_newline(path: Seq<char>, p: crate::lsp::types::Position)
    requires
        no_newline(path),
    ensures
        no_newline(position_text(path, p)),
{
    lemma_literals_no_newline();
    lemma_decimal_no_newline((p.line + 1) as nat);
    lemma_decimal_no_newline((p.character + 1) as nat);
    lemma_no_newline_concat(path, ":"@);
    lemma_no_newline_concat(path + ":"@, decimal((p.line + 1) as nat));
    lemma_no_newline_concat(path + ":"@ + decimal((p.line + 1) as nat), ":"@);
    lemma_no_newline_concat(path + ":"@ + decimal((p.line + 1) as nat) + ":"@, decimal((p.character + 1) as nat));
}

/// The answer of a location query, line by line: `<n> results:`, then for each location,
/// in order, its 1-based `path:line:col`, two spaces and the location's own source line
/// (trailing space removed). Stated for paths and source lines without `\n`.
pub proof fn law_location_answer_lines(locs: Seq<(Seq<char>, Range)>, line_texts: Seq<Seq<char>>, no_results: Seq<char>)
    requires
        locs.len() > 0,
        line_texts.len() == locs.len(),
        forall|i: int| 0 <= i < locs.len() ==> no_newline(uri_path_text(#[trigger] locs[i].0)) && no_newline(line_texts[i]),
    ensures
        split_lines(locations_text(locs, line_texts, no_results)).len() == locs.len() + 1,
        split_lines(locations_text(locs, line_texts, no_results))[0] == decimal(locs.len()) + " results:"@,
        forall|i: int|
            0 <= i < locs.len() ==> #[trigger] split_lines(locations_text(locs, line_texts, no_results))[i + 1]
                == uri_path_text(locs[i].0) + ":"@ + decimal((locs[i].1.start.line + 1) as nat) + ":"@
                + decimal((locs[i].1.start.character + 1) as nat) + "  "@ + trim_end_text(line_texts[i]),
{
    reveal_strlit(" results:\n");
    reveal_strlit(" results:");
    lemma_literals_no_newline();
    let ls = location_lines(locs, line_texts);
    assert forall|k: int| 0 <= k < ls.len() implies no_newline(#[trigger] ls[k]) by {
        lemma_position_no_newline(uri_path_text(locs[k].0), locs[k].1.start);
        lemma_trim_end_no_newline(line_texts[k]);
        let pt = position_text(uri_path_text(locs[k].0), locs[k].1.start);
        lemma_no_newline_concat(pt, "  "@);
        lemma_no_newline_concat(pt + "  "@, trim_end_text(line_texts[k]));
        assert(ls[k] == location_line_text(locs[k], line_texts[k]));
    }
    lemma_split_joined(ls);
    let head = decimal(locs.len()) + " results:"@;
    lemma_decimal_no_newline(locs.len());
    lemma_no_newline_concat(decimal(locs.len()), " results:"@);
    lemma_split_single(head);
    assert(" results:\n"@ =~= " results:"@ + seq!['\n']);
    assert(locations_text(locs, line_texts, no_results) =~= head + seq!['\n'] + joined(ls, "\n"@));
    lemma_split_concat(head, joined(ls, "\n"@));
    assert forall|i: int| 0 <= i < locs.len() implies #[trigger] split_lines(locations_text(locs, line_texts, no_results))[i + 1]
        == uri_path_text(locs[i].0) + ":"@ + decimal((locs[i].1.start.line + 1) as nat) + ":"@
        + decimal((locs[i].1.start.character + 1) as nat) + "  "@ + trim_end_text(line_texts[i]) by {
        assert((seq![head] + ls)[i + 1] == ls[i]);
    }
}

/// One item line of a call hierarchy answer, without its `\n`.
pub open spec fn call_item_line(arrow: Seq<char>, item: CallHierarchyItem) -> Seq<char> {
    "  "@ + arrow + " "@ + uri_path_text(item.uri@) + ":"@ + decimal((item.selection_range.start.line + 1) as nat) + ":"@
        + decimal((item.selection_range.start.character + 1) as nat) + "  "@ + item.name@ + "()"@
}

proof fn lemma_call_item_line(arrow: Seq<char>, item: CallHierarchyItem)
    requires
        no_newline(arrow),
        no_newline(uri_path_text(item.uri@)),
        no_newline(item.name@),
    ensures
        call_line(arrow, item) == call_item_line(arrow, item) + seq!['\n'],
        no_newline(call_item_line(arrow, item)),
{
    reveal_strlit("()\n");
    reveal_strlit("()");
    lemma_literals_no_newline();
    let pt = position_text(uri_path_text(item.uri@), item.selection_range.start);
    lemma_position_no_newline(uri_path_text(item.uri@), item.selection_range.start);
    assert("()\n"@ =~= "()"@ + seq!['\n']);
    assert(call_line(arrow, item) =~= call_item_line(arrow, item) + seq!['\n']);
    lemma_no_newline_concat("  "@, arrow);
    lemma_no_newline_concat("  "@ + arrow, " "@);
    lemma_no_newline_concat("  "@ + arrow + " "@, pt);
    lemma_no_newline_concat("  "@ + arrow + " "@ + pt, "  "@);
    lemma_no_newline_concat("  "@ + arrow + " "@ + pt + "  "@, item.name@);
    lemma_no_newline_concat("  "@ + arrow + " "@ + pt + "  "@ + item.name@, "()"@);
    assert(call_item_line(arrow, item) =~= "  "@ + arrow + " "@ + pt + "  "@ + item.name@ + "()"@);
}

proof fn lemma_call_lines_split(arrow: Seq<char>, items: Seq<CallHierarchyItem>, tail: Seq<char>)
    requires
        no_newline(arrow),
        no_newline(tail),
        forall|k: int| 0 <= k < items.len() ==> no_newline(uri_path_text((#[trigger] items[k]).uri@)) && no_newline(items[k].name@),
    ensures
        split_lines(call_lines(arrow, items) + tail) == Seq::new(items.len(), |k: int| call_item_line(arrow, items[k])).push(tail),
    decreases items.len(),
{
    if items.len() == 0 {
        lemma_split_single(tail);
        assert(call_lines(arrow, items) + tail =~= tail);
        assert(Seq::new(0, |k: int| call_item_line(arrow, items[k])).push(tail) =~= seq![tail]);
    } else {
        let prev = items.drop_last();
        let last = items.last();
        assert(no_newline(uri_path_text(items[items.len() - 1].uri@)));
        lemma_call_item_line(arrow, last);
        let x = call_item_line(arrow, last);
        lemma_call_lines_split(arrow, prev, x);
        assert(call_lines(arrow, items) + tail =~= (call_lines(arrow, prev) + x) + seq!['\n'] + tail);
        lemma_split_concat(call_lines(arrow, prev) + x, tail);
        lemma_split_single(tail);
        assert(Seq::new(prev.len(), |k: int| call_item_line(arrow, prev[k])).push(x) + seq![tail]
            =~= Seq::new(items.len(), |k: int| call_item_line(arrow, items[k])).push(tail));
    }
}

/// The text answer of a call hierarchy tool, line by line: for each item, in order, the
/// arrow, its 1-based `path:line:col` and its name; then `(<n> <label>s)`. Stated for
/// texts without `\n`.
pub proof fn law_call_hierarchy_answer_lines(items: Seq<CallHierarchyItem>, arrow: Seq<char>, label: Seq<char>, no_results: Seq<char>)
    requires
        items.len() > 0,
        no_newline(arrow),
        no_newline(label),
        forall|k: int| 0 <= k < items.len() ==> no_newline(uri_path_text((#[trigger] items[k]).uri@)) && no_newline(items[k].name@),
    ensures
        split_lines(call_hierarchy_text(items, arrow, label, no_results)) == Seq::new(
            items.len(),
            |k: int| call_item_line(arrow, items[k]),
        ).push("("@ + decimal(items.len()) + " "@ + label + "s)"@),
{
    lemma_literals_no_newline();
    let tail = "("@ + decimal(items.len()) + " "@ + label + "s)"@;
    lemma_decimal_no_newline(items.len());
    lemma_no_newline_concat("("@, decimal(items.len()));
    lemma_no_newline_concat("("@ + decimal(items.len()), " "@);
    lemma_no_newline_concat("("@ + decimal(items.len()) + " "@, label);
    lemma_no_newline_concat("("@ + decimal(items.len()) + " "@ + label, "s)"@);
    lemma_call_lines_split(arrow, items, tail);
    assert(call_hierarchy_text(items, arrow, label, no_results) =~= call_lines(arrow, items) + tail);
}

/// The line of one diagnostic: `<line>:<col> [<severity>] <message>`, 1-based.
pub open spec fn diagnostic_answer_line(d: Diagnostic) -> Seq<char> {
    decimal((d.range.start.line + 1) as nat) + ":"@ + decimal((d.range.start.character + 1) as nat) + " ["@
        + match d.severity {
        Some(s) => severity_text(s),
        None => "unknown"@,
    } + "] "@ + d.message@
}

/// The text answer of the diagnostics tool, line by line: one line per diagnostic, in
/// order, with that diagnostic's own position, severity and message; then
/// `(<n> diagnostics)`. Stated for messages without `\n`.
pub proof fn law_diagnostics_answer_lines(ds: Seq<Diagnostic>)
    requires
        ds.len() > 0,
        forall|i: int| 0 <= i < ds.len() ==> no_newline((#[trigger] ds[i]).message@),
    ensures
        split_lines(diagnostics_text(ds)) == Seq::new(ds.len(), |i: int| diagnostic_answer_line(ds[i])).push(
            "("@ + decimal(ds.len()) + " diagnostics)"@,
        ),
{
    lemma_literals_no_newline();
    reveal_strlit("error");
    reveal_strlit("warning");
    reveal_strlit("info");
    reveal_strlit("hint");
    let summary = "("@ + decimal(ds.len()) + " diagnostics)"@;
    let ls = Seq::new(ds.len(), |i: int| diagnostic_line(ds[i])).push(summary);
    lemma_decimal_no_newline(ds.len());
    lemma_no_newline_concat("("@, decimal(ds.len()));
    lemma_no_newline_concat("("@ + decimal(ds.len()), " diagnostics)"@);
    assert forall|k: int| 0 <= k < ls.len() implies no_newline(#[trigger] ls[k]) by {
        if k < ds.len() {
            let d = ds[k];
            assert(no_newline(d.message@));
            let sev = match d.severity {
                Some(s) => severity_text(s),
                None => "unknown"@,
            };
            assert(no_newline(sev));
            let a = decimal((d.range.start.line + 1) as nat);
            let b = decimal((d.range.start.character + 1) as nat);
            lemma_decimal_no_newline((d.range.start.line + 1) as nat);
            lemma_decimal_no_newline((d.range.start.character + 1) as nat);
            lemma_no_newline_concat(a, ":"@);
            lemma_no_newline_concat(a + ":"@, b);
            lemma_no_newline_concat(a + ":"@ + b, " ["@);
            lemma_no_newline_concat(a + ":"@ + b + " ["@, sev);
            lemma_no_newline_concat(a + ":"@ + b + " ["@ + sev, "] "@);
            lemma_no_newline_concat(a + ":"@ + b + " ["@ + sev + "] "@, d.message@);
            assert(ls[k] == diagnostic_line(d));
        } else {
            assert(ls[k] == summary);
        }
    }
    lemma_split_joined(ls);
    assert(ls =~= Seq::new(ds.len(), |i: int| diagnostic_answer_line(ds[i])).push(summary));
}

/// The number of edits over files adds up: the count for two lists of files is the sum
/// of their counts, and one file counts its own edits.
pub proof fn law_change_count_adds_up(g1: RenameEditsView, g2: RenameEditsView)
    ensures
        change_count(g1 + g2) == change_count(g1) + change_count(g2),
        rename_lines(g1 + g2) == rename_lines(g1) + rename_lines(g2),
        forall|g: (Seq<char>, Seq<(Range, Seq<char>)>)| #[trigger] change_count(seq![g]) == g.1.len(),
    decreases g2.len(),
{
    assert forall|g: (Seq<char>, Seq<(Range, Seq<char>)>)| #[trigger] change_count(seq![g]) == g.1.len() by {
        let one = seq![g];
        assert(one.len() == 1);
        assert(one.last() == g);
        assert(one.drop_last() =~= Seq::<(Seq<char>, Seq<(Range, Seq<char>)>)>::empty());
        assert(change_count(one.drop_last()) == 0);
    }
    if g2.len() == 0 {
        assert(g1 + g2 =~= g1);
        assert(rename_lines(g1) + rename_lines(g2) =~= rename_lines(g1));
    } else {
        law_change_count_adds_up(g1, g2.drop_last());
        assert((g1 + g2).drop_last() =~= g1 + g2.drop_last());
        assert((g1 + g2).last() == g2.last());
        assert(rename_lines(g1 + g2) =~= rename_lines(g1) + rename_lines(g2));
    }
}

proof fn lemma_rename_lines_no_newline(groups: RenameEditsView)
    requires
        forall|i: int| 0 <= i < groups.len() ==> no_newline(uri_path_text((#[trigger] groups[i]).0)),
        forall|i: int, k: int| 0 <= i < groups.len() && 0 <= k < groups[i].1.len() ==> no_newline(#[trigger] groups[i].1[k].1),
    ensures
        forall|j: int| 0 <= j < rename_lines(groups).len() ==> no_newline(#[trigger] rename_lines(groups)[j]),
    decreases groups.len(),
{
    if groups.len() > 0 {
        let prev = groups.drop_last();
        assert forall|i: int| 0 <= i < prev.len() implies no_newline(uri_path_text((#[trigger] prev[i]).0)) by {
            assert(prev[i] == groups[i]);
        }
        assert forall|i: int, k: int| 0 <= i < prev.len() && 0 <= k < prev[i].1.len() implies no_newline(#[trigger] prev[i].1[k].1) by {
            assert(prev[i] == groups[i]);
        }
        lemma_rename_lines_no_newline(prev);
        let g = groups.last();
        let el = edit_lines(g);
        lemma_literals_no_newline();
        assert(no_newline(uri_path_text(groups[groups.len() - 1].0)));
        assert forall|k: int| 0 <= k < el.len() implies no_newline(#[trigger] el[k]) by {
            assert(no_newline(groups[groups.len() - 1].1[k].1));
            let pt = position_text(uri_path_text(g.0), g.1[k].0.start);
            lemma_position_no_newline(uri_path_text(g.0), g.1[k].0.start);
            lemma_no_newline_concat(pt, "  \u{2192}  "@);
            lemma_no_newline_concat(pt + "  \u{2192}  "@, g.1[k].1);
        }
        let all = rename_lines(groups);
        assert forall|j: int| 0 <= j < all.len() implies no_newline(#[trigger] all[j]) by {
            let pl = rename_lines(prev);
            if j < pl.len() {
                assert(all[j] == pl[j]);
            } else {
                assert(all[j] == el[j - pl.len()]);
            }
        }
    }
}

/// The text answer of a rename, line by line: one line per edit, then
/// `(<edits> changes in <files> files)`, where the file count is the number of per-URI
/// groups and the change count the number of edits over all of them. Stated for paths
/// and new texts without `\n`.
pub proof fn law_rename_answer_lines(groups: RenameEditsView)
    requires
        forall|i: int| 0 <= i < groups.len() ==> no_newline(uri_path_text((#[trigger] groups[i]).0)),
        forall|i: int, k: int| 0 <= i < groups.len() && 0 <= k < groups[i].1.len() ==> no_newline(#[trigger] groups[i].1[k].1),
    ensures
        split_lines(rename_text(groups)) == rename_lines(groups).push(
            "("@ + decimal(change_count(groups) as nat) + " changes in "@ + decimal(groups.len()) + " files)"@,
        ),
        rename_lines(groups).len() == change_count(groups),
{
    crate::mcp::handlers::lemma_change_count_nonneg(groups);
    lemma_rename_lines_no_newline(groups);
    lemma_literals_no_newline();
    let summary = "("@ + decimal(change_count(groups) as nat) + " changes in "@ + decimal(groups.len()) + " files)"@;
    lemma_decimal_no_newline(change_count(groups) as nat);
    lemma_decimal_no_newline(groups.len());
    lemma_no_newline_concat("("@, decimal(change_count(groups) as nat));
    lemma_no_newline_concat("("@ + decimal(change_count(groups) as nat), " changes in "@);
    lemma_no_newline_concat("("@ + decimal(change_count(groups) as nat) + " changes in "@, decimal(groups.len()));
    lemma_no_newline_concat("("@ + decimal(change_count(groups) as nat) + " changes in "@ + decimal(groups.len()), " files)"@);
    let ls = rename_lines(groups).push(summary);
    assert forall|k: int| 0 <= k < ls.len() implies no_newline(#[trigger] ls[k]) by {
        if k < rename_lines(groups).len() {
            assert(ls[k] == rename_lines(groups)[k]);
        }
    }
    lemma_split_joined(ls);
}

} // verus!
