//! The summary figures of a stored graph.
use vstd::prelude::*;
use crate::commands::rows::{
    Row, RowView, row_views, text_or, text_or_chars, pad_right, append_padded_right, json_number,
    json_number_chars,
};
use crate::text::{string_of, append_str, append_chars};

verus! {

/// The summary figures a store reports: totals, and counts per language and
/// per kind where it gives them.
pub struct GraphStats {
    pub nodes: Option<i64>,
    pub edges: Option<i64>,
    pub files: Option<i64>,
    /// Rows with `language` and `count`.
    pub languages: Option<Vec<Row>>,
    /// Rows with `kind` and `count`.
    pub kinds: Option<Vec<Row>>,
}

pub open spec fn opt_rows(o: Option<Vec<Row>>) -> Option<Seq<RowView>> {
    match o {
        Some(v) => Some(row_views(v@)),
        None => None,
    }
}

/// One `name count` line, the name padded to 15 characters.
pub open spec fn count_line(label: Seq<char>, count: Option<i64>) -> Seq<char> {
    "    "@ + pad_right(label, 15) + " "@ + json_number(count) + "\n"@
}

pub open spec fn language_lines(rs: Seq<RowView>) -> Seq<char>
    decreases rs.len(),
{
    if rs.len() == 0 {
        seq![]
    } else {
        language_lines(rs.drop_last()) + count_line(text_or(rs.last().language, "?"@), rs.last().count)
    }
}

pub open spec fn kind_lines(rs: Seq<RowView>) -> Seq<char>
    decreases rs.len(),
{
    if rs.len() == 0 {
        seq![]
    } else {
        kind_lines(rs.drop_last()) + count_line(text_or(rs.last().kind, "?"@), rs.last().count)
    }
}

/// The statistics of a store named `backend`.
pub open spec fn stats_text(
    backend: Seq<char>,
    nodes: Option<i64>,
    edges: Option<i64>,
    files: Option<i64>,
    langs: Option<Seq<RowView>>,
    kinds: Option<Seq<RowView>>,
) -> Seq<char> {
    "Graph Statistics ("@ + backend + "):\n"@ + "  Nodes: "@ + json_number(nodes) + "\n"@
        + "  Edges: "@ + json_number(edges) + "\n"@ + "  Files: "@ + json_number(files) + "\n"@
        + match langs {
        Some(ls) => "\n  By Language:\n"@ + language_lines(ls),
        None => Seq::<char>::empty(),
    } + match kinds {
        Some(ks) => "\n  By Kind:\n"@ + kind_lines(ks),
        None => Seq::<char>::empty(),
    }
}

fn count_line_chars(label: &[char], count: Option<i64>) -> (r: Vec<char>)
    ensures
        r@ == count_line(label@, count),
{
    let mut out: Vec<char> = Vec::new();
    append_str(&mut out, "    ");
    append_padded_right(&mut out, label, 15);
    append_str(&mut out, " ");
    append_chars(&mut out, &json_number_chars(count));
    append_str(&mut out, "\n");
    proof {
        assert(out@ =~= count_line(label@, count));
    }
    out
}

fn append_count_lines(out: &mut Vec<char>, rows: &Vec<Row>, by_language: bool)
    ensures
        by_language ==> final(out)@ == old(out)@ + language_lines(row_views(rows@)),
        !by_language ==> final(out)@ == old(out)@ + kind_lines(row_views(rows@)),
{
    let ghost rv = row_views(rows@);
    let ghost start = out@;
    let mut i: usize = 0;
    while i < rows.len()
        invariant
            i <= rows@.len(),
            rv == row_views(rows@),
            by_language ==> out@ == start + language_lines(rv.take(i as int)),
            !by_language ==> out@ == start + kind_lines(rv.take(i as int)),
        decreases rows@.len() - i,
    {
        proof {
            assert(rv.take(i as int + 1).drop_last() =~= rv.take(i as int));
            assert(rv.take(i as int + 1).last() == rows@[i as int]@);
        }
        let label = if by_language {
            text_or_chars(&rows[i].language, "?")
        } else {
            text_or_chars(&rows[i].kind, "?")
        };
        let line = count_line_chars(&label, rows[i].count);
        append_chars(out, &line);
        i = i + 1;
    }
    proof {
        assert(rv.take(rows@.len() as int) =~= rv);
    }
}

/// The statistics of a store named `backend` (see `stats_text`).
pub fn stats_report(backend: &str, stats: &GraphStats) -> (r: String)
    ensures
        r@ == stats_text(
            backend@,
            stats.nodes,
            stats.edges,
            stats.files,
            opt_rows(stats.languages),
            opt_rows(stats.kinds),
        ),
{
    let mut out: Vec<char> = Vec::new();
    append_str(&mut out, "Graph Statistics (");
    append_str(&mut out, backend);
    append_str(&mut out, "):\n");
    append_str(&mut out, "  Nodes: ");
    append_chars(&mut out, &json_number_chars(stats.nodes));
    append_str(&mut out, "\n");
    append_str(&mut out, "  Edges: ");
    append_chars(&mut out, &json_number_chars(stats.edges));
    append_str(&mut out, "\n");
    append_str(&mut out, "  Files: ");
    append_chars(&mut out, &json_number_chars(stats.files));
    append_str(&mut out, "\n");
    let ghost h1 = out@;
    match &stats.languages {
        Some(ls) => {
            append_str(&mut out, "\n  By Language:\n");
            append_count_lines(&mut out, ls, true);
        },
        None => {},
    }
    let ghost h2 = out@;
    match &stats.kinds {
        Some(ks) => {
            append_str(&mut out, "\n  By Kind:\n");
            append_count_lines(&mut out, ks, false);
        },
        None => {},
    }
    proof {
        assert(out@ =~= stats_text(
            backend@,
            stats.nodes,
            stats.edges,
            stats.files,
            opt_rows(stats.languages),
            opt_rows(stats.kinds),
        ));
    }
    string_of(&out)
}

} // verus!
