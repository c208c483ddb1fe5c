//! The symbols a diff touches, by file.
use vstd::prelude::*;
use crate::commands::rows::{
    Row, RowView, row_views, text_or, text_or_chars, int_or_zero, pad_right, pad_left,
    append_padded_right, append_padded_left, sorted_distinct, insert_distinct_sorted,
    add_distinct_sorted,
};
use crate::text::{chars_of, string_of, append_str, append_chars, eq_chars};
use crate::num::{dec_nat, dec_int, fmt_u64, fmt_i64, fmt_u128};

verus! {

/// How the compared revisions are named.
pub open spec fn diff_desc(base: Option<Seq<char>>) -> Seq<char> {
    match base {
        Some(b) => b + "..HEAD"@,
        None => "HEAD..worktree"@,
    }
}

/// The message when the diff is empty.
pub open spec fn no_diff_text(base: Option<Seq<char>>) -> Seq<char> {
    "No diff between "@ + text_or(base, "HEAD"@) + " and the working tree.\n"@
}

/// The message when the diff is empty.
pub fn no_diff_message(base: Option<&str>) -> (r: String)
    ensures
        r@ == no_diff_text(
            match base {
                Some(b) => Some(b@),
                None => None,
            },
        ),
{
    let mut out: Vec<char> = Vec::new();
    append_str(&mut out, "No diff between ");
    match base {
        Some(b) => append_str(&mut out, b),
        None => append_str(&mut out, "HEAD"),
    }
    append_str(&mut out, " and the working tree.\n");
    proof {
        assert(out@ =~= no_diff_text(
            match base {
                Some(b) => Some(b@),
                None => None,
            },
        ));
    }
    string_of(&out)
}

/// The rows of one hunk that carry an identifier, each with its file: the
/// row's own, else the hunk's.
pub open spec fn hunk_entries(hf: Seq<char>, rows: Seq<RowView>) -> Seq<(Seq<char>, RowView)>
    decreases rows.len(),
{
    if rows.len() == 0 {
        seq![]
    } else {
        let prev = hunk_entries(hf, rows.drop_last());
        let r = rows.last();
        if r.id is Some {
            prev.push((text_or(r.file_path, hf), r))
        } else {
            prev
        }
    }
}

/// The entries of all hunks, in order.
pub open spec fn changed_entries(hs: Seq<(Seq<char>, Seq<RowView>)>) -> Seq<(Seq<char>, RowView)>
    decreases hs.len(),
{
    if hs.len() == 0 {
        seq![]
    } else {
        changed_entries(hs.drop_last()) + hunk_entries(hs.last().0, hs.last().1)
    }
}

pub open spec fn entry_files(es: Seq<(Seq<char>, RowView)>) -> Seq<Seq<char>> {
    es.map_values(|e: (Seq<char>, RowView)| e.0)
}

/// The identifiers of the entries of the file `f`, in order.
pub open spec fn file_ids(es: Seq<(Seq<char>, RowView)>, f: Seq<char>) -> Seq<Seq<char>>
    decreases es.len(),
{
    if es.len() == 0 {
        seq![]
    } else {
        let prev = file_ids(es.drop_last(), f);
        if es.last().0 == f {
            prev.push(text_or(es.last().1.id, ""@))
        } else {
            prev
        }
    }
}

/// The last entry of the file `f` with the identifier `id`.
pub open spec fn last_row_for(es: Seq<(Seq<char>, RowView)>, f: Seq<char>, id: Seq<char>) -> Option<
    RowView,
>
    decreases es.len(),
{
    if es.len() == 0 {
        None
    } else if es.last().0 == f && es.last().1.id == Some(id) {
        Some(es.last().1)
    } else {
        last_row_for(es.drop_last(), f, id)
    }
}

/// The rows of the file `f`, one per identifier (the last one given for it),
/// in ascending order of identifier.
pub open spec fn rows_by_id(es: Seq<(Seq<char>, RowView)>, f: Seq<char>, ids: Seq<Seq<char>>) -> Seq<
    RowView,
>
    decreases ids.len(),
{
    if ids.len() == 0 {
        seq![]
    } else {
        let prev = rows_by_id(es, f, ids.drop_last());
        match last_row_for(es, f, ids.last()) {
            Some(r) => prev.push(r),
            None => prev,
        }
    }
}

pub open spec fn file_rows(es: Seq<(Seq<char>, RowView)>, f: Seq<char>) -> Seq<RowView> {
    rows_by_id(es, f, sorted_distinct(file_ids(es, f)))
}

/// `s` with `x` placed after every row starting no later than it.
pub open spec fn insert_by_line(s: Seq<RowView>, x: RowView) -> Seq<RowView>
    decreases s.len(),
{
    if s.len() == 0 {
        seq![x]
    } else if int_or_zero(x.line_start) < int_or_zero(s[0].line_start) {
        seq![x] + s
    } else {
        seq![s[0]] + insert_by_line(s.drop_first(), x)
    }
}

/// The rows by ascending start line; rows starting on the same line keep
/// their order.
pub open spec fn sort_by_line(s: Seq<RowView>) -> Seq<RowView>
    decreases s.len(),
{
    if s.len() == 0 {
        seq![]
    } else {
        insert_by_line(sort_by_line(s.drop_last()), s.last())
    }
}

pub open spec fn changed_line(r: RowView) -> Seq<char> {
    "  L"@ + pad_left(dec_int(int_or_zero(r.line_start)), 5) + "-"@ + pad_right(
        dec_int(int_or_zero(r.line_end)),
        5,
    ) + " "@ + pad_right(text_or(r.kind, "?"@), 12) + " "@ + text_or(r.name, "?"@) + "\n"@
}

pub open spec fn changed_lines(rs: Seq<RowView>) -> Seq<char>
    decreases rs.len(),
{
    if rs.len() == 0 {
        seq![]
    } else {
        changed_lines(rs.drop_last()) + changed_line(rs.last())
    }
}

pub open spec fn file_sections(es: Seq<(Seq<char>, RowView)>, files: Seq<Seq<char>>) -> Seq<char>
    decreases files.len(),
{
    if files.len() == 0 {
        seq![]
    } else {
        file_sections(es, files.drop_last()) + files.last() + "\n"@ + changed_lines(
            sort_by_line(file_rows(es, files.last())),
        )
    }
}

/// The number of distinct identifiers over the files.
pub open spec fn total_symbols(es: Seq<(Seq<char>, RowView)>, files: Seq<Seq<char>>) -> nat
    decreases files.len(),
{
    if files.len() == 0 {
        0
    } else {
        total_symbols(es, files.drop_last()) + sorted_distinct(file_ids(es, files.last())).len()
    }
}

/// The changed symbols in the order their callers are listed: by file, then
/// by identifier.
pub open spec fn caller_order(es: Seq<(Seq<char>, RowView)>, files: Seq<Seq<char>>) -> Seq<RowView>
    decreases files.len(),
{
    if files.len() == 0 {
        seq![]
    } else {
        caller_order(es, files.drop_last()) + file_rows(es, files.last())
    }
}

/// The callers of one changed symbol: at most ten, then how many more.
pub open spec fn callers_block(name: Seq<char>, cs: Seq<RowView>) -> Seq<char> {
    if cs.len() == 0 {
        "  "@ + name + " — no callers in the graph\n"@
    } else {
        "  "@ + name + " ("@ + dec_nat(cs.len()) + " caller"@ + (if cs.len() == 1 {
            ""@
        } else {
            "s"@
        }) + "):\n"@ + caller_entries(cs.take(if cs.len() < 10 {
            cs.len() as int
        } else {
            10
        })) + if cs.len() > 10 {
            "    ... and "@ + dec_nat((cs.len() - 10) as nat) + " more\n"@
        } else {
            Seq::<char>::empty()
        }
    }
}

pub open spec fn caller_entry(c: RowView) -> Seq<char> {
    "    ← "@ + text_or(c.name, "?"@) + " @ "@ + text_or(c.file_path, ""@) + ":"@ + dec_int(
        int_or_zero(c.call_site_line),
    ) + "\n"@
}

pub open spec fn caller_entries(cs: Seq<RowView>) -> Seq<char>
    decreases cs.len(),
{
    if cs.len() == 0 {
        seq![]
    } else {
        caller_entries(cs.drop_last()) + caller_entry(cs.last())
    }
}

pub open spec fn callers_blocks(syms: Seq<RowView>, callers: Seq<Seq<RowView>>) -> Seq<char>
    decreases syms.len(),
{
    if syms.len() == 0 || callers.len() < syms.len() {
        seq![]
    } else {
        callers_blocks(syms.drop_last(), callers) + callers_block(
            text_or(syms.last().name, "?"@),
            callers[syms.len() - 1],
        )
    }
}

pub open spec fn hunk_views(hs: Seq<(String, Vec<Row>)>) -> Seq<(Seq<char>, Seq<RowView>)> {
    hs.map_values(|h: (String, Vec<Row>)| (h.0@, row_views(h.1@)))
}

/// The report on a diff of `hunk_count` hunks whose overlapping symbols are
/// `hs` (per hunk: its file and the rows found in its range): the files in
/// ascending order, each with its symbols (one per identifier) by start line;
/// with `callers`, the callers of each symbol (in the order of
/// `changed_symbol_order`) follow.
pub open spec fn changed_symbols_text(
    hunk_count: nat,
    base: Option<Seq<char>>,
    hs: Seq<(Seq<char>, Seq<RowView>)>,
    callers: Option<Seq<Seq<RowView>>>,
) -> Seq<char> {
    let es = changed_entries(hs);
    let files = sorted_distinct(entry_files(es));
    let total = total_symbols(es, files);
    if total == 0 {
        "Diff ("@ + diff_desc(base) + ") touched "@ + dec_nat(hunk_count)
            + " hunk(s) but no tracked symbols overlapped.\nFiles may be outside the scanned language set, or changes may be in comments / whitespace.\n"@
    } else {
        "Changed symbols ("@ + diff_desc(base) + ") — "@ + dec_nat(total) + " symbols across "@
            + dec_nat(files.len()) + " file(s):\n\n"@ + file_sections(es, files) + match callers {
            Some(cs) => "\nDirect callers of each changed symbol (--callers):\n"@ + callers_blocks(
                caller_order(es, files),
                cs,
            ),
            None => Seq::<char>::empty(),
        }
    }
}

fn collect_entries(hunks: &Vec<(String, Vec<Row>)>) -> (r: Vec<(Vec<char>, Row)>)
    ensures
        r@.map_values(|e: (Vec<char>, Row)| (e.0@, e.1@)) == changed_entries(hunk_views(hunks@)),
{
    let ghost hv = hunk_views(hunks@);
    let mut r: Vec<(Vec<char>, Row)> = Vec::new();
    let mut i: usize = 0;
    while i < hunks.len()
        invariant
            i <= hunks@.len(),
            hv == hunk_views(hunks@),
            r@.map_values(|e: (Vec<char>, Row)| (e.0@, e.1@)) == changed_entries(hv.take(i as int)),
        decreases hunks@.len() - i,
    {
        let hf = &hunks[i].0;
        let rows = &hunks[i].1;
        let ghost base = r@.map_values(|e: (Vec<char>, Row)| (e.0@, e.1@));
        let mut j: usize = 0;
        proof {
            assert(base + hunk_entries(hf@, row_views(rows@).take(0)) =~= base);
        }
        while j < rows.len()
            invariant
                j <= rows@.len(),
                r@.map_values(|e: (Vec<char>, Row)| (e.0@, e.1@)) == base + hunk_entries(
                    hf@,
                    row_views(rows@).take(j as int),
                ),
            decreases rows@.len() - j,
        {
            let row = &rows[j];
            proof {
                assert(row_views(rows@).take(j as int + 1).drop_last() =~= row_views(rows@).take(
                    j as int,
                ));
                assert(row_views(rows@).take(j as int + 1).last() == row@);
            }
            let ghost before = r@.map_values(|e: (Vec<char>, Row)| (e.0@, e.1@));
            if row.id.is_some() {
                let f = match &row.file_path {
                    Some(p) => chars_of(p.as_str()),
                    None => chars_of(hf.as_str()),
                };
                r.push((f, row.duplicate()));
                proof {
                    assert(r@.map_values(|e: (Vec<char>, Row)| (e.0@, e.1@)) =~= before.push(
                        (text_or(row@.file_path, hf@), row@),
                    ));
                }
            }
            j = j + 1;
        }
        proof {
            assert(row_views(rows@).take(rows@.len() as int) =~= row_views(rows@));
            assert(hv.take(i as int + 1).drop_last() =~= hv.take(i as int));
            assert(hv.take(i as int + 1).last() == (hf@, row_views(rows@)));
        }
        i = i + 1;
    }
    proof {
        assert(hv.take(hunks@.len() as int) =~= hv);
    }
    r
}

pub open spec fn entry_views(es: Seq<(Vec<char>, Row)>) -> Seq<(Seq<char>, RowView)> {
    es.map_values(|e: (Vec<char>, Row)| (e.0@, e.1@))
}

fn files_of(es: &Vec<(Vec<char>, Row)>) -> (r: Vec<Vec<char>>)
    ensures
        r@.map_values(|c: Vec<char>| c@) == sorted_distinct(entry_files(entry_views(es@))),
{
    let ghost ev = entry_views(es@);
    let mut r: Vec<Vec<char>> = Vec::new();
    let mut i: usize = 0;
    while i < es.len()
        invariant
            i <= es@.len(),
            ev == entry_views(es@),
            r@.map_values(|c: Vec<char>| c@) == sorted_distinct(entry_files(ev.take(i as int))),
        decreases es@.len() - i,
    {
        proof {
            assert(entry_files(ev.take(i as int + 1)).drop_last() =~= entry_files(ev.take(i as int)));
            assert(entry_files(ev.take(i as int + 1)).last() == es@[i as int].0@);
        }
        add_distinct_sorted(&mut r, &es[i].0);
        i = i + 1;
    }
    proof {
        assert(ev.take(es@.len() as int) =~= ev);
    }
    r
}

fn ids_of_file(es: &Vec<(Vec<char>, Row)>, f: &[char]) -> (r: Vec<Vec<char>>)
    ensures
        r@.map_values(|c: Vec<char>| c@) == sorted_distinct(file_ids(entry_views(es@), f@)),
{
    let ghost ev = entry_views(es@);
    let mut r: Vec<Vec<char>> = Vec::new();
    let mut i: usize = 0;
    while i < es.len()
        invariant
            i <= es@.len(),
            ev == entry_views(es@),
            r@.map_values(|c: Vec<char>| c@) == sorted_distinct(file_ids(ev.take(i as int), f@)),
        decreases es@.len() - i,
    {
        proof {
            assert(ev.take(i as int + 1).drop_last() =~= ev.take(i as int));
            assert(ev.take(i as int + 1).last() == (es@[i as int].0@, es@[i as int].1@));
        }
        if eq_chars(&es[i].0, f) {
            let id = text_or_chars(&es[i].1.id, "");
            let ghost pre = file_ids(ev.take(i as int), f@);
            add_distinct_sorted(&mut r, &id);
            proof {
                assert(pre.push(id@).drop_last() =~= pre);
            }
        }
        i = i + 1;
    }
    proof {
        assert(ev.take(es@.len() as int) =~= ev);
    }
    r
}

fn find_last_row(es: &Vec<(Vec<char>, Row)>, f: &[char], id: &[char]) -> (r: Option<usize>)
    ensures
        match r {
            Some(k) => k < es@.len() && last_row_for(entry_views(es@), f@, id@) == Some(
                es@[k as int].1@,
            ),
            None => last_row_for(entry_views(es@), f@, id@) is None,
        },
{
    let ghost ev = entry_views(es@);
    let mut found: Option<usize> = None;
    let mut i: usize = 0;
    while i < es.len()
        invariant
            i <= es@.len(),
            ev == entry_views(es@),
            match found {
                Some(k) => k < i && last_row_for(ev.take(i as int), f@, id@) == Some(
                    es@[k as int].1@,
                ),
                None => last_row_for(ev.take(i as int), f@, id@) is None,
            },
        decreases es@.len() - i,
    {
        proof {
            assert(ev.take(i as int + 1).drop_last() =~= ev.take(i as int));
            assert(ev.take(i as int + 1).last() == (es@[i as int].0@, es@[i as int].1@));
        }
        if eq_chars(&es[i].0, f) {
            match &es[i].1.id {
                Some(x) => {
                    let xc = chars_of(x.as_str());
                    if eq_chars(&xc, id) {
                        found = Some(i);
                    }
                },
                None => {},
            }
        }
        i = i + 1;
    }
    proof {
        assert(ev.take(es@.len() as int) =~= ev);
    }
    found
}

proof fn lemma_insert_by_line_at(s: Seq<RowView>, x: RowView, k: int)
    requires
        0 <= k <= s.len(),
        forall|j: int| 0 <= j < k ==> !(int_or_zero(x.line_start) < int_or_zero(
            (#[trigger] s[j]).line_start,
        )),
        k == s.len() || int_or_zero(x.line_start) < int_or_zero(s[k].line_start),
    ensures
        insert_by_line(s, x) == s.take(k).push(x) + s.skip(k),
    decreases k,
{
    if k == 0 {
        assert(s.take(k).push(x) + s.skip(k) =~= seq![x] + s);
    } else {
        let t = s.drop_first();
        assert forall|j: int| 0 <= j < k - 1 implies !(int_or_zero(x.line_start) < int_or_zero(
            (#[trigger] t[j]).line_start,
        )) by {
            assert(t[j] == s[j + 1]);
        }
        assert(k - 1 == t.len() || t[k - 1] == s[k]);
        lemma_insert_by_line_at(t, x, k - 1);
        assert(seq![s[0]] + (t.take(k - 1).push(x) + t.skip(k - 1)) =~= s.take(k).push(x) + s.skip(
            k,
        ));
    }
}

/// The rows of the file `f` by identifier, and the same rows by start line.
fn rows_of_file(es: &Vec<(Vec<char>, Row)>, f: &[char]) -> (r: (Vec<Row>, Vec<Row>))
    ensures
        row_views(r.0@) == file_rows(entry_views(es@), f@),
        row_views(r.1@) == sort_by_line(file_rows(entry_views(es@), f@)),
        r.0@.len() <= sorted_distinct(file_ids(entry_views(es@), f@)).len(),
{
    let ids = ids_of_file(es, f);
    let ghost iv = ids@.map_values(|c: Vec<char>| c@);
    let ghost ev = entry_views(es@);
    let mut by_id: Vec<Row> = Vec::new();
    let mut by_line: Vec<Row> = Vec::new();
    let mut i: usize = 0;
    while i < ids.len()
        invariant
            i <= ids@.len(),
            ev == entry_views(es@),
            iv == ids@.map_values(|c: Vec<char>| c@),
            iv == sorted_distinct(file_ids(ev, f@)),
            row_views(by_id@) == rows_by_id(ev, f@, iv.take(i as int)),
            row_views(by_line@) == sort_by_line(rows_by_id(ev, f@, iv.take(i as int))),
            by_id@.len() <= i,
        decreases ids@.len() - i,
    {
        proof {
            assert(iv.take(i as int + 1).drop_last() =~= iv.take(i as int));
            assert(iv.take(i as int + 1).last() == ids@[i as int]@);
        }
        match find_last_row(es, f, &ids[i]) {
            Some(k) => {
                let row = &es[k].1;
                let ghost prev = row_views(by_id@);
                by_id.push(row.duplicate());
                proof {
                    assert(row_views(by_id@) =~= prev.push(row@));
                    assert(prev.push(row@).drop_last() =~= prev);
                }
                let ghost cur = row_views(by_line@);
                let mut p: usize = 0;
                loop
                    invariant
                        p <= by_line@.len(),
                        cur == row_views(by_line@),
                        forall|j: int| 0 <= j < p ==> !(int_or_zero(row@.line_start) < int_or_zero(
                            (#[trigger] cur[j]).line_start,
                        )),
                    ensures
                        p <= by_line@.len(),
                        cur == row_views(by_line@),
                        p == by_line@.len() || int_or_zero(row@.line_start) < int_or_zero(
                            cur[p as int].line_start,
                        ),
                    decreases by_line@.len() - p,
                {
                    if p == by_line.len() {
                        break;
                    }
                    let a: i64 = match row.line_start {
                        Some(v) => v,
                        None => 0,
                    };
                    let b: i64 = match by_line[p].line_start {
                        Some(v) => v,
                        None => 0,
                    };
                    proof {
                        assert(cur[p as int] == by_line@[p as int]@);
                    }
                    if a < b {
                        break;
                    }
                    p = p + 1;
                }
                proof {
                    lemma_insert_by_line_at(cur, row@, p as int);
                }
                by_line.insert(p, row.duplicate());
                proof {
                    assert(row_views(by_line@) =~= cur.take(p as int).push(row@) + cur.skip(p as int));
                }
            },
            None => {},
        }
        i = i + 1;
    }
    proof {
        assert(iv.take(ids@.len() as int) =~= iv);
    }
    (by_id, by_line)
}

fn changed_line_chars(r: &Row) -> (out: Vec<char>)
    ensures
        out@ == changed_line(r@),
{
    let mut out: Vec<char> = Vec::new();
    append_str(&mut out, "  L");
    let s: i64 = match r.line_start {
        Some(v) => v,
        None => 0,
    };
    let e: i64 = match r.line_end {
        Some(v) => v,
        None => 0,
    };
    append_padded_left(&mut out, &fmt_i64(s), 5);
    append_str(&mut out, "-");
    append_padded_right(&mut out, &fmt_i64(e), 5);
    append_str(&mut out, " ");
    append_padded_right(&mut out, &text_or_chars(&r.kind, "?"), 12);
    append_str(&mut out, " ");
    append_chars(&mut out, &text_or_chars(&r.name, "?"));
    append_str(&mut out, "\n");
    proof {
        assert(out@ =~= changed_line(r@));
    }
    out
}

fn caller_entry_chars(c: &Row) -> (out: Vec<char>)
    ensures
        out@ == caller_entry(c@),
{
    let mut out: Vec<char> = Vec::new();
    append_str(&mut out, "    ← ");
    append_chars(&mut out, &text_or_chars(&c.name, "?"));
    append_str(&mut out, " @ ");
    append_chars(&mut out, &text_or_chars(&c.file_path, ""));
    append_str(&mut out, ":");
    let l: i64 = match c.call_site_line {
        Some(v) => v,
        None => 0,
    };
    append_chars(&mut out, &fmt_i64(l));
    append_str(&mut out, "\n");
    proof {
        assert(out@ =~= caller_entry(c@));
    }
    out
}

fn callers_block_chars(name: &[char], cs: &Vec<Row>) -> (out: Vec<char>)
    ensures
        out@ == callers_block(name@, row_views(cs@)),
{
    let ghost cv = row_views(cs@);
    let mut out: Vec<char> = Vec::new();
    append_str(&mut out, "  ");
    append_chars(&mut out, name);
    if cs.len() == 0 {
        append_str(&mut out, " — no callers in the graph\n");
        proof {
            assert(out@ =~= callers_block(name@, cv));
        }
        return out;
    }
    append_str(&mut out, " (");
    append_chars(&mut out, &fmt_u64(cs.len() as u64));
    append_str(&mut out, " caller");
    if cs.len() == 1 {
        append_str(&mut out, "");
    } else {
        append_str(&mut out, "s");
    }
    append_str(&mut out, "):\n");
    let top: usize = if cs.len() < 10 {
        cs.len()
    } else {
        10
    };
    let ghost head = out@;
    let mut i: usize = 0;
    while i < top
        invariant
            i <= top,
            top <= cs@.len(),
            cv == row_views(cs@),
            out@ == head + caller_entries(cv.take(i as int)),
        decreases top - i,
    {
        proof {
            assert(cv.take(i as int + 1).drop_last() =~= cv.take(i as int));
            assert(cv.take(i as int + 1).last() == cs@[i as int]@);
        }
        let line = caller_entry_chars(&cs[i]);
        append_chars(&mut out, &line);
        i = i + 1;
    }
    if cs.len() > 10 {
        append_str(&mut out, "    ... and ");
        append_chars(&mut out, &fmt_u64((cs.len() - 10) as u64));
        append_str(&mut out, " more\n");
    }
    proof {
        assert(out@ =~= callers_block(name@, cv));
    }
    out
}

/// The changed symbols in the order their callers are listed: files in
/// ascending order, each file's symbols by identifier.
pub fn changed_symbol_order(hunks: &Vec<(String, Vec<Row>)>) -> (r: Vec<Row>)
    ensures
        row_views(r@) == caller_order(
            changed_entries(hunk_views(hunks@)),
            sorted_distinct(entry_files(changed_entries(hunk_views(hunks@)))),
        ),
{
    let es = collect_entries(hunks);
    let files = files_of(&es);
    let ghost ev = entry_views(es@);
    let ghost fv = files@.map_values(|c: Vec<char>| c@);
    let mut r: Vec<Row> = Vec::new();
    let mut i: usize = 0;
    while i < files.len()
        invariant
            i <= files@.len(),
            ev == entry_views(es@),
            fv == files@.map_values(|c: Vec<char>| c@),
            row_views(r@) == caller_order(ev, fv.take(i as int)),
        decreases files@.len() - i,
    {
        proof {
            assert(fv.take(i as int + 1).drop_last() =~= fv.take(i as int));
            assert(fv.take(i as int + 1).last() == files@[i as int]@);
        }
        let (by_id, _) = rows_of_file(&es, &files[i]);
        let mut j: usize = 0;
        let ghost base = row_views(r@);
        while j < by_id.len()
            invariant
                j <= by_id@.len(),
                row_views(r@) == base + row_views(by_id@).take(j as int),
            decreases by_id@.len() - j,
        {
            let ghost before = row_views(r@);
            r.push(by_id[j].duplicate());
            proof {
                assert(row_views(r@) =~= before.push(by_id@[j as int]@));
                assert(row_views(by_id@).take(j as int + 1) =~= row_views(by_id@).take(j as int).push(
                    by_id@[j as int]@,
                ));
            }
            j = j + 1;
        }
        proof {
            assert(row_views(by_id@).take(by_id@.len() as int) =~= row_views(by_id@));
        }
        i = i + 1;
    }
    proof {
        assert(fv.take(files@.len() as int) =~= fv);
    }
    r
}

pub open spec fn callers_views(cs: Seq<Vec<Row>>) -> Seq<Seq<RowView>> {
    cs.map_values(|v: Vec<Row>| row_views(v@))
}

/// The report on a diff of `hunk_count` hunks (see `changed_symbols_text`);
/// `callers`, where given, holds the callers of each symbol of
/// `changed_symbol_order`, in that order.
pub fn changed_symbols_report(
    hunk_count: usize,
    base: Option<&str>,
    hunks: &Vec<(String, Vec<Row>)>,
    callers: Option<&Vec<Vec<Row>>>,
) -> (r: String)
    ensures
        r@ == changed_symbols_text(
            hunk_count as nat,
            match base {
                Some(b) => Some(b@),
                None => None,
            },
            hunk_views(hunks@),
            match callers {
                Some(c) => Some(callers_views(c@)),
                None => None,
            },
        ),
{
    let ghost bv = match base {
        Some(b) => Some(b@),
        None => None::<Seq<char>>,
    };
    let ghost cv = match callers {
        Some(c) => Some(callers_views(c@)),
        None => None::<Seq<Seq<RowView>>>,
    };
    let es = collect_entries(hunks);
    let files = files_of(&es);
    let ghost ev = entry_views(es@);
    let ghost fv = files@.map_values(|c: Vec<char>| c@);
    let mut desc: Vec<char> = Vec::new();
    match base {
        Some(b) => {
            append_str(&mut desc, b);
            append_str(&mut desc, "..HEAD");
        },
        None => append_str(&mut desc, "HEAD..worktree"),
    }
    proof {
        assert(desc@ =~= diff_desc(bv));
    }
    let n_es: usize = es.len();
    let mut total: u128 = 0;
    let mut body: Vec<char> = Vec::new();
    let mut order: Vec<Row> = Vec::new();
    let mut i: usize = 0;
    while i < files.len()
        invariant
            i <= files@.len(),
            ev == entry_views(es@),
            fv == files@.map_values(|c: Vec<char>| c@),
            fv == sorted_distinct(entry_files(ev)),
            total == total_symbols(ev, fv.take(i as int)),
            total <= es@.len() * i,
            n_es == es@.len(),
            body@ == file_sections(ev, fv.take(i as int)),
            row_views(order@) == caller_order(ev, fv.take(i as int)),
        decreases files@.len() - i,
    {
        proof {
            assert(fv.take(i as int + 1).drop_last() =~= fv.take(i as int));
            assert(fv.take(i as int + 1).last() == files@[i as int]@);
        }
        let ids = ids_of_file(&es, &files[i]);
        proof {
            lemma_sorted_distinct_len(file_ids(ev, files@[i as int]@));
            lemma_file_ids_len(ev, files@[i as int]@);
            assert(ids@.len() == sorted_distinct(file_ids(ev, files@[i as int]@)).len());
            assert(total + ids@.len() <= es@.len() * (i + 1)) by (nonlinear_arith)
                requires
                    total <= es@.len() * i,
                    ids@.len() <= es@.len(),
            ;
            assert(es@.len() * (i + 1) <= usize::MAX * usize::MAX) by (nonlinear_arith)
                requires
                    es@.len() <= usize::MAX,
                    i + 1 <= usize::MAX,
            ;
            assert(usize::MAX * usize::MAX < u128::MAX) by (nonlinear_arith)
                requires
                    usize::MAX <= u64::MAX,
            ;
        }
        total = total + ids.len() as u128;
        let (by_id, by_line) = rows_of_file(&es, &files[i]);
        append_chars(&mut body, &files[i]);
        append_str(&mut body, "\n");
        let ghost sb = body@;
        let mut j: usize = 0;
        while j < by_line.len()
            invariant
                j <= by_line@.len(),
                body@ == sb + changed_lines(row_views(by_line@).take(j as int)),
            decreases by_line@.len() - j,
        {
            proof {
                assert(row_views(by_line@).take(j as int + 1).drop_last() =~= row_views(by_line@).take(
                    j as int,
                ));
                assert(row_views(by_line@).take(j as int + 1).last() == by_line@[j as int]@);
            }
            let line = changed_line_chars(&by_line[j]);
            append_chars(&mut body, &line);
            j = j + 1;
        }
        proof {
            assert(row_views(by_line@).take(by_line@.len() as int) =~= row_views(by_line@));
        }
        let ghost base_order = row_views(order@);
        let mut k: usize = 0;
        while k < by_id.len()
            invariant
                k <= by_id@.len(),
                row_views(order@) == base_order + row_views(by_id@).take(k as int),
            decreases by_id@.len() - k,
        {
            let ghost before = row_views(order@);
            order.push(by_id[k].duplicate());
            proof {
                assert(row_views(order@) =~= before.push(by_id@[k as int]@));
                assert(row_views(by_id@).take(k as int + 1) =~= row_views(by_id@).take(k as int).push(
                    by_id@[k as int]@,
                ));
            }
            k = k + 1;
        }
        proof {
            assert(row_views(by_id@).take(by_id@.len() as int) =~= row_views(by_id@));
        }
        i = i + 1;
    }
    proof {
        assert(fv.take(files@.len() as int) =~= fv);
    }
    let mut out: Vec<char> = Vec::new();
    if total == 0 {
        append_str(&mut out, "Diff (");
        append_chars(&mut out, &desc);
        append_str(&mut out, ") touched ");
        append_chars(&mut out, &fmt_u64(hunk_count as u64));
        append_str(
            &mut out,
            " hunk(s) but no tracked symbols overlapped.\nFiles may be outside the scanned language set, or changes may be in comments / whitespace.\n",
        );
        proof {
            assert(out@ =~= changed_symbols_text(hunk_count as nat, bv, hunk_views(hunks@), cv));
        }
        return string_of(&out);
    }
    append_str(&mut out, "Changed symbols (");
    append_chars(&mut out, &desc);
    append_str(&mut out, ") — ");
    append_chars(&mut out, &fmt_u128(total));
    append_str(&mut out, " symbols across ");
    append_chars(&mut out, &fmt_u64(files.len() as u64));
    append_str(&mut out, " file(s):\n\n");
    append_chars(&mut out, &body);
    let ghost before_callers = out@;
    match callers {
        Some(cs) => {
            append_str(&mut out, "\nDirect callers of each changed symbol (--callers):\n");
            let ghost ov = row_views(order@);
            let ghost ccv = callers_views(cs@);
            let ghost h = out@;
            if cs.len() >= order.len() {
                let mut m: usize = 0;
                while m < order.len()
                    invariant
                        m <= order@.len(),
                        order@.len() <= cs@.len(),
                        ov == row_views(order@),
                        ccv == callers_views(cs@),
                        out@ == h + callers_blocks(ov.take(m as int), ccv),
                    decreases order@.len() - m,
                {
                    proof {
                        assert(ov.take(m as int + 1).drop_last() =~= ov.take(m as int));
                        assert(ov.take(m as int + 1).last() == order@[m as int]@);
                        assert(ccv[m as int] == row_views(cs@[m as int]@));
                    }
                    let name = text_or_chars(&order[m].name, "?");
                    let block = callers_block_chars(&name, &cs[m]);
                    append_chars(&mut out, &block);
                    m = m + 1;
                }
                proof {
                    assert(ov.take(order@.len() as int) =~= ov);
                }
            } else {
                proof {
                    assert(callers_blocks(ov, ccv) =~= Seq::<char>::empty());
                    assert(out@ =~= h + callers_blocks(ov, ccv));
                }
            }
        },
        None => {},
    }
    proof {
        assert(out@ =~= changed_symbols_text(hunk_count as nat, bv, hunk_views(hunks@), cv));
    }
    string_of(&out)
}

proof fn lemma_insert_distinct_len(s: Seq<Seq<char>>, x: Seq<char>)
    ensures
        insert_distinct_sorted(s, x).len() <= s.len() + 1,
    decreases s.len(),
{
    if s.len() > 0 {
        lemma_insert_distinct_len(s.drop_first(), x);
    }
}

proof fn lemma_sorted_distinct_len(s: Seq<Seq<char>>)
    ensures
        sorted_distinct(s).len() <= s.len(),
    decreases s.len(),
{
    if s.len() > 0 {
        lemma_sorted_distinct_len(s.drop_last());
        lemma_insert_distinct_len(sorted_distinct(s.drop_last()), s.last());
    }
}

proof fn lemma_file_ids_len(es: Seq<(Seq<char>, RowView)>, f: Seq<char>)
    ensures
        file_ids(es, f).len() <= es.len(),
    decreases es.len(),
{
    if es.len() > 0 {
        lemma_file_ids_len(es.drop_last(), f);
    }
}


/// The caller lines of `cs`: one `caller_entry` per caller, in order.
proof fn lemma_caller_entries_lines(cs: Seq<RowView>)
    ensures
        caller_entries(cs) == Seq::new(cs.len(), |i: int| caller_entry(cs[i])).flatten(),
    decreases cs.len(),
{
    if cs.len() > 0 {
        let d = cs.drop_last();
        lemma_caller_entries_lines(d);
        let ld = Seq::new(d.len(), |i: int| caller_entry(d[i]));
        assert(Seq::new(cs.len(), |i: int| caller_entry(cs[i])) =~= ld.push(caller_entry(cs.last())));
        ld.lemma_flatten_push(caller_entry(cs.last()));
    } else {
        assert(Seq::new(cs.len(), |i: int| caller_entry(cs[i])) =~= Seq::<Seq<char>>::empty());
    }
}

/// The callers block of a symbol with `n > 0` callers: its header, then one
/// line for each of the first `min(n, 10)` callers in order, then
/// `... and n-10 more` exactly when there are more than ten.
pub proof fn lemma_callers_block_lists(name: Seq<char>, cs: Seq<RowView>)
    requires
        cs.len() > 0,
    ensures
        ({
            let n = cs.len();
            let shown: int = if n < 10 { n as int } else { 10 };
            callers_block(name, cs) == "  "@ + name + " ("@ + dec_nat(n) + " caller"@ + (if n == 1 {
                ""@
            } else {
                "s"@
            }) + "):\n"@ + Seq::new(shown as nat, |i: int| caller_entry(cs[i])).flatten() + (if n > 10 {
                "    ... and "@ + dec_nat((n - 10) as nat) + " more\n"@
            } else {
                Seq::<char>::empty()
            })
        }),
{
    let n = cs.len();
    let shown: int = if n < 10 { n as int } else { 10 };
    lemma_caller_entries_lines(cs.take(shown));
    assert(Seq::new(cs.take(shown).len(), |i: int| caller_entry(cs.take(shown)[i])) =~= Seq::new(
        shown as nat,
        |i: int| caller_entry(cs[i]),
    ));
}

} // verus!
