//! What breaks if a symbol changes: its transitive callers, grouped by
//! distance, and the files they sit in.
use vstd::prelude::*;
use crate::commands::rows::{
    Row, RowView, Target, row_views, text_or, text_or_chars, pad_right, pad_left, append_padded_right,
    append_padded_left, insert_distinct_sorted, sorted_distinct, add_distinct_sorted,
};
use crate::text::{chars_of, string_of, append_str, append_chars, str_eq, eq_chars};
use crate::num::{dec_nat, dec_int, fmt_u64, fmt_i64};
use crate::git::{FileChurn, age_text, humanize_delta};
use crate::symbol::opt_view;

verus! {

/// The kinds a blast-radius target may have.
pub open spec fn blast_kind(k: Seq<char>) -> bool {
    k == "Function"@ || k == "Method"@ || k == "Constructor"@ || k == "Class"@ || k == "Interface"@
        || k == "Trait"@ || k == "Struct"@
}

pub open spec fn blast_candidate() -> spec_fn(RowView) -> bool {
    |r: RowView| blast_kind(text_or(r.kind, ""@))
}

/// The matches whose kind may be a blast-radius target, in order.
pub fn blast_candidates(matches: &Vec<Row>) -> (r: Vec<Row>)
    ensures
        row_views(r@) == row_views(matches@).filter(blast_candidate()),
{
    let ghost mv = row_views(matches@);
    let mut r: Vec<Row> = Vec::new();
    let mut i: usize = 0;
    while i < matches.len()
        invariant
            i <= matches@.len(),
            mv == row_views(matches@),
            row_views(r@) == mv.take(i as int).filter(blast_candidate()),
        decreases matches@.len() - i,
    {
        let m = &matches[i];
        proof {
            assert(mv.take(i as int + 1) =~= mv.take(i as int).push(m@));
            mv.take(i as int).lemma_filter_push(m@, blast_candidate());
        }
        let k: &str = match &m.kind {
            Some(s) => s.as_str(),
            None => "",
        };
        proof {
            assert(k@ == text_or(m@.kind, ""@));
        }
        if str_eq(k, "Function") || str_eq(k, "Method") || str_eq(k, "Constructor") || str_eq(
            k,
            "Class",
        ) || str_eq(k, "Interface") || str_eq(k, "Trait") || str_eq(k, "Struct") {
            let ghost before = row_views(r@);
            r.push(m.duplicate());
            proof {
                assert(row_views(r@) =~= before.push(m@));
            }
        }
        i = i + 1;
    }
    proof {
        assert(mv.take(matches@.len() as int) =~= mv);
    }
    r
}

/// The message when no match may be a target.
pub open spec fn no_target_text(query: Seq<char>) -> Seq<char> {
    "No symbol matching '"@ + query + "' found. Run 'ast-graph scan .' first.\n"@
}

/// One `name (kind)` line of the list of several candidates.
pub open spec fn candidate_line(r: RowView) -> Seq<char> {
    "  "@ + text_or(r.name, "?"@) + " ("@ + text_or(r.kind, "?"@) + ")\n"@
}

pub open spec fn candidate_lines(rs: Seq<RowView>) -> Seq<char>
    decreases rs.len(),
{
    if rs.len() == 0 {
        seq![]
    } else {
        candidate_lines(rs.drop_last()) + candidate_line(rs.last())
    }
}

/// What precedes the report: the list of candidates where there are several.
pub open spec fn blast_preamble(cands: Seq<RowView>) -> Seq<char> {
    if cands.len() > 1 {
        "Multiple matches found — showing blast radius for the first:\n"@ + candidate_lines(cands)
            + "\n"@
    } else {
        seq![]
    }
}

/// Picks the first match whose kind may be a target (a function, method,
/// constructor, class, interface, trait or struct); the error is the message
/// shown when there is none.
pub fn blast_target(query: &str, matches: &Vec<Row>) -> (r: Result<Target, String>)
    ensures
        ({
            let c = row_views(matches@).filter(blast_candidate());
            &&& (r is Err <==> c.len() == 0)
            &&& (r matches Err(m) ==> m@ == no_target_text(query@))
            &&& (r matches Ok(t) ==> t.preamble@ == blast_preamble(c) && t.id@ == text_or(c[0].id, ""@)
                && t.name@ == text_or(c[0].name, query@))
        }),
{
    let cands = blast_candidates(matches);
    if cands.len() == 0 {
        let mut m: Vec<char> = Vec::new();
        append_str(&mut m, "No symbol matching '");
        append_str(&mut m, query);
        append_str(&mut m, "' found. Run 'ast-graph scan .' first.\n");
        proof {
            assert(m@ =~= no_target_text(query@));
        }
        return Err(string_of(&m));
    }
    let ghost cv = row_views(cands@);
    let mut pre: Vec<char> = Vec::new();
    if cands.len() > 1 {
        append_str(&mut pre, "Multiple matches found — showing blast radius for the first:\n");
        let ghost head = pre@;
        let mut i: usize = 0;
        while i < cands.len()
            invariant
                i <= cands@.len(),
                cv == row_views(cands@),
                pre@ == head + candidate_lines(cv.take(i as int)),
            decreases cands@.len() - i,
        {
            proof {
                assert(cv.take(i as int + 1).drop_last() =~= cv.take(i as int));
                assert(cv.take(i as int + 1).last() == cands@[i as int]@);
            }
            append_str(&mut pre, "  ");
            append_chars(&mut pre, &text_or_chars(&cands[i].name, "?"));
            append_str(&mut pre, " (");
            append_chars(&mut pre, &text_or_chars(&cands[i].kind, "?"));
            append_str(&mut pre, ")\n");
            proof {
                assert(pre@ =~= head + candidate_lines(cv.take(i as int + 1)));
            }
            i = i + 1;
        }
        proof {
            assert(cv.take(cands@.len() as int) =~= cv);
        }
        append_str(&mut pre, "\n");
    }
    proof {
        assert(pre@ =~= blast_preamble(cv));
        assert(cv[0] == cands@[0]@);
    }
    let id = text_or_chars(&cands[0].id, "");
    let name = text_or_chars(&cands[0].name, query);
    Ok(Target { preamble: string_of(&pre), id: string_of(&id), name: string_of(&name) })
}

// ---------------------------------------------------------------------------
// The report.
// ---------------------------------------------------------------------------

/// A row's depth, zero where it has none.
pub open spec fn depth_of(r: RowView) -> i64 {
    match r.depth {
        Some(d) => d,
        None => 0,
    }
}

/// `s` with `x` added at its place in ascending order, unless `s` holds it.
pub open spec fn insert_key(s: Seq<i64>, x: i64) -> Seq<i64>
    decreases s.len(),
{
    if s.len() == 0 {
        seq![x]
    } else if x == s[0] {
        s
    } else if x < s[0] {
        seq![x] + s
    } else {
        seq![s[0]] + insert_key(s.drop_first(), x)
    }
}

/// The depths of the rows, each once, in ascending order.
pub open spec fn depth_keys(rows: Seq<RowView>) -> Seq<i64>
    decreases rows.len(),
{
    if rows.len() == 0 {
        seq![]
    } else {
        insert_key(depth_keys(rows.drop_last()), depth_of(rows.last()))
    }
}

/// The identifiers the rows carry, in order.
pub open spec fn ids_present(rows: Seq<RowView>) -> Seq<Seq<char>>
    decreases rows.len(),
{
    if rows.len() == 0 {
        seq![]
    } else {
        let prev = ids_present(rows.drop_last());
        match rows.last().id {
            Some(id) => prev.push(id),
            None => prev,
        }
    }
}

/// The file paths the rows carry, in order.
pub open spec fn files_present(rows: Seq<RowView>) -> Seq<Seq<char>>
    decreases rows.len(),
{
    if rows.len() == 0 {
        seq![]
    } else {
        let prev = files_present(rows.drop_last());
        match rows.last().file_path {
            Some(f) => prev.push(f),
            None => prev,
        }
    }
}

/// The churn recorded for `file` (the first record for it), if any.
pub open spec fn churn_of(m: Seq<(Seq<char>, FileChurn)>, file: Seq<char>) -> Option<FileChurn>
    decreases m.len(),
{
    if m.len() == 0 {
        None
    } else if m[0].0 == file {
        Some(m[0].1)
    } else {
        churn_of(m.drop_first(), file)
    }
}

/// `:line` for a positive call line, else nothing.
pub open spec fn line_tag(line: int) -> Seq<char> {
    if line > 0 {
        ":"@ + dec_int(line)
    } else {
        seq![]
    }
}

/// The churn of the caller's file, where churn was measured and the file has some.
pub open spec fn recency_tag(
    churn: Option<Seq<(Seq<char>, FileChurn)>>,
    file: Seq<char>,
    days: u32,
    now: int,
) -> Seq<char> {
    match churn {
        Some(m) => match churn_of(m, file) {
            Some(ch) => "  [churn: "@ + dec_nat(ch.commits_in_window as nat) + " commits in "@
                + dec_nat(days as nat) + "d, last "@ + age_text(ch.last_commit_ts as int, now) + "]"@,
            None => seq![],
        },
        None => seq![],
    }
}

/// The line of one caller.
pub open spec fn caller_line(
    r: RowView,
    churn: Option<Seq<(Seq<char>, FileChurn)>>,
    days: u32,
    now: int,
) -> Seq<char> {
    "  ← "@ + pad_right(text_or(r.name, "?"@), 40) + " "@ + pad_right(text_or(r.kind, "?"@), 14)
        + " @ "@ + text_or(r.file_path, ""@) + line_tag(crate::commands::rows::int_or_zero(r.call_line))
        + recency_tag(churn, text_or(r.file_path, ""@), days, now) + "\n"@
}

/// The lines of the callers at depth `d`, in order.
pub open spec fn caller_lines(
    rows: Seq<RowView>,
    d: i64,
    churn: Option<Seq<(Seq<char>, FileChurn)>>,
    days: u32,
    now: int,
) -> Seq<char>
    decreases rows.len(),
{
    if rows.len() == 0 {
        seq![]
    } else {
        caller_lines(rows.drop_last(), d, churn, days, now) + if depth_of(rows.last()) == d {
            caller_line(rows.last(), churn, days, now)
        } else {
            Seq::<char>::empty()
        }
    }
}

/// The callers at depth `d`.
pub open spec fn at_depth(d: i64) -> spec_fn(RowView) -> bool {
    |r: RowView| depth_of(r) == d
}

/// The section of the callers at depth `d`.
pub open spec fn depth_section(
    rows: Seq<RowView>,
    d: i64,
    churn: Option<Seq<(Seq<char>, FileChurn)>>,
    days: u32,
    now: int,
) -> Seq<char> {
    "L"@ + dec_int(d as int) + " (depth "@ + dec_int(d as int) + "), "@ + dec_nat(
        rows.filter(at_depth(d)).len(),
    ) + " symbol(s):\n"@ + caller_lines(rows, d, churn, days, now) + "\n"@
}

pub open spec fn depth_sections(
    rows: Seq<RowView>,
    keys: Seq<i64>,
    churn: Option<Seq<(Seq<char>, FileChurn)>>,
    days: u32,
    now: int,
) -> Seq<char>
    decreases keys.len(),
{
    if keys.len() == 0 {
        seq![]
    } else {
        depth_sections(rows, keys.drop_last(), churn, days, now) + depth_section(
            rows,
            keys.last(),
            churn,
            days,
            now,
        )
    }
}

/// The callers in the file `f`.
pub open spec fn in_caller_file(f: Seq<char>) -> spec_fn(RowView) -> bool {
    |r: RowView| r.file_path == Some(f)
}

/// `s` with the pair `x` placed after every pair with at least its count.
pub open spec fn insert_by_count(s: Seq<(Seq<char>, nat)>, x: (Seq<char>, nat)) -> Seq<
    (Seq<char>, nat),
>
    decreases s.len(),
{
    if s.len() == 0 {
        seq![x]
    } else if x.1 > s[0].1 {
        seq![x] + s
    } else {
        seq![s[0]] + insert_by_count(s.drop_first(), x)
    }
}

/// The pairs by descending count; pairs with equal counts keep their order.
pub open spec fn rank_by_count(s: Seq<(Seq<char>, nat)>) -> Seq<(Seq<char>, nat)>
    decreases s.len(),
{
    if s.len() == 0 {
        seq![]
    } else {
        insert_by_count(rank_by_count(s.drop_last()), s.last())
    }
}

/// Each file the callers sit in, in ascending order, with its number of callers.
pub open spec fn file_counts(rows: Seq<RowView>) -> Seq<(Seq<char>, nat)> {
    sorted_distinct(files_present(rows)).map_values(
        |f: Seq<char>| (f, rows.filter(in_caller_file(f)).len()),
    )
}

pub open spec fn affected_lines(s: Seq<(Seq<char>, nat)>) -> Seq<char>
    decreases s.len(),
{
    if s.len() == 0 {
        seq![]
    } else {
        affected_lines(s.drop_last()) + "  "@ + pad_left(dec_nat(s.last().1), 4) + "  "@
            + s.last().0 + "\n"@
    }
}

/// The closing note when churn was measured.
pub open spec fn recency_note(churn: Option<Seq<(Seq<char>, FileChurn)>>, days: u32) -> Seq<char> {
    if churn is Some {
        "\nRecency is measured over the last "@ + dec_nat(days as nat)
            + " days. Hot-and-connected symbols are the ones worth double-checking before you change the target.\n"@
    } else {
        seq![]
    }
}

/// The report of the callers `rows` of `name` within `depth` hops: a header
/// with the number of distinct callers, the callers grouped by ascending
/// depth, the ten files with most callers (most first, ties in ascending order
/// of path), and the churn of the callers' files where it was measured.
pub open spec fn blast_report(
    name: Seq<char>,
    depth: i32,
    rows: Seq<RowView>,
    churn: Option<Seq<(Seq<char>, FileChurn)>>,
    days: u32,
    now: int,
) -> Seq<char> {
    if rows.len() == 0 {
        "'"@ + name
            + "' has no inbound CALLS edges — nothing breaks if you change it (as far as the graph knows).\n"@
    } else {
        let ranked = rank_by_count(file_counts(rows));
        "Blast radius for '"@ + name + "' — "@ + dec_nat(
            crate::commands::rows::sorted_distinct(ids_present(rows)).len(),
        ) + " distinct callers within "@ + dec_int(depth as int) + " hop(s):\n\n"@ + depth_sections(
            rows,
            depth_keys(rows),
            churn,
            days,
            now,
        ) + "Most-affected files:\n"@ + affected_lines(
            ranked.take(if ranked.len() < 10 {
                ranked.len() as int
            } else {
                10
            }),
        ) + recency_note(churn, days)
    }
}

pub open spec fn churn_views(m: Seq<(String, FileChurn)>) -> Seq<(Seq<char>, FileChurn)> {
    m.map_values(|p: (String, FileChurn)| (p.0@, p.1))
}

pub open spec fn churn_view(m: Option<Vec<(String, FileChurn)>>) -> Option<Seq<(Seq<char>, FileChurn)>> {
    match m {
        Some(v) => Some(churn_views(v@)),
        None => None,
    }
}

/// The files the callers sit in, each once, in ascending order; the files
/// whose churn the report can show.
pub fn involved_files(rows: &Vec<Row>) -> (r: Vec<String>)
    ensures
        r@.map_values(|s: String| s@) == sorted_distinct(files_present(row_views(rows@))),
{
    let v = sorted_files(rows);
    let mut r: Vec<String> = Vec::new();
    let mut i: usize = 0;
    while i < v.len()
        invariant
            i <= v@.len(),
            r@.map_values(|s: String| s@) == v@.take(i as int).map_values(|c: Vec<char>| c@),
        decreases v@.len() - i,
    {
        let ghost prev = r@.map_values(|s: String| s@);
        let s = string_of(&v[i]);
        r.push(s);
        proof {
            assert(r@.map_values(|s: String| s@) =~= prev.push(v@[i as int]@));
            assert(v@.take(i as int + 1).map_values(|c: Vec<char>| c@) =~= v@.take(i as int).map_values(
                |c: Vec<char>| c@,
            ).push(v@[i as int]@));
        }
        i = i + 1;
    }
    proof {
        assert(v@.take(v@.len() as int) =~= v@);
    }
    r
}

fn sorted_files(rows: &Vec<Row>) -> (r: Vec<Vec<char>>)
    ensures
        r@.map_values(|c: Vec<char>| c@) == sorted_distinct(files_present(row_views(rows@))),
{
    let ghost rv = row_views(rows@);
    let mut r: Vec<Vec<char>> = Vec::new();
    let mut i: usize = 0;
    while i < rows.len()
        invariant
            i <= rows@.len(),
            rv == row_views(rows@),
            r@.map_values(|c: Vec<char>| c@) == sorted_distinct(files_present(rv.take(i as int))),
        decreases rows@.len() - i,
    {
        proof {
            assert(rv.take(i as int + 1).drop_last() =~= rv.take(i as int));
            assert(rv.take(i as int + 1).last() == rows@[i as int]@);
        }
        let ghost pre = files_present(rv.take(i as int));
        match &rows[i].file_path {
            Some(f) => {
                let fc = chars_of(f.as_str());
                add_distinct_sorted(&mut r, &fc);
                proof {
                    assert(files_present(rv.take(i as int + 1)) == pre.push(fc@));
                    assert(pre.push(fc@).drop_last() =~= pre);
                }
            },
            None => {},
        }
        i = i + 1;
    }
    proof {
        assert(rv.take(rows@.len() as int) =~= rv);
    }
    r
}

fn sorted_ids(rows: &Vec<Row>) -> (r: Vec<Vec<char>>)
    ensures
        r@.map_values(|c: Vec<char>| c@) == sorted_distinct(ids_present(row_views(rows@))),
{
    let ghost rv = row_views(rows@);
    let mut r: Vec<Vec<char>> = Vec::new();
    let mut i: usize = 0;
    while i < rows.len()
        invariant
            i <= rows@.len(),
            rv == row_views(rows@),
            r@.map_values(|c: Vec<char>| c@) == sorted_distinct(ids_present(rv.take(i as int))),
        decreases rows@.len() - i,
    {
        proof {
            assert(rv.take(i as int + 1).drop_last() =~= rv.take(i as int));
            assert(rv.take(i as int + 1).last() == rows@[i as int]@);
        }
        let ghost pre = ids_present(rv.take(i as int));
        match &rows[i].id {
            Some(f) => {
                let fc = chars_of(f.as_str());
                add_distinct_sorted(&mut r, &fc);
                proof {
                    assert(ids_present(rv.take(i as int + 1)) == pre.push(fc@));
                    assert(pre.push(fc@).drop_last() =~= pre);
                }
            },
            None => {},
        }
        i = i + 1;
    }
    proof {
        assert(rv.take(rows@.len() as int) =~= rv);
    }
    r
}

proof fn lemma_insert_key_at(s: Seq<i64>, x: i64, k: int)
    requires
        0 <= k <= s.len(),
        forall|j: int| 0 <= j < k ==> #[trigger] s[j] < x,
        k == s.len() || s[k] >= x,
    ensures
        insert_key(s, x) == if k < s.len() && x == s[k] {
            s
        } else {
            s.take(k).push(x) + s.skip(k)
        },
    decreases k,
{
    if k == 0 {
        assert(s.take(k).push(x) + s.skip(k) =~= seq![x] + s);
    } else {
        let t = s.drop_first();
        assert forall|j: int| 0 <= j < k - 1 implies #[trigger] t[j] < x by {
            assert(t[j] == s[j + 1]);
        }
        assert(k - 1 == t.len() || t[k - 1] == s[k]);
        lemma_insert_key_at(t, x, k - 1);
        assert(s[0] < x);
        if k < s.len() && x == s[k] {
            assert(seq![s[0]] + t =~= s);
        } else {
            assert(seq![s[0]] + (t.take(k - 1).push(x) + t.skip(k - 1)) =~= s.take(k).push(x)
                + s.skip(k));
        }
    }
}

fn depth_keys_of(rows: &Vec<Row>) -> (r: Vec<i64>)
    ensures
        r@ == depth_keys(row_views(rows@)),
{
    let ghost rv = row_views(rows@);
    let mut r: Vec<i64> = Vec::new();
    let mut i: usize = 0;
    while i < rows.len()
        invariant
            i <= rows@.len(),
            rv == row_views(rows@),
            r@ == depth_keys(rv.take(i as int)),
        decreases rows@.len() - i,
    {
        proof {
            assert(rv.take(i as int + 1).drop_last() =~= rv.take(i as int));
            assert(rv.take(i as int + 1).last() == rows@[i as int]@);
        }
        let x: i64 = match rows[i].depth {
            Some(d) => d,
            None => 0,
        };
        let ghost cur = r@;
        let mut k: usize = 0;
        loop
            invariant
                k <= r@.len(),
                r@ == cur,
                forall|j: int| 0 <= j < k ==> #[trigger] cur[j] < x,
            ensures
                k <= r@.len(),
                r@ == cur,
                k == r@.len() || cur[k as int] >= x,
            decreases r@.len() - k,
        {
            if k == r.len() {
                break;
            }
            if r[k] >= x {
                break;
            }
            k = k + 1;
        }
        proof {
            lemma_insert_key_at(cur, x, k as int);
        }
        if !(k < r.len() && r[k] == x) {
            r.insert(k, x);
        }
        i = i + 1;
    }
    proof {
        assert(rv.take(rows@.len() as int) =~= rv);
    }
    r
}

fn churn_lookup(m: &Vec<(String, FileChurn)>, file: &[char]) -> (r: Option<(u32, i64)>)
    ensures
        match churn_of(churn_views(m@), file@) {
            Some(ch) => r == Some((ch.commits_in_window, ch.last_commit_ts)),
            None => r is None,
        },
{
    let ghost mv = churn_views(m@);
    let mut i: usize = 0;
    proof {
        assert(mv.skip(0) =~= mv);
    }
    while i < m.len()
        invariant
            i <= m@.len(),
            mv == churn_views(m@),
            churn_of(mv, file@) == churn_of(mv.skip(i as int), file@),
        decreases m@.len() - i,
    {
        proof {
            assert(mv.skip(i as int)[0] == (m@[i as int].0@, m@[i as int].1));
            assert(mv.skip(i as int).drop_first() =~= mv.skip(i as int + 1));
        }
        let key = chars_of(m[i].0.as_str());
        if eq_chars(&key, file) {
            return Some((m[i].1.commits_in_window, m[i].1.last_commit_ts));
        }
        i = i + 1;
    }
    None
}

fn caller_line_chars(
    c: &Row,
    churn: &Option<Vec<(String, FileChurn)>>,
    days: u32,
    now: i64,
) -> (r: Vec<char>)
    requires
        now >= 0,
    ensures
        r@ == caller_line(c@, churn_view(*churn), days, now as int),
{
    let mut out: Vec<char> = Vec::new();
    append_str(&mut out, "  ← ");
    append_padded_right(&mut out, &text_or_chars(&c.name, "?"), 40);
    append_str(&mut out, " ");
    append_padded_right(&mut out, &text_or_chars(&c.kind, "?"), 14);
    append_str(&mut out, " @ ");
    let file = text_or_chars(&c.file_path, "");
    append_chars(&mut out, &file);
    let line: i64 = match c.call_line {
        Some(l) => l,
        None => 0,
    };
    if line > 0 {
        append_str(&mut out, ":");
        append_chars(&mut out, &fmt_i64(line));
    }
    let ghost mid = out@;
    match churn {
        Some(m) => match churn_lookup(m, &file) {
            Some((commits, ts)) => {
                append_str(&mut out, "  [churn: ");
                append_chars(&mut out, &fmt_u64(commits as u64));
                append_str(&mut out, " commits in ");
                append_chars(&mut out, &fmt_u64(days as u64));
                append_str(&mut out, "d, last ");
                let ago = humanize_delta(ts, now);
                append_str(&mut out, ago.as_str());
                append_str(&mut out, "]");
            },
            None => {},
        },
        None => {},
    }
    append_str(&mut out, "\n");
    proof {
        assert(out@ =~= caller_line(c@, churn_view(*churn), days, now as int));
    }
    out
}

fn append_depth_section(
    out: &mut Vec<char>,
    rows: &Vec<Row>,
    d: i64,
    churn: &Option<Vec<(String, FileChurn)>>,
    days: u32,
    now: i64,
)
    requires
        now >= 0,
    ensures
        final(out)@ == old(out)@ + depth_section(
            row_views(rows@),
            d,
            churn_view(*churn),
            days,
            now as int,
        ),
{
    let ghost rv = row_views(rows@);
    let mut lines: Vec<char> = Vec::new();
    let mut count: usize = 0;
    let mut i: usize = 0;
    while i < rows.len()
        invariant
            i <= rows@.len(),
            rv == row_views(rows@),
            now >= 0,
            count == rv.take(i as int).filter(at_depth(d)).len(),
            lines@ == caller_lines(rv.take(i as int), d, churn_view(*churn), days, now as int),
        decreases rows@.len() - i,
    {
        proof {
            assert(rv.take(i as int + 1).drop_last() =~= rv.take(i as int));
            assert(rv.take(i as int + 1).last() == rows@[i as int]@);
            assert(rv.take(i as int + 1) =~= rv.take(i as int).push(rows@[i as int]@));
            rv.take(i as int).lemma_filter_push(rows@[i as int]@, at_depth(d));
            assert(count <= i);
        }
        let rd: i64 = match rows[i].depth {
            Some(x) => x,
            None => 0,
        };
        if rd == d {
            let line = caller_line_chars(&rows[i], churn, days, now);
            append_chars(&mut lines, &line);
            count = count + 1;
        }
        i = i + 1;
    }
    proof {
        assert(rv.take(rows@.len() as int) =~= rv);
    }
    append_str(out, "L");
    append_chars(out, &fmt_i64(d));
    append_str(out, " (depth ");
    append_chars(out, &fmt_i64(d));
    append_str(out, "), ");
    append_chars(out, &fmt_u64(count as u64));
    append_str(out, " symbol(s):\n");
    append_chars(out, &lines);
    append_str(out, "\n");
    proof {
        assert(final(out)@ =~= old(out)@ + depth_section(rv, d, churn_view(*churn), days, now as int));
    }
}

proof fn lemma_insert_by_count_at(s: Seq<(Seq<char>, nat)>, x: (Seq<char>, nat), k: int)
    requires
        0 <= k <= s.len(),
        forall|j: int| 0 <= j < k ==> !(x.1 > (#[trigger] s[j]).1),
        k == s.len() || x.1 > s[k].1,
    ensures
        insert_by_count(s, x) == s.take(k).push(x) + s.skip(k),
    decreases k,
{
    if k == 0 {
        assert(s.take(k).push(x) + s.skip(k) =~= seq![x] + s);
    } else {
        let t = s.drop_first();
        assert forall|j: int| 0 <= j < k - 1 implies !(x.1 > (#[trigger] t[j]).1) by {
            assert(t[j] == s[j + 1]);
        }
        assert(k - 1 == t.len() || t[k - 1] == s[k]);
        lemma_insert_by_count_at(t, x, k - 1);
        assert(!(x.1 > s[0].1));
        assert(seq![s[0]] + (t.take(k - 1).push(x) + t.skip(k - 1)) =~= s.take(k).push(x) + s.skip(
            k,
        ));
    }
}

fn count_in_file(rows: &Vec<Row>, f: &[char]) -> (r: usize)
    ensures
        r == row_views(rows@).filter(in_caller_file(f@)).len(),
{
    let ghost rv = row_views(rows@);
    let mut n: usize = 0;
    let mut i: usize = 0;
    while i < rows.len()
        invariant
            i <= rows@.len(),
            rv == row_views(rows@),
            n == rv.take(i as int).filter(in_caller_file(f@)).len(),
            n <= i,
        decreases rows@.len() - i,
    {
        proof {
            assert(rv.take(i as int + 1) =~= rv.take(i as int).push(rows@[i as int]@));
            rv.take(i as int).lemma_filter_push(rows@[i as int]@, in_caller_file(f@));
        }
        match &rows[i].file_path {
            Some(p) => {
                let pc = chars_of(p.as_str());
                if eq_chars(&pc, f) {
                    n = n + 1;
                }
            },
            None => {},
        }
        i = i + 1;
    }
    proof {
        assert(rv.take(rows@.len() as int) =~= rv);
    }
    n
}

/// The files the callers sit in with their numbers of callers, most first;
/// files with equal numbers in ascending order of path.
pub fn most_affected_files(rows: &Vec<Row>) -> (r: Vec<(String, usize)>)
    ensures
        r@.map_values(|p: (String, usize)| (p.0@, p.1 as nat)) == rank_by_count(
            file_counts(row_views(rows@)),
        ),
{
    let files = sorted_files(rows);
    let ghost fc = file_counts(row_views(rows@));
    let mut r: Vec<(String, usize)> = Vec::new();
    let mut i: usize = 0;
    while i < files.len()
        invariant
            i <= files@.len(),
            fc == file_counts(row_views(rows@)),
            files@.map_values(|c: Vec<char>| c@) == sorted_distinct(files_present(row_views(rows@))),
            r@.map_values(|p: (String, usize)| (p.0@, p.1 as nat)) == rank_by_count(
                fc.take(i as int),
            ),
        decreases files@.len() - i,
    {
        let n = count_in_file(rows, &files[i]);
        let ghost x: (Seq<char>, nat) = (files@[i as int]@, n as nat);
        let ghost cur = r@.map_values(|p: (String, usize)| (p.0@, p.1 as nat));
        proof {
            assert(fc[i as int] == x);
            assert(fc.take(i as int + 1).drop_last() =~= fc.take(i as int));
            assert(fc.take(i as int + 1).last() == x);
        }
        let mut k: usize = 0;
        loop
            invariant
                k <= r@.len(),
                cur == r@.map_values(|p: (String, usize)| (p.0@, p.1 as nat)),
                x.1 == n,
                forall|j: int| 0 <= j < k ==> !(x.1 > (#[trigger] cur[j]).1),
            ensures
                k <= r@.len(),
                cur == r@.map_values(|p: (String, usize)| (p.0@, p.1 as nat)),
                k == r@.len() || x.1 > cur[k as int].1,
            decreases r@.len() - k,
        {
            if k == r.len() {
                break;
            }
            if n > r[k].1 {
                break;
            }
            k = k + 1;
        }
        proof {
            lemma_insert_by_count_at(cur, x, k as int);
        }
        r.insert(k, (string_of(&files[i]), n));
        proof {
            assert(r@.map_values(|p: (String, usize)| (p.0@, p.1 as nat)) =~= cur.take(k as int).push(
                x,
            ) + cur.skip(k as int));
        }
        i = i + 1;
    }
    proof {
        assert(fc.take(files@.len() as int) =~= fc);
    }
    r
}

/// The report of the callers `upstream` of `name` within `depth` hops (see
/// `blast_report`); `churn` is the churn measured per file over the last
/// `days` days, where it was, and `now` the current time in seconds.
pub fn blast_radius_report(
    name: &str,
    depth: i32,
    upstream: &Vec<Row>,
    churn: &Option<Vec<(String, FileChurn)>>,
    days: u32,
    now: i64,
) -> (r: String)
    requires
        now >= 0,
    ensures
        r@ == blast_report(name@, depth, row_views(upstream@), churn_view(*churn), days, now as int),
{
    let mut out: Vec<char> = Vec::new();
    if upstream.len() == 0 {
        append_str(&mut out, "'");
        append_str(&mut out, name);
        append_str(
            &mut out,
            "' has no inbound CALLS edges — nothing breaks if you change it (as far as the graph knows).\n",
        );
        proof {
            assert(out@ =~= blast_report(
                name@,
                depth,
                row_views(upstream@),
                churn_view(*churn),
                days,
                now as int,
            ));
        }
        return string_of(&out);
    }
    let ghost rv = row_views(upstream@);
    let ids = sorted_ids(upstream);
    append_str(&mut out, "Blast radius for '");
    append_str(&mut out, name);
    append_str(&mut out, "' — ");
    append_chars(&mut out, &fmt_u64(ids.len() as u64));
    append_str(&mut out, " distinct callers within ");
    append_chars(&mut out, &fmt_i64(depth as i64));
    append_str(&mut out, " hop(s):\n\n");
    let ghost head = out@;
    let keys = depth_keys_of(upstream);
    let mut i: usize = 0;
    while i < keys.len()
        invariant
            i <= keys@.len(),
            now >= 0,
            rv == row_views(upstream@),
            keys@ == depth_keys(rv),
            out@ == head + depth_sections(rv, keys@.take(i as int), churn_view(*churn), days, now as int),
        decreases keys@.len() - i,
    {
        proof {
            assert(keys@.take(i as int + 1).drop_last() =~= keys@.take(i as int));
            assert(keys@.take(i as int + 1).last() == keys@[i as int]);
        }
        append_depth_section(&mut out, upstream, keys[i], churn, days, now);
        proof {
            assert(out@ =~= head + depth_sections(
                rv,
                keys@.take(i as int + 1),
                churn_view(*churn),
                days,
                now as int,
            ));
        }
        i = i + 1;
    }
    proof {
        assert(keys@.take(keys@.len() as int) =~= keys@);
    }
    let ghost mid = out@;
    append_str(&mut out, "Most-affected files:\n");
    let ranked = most_affected_files(upstream);
    let ghost rk = ranked@.map_values(|p: (String, usize)| (p.0@, p.1 as nat));
    let top: usize = if ranked.len() < 10 {
        ranked.len()
    } else {
        10
    };
    let ghost base = out@;
    let mut j: usize = 0;
    while j < top
        invariant
            j <= top,
            top <= ranked@.len(),
            rk == ranked@.map_values(|p: (String, usize)| (p.0@, p.1 as nat)),
            out@ == base + affected_lines(rk.take(j as int)),
        decreases top - j,
    {
        proof {
            assert(rk.take(j as int + 1).drop_last() =~= rk.take(j as int));
            assert(rk.take(j as int + 1).last() == rk[j as int]);
        }
        append_str(&mut out, "  ");
        append_padded_left(&mut out, &fmt_u64(ranked[j].1 as u64), 4);
        append_str(&mut out, "  ");
        append_str(&mut out, ranked[j].0.as_str());
        append_str(&mut out, "\n");
        proof {
            assert(out@ =~= base + affected_lines(rk.take(j as int + 1)));
        }
        j = j + 1;
    }
    if churn.is_some() {
        append_str(&mut out, "\nRecency is measured over the last ");
        append_chars(&mut out, &fmt_u64(days as u64));
        append_str(
            &mut out,
            " days. Hot-and-connected symbols are the ones worth double-checking before you change the target.\n",
        );
    }
    proof {
        assert(out@ =~= blast_report(name@, depth, rv, churn_view(*churn), days, now as int));
    }
    string_of(&out)
}

proof fn lemma_insert_key_keeps(s: Seq<i64>, x: i64)
    requires
        forall|i: int, j: int| 0 <= i < j < s.len() ==> #[trigger] s[i] < #[trigger] s[j],
    ensures
        forall|i: int, j: int|
            0 <= i < j < insert_key(s, x).len() ==> #[trigger] insert_key(s, x)[i]
                < #[trigger] insert_key(s, x)[j],
        forall|y: i64| #[trigger] insert_key(s, x).contains(y) <==> (s.contains(y) || y == x),
    decreases s.len(),
{
    let r = insert_key(s, x);
    if s.len() == 0 {
        assert forall|y: i64| #[trigger] r.contains(y) <==> (s.contains(y) || y == x) by {
            if r.contains(y) || y == x {
                assert(r[0] == x);
            }
        }
    } else if x == s[0] {
        assert forall|y: i64| #[trigger] r.contains(y) <==> (s.contains(y) || y == x) by {
            if y == x {
                assert(s[0] == y);
            }
        }
    } else if x < s[0] {
        assert forall|i: int, j: int| 0 <= i < j < r.len() implies #[trigger] r[i] < #[trigger] r[j] by {
            if i == 0 {
                assert(r[j] == s[j - 1]);
                if j - 1 > 0 {
                    assert(s[0] < s[j - 1]);
                }
            } else {
                assert(r[i] == s[i - 1] && r[j] == s[j - 1]);
            }
        }
        assert forall|y: i64| #[trigger] r.contains(y) <==> (s.contains(y) || y == x) by {
            if r.contains(y) {
                let k = choose|k: int| 0 <= k < r.len() && r[k] == y;
                if k > 0 {
                    assert(s[k - 1] == y);
                }
            }
            if s.contains(y) {
                let k = choose|k: int| 0 <= k < s.len() && s[k] == y;
                assert(r[k + 1] == y);
            }
            if y == x {
                assert(r[0] == y);
            }
        }
    } else {
        let t = s.drop_first();
        assert forall|i: int, j: int| 0 <= i < j < t.len() implies #[trigger] t[i] < #[trigger] t[j] by {
            assert(t[i] == s[i + 1] && t[j] == s[j + 1]);
        }
        lemma_insert_key_keeps(t, x);
        let q = insert_key(t, x);
        assert(r == seq![s[0]] + q);
        assert forall|i: int, j: int| 0 <= i < j < r.len() implies #[trigger] r[i] < #[trigger] r[j] by {
            if i == 0 {
                assert(r[j] == q[j - 1]);
                assert(q.contains(q[j - 1]));
                if t.contains(q[j - 1]) {
                    let k = choose|k: int| 0 <= k < t.len() && t[k] == q[j - 1];
                    assert(s[k + 1] == q[j - 1]);
                }
            } else {
                assert(r[i] == q[i - 1] && r[j] == q[j - 1]);
            }
        }
        assert forall|y: i64| #[trigger] r.contains(y) <==> (s.contains(y) || y == x) by {
            if r.contains(y) {
                let k = choose|k: int| 0 <= k < r.len() && r[k] == y;
                if k > 0 {
                    assert(q[k - 1] == y);
                    assert(q.contains(y));
                    if t.contains(y) {
                        let m = choose|m: int| 0 <= m < t.len() && t[m] == y;
                        assert(s[m + 1] == y);
                    }
                } else {
                    assert(s[0] == y);
                }
            }
            if s.contains(y) {
                let k = choose|k: int| 0 <= k < s.len() && s[k] == y;
                if k == 0 {
                    assert(r[0] == y);
                } else {
                    assert(t[k - 1] == y);
                    assert(t.contains(y));
                    assert(q.contains(y));
                    let m = choose|m: int| 0 <= m < q.len() && q[m] == y;
                    assert(r[m + 1] == y);
                }
            }
            if y == x {
                assert(q.contains(y));
                let m = choose|m: int| 0 <= m < q.len() && q[m] == y;
                assert(r[m + 1] == y);
            }
        }
    }
}

/// The callers are grouped by depth in strictly ascending order of depth,
/// one group per depth that some caller has.
pub proof fn lemma_depth_keys_ascending(rows: Seq<RowView>)
    ensures
        forall|i: int, j: int|
            0 <= i < j < depth_keys(rows).len() ==> #[trigger] depth_keys(rows)[i]
                < #[trigger] depth_keys(rows)[j],
        forall|d: i64| #[trigger] depth_keys(rows).contains(d) <==> exists|k: int|
            0 <= k < rows.len() && depth_of(#[trigger] rows[k]) == d,
    decreases rows.len(),
{
    if rows.len() > 0 {
        let p = rows.drop_last();
        lemma_depth_keys_ascending(p);
        lemma_insert_key_keeps(depth_keys(p), depth_of(rows.last()));
        assert forall|d: i64| #[trigger] depth_keys(rows).contains(d) <==> exists|k: int|
            0 <= k < rows.len() && depth_of(#[trigger] rows[k]) == d by {
            if depth_keys(p).contains(d) {
                let k = choose|k: int| 0 <= k < p.len() && depth_of(#[trigger] p[k]) == d;
                assert(rows[k] == p[k]);
            }
            if exists|k: int| 0 <= k < rows.len() && depth_of(#[trigger] rows[k]) == d {
                let k = choose|k: int| 0 <= k < rows.len() && depth_of(#[trigger] rows[k]) == d;
                if k < rows.len() - 1 {
                    assert(p[k] == rows[k]);
                } else {
                    assert(rows[k] == rows.last());
                }
            }
            assert(rows[rows.len() - 1] == rows.last());
        }
    } else {
        assert(depth_keys(rows) =~= Seq::<i64>::empty());
    }
}

/// Where `insert_by_count` places `x` in `s`.
pub open spec fn count_slot(s: Seq<(Seq<char>, nat)>, x: (Seq<char>, nat)) -> int
    decreases s.len(),
{
    if s.len() == 0 {
        0
    } else if x.1 > s[0].1 {
        0
    } else {
        1 + count_slot(s.drop_first(), x)
    }
}

proof fn lemma_insert_by_count_slot(s: Seq<(Seq<char>, nat)>, x: (Seq<char>, nat))
    ensures
        0 <= count_slot(s, x) <= s.len(),
        insert_by_count(s, x) == s.insert(count_slot(s, x), x),
    decreases s.len(),
{
    if s.len() == 0 {
        assert(insert_by_count(s, x) =~= s.insert(0, x));
    } else if x.1 > s[0].1 {
        assert(insert_by_count(s, x) =~= s.insert(0, x));
    } else {
        lemma_insert_by_count_slot(s.drop_first(), x);
        assert(insert_by_count(s, x) =~= s.insert(count_slot(s, x), x));
    }
}

proof fn lemma_insert_by_count_keeps(s: Seq<(Seq<char>, nat)>, x: (Seq<char>, nat))
    requires
        forall|i: int, j: int| 0 <= i < j < s.len() ==> (#[trigger] s[i]).1 >= (#[trigger] s[j]).1,
    ensures
        forall|i: int, j: int|
            0 <= i < j < insert_by_count(s, x).len() ==> (#[trigger] insert_by_count(s, x)[i]).1
                >= (#[trigger] insert_by_count(s, x)[j]).1,
        insert_by_count(s, x).to_multiset() == s.to_multiset().insert(x),
    decreases s.len(),
{
    broadcast use vstd::seq_lib::group_to_multiset_ensures;
    lemma_insert_by_count_slot(s, x);
    let r = insert_by_count(s, x);
    if s.len() == 0 {
    } else if x.1 > s[0].1 {
        assert forall|i: int, j: int| 0 <= i < j < r.len() implies (#[trigger] r[i]).1 >= (#[trigger] r[j]).1 by {
            if i == 0 {
                assert(r[j] == s[j - 1]);
                if j - 1 > 0 {
                    assert(s[0].1 >= s[j - 1].1);
                }
            } else {
                assert(r[i] == s[i - 1] && r[j] == s[j - 1]);
            }
        }
    } else {
        let t = s.drop_first();
        assert forall|i: int, j: int| 0 <= i < j < t.len() implies (#[trigger] t[i]).1 >= (#[trigger] t[j]).1 by {
            assert(t[i] == s[i + 1] && t[j] == s[j + 1]);
        }
        lemma_insert_by_count_keeps(t, x);
        lemma_insert_by_count_slot(t, x);
        let q = insert_by_count(t, x);
        let k = count_slot(t, x);
        assert(r == seq![s[0]] + q);
        assert forall|i: int, j: int| 0 <= i < j < r.len() implies (#[trigger] r[i]).1 >= (#[trigger] r[j]).1 by {
            if i == 0 {
                assert(r[j] == q[j - 1]);
                if j - 1 < k {
                    assert(q[j - 1] == t[j - 1]);
                    assert(t[j - 1] == s[j]);
                } else if j - 1 == k {
                    assert(q[j - 1] == x);
                } else {
                    assert(q[j - 1] == t[j - 2]);
                    assert(t[j - 2] == s[j - 1]);
                }
            } else {
                assert(r[i] == q[i - 1] && r[j] == q[j - 1]);
            }
        }
    }
}

/// The files most affected come first: the numbers of callers never grow
/// down the ranking, and the ranking holds exactly the pairs given.
pub proof fn lemma_rank_by_count_descending(s: Seq<(Seq<char>, nat)>)
    ensures
        forall|i: int, j: int|
            0 <= i < j < rank_by_count(s).len() ==> (#[trigger] rank_by_count(s)[i]).1
                >= (#[trigger] rank_by_count(s)[j]).1,
        rank_by_count(s).to_multiset() == s.to_multiset(),
    decreases s.len(),
{
    broadcast use vstd::seq_lib::group_to_multiset_ensures;
    if s.len() > 0 {
        lemma_rank_by_count_descending(s.drop_last());
        lemma_insert_by_count_keeps(rank_by_count(s.drop_last()), s.last());
        assert(s == s.drop_last().push(s.last()));
    } else {
        assert(rank_by_count(s) =~= s);
    }
}

} // verus!
