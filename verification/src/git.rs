//! Reading what `git` prints: `diff --unified=0` hunks, `log --format=%ct`
//! timestamps, and "how long ago" renderings. Running `git` itself is left to
//! the caller.
use vstd::prelude::*;
use crate::text::{
    chars_of, string_of, slice_range, append_chars, lines, lines_chars, strip_prefix,
    strip_prefix_chars, is_prefix, starts_with, eq_chars, find, find_chars, is_ws, is_whitespace,
    split_once_char, trim_ws, trim_chars,
};
use crate::num::{parse_unsigned, parse_unsigned_chars, parse_signed, parse_i64_chars, dec_nat, fmt_u64};
use crate::symbol::opt_view;

verus! {

/// One hunk of `git diff --unified=0`, new-file side.
#[derive(Debug, Clone)]
pub struct DiffHunk {
    pub file_path: String,
    /// Starting line number in the new file, 1-based.
    pub new_start: u32,
    /// Ending line number (inclusive) in the new file.
    pub new_end: u32,
}

/// The mathematical value of a hunk; its end is an unbounded integer.
pub struct HunkView {
    pub file_path: Seq<char>,
    pub new_start: int,
    pub new_end: int,
}

impl View for DiffHunk {
    type V = HunkView;

    open spec fn view(&self) -> HunkView {
        HunkView {
            file_path: self.file_path@,
            new_start: self.new_start as int,
            new_end: self.new_end as int,
        }
    }
}

/// Position of the first whitespace character of `s` at or after `i`, or its length.
pub open spec fn ws_from(s: Seq<char>, i: int) -> int
    decreases s.len() - i,
{
    if i < 0 || i >= s.len() {
        s.len() as int
    } else if is_ws(s[i]) {
        i
    } else {
        ws_from(s, i + 1)
    }
}

/// The new-side range `(start, count)` of a hunk header such as
/// `@@ -10,0 +42,3 @@`: the token after the first `+`, up to whitespace, as
/// `start,count` or `start` alone (count 1); both must parse as `u32`.
pub open spec fn new_range_of(h: Seq<char>) -> Option<(int, int)> {
    let plus = find(h, "+"@);
    if plus < 0 || plus >= h.len() {
        None
    } else {
        let after = h.subrange(plus + 1, h.len() as int);
        let token = after.subrange(0, ws_from(after, 0));
        let c = find(token, seq![',']);
        let start_s = if 0 <= c < token.len() {
            token.subrange(0, c)
        } else {
            token
        };
        let count_s = if 0 <= c < token.len() {
            token.subrange(c + 1, token.len() as int)
        } else {
            "1"@
        };
        match (parse_unsigned(start_s, 10, u32::MAX as int), parse_unsigned(count_s, 10, u32::MAX as int)) {
            (Some(a), Some(b)) => Some((a, b)),
            _ => None,
        }
    }
}

/// The file that a `+++ ` line names: its `b/` prefix dropped, none for `/dev/null`.
pub open spec fn new_file_of(rest: Seq<char>) -> Option<Seq<char>> {
    let path = match strip_prefix(rest, "b/"@) {
        Some(p) => p,
        None => rest,
    };
    if path == "/dev/null"@ {
        None
    } else {
        Some(path)
    }
}

/// One line of diff text: a `+++ ` line sets the current file, a `@@` header
/// with a current file and a nonzero new-side count adds a hunk.
pub open spec fn hunk_step(state: (Option<Seq<char>>, Seq<HunkView>), line: Seq<char>) -> (
    Option<Seq<char>>,
    Seq<HunkView>,
) {
    match strip_prefix(line, "+++ "@) {
        Some(rest) => (new_file_of(rest), state.1),
        None => if is_prefix("@@"@, line) {
            match state.0 {
                None => state,
                Some(f) => match new_range_of(line) {
                    Some(r) => if r.1 == 0 {
                        state
                    } else {
                        (
                            state.0,
                            state.1.push(
                                HunkView { file_path: f, new_start: r.0, new_end: r.0 + r.1 - 1 },
                            ),
                        )
                    },
                    None => state,
                },
            }
        } else {
            state
        },
    }
}

/// The state after reading the lines `ls` in order.
pub open spec fn hunks_after(ls: Seq<Seq<char>>) -> (Option<Seq<char>>, Seq<HunkView>)
    decreases ls.len(),
{
    if ls.len() == 0 {
        (None, seq![])
    } else {
        hunk_step(hunks_after(ls.drop_last()), ls.last())
    }
}

/// The hunks of a diff text, in order.
pub open spec fn diff_hunks_of(text: Seq<char>) -> Seq<HunkView> {
    hunks_after(lines(text)).1
}

/// Every hunk's end line fits in a `u32`.
pub open spec fn ends_fit(hs: Seq<HunkView>) -> bool {
    forall|i: int| 0 <= i < hs.len() ==> #[trigger] hs[i].new_end <= u32::MAX
}

pub open spec fn hunk_views(hs: Seq<DiffHunk>) -> Seq<HunkView> {
    hs.map_values(|h: DiffHunk| h@)
}

pub open spec fn opt_chars(o: Option<Vec<char>>) -> Option<Seq<char>> {
    match o {
        Some(v) => Some(v@),
        None => None,
    }
}

/// Reads the new-side range of a hunk header: `"@@ -10,0 +42,3 @@"` gives
/// `(42, 3)`, `"@@ -1 +1 @@"` gives `(1, 1)`.
pub fn parse_new_range(hunk_header: &str) -> (r: Option<(u32, u32)>)
    ensures
        r matches Some(p) ==> new_range_of(hunk_header@) == Some((p.0 as int, p.1 as int)),
        r is None ==> new_range_of(hunk_header@) is None,
{
    let h = chars_of(hunk_header);
    let plus = vec!['+'];
    proof {
        assert(plus@ =~= "+"@) by {
            reveal_strlit("+");
        }
    }
    let p = match find_chars(&h, &plus) {
        Some(p) => p,
        None => {
            return None;
        },
    };
    if p >= h.len() {
        return None;
    }
    let after = slice_range(&h, p + 1, h.len());
    let mut j: usize = 0;
    while j < after.len() && !is_whitespace(after[j])
        invariant
            j <= after@.len(),
            ws_from(after@, 0) == ws_from(after@, j as int),
        decreases after@.len() - j,
    {
        j = j + 1;
    }
    let token = slice_range(&after, 0, j);
    let one = chars_of("1");
    let (start_s, count_s) = match split_once_char(&token, ',') {
        Some((a, b)) => (a, b),
        None => (token, one),
    };
    let start = match parse_unsigned_chars(&start_s, 10, 4294967295u64) {
        Some(v) => v,
        None => {
            return None;
        },
    };
    let count = match parse_unsigned_chars(&count_s, 10, 4294967295u64) {
        Some(v) => v,
        None => {
            return None;
        },
    };
    Some((start as u32, count as u32))
}

fn lit(s: &'static str) -> (r: Vec<char>)
    ensures
        r@ == s@,
{
    chars_of(s)
}

/// Reads the hunks of a `git diff --unified=0` text, or `None` when some hunk's
/// end line (`start + count - 1`) does not fit in a `u32`.
pub fn try_parse_hunks(text: &str) -> (r: Option<Vec<DiffHunk>>)
    ensures
        r is None <==> !ends_fit(diff_hunks_of(text@)),
        r matches Some(v) ==> hunk_views(v@) == diff_hunks_of(text@),
{
    let t = chars_of(text);
    let ls = lines_chars(&t);
    let ghost lv = ls@.map_values(|v: Vec<char>| v@);
    let mut out: Vec<DiffHunk> = Vec::new();
    let mut current: Option<Vec<char>> = None;
    let mut ok = true;
    let mut i: usize = 0;
    let plus3 = lit("+++ ");
    let b_slash = lit("b/");
    let dev_null = lit("/dev/null");
    let at2 = lit("@@");
    proof {
        assert(hunk_views(out@) =~= Seq::<HunkView>::empty());
    }
    while i < ls.len()
        invariant
            i <= ls@.len(),
            lv == ls@.map_values(|v: Vec<char>| v@),
            lv == lines(text@),
            plus3@ == "+++ "@,
            b_slash@ == "b/"@,
            dev_null@ == "/dev/null"@,
            at2@ == "@@"@,
            opt_chars(current) == hunks_after(lv.take(i as int)).0,
            ok ==> hunk_views(out@) == hunks_after(lv.take(i as int)).1,
            !ok ==> !ends_fit(hunks_after(lv.take(i as int)).1),
        decreases ls@.len() - i,
    {
        let line = &ls[i];
        let ghost prev = hunks_after(lv.take(i as int));
        proof {
            assert(lv.take(i as int + 1).drop_last() =~= lv.take(i as int));
            assert(lv.take(i as int + 1).last() == line@);
        }
        match strip_prefix_chars(line, &plus3) {
            Some(rest) => {
                let path = match strip_prefix_chars(&rest, &b_slash) {
                    Some(p) => p,
                    None => rest,
                };
                if eq_chars(&path, &dev_null) {
                    current = None;
                } else {
                    current = Some(path);
                }
                proof {
                    if !ok {
                        let w = choose|w: int| 0 <= w < prev.1.len() && !(#[trigger] prev.1[w].new_end <= u32::MAX);
                        assert(hunks_after(lv.take(i as int + 1)).1[w].new_end > u32::MAX);
                    }
                }
            },
            None => {
                if starts_with(line, &at2) {
                    match &current {
                        Some(f) => {
                            let hs = string_of(line);
                            match parse_new_range(hs.as_str()) {
                                Some((st, c)) => {
                                    if c != 0 {
                                        let end: u64 = st as u64 + c as u64 - 1;
                                        if ok && end <= 4294967295u64 {
                                            let ghost before = out@;
                                            out.push(
                                                DiffHunk {
                                                    file_path: string_of(f),
                                                    new_start: st,
                                                    new_end: end as u32,
                                                },
                                            );
                                            proof {
                                                assert(hunk_views(out@) =~= hunk_views(before).push(
                                                    out@.last()@,
                                                ));
                                            }
                                        } else {
                                            proof {
                                                let nx = hunks_after(lv.take(i as int + 1)).1;
                                                if ok {
                                                    assert(nx[prev.1.len() as int].new_end > u32::MAX);
                                                } else {
                                                    let w = choose|w: int| 0 <= w < prev.1.len() && !(#[trigger] prev.1[w].new_end <= u32::MAX);
                                                    assert(nx[w].new_end > u32::MAX);
                                                }
                                            }
                                            ok = false;
                                        }
                                    }
                                },
                                None => {},
                            }
                        },
                        None => {},
                    }
                }
            },
        }
        i = i + 1;
    }
    proof {
        assert(lv.take(ls@.len() as int) =~= lv);
    }
    if ok {
        Some(out)
    } else {
        None
    }
}

/// Reads the hunks of a `git diff --unified=0` text: a `+++ b/path` line sets
/// the current file (`+++ /dev/null` clears it), and each `@@` header after it
/// with a nonzero new-side count gives the hunk `start..=start + count - 1`.
pub fn parse_hunks(text: &str) -> (r: Vec<DiffHunk>)
    requires
        ends_fit(diff_hunks_of(text@)),
    ensures
        hunk_views(r@) == diff_hunks_of(text@),
        hunk_views(r@) == hunks_by_line(lines(text@), lines(text@).len() as int),
        forall|i: int| 0 <= i < r@.len() ==> hunk_ok(#[trigger] hunk_views(r@)[i]),
{
    proof {
        lemma_hunks_line_by_line(lines(text@));
    }
    match try_parse_hunks(text) {
        Some(v) => v,
        None => Vec::new(),
    }
}

// ---------------------------------------------------------------------------
// Churn.
// ---------------------------------------------------------------------------

/// Commit recency of one file.
#[derive(Debug, Clone, Default)]
pub struct FileChurn {
    pub commits_in_window: u32,
    /// Unix timestamp of the most recent commit touching the file.
    pub last_commit_ts: i64,
}

/// The timestamps that the lines of a `git log --format=%ct` output hold: each
/// line trimmed and parsed as an `i64`, lines that do not parse skipped.
pub open spec fn stamps_of(ls: Seq<Seq<char>>) -> Seq<int>
    decreases ls.len(),
{
    if ls.len() == 0 {
        seq![]
    } else {
        let prev = stamps_of(ls.drop_last());
        match parse_signed(trim_ws(ls.last()), i64::MIN as int, i64::MAX as int) {
            Some(v) => prev.push(v),
            None => prev,
        }
    }
}

/// The churn that a `git log --format=%ct` output shows: the number of
/// timestamps (as a `u32`, wrapping) and the first one (the newest), or 0.
pub fn churn_of_log(text: &str) -> (r: FileChurn)
    ensures
        r.commits_in_window == (stamps_of(lines(text@)).len() as u32),
        r.last_commit_ts == (if stamps_of(lines(text@)).len() > 0 {
            stamps_of(lines(text@))[0]
        } else {
            0
        }),
{
    let t = chars_of(text);
    let ls = lines_chars(&t);
    let ghost lv = ls@.map_values(|v: Vec<char>| v@);
    let mut count: usize = 0;
    let mut first: i64 = 0;
    let mut i: usize = 0;
    while i < ls.len()
        invariant
            i <= ls@.len(),
            lv == ls@.map_values(|v: Vec<char>| v@),
            count == stamps_of(lv.take(i as int)).len(),
            count <= i,
            first == (if count > 0 {
                stamps_of(lv.take(i as int))[0]
            } else {
                0
            }),
        decreases ls@.len() - i,
    {
        proof {
            assert(lv.take(i as int + 1).drop_last() =~= lv.take(i as int));
            assert(lv.take(i as int + 1).last() == ls@[i as int]@);
        }
        let tr = trim_chars(&ls[i]);
        match parse_i64_chars(&tr) {
            Some(v) => {
                if count == 0 {
                    first = v;
                }
                count = count + 1;
            },
            None => {},
        }
        i = i + 1;
    }
    proof {
        assert(lv.take(ls@.len() as int) =~= lv);
    }
    FileChurn { commits_in_window: count as u32, last_commit_ts: first }
}

/// The churn that a `git log --format=%ct` output shows.
pub open spec fn churn_of_text(text: Seq<char>) -> FileChurn {
    let st = stamps_of(lines(text));
    FileChurn {
        commits_in_window: st.len() as u32,
        last_commit_ts: if st.len() > 0 {
            st[0] as i64
        } else {
            0
        },
    }
}

pub open spec fn log_views(logs: Seq<(String, Option<String>)>) -> Seq<(Seq<char>, Option<Seq<char>>)> {
    logs.map_values(|l: (String, Option<String>)| (l.0@, opt_view(l.1)))
}

pub open spec fn churn_views(cs: Seq<(String, FileChurn)>) -> Seq<(Seq<char>, FileChurn)> {
    cs.map_values(|c: (String, FileChurn)| (c.0@, c.1))
}

/// The churn of each file whose `git log` run succeeded (its output is
/// `Some`), in order; a file whose run failed gets no entry.
pub open spec fn churn_entries_of(logs: Seq<(Seq<char>, Option<Seq<char>>)>) -> Seq<(Seq<char>, FileChurn)>
    decreases logs.len(),
{
    if logs.len() == 0 {
        seq![]
    } else {
        let prev = churn_entries_of(logs.drop_last());
        match logs.last().1 {
            Some(t) => prev.push((logs.last().0, churn_of_text(t))),
            None => prev,
        }
    }
}

/// The churn entries of per-file `git log --format=%ct` outputs: for each file
/// (in order) whose run succeeded, its commit count and newest timestamp; a
/// file with no history gets zero churn, and a failed run no entry.
pub fn churn_entries(logs: &Vec<(String, Option<String>)>) -> (r: Vec<(String, FileChurn)>)
    ensures
        churn_views(r@) == churn_entries_of(log_views(logs@)),
{
    let ghost lv = log_views(logs@);
    let mut out: Vec<(String, FileChurn)> = Vec::new();
    let mut i: usize = 0;
    while i < logs.len()
        invariant
            i <= logs@.len(),
            lv == log_views(logs@),
            churn_views(out@) == churn_entries_of(lv.take(i as int)),
        decreases logs@.len() - i,
    {
        proof {
            assert(lv.take(i as int + 1).drop_last() =~= lv.take(i as int));
            assert(lv.take(i as int + 1).last() == lv[i as int]);
        }
        match &logs[i].1 {
            Some(text) => {
                let c = churn_of_log(text.as_str());
                let ghost before = churn_views(out@);
                out.push((logs[i].0.clone(), c));
                proof {
                    assert(churn_views(out@) =~= before.push((logs@[i as int].0@, churn_of_text(text@))));
                }
            },
            None => {},
        }
        i = i + 1;
    }
    proof {
        assert(lv.take(logs@.len() as int) =~= lv);
    }
    out
}

// ---------------------------------------------------------------------------
// Ages.
// ---------------------------------------------------------------------------

/// "N{m,h,d,mo} ago" for a commit at `unix_ts` seen at `now` (seconds), or
/// "never" for a timestamp that is not positive.
pub open spec fn age_text(unix_ts: int, now: int) -> Seq<char> {
    if unix_ts <= 0 {
        "never"@
    } else {
        let d = if now - unix_ts > 0 {
            now - unix_ts
        } else {
            0
        };
        if d < 3600 {
            dec_nat((d / 60) as nat) + "m ago"@
        } else if d < 86400 {
            dec_nat((d / 3600) as nat) + "h ago"@
        } else if d < 2592000 {
            dec_nat((d / 86400) as nat) + "d ago"@
        } else {
            dec_nat((d / 2592000) as nat) + "mo ago"@
        }
    }
}

/// Renders the age of a commit at `unix_ts` as seen at `now`.
pub fn humanize_delta(unix_ts: i64, now: i64) -> (r: String)
    requires
        unix_ts <= 0 || now - unix_ts >= i64::MIN,
    ensures
        r@ == age_text(unix_ts as int, now as int),
{
    if unix_ts <= 0 {
        return "never".to_string();
    }
    let diff: i64 = now - unix_ts;
    let d: i64 = if diff > 0 {
        diff
    } else {
        0
    };
    let (n, unit) = if d < 3600 {
        (d / 60, "m ago")
    } else if d < 86400 {
        (d / 3600, "h ago")
    } else if d < 2592000 {
        (d / 86400, "d ago")
    } else {
        (d / 2592000, "mo ago")
    };
    let mut v = fmt_u64(n as u64);
    let u = chars_of(unit);
    append_chars(&mut v, &u);
    string_of(&v)
}

/// Seconds since the Unix epoch by the system clock, 0 if the clock is set
/// before the epoch (`SystemTime::now().duration_since(UNIX_EPOCH)`). Nothing is
/// claimed of the value: it is the time.
#[verifier::external_body]
fn unix_now() -> (r: u64) {
    match std::time::SystemTime::now().duration_since(std::time::UNIX_EPOCH) {
        Ok(d) => d.as_secs(),
        Err(_) => 0,
    }
}

/// Renders how long ago the commit at `unix_ts` was, by the system clock:
/// "never" for a timestamp that is not positive, else minutes, hours, days or
/// 30-day months.
pub fn humanize_ago(unix_ts: i64) -> (r: String)
    ensures
        unix_ts <= 0 ==> r@ == "never"@,
        unix_ts > 0 ==> exists|now: int| 0 <= now <= i64::MAX && r@ == age_text(unix_ts as int, now),
{
    let secs = unix_now();
    let now: i64 = if secs > 9223372036854775807u64 {
        9223372036854775807i64
    } else {
        secs as i64
    };
    humanize_delta(unix_ts, now)
}

/// A hunk as the diff text gives it: of a real file, its end no earlier than
/// its start.
pub open spec fn hunk_ok(h: HunkView) -> bool {
    &&& h.file_path != "/dev/null"@
    &&& 0 <= h.new_start <= h.new_end
}

/// Every hunk read from a diff text belongs to a file other than `/dev/null`
/// and ends no earlier than it starts (its count is never 0).
pub proof fn lemma_hunks_well_formed(ls: Seq<Seq<char>>)
    ensures
        forall|i: int| 0 <= i < hunks_after(ls).1.len() ==> hunk_ok(#[trigger] hunks_after(ls).1[i]),
        hunks_after(ls).0 matches Some(f) ==> f != "/dev/null"@,
    decreases ls.len(),
{
    if ls.len() > 0 {
        lemma_hunks_well_formed(ls.drop_last());
        let prev = hunks_after(ls.drop_last());
        let now = hunks_after(ls);
        assert forall|i: int| 0 <= i < now.1.len() implies hunk_ok(#[trigger] now.1[i]) by {
            if i < prev.1.len() {
                assert(now.1[i] == prev.1[i]);
            } else {
                let line = ls.last();
                let r = new_range_of(line).unwrap();
                assert(r.0 >= 0 && r.1 >= 0) by {
                    lemma_new_range_nonneg(line);
                }
            }
        }
    }
}

proof fn lemma_new_range_nonneg(h: Seq<char>)
    ensures
        new_range_of(h) matches Some(r) ==> r.0 >= 0 && r.1 >= 0,
{
    let plus = find(h, "+"@);
    if 0 <= plus < h.len() {
        let after = h.subrange(plus + 1, h.len() as int);
        let token = after.subrange(0, ws_from(after, 0));
        let c = find(token, seq![',']);
        let start_s = if 0 <= c < token.len() { token.subrange(0, c) } else { token };
        let count_s = if 0 <= c < token.len() { token.subrange(c + 1, token.len() as int) } else { "1"@ };
        crate::num::lemma_parse_unsigned_nonneg(start_s, 10, u32::MAX as int);
        crate::num::lemma_parse_unsigned_nonneg(count_s, 10, u32::MAX as int);
    }
}


/// The file that the most recent `+++ ` line among the first `k` lines names
/// (none before any such line, or after `+++ /dev/null`).
pub open spec fn file_before(ls: Seq<Seq<char>>, k: int) -> Option<Seq<char>>
    decreases k,
{
    if k <= 0 || k > ls.len() {
        None
    } else {
        match strip_prefix(ls[k - 1], "+++ "@) {
            Some(rest) => new_file_of(rest),
            None => file_before(ls, k - 1),
        }
    }
}

/// The hunk that line `k` gives: an `@@` line after a `+++ ` line naming a
/// file, whose first `+` token reads as `start[,count]` with a count other than
/// 0, gives the lines `start..=start + count - 1` of that file.
pub open spec fn hunk_at_line(ls: Seq<Seq<char>>, k: int) -> Option<HunkView> {
    let line = ls[k];
    if strip_prefix(line, "+++ "@) is None && is_prefix("@@"@, line) {
        match (file_before(ls, k), new_range_of(line)) {
            (Some(f), Some(r)) => if r.1 != 0 {
                Some(HunkView { file_path: f, new_start: r.0, new_end: r.0 + r.1 - 1 })
            } else {
                None
            },
            _ => None,
        }
    } else {
        None
    }
}

/// The hunks that the first `n` lines give, one per line that gives one, in order.
pub open spec fn hunks_by_line(ls: Seq<Seq<char>>, n: int) -> Seq<HunkView>
    decreases n,
{
    if n <= 0 || n > ls.len() {
        seq![]
    } else {
        match hunk_at_line(ls, n - 1) {
            Some(h) => hunks_by_line(ls, n - 1).push(h),
            None => hunks_by_line(ls, n - 1),
        }
    }
}

proof fn lemma_line_facts_prefix(ls: Seq<Seq<char>>, k: int)
    requires
        ls.len() > 0,
        0 <= k <= ls.len() - 1,
    ensures
        file_before(ls.drop_last(), k) == file_before(ls, k),
        hunks_by_line(ls.drop_last(), k) == hunks_by_line(ls, k),
    decreases k,
{
    if k > 0 {
        lemma_line_facts_prefix(ls, k - 1);
        let d = ls.drop_last();
        assert(d[k - 1] == ls[k - 1]);
        assert(hunk_at_line(d, k - 1) == hunk_at_line(ls, k - 1));
    }
}

/// The hunks of a diff text are, in text order, one per `@@` line that follows
/// a `+++ ` line naming a file (its `b/` prefix dropped; `/dev/null` names
/// none) and whose first `+` token reads as `start[,count]` (count 1 when
/// omitted) with a count other than 0: the hunk of that file from `start` to
/// `start + count - 1`, which is never before `start`.
pub proof fn lemma_hunks_line_by_line(ls: Seq<Seq<char>>)
    ensures
        hunks_after(ls).0 == file_before(ls, ls.len() as int),
        hunks_after(ls).1 == hunks_by_line(ls, ls.len() as int),
        forall|i: int| 0 <= i < hunks_after(ls).1.len() ==> hunk_ok(#[trigger] hunks_after(ls).1[i]),
    decreases ls.len(),
{
    lemma_hunks_well_formed(ls);
    if ls.len() > 0 {
        let d = ls.drop_last();
        lemma_hunks_line_by_line(d);
        lemma_line_facts_prefix(ls, ls.len() - 1);
        assert(ls[ls.len() - 1] == ls.last());
    }
}

} // verus!
