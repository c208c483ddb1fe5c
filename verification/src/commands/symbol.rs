//! The symbol lookup: shortened paths and truncated signatures.
use vstd::prelude::*;
use crate::text::{
    chars_of, string_of, append_str, utf8_byte_len, byte_len, boundary_at, take_bytes, is_boundary, bytes_prefix, replace,
    replace_chars, find, find_chars, split_char, split_char_chars, join_with, join_chars,
    slice_range, append_chars, contains, contains_chars, has_char, lines, lines_chars, str_eq,
};
use crate::num::{dec_nat, dec_int, fmt_u64, fmt_i64};
use crate::commands::rows::{
    Row, RowView, row_views, text_or, text_or_chars, int_or_zero, pad_right, append_padded_right,
};

verus! {

/// `s` when it takes at most `max` bytes, else its first `max - 1` bytes
/// (which must end on a character boundary) followed by `…`.
pub fn truncate(s: &str, max: usize) -> (r: String)
    requires
        byte_len(s@) <= max || (max >= 1 && is_boundary(s@, max - 1)),
    ensures
        byte_len(s@) <= max ==> r@ == s@,
        byte_len(s@) > max ==> r@ == bytes_prefix(s@, max - 1) + "…"@,
{
    let v = chars_of(s);
    if utf8_byte_len(&v) <= max as u128 {
        return s.to_string();
    }
    let mut head = take_bytes(&v, max - 1);
    append_str(&mut head, "…");
    string_of(&head)
}

/// A path shortened for display: after `/Kelvin/`, else from `src/`, else its
/// last three segments; backslashes read as slashes.
pub open spec fn short_path_of(full: Seq<char>) -> Seq<char> {
    let n = replace(full, seq!['\\'], seq!['/']);
    let k = find(n, "/Kelvin/"@);
    let s = find(n, "/src/"@);
    let parts = split_char(n, '/');
    if k >= 0 {
        n.subrange(k + 8, n.len() as int)
    } else if s >= 0 {
        n.subrange(s + 1, n.len() as int)
    } else if parts.len() > 3 {
        join_with(parts.subrange(parts.len() - 3, parts.len() as int), "/"@)
    } else {
        n
    }
}

/// Shortens a path for display.
pub fn short_path(full: &str) -> (r: String)
    ensures
        r@ == short_path_of(full@),
{
    let f = chars_of(full);
    let back = vec!['\\'];
    let fwd = vec!['/'];
    proof {
        assert(back@ =~= seq!['\\']);
        assert(fwd@ =~= seq!['/']);
    }
    let n = replace_chars(&f, &back, &fwd);
    let kelvin = chars_of("/Kelvin/");
    proof {
        reveal_strlit("/Kelvin/");
        reveal_strlit("/src/");
    }
    if let Some(k) = find_chars(&n, &kelvin) {
        let tail = n.len() - kelvin.len() - k;
        return string_of(&slice_range(&n, n.len() - tail, n.len()));
    }
    let src = chars_of("/src/");
    if let Some(s) = find_chars(&n, &src) {
        let tail = n.len() - s - 1;
        return string_of(&slice_range(&n, n.len() - tail, n.len()));
    }
    let parts = split_char_chars(&n, '/');
    let ghost pv = parts@.map_values(|v: Vec<char>| v@);
    if parts.len() > 3 {
        let mut last3: Vec<Vec<char>> = Vec::new();
        let mut i = parts.len() - 3;
        while i < parts.len()
            invariant
                parts@.len() > 3,
                parts@.len() - 3 <= i <= parts@.len(),
                pv == parts@.map_values(|v: Vec<char>| v@),
                last3@.map_values(|v: Vec<char>| v@) == pv.subrange(parts@.len() - 3, i as int),
            decreases parts@.len() - i,
        {
            let ghost before = last3@.map_values(|v: Vec<char>| v@);
            proof {
                assert(pv[i as int] == parts@[i as int]@);
            }
            let piece = slice_range(&parts[i], 0, parts[i].len());
            proof {
                assert(piece@ =~= parts@[i as int]@);
            }
            last3.push(piece);
            proof {
                assert(last3@.map_values(|v: Vec<char>| v@) =~= before.push(pv[i as int]));
                assert(pv.subrange(parts@.len() - 3, i as int + 1) =~= pv.subrange(
                    parts@.len() - 3,
                    i as int,
                ).push(pv[i as int]));
            }
            i = i + 1;
        }
        let slash = vec!['/'];
        proof {
            assert(slash@ =~= "/"@) by {
                reveal_strlit("/");
            }
        }
        return string_of(&join_chars(&last3, &slash));
    }
    string_of(&n)
}

// ---------------------------------------------------------------------------
// Choosing the symbol to show.
// ---------------------------------------------------------------------------

/// What `str::to_lowercase` gives for `s`.
pub uninterp spec fn lowercase_of(s: Seq<char>) -> Seq<char>;

/// Calls `str::to_lowercase`; the Unicode lower-case mapping of `s` is named,
/// not described.
#[verifier::external_body]
fn lowercase(s: &str) -> (r: String)
    ensures
        r@ == lowercase_of(s@),
{
    s.to_lowercase()
}

/// The message when nothing matches `query`.
pub open spec fn no_match_text(query: Seq<char>) -> Seq<char> {
    "No symbols matching '"@ + query + "' found.\n"@
}

/// One numbered line of the list of matches.
pub open spec fn match_line(i: int, m: RowView) -> Seq<char> {
    "  ["@ + dec_nat((i + 1) as nat) + "] "@ + text_or(m.name, "?"@) + " ("@ + text_or(m.kind, "?"@)
        + ") @ "@ + short_path_of(text_or(m.file_path, ""@)) + " L"@ + dec_int(
        int_or_zero(m.line_start),
    ) + "\n"@
}

pub open spec fn match_lines(ms: Seq<RowView>) -> Seq<char>
    decreases ms.len(),
{
    if ms.len() == 0 {
        seq![]
    } else {
        match_lines(ms.drop_last()) + match_line(ms.len() - 1, ms.last())
    }
}

/// What the lookup of `query` shows before any detail: the message when
/// nothing matches, the numbered list of matches when there are several.
pub open spec fn symbol_listing_text(query: Seq<char>, ms: Seq<RowView>) -> Seq<char> {
    if ms.len() == 0 {
        no_match_text(query)
    } else if ms.len() > 1 {
        "Found "@ + dec_nat(ms.len()) + " matches for '"@ + query + "':\n\n"@ + match_lines(ms)
            + "\n"@
    } else {
        seq![]
    }
}

fn match_line_chars(i: usize, m: &Row) -> (r: Vec<char>)
    requires
        i < usize::MAX,
    ensures
        r@ == match_line(i as int, m@),
{
    let mut out: Vec<char> = Vec::new();
    append_str(&mut out, "  [");
    append_chars(&mut out, &fmt_u64(i as u64 + 1));
    append_str(&mut out, "] ");
    append_chars(&mut out, &text_or_chars(&m.name, "?"));
    append_str(&mut out, " (");
    append_chars(&mut out, &text_or_chars(&m.kind, "?"));
    append_str(&mut out, ") @ ");
    let f = text_or_chars(&m.file_path, "");
    let sp = short_path(string_of(&f).as_str());
    append_str(&mut out, sp.as_str());
    append_str(&mut out, " L");
    let ls: i64 = match m.line_start {
        Some(v) => v,
        None => 0,
    };
    append_chars(&mut out, &fmt_i64(ls));
    append_str(&mut out, "\n");
    proof {
        assert(out@ =~= match_line(i as int, m@));
    }
    out
}

/// The text the lookup of `query` shows before the detail of a symbol.
pub fn symbol_listing(query: &str, matches: &Vec<Row>) -> (r: String)
    ensures
        r@ == symbol_listing_text(query@, row_views(matches@)),
{
    let ghost mv = row_views(matches@);
    let mut out: Vec<char> = Vec::new();
    if matches.len() == 0 {
        append_str(&mut out, "No symbols matching '");
        append_str(&mut out, query);
        append_str(&mut out, "' found.\n");
        proof {
            assert(out@ =~= symbol_listing_text(query@, mv));
        }
        return string_of(&out);
    }
    if matches.len() > 1 {
        append_str(&mut out, "Found ");
        append_chars(&mut out, &fmt_u64(matches.len() as u64));
        append_str(&mut out, " matches for '");
        append_str(&mut out, query);
        append_str(&mut out, "':\n\n");
        let ghost head = out@;
        let mut i: usize = 0;
        while i < matches.len()
            invariant
                i <= matches@.len(),
                mv == row_views(matches@),
                out@ == head + match_lines(mv.take(i as int)),
            decreases matches@.len() - i,
        {
            let m = &matches[i];
            proof {
                assert(mv.take(i as int + 1).drop_last() =~= mv.take(i as int));
                assert(mv.take(i as int + 1).last() == m@);
            }
            let line = match_line_chars(i, m);
            append_chars(&mut out, &line);
            proof {
                assert(out@ =~= head + match_lines(mv.take(i as int + 1)));
            }
            i = i + 1;
        }
        proof {
            assert(mv.take(matches@.len() as int) =~= mv);
        }
        append_str(&mut out, "\n");
    }
    proof {
        assert(out@ =~= symbol_listing_text(query@, mv));
    }
    string_of(&out)
}

/// The first position holding `true`, or -1.
pub open spec fn first_true(s: Seq<bool>) -> int
    decreases s.len(),
{
    if s.len() == 0 {
        -1
    } else if s[0] {
        0
    } else if first_true(s.drop_first()) < 0 {
        -1
    } else {
        first_true(s.drop_first()) + 1
    }
}

fn first_true_index(v: &Vec<bool>) -> (r: Option<usize>)
    ensures
        match r {
            Some(k) => first_true(v@) == k as int,
            None => first_true(v@) == -1,
        },
{
    let ghost s = v@;
    let mut i: usize = 0;
    proof {
        assert(s.skip(0) =~= s);
    }
    while i < v.len()
        invariant
            i <= s.len(),
            s == v@,
            first_true(s) == if first_true(s.skip(i as int)) < 0 {
                -1
            } else {
                first_true(s.skip(i as int)) + i
            },
        decreases s.len() - i,
    {
        proof {
            assert(s.skip(i as int)[0] == s[i as int]);
            assert(s.skip(i as int).drop_first() =~= s.skip(i as int + 1));
        }
        if v[i] {
            return Some(i);
        }
        i = i + 1;
    }
    proof {
        assert(s.skip(i as int).len() == 0);
    }
    None
}

/// The match whose detail is shown, given which matches carry the looked-up
/// name exactly (ignoring case): none when there is no match, or when there
/// are several, none exact and no section was asked for; else the first exact
/// match, or the first match where none is exact.
pub fn choose_target(
    is_exact: &Vec<bool>,
    show_callers: bool,
    show_callees: bool,
    show_members: bool,
) -> (r: Option<usize>)
    ensures
        ({
            let f = first_true(is_exact@);
            let show = show_callers || show_callees || show_members || is_exact@.len() == 1 || f >= 0;
            &&& (r is None <==> (is_exact@.len() == 0 || !show))
            &&& (r matches Some(i) ==> i == (if f >= 0 {
                f
            } else {
                0
            }))
        }),
{
    if is_exact.len() == 0 {
        return None;
    }
    let found = first_true_index(is_exact);
    let show = show_callers || show_callees || show_members || is_exact.len() == 1 || found.is_some();
    if !show {
        return None;
    }
    match found {
        Some(k) => Some(k),
        None => Some(0),
    }
}

/// A match carries the looked-up name exactly, ignoring case.
pub open spec fn exact_flags(query: Seq<char>, ms: Seq<RowView>) -> Seq<bool> {
    ms.map_values(|m: RowView| lowercase_of(text_or(m.name, ""@)) == lowercase_of(query))
}

/// The match whose detail the lookup of `query` shows (see `choose_target`).
pub fn symbol_target(
    query: &str,
    matches: &Vec<Row>,
    show_callers: bool,
    show_callees: bool,
    show_members: bool,
) -> (r: Option<usize>)
    ensures
        ({
            let e = exact_flags(query@, row_views(matches@));
            let f = first_true(e);
            let show = show_callers || show_callees || show_members || e.len() == 1 || f >= 0;
            &&& (r is None <==> (e.len() == 0 || !show))
            &&& (r matches Some(i) ==> i == (if f >= 0 {
                f
            } else {
                0
            }))
        }),
{
    let q = lowercase(query);
    let mut flags: Vec<bool> = Vec::new();
    let mut i: usize = 0;
    while i < matches.len()
        invariant
            i <= matches@.len(),
            q@ == lowercase_of(query@),
            flags@ == exact_flags(query@, row_views(matches@)).take(i as int),
        decreases matches@.len() - i,
    {
        let n: &str = match &matches[i].name {
            Some(s) => s.as_str(),
            None => "",
        };
        proof {
            assert(n@ == text_or(matches@[i as int]@.name, ""@));
        }
        let ln = lowercase(n);
        flags.push(str_eq(ln.as_str(), q.as_str()));
        proof {
            assert(flags@ =~= exact_flags(query@, row_views(matches@)).take(i as int + 1));
        }
        i = i + 1;
    }
    proof {
        assert(flags@ =~= exact_flags(query@, row_views(matches@)));
    }
    choose_target(&flags, show_callers, show_callees, show_members)
}

// ---------------------------------------------------------------------------
// The detail of one symbol.
// ---------------------------------------------------------------------------

/// The first line of `s` (all of it when it has none).
pub open spec fn first_line(s: Seq<char>) -> Seq<char> {
    if lines(s).len() > 0 {
        lines(s)[0]
    } else {
        s
    }
}

/// What follows the first `.` of `s` (all of `s` when there is none).
pub open spec fn after_first_dot(s: Seq<char>) -> Seq<char> {
    let i = find(s, seq!['.']);
    if i >= 0 {
        s.subrange(i + 1, s.len() as int)
    } else {
        s
    }
}

/// The kinds whose members are listed.
pub open spec fn is_type_kind(k: Seq<char>) -> bool {
    k == "Class"@ || k == "Interface"@ || k == "Trait"@ || k == "Struct"@ || k == "Enum"@ || k
        == "Record"@
}

/// The members section shows for a type when members are asked for, or when
/// neither callers nor callees are.
pub open spec fn members_shown(kind: Seq<char>, c: bool, ce: bool, m: bool) -> bool {
    is_type_kind(kind) && (m || (!c && !ce))
}

/// The callers section shows when callers are asked for, or when neither
/// callees nor members are.
pub open spec fn callers_shown(c: bool, ce: bool, m: bool) -> bool {
    c || (!ce && !m)
}

/// The callees section shows when callees are asked for, or when neither
/// callers nor members are.
pub open spec fn callees_shown(c: bool, ce: bool, m: bool) -> bool {
    ce || (!c && !m)
}

/// Whether the detail of a symbol of kind `kind` lists its members.
pub fn shows_members(kind: &str, show_callers: bool, show_callees: bool, show_members: bool) -> (r: bool)
    ensures
        r == members_shown(kind@, show_callers, show_callees, show_members),
{
    let t = str_eq(kind, "Class") || str_eq(kind, "Interface") || str_eq(kind, "Trait") || str_eq(
        kind,
        "Struct",
    ) || str_eq(kind, "Enum") || str_eq(kind, "Record");
    t && (show_members || (!show_callers && !show_callees))
}

/// Whether the detail lists the callers.
pub fn shows_callers(show_callers: bool, show_callees: bool, show_members: bool) -> (r: bool)
    ensures
        r == callers_shown(show_callers, show_callees, show_members),
{
    show_callers || (!show_callees && !show_members)
}

/// Whether the detail lists the callees.
pub fn shows_callees(show_callers: bool, show_callees: bool, show_members: bool) -> (r: bool)
    ensures
        r == callees_shown(show_callers, show_callees, show_members),
{
    show_callees || (!show_callers && !show_members)
}

/// How a member is shown: its signature's first line where that holds `(` or
/// `:`, else its name after the first `.`.
pub open spec fn member_display(m: RowView) -> Seq<char> {
    let mname = text_or(m.name, "?"@);
    let sl = first_line(text_or(m.signature, mname));
    if sl.contains('(') || sl.contains(':') {
        sl
    } else {
        after_first_dot(mname)
    }
}

/// `s` cut to `max` bytes with an ellipsis, as `truncate` does.
pub open spec fn ellipsized(s: Seq<char>, max: int) -> Seq<char> {
    if byte_len(s) <= max {
        s
    } else {
        bytes_prefix(s, max - 1) + "…"@
    }
}

/// The member text can be cut to 80 bytes (it is short, or its 79th byte
/// ends a character).
pub open spec fn member_fits(m: RowView) -> bool {
    byte_len(member_display(m)) <= 80 || is_boundary(member_display(m), 79)
}

pub open spec fn member_line(m: RowView) -> Seq<char> {
    "│  ["@ + pad_right(text_or(m.kind, "?"@), 11) + "] "@ + ellipsized(member_display(m), 80)
        + "\n"@
}

pub open spec fn member_lines(ms: Seq<RowView>) -> Seq<char>
    decreases ms.len(),
{
    if ms.len() == 0 {
        seq![]
    } else {
        member_lines(ms.drop_last()) + member_line(ms.last())
    }
}

pub open spec fn members_section(ms: Seq<RowView>) -> Seq<char> {
    if ms.len() == 0 {
        seq![]
    } else {
        "├─ Members ("@ + dec_nat(ms.len()) + "):\n"@ + member_lines(ms) + "│\n"@
    }
}

/// A caller or callee from a file outside the project proper.
pub open spec fn outside_project(f: Seq<char>) -> bool {
    contains(f, "pdfjs"@) || contains(f, "pdf.js"@) || contains(f, "node_modules"@)
}

pub open spec fn in_project() -> spec_fn(RowView) -> bool {
    |r: RowView| !outside_project(text_or(r.file_path, ""@))
}

pub open spec fn caller_detail_line(c: RowView) -> Seq<char> {
    "│  ← "@ + text_or(c.name, "?"@) + " @ "@ + short_path_of(text_or(c.file_path, ""@)) + " L"@
        + dec_int(int_or_zero(c.line)) + "\n"@
}

pub open spec fn callee_detail_line(c: RowView) -> Seq<char> {
    "   → "@ + text_or(c.name, "?"@) + " ["@ + text_or(c.kind, "?"@) + "] @ "@ + short_path_of(
        text_or(c.file_path, ""@),
    ) + "\n"@
}

/// The lines of the rows in the project, in order, made by `line`.
pub open spec fn project_lines(cs: Seq<RowView>, line: spec_fn(RowView) -> Seq<char>) -> Seq<char>
    decreases cs.len(),
{
    if cs.len() == 0 {
        seq![]
    } else {
        project_lines(cs.drop_last(), line) + if in_project()(cs.last()) {
            line(cs.last())
        } else {
            Seq::<char>::empty()
        }
    }
}

pub open spec fn callers_section(cs: Seq<RowView>) -> Seq<char> {
    if cs.len() == 0 {
        "├─ Callers: none\n│\n"@
    } else {
        "├─ Callers ("@ + dec_nat(cs.filter(in_project()).len()) + "):\n"@ + project_lines(
            cs,
            |c: RowView| caller_detail_line(c),
        ) + "│\n"@
    }
}

pub open spec fn callees_section(cs: Seq<RowView>) -> Seq<char> {
    if cs.filter(in_project()).len() == 0 {
        "└─ Calls: none\n"@
    } else {
        "└─ Calls ("@ + dec_nat(cs.filter(in_project()).len()) + "):\n"@ + project_lines(
            cs,
            |c: RowView| callee_detail_line(c),
        )
    }
}

/// The head of the detail: name and kind, place, and the signature's first
/// line where it says more than the name.
pub open spec fn detail_header(n: RowView) -> Seq<char> {
    let name = text_or(n.name, "?"@);
    let sig = text_or(n.signature, ""@);
    "┌─ "@ + name + " ["@ + text_or(n.kind, "?"@) + "]\n"@ + "│  File: "@ + short_path_of(
        text_or(n.file_path, ""@),
    ) + " L"@ + dec_int(int_or_zero(n.line_start)) + "-"@ + dec_int(int_or_zero(n.line_end)) + "\n"@
        + if sig.len() > 0 && sig != name {
        "│  Sig:  "@ + first_line(sig) + "\n"@
    } else {
        Seq::<char>::empty()
    } + "│\n"@
}

/// The detail of the symbol `n`, with the sections that the flags select.
pub open spec fn symbol_detail(
    n: RowView,
    c: bool,
    ce: bool,
    m: bool,
    members: Seq<RowView>,
    callers: Seq<RowView>,
    callees: Seq<RowView>,
) -> Seq<char> {
    detail_header(n) + (if members_shown(text_or(n.kind, "?"@), c, ce, m) {
        members_section(members)
    } else {
        Seq::<char>::empty()
    }) + (if callers_shown(c, ce, m) {
        callers_section(callers)
    } else {
        Seq::<char>::empty()
    }) + (if callees_shown(c, ce, m) {
        callees_section(callees)
    } else {
        Seq::<char>::empty()
    }) + "\n"@
}

fn first_line_chars(s: &[char]) -> (r: Vec<char>)
    ensures
        r@ == first_line(s@),
{
    let ls = lines_chars(s);
    proof {
        assert(ls@.len() == lines(s@).len());
    }
    if ls.len() > 0 {
        proof {
            assert(ls@[0]@ == lines(s@)[0]);
        }
        slice_range(&ls[0], 0, ls[0].len())
    } else {
        slice_range(s, 0, s.len())
    }
}

/// The text a member is shown with (see `member_display`).
pub fn member_display_text(m: &Row) -> (r: String)
    ensures
        r@ == member_display(m@),
{
    let mname = text_or_chars(&m.name, "?");
    let msig = match &m.signature {
        Some(s) => chars_of(s.as_str()),
        None => slice_range(&mname, 0, mname.len()),
    };
    let sl = first_line_chars(&msig);
    proof {
        assert(msig@ == text_or(m@.signature, mname@));
    }
    if has_char(&sl, '(') || has_char(&sl, ':') {
        return string_of(&sl);
    }
    let dot = vec!['.'];
    proof {
        assert(dot@ =~= seq!['.']);
    }
    match find_chars(&mname, &dot) {
        Some(i) => {
            proof {
                assert(i + 1 <= mname@.len());
            }
            let tail = mname.len() - i - 1;
            string_of(&slice_range(&mname, mname.len() - tail, mname.len()))
        },
        None => string_of(&mname),
    }
}

fn outside_row(c: &Row) -> (r: bool)
    ensures
        r == !in_project()(c@),
{
    let f = text_or_chars(&c.file_path, "");
    let pdfjs = chars_of("pdfjs");
    let pdf_js = chars_of("pdf.js");
    let nm = chars_of("node_modules");
    contains_chars(&f, &pdfjs) || contains_chars(&f, &pdf_js) || contains_chars(&f, &nm)
}

fn caller_detail_line_chars(c: &Row) -> (r: Vec<char>)
    ensures
        r@ == caller_detail_line(c@),
{
    let mut out: Vec<char> = Vec::new();
    let f = text_or_chars(&c.file_path, "");
    let sp = short_path(string_of(&f).as_str());
    append_str(&mut out, "│  ← ");
    append_chars(&mut out, &text_or_chars(&c.name, "?"));
    append_str(&mut out, " @ ");
    append_str(&mut out, sp.as_str());
    append_str(&mut out, " L");
    let l: i64 = match c.line {
        Some(v) => v,
        None => 0,
    };
    append_chars(&mut out, &fmt_i64(l));
    append_str(&mut out, "\n");
    proof {
        assert(out@ =~= caller_detail_line(c@));
    }
    out
}

fn callee_detail_line_chars(c: &Row) -> (r: Vec<char>)
    ensures
        r@ == callee_detail_line(c@),
{
    let mut out: Vec<char> = Vec::new();
    let f = text_or_chars(&c.file_path, "");
    let sp = short_path(string_of(&f).as_str());
    append_str(&mut out, "   → ");
    append_chars(&mut out, &text_or_chars(&c.name, "?"));
    append_str(&mut out, " [");
    append_chars(&mut out, &text_or_chars(&c.kind, "?"));
    append_str(&mut out, "] @ ");
    append_str(&mut out, sp.as_str());
    append_str(&mut out, "\n");
    proof {
        assert(out@ =~= callee_detail_line(c@));
    }
    out
}

fn append_project_lines(out: &mut Vec<char>, cs: &Vec<Row>, callers: bool) -> (n: usize)
    ensures
        n == row_views(cs@).filter(in_project()).len(),
        callers ==> final(out)@ == old(out)@ + project_lines(
            row_views(cs@),
            |c: RowView| caller_detail_line(c),
        ),
        !callers ==> final(out)@ == old(out)@ + project_lines(
            row_views(cs@),
            |c: RowView| callee_detail_line(c),
        ),
{
    let ghost cv = row_views(cs@);
    let ghost line: spec_fn(RowView) -> Seq<char> = if callers {
        |c: RowView| caller_detail_line(c)
    } else {
        |c: RowView| callee_detail_line(c)
    };
    let ghost start = out@;
    let mut n: usize = 0;
    let mut i: usize = 0;
    while i < cs.len()
        invariant
            i <= cs@.len(),
            cv == row_views(cs@),
            forall|r: RowView| #[trigger] line(r) == if callers {
                caller_detail_line(r)
            } else {
                callee_detail_line(r)
            },
            n == cv.take(i as int).filter(in_project()).len(),
            n <= i,
            out@ == start + project_lines(cv.take(i as int), line),
        decreases cs@.len() - i,
    {
        let c = &cs[i];
        proof {
            assert(cv.take(i as int + 1).drop_last() =~= cv.take(i as int));
            assert(cv.take(i as int + 1).last() == c@);
            assert(cv.take(i as int + 1) =~= cv.take(i as int).push(c@));
            cv.take(i as int).lemma_filter_push(c@, in_project());
        }
        if !outside_row(c) {
            let l = if callers {
                caller_detail_line_chars(c)
            } else {
                callee_detail_line_chars(c)
            };
            proof {
                assert(l@ == line(c@));
            }
            append_chars(out, &l);
            n = n + 1;
        }
        proof {
            assert(out@ =~= start + project_lines(cv.take(i as int + 1), line));
        }
        i = i + 1;
    }
    proof {
        assert(cv.take(cs@.len() as int) =~= cv);
        if callers {
            assert(line =~= (|c: RowView| caller_detail_line(c)));
        } else {
            assert(line =~= (|c: RowView| callee_detail_line(c)));
        }
    }
    n
}

fn detail_header_chars(node: &Row) -> (r: Vec<char>)
    ensures
        r@ == detail_header(node@),
{
    let mut out: Vec<char> = Vec::new();
    let name = text_or_chars(&node.name, "?");
    let kind = text_or_chars(&node.kind, "?");
    let sig = text_or_chars(&node.signature, "");
    append_str(&mut out, "┌─ ");
    append_chars(&mut out, &name);
    append_str(&mut out, " [");
    append_chars(&mut out, &kind);
    append_str(&mut out, "]\n");
    append_str(&mut out, "│  File: ");
    let f = text_or_chars(&node.file_path, "");
    let sp = short_path(string_of(&f).as_str());
    append_str(&mut out, sp.as_str());
    append_str(&mut out, " L");
    let ls: i64 = match node.line_start {
        Some(v) => v,
        None => 0,
    };
    let le: i64 = match node.line_end {
        Some(v) => v,
        None => 0,
    };
    append_chars(&mut out, &fmt_i64(ls));
    append_str(&mut out, "-");
    append_chars(&mut out, &fmt_i64(le));
    append_str(&mut out, "\n");
    let ghost mid = out@;
    if sig.len() > 0 && !crate::text::eq_chars(&sig, &name) {
        append_str(&mut out, "│  Sig:  ");
        append_chars(&mut out, &first_line_chars(&sig));
        append_str(&mut out, "\n");
    }
    append_str(&mut out, "│\n");
    proof {
        assert(out@ =~= detail_header(node@));
    }
    out
}

fn members_section_chars(members: &Vec<Row>) -> (r: Vec<char>)
    requires
        forall|i: int| 0 <= i < members@.len() ==> member_fits(#[trigger] members@[i]@),
    ensures
        r@ == members_section(row_views(members@)),
{
    let mut out: Vec<char> = Vec::new();
    if members.len() == 0 {
        proof {
            assert(out@ =~= members_section(row_views(members@)));
        }
        return out;
    }
    let ghost mv = row_views(members@);
    append_str(&mut out, "├─ Members (");
    append_chars(&mut out, &fmt_u64(members.len() as u64));
    append_str(&mut out, "):\n");
    let ghost mh = out@;
    let mut i: usize = 0;
    while i < members.len()
        invariant
            i <= members@.len(),
            mv == row_views(members@),
            forall|j: int| 0 <= j < members@.len() ==> member_fits(#[trigger] members@[j]@),
            out@ == mh + member_lines(mv.take(i as int)),
        decreases members@.len() - i,
    {
        let m = &members[i];
        proof {
            assert(mv.take(i as int + 1).drop_last() =~= mv.take(i as int));
            assert(mv.take(i as int + 1).last() == m@);
            assert(member_fits(members@[i as int]@));
        }
        append_str(&mut out, "│  [");
        append_padded_right(&mut out, &text_or_chars(&m.kind, "?"), 11);
        append_str(&mut out, "] ");
        let d = member_display_text(m);
        let t = truncate(d.as_str(), 80);
        append_str(&mut out, t.as_str());
        append_str(&mut out, "\n");
        proof {
            assert(t@ == ellipsized(member_display(m@), 80));
            assert(out@ =~= mh + member_lines(mv.take(i as int + 1)));
        }
        i = i + 1;
    }
    proof {
        assert(mv.take(members@.len() as int) =~= mv);
    }
    append_str(&mut out, "│\n");
    proof {
        assert(out@ =~= members_section(mv));
    }
    out
}

fn callers_section_chars(callers: &Vec<Row>) -> (r: Vec<char>)
    ensures
        r@ == callers_section(row_views(callers@)),
{
    let mut out: Vec<char> = Vec::new();
    if callers.len() == 0 {
        append_str(&mut out, "├─ Callers: none\n│\n");
        return out;
    }
    let mut body: Vec<char> = Vec::new();
    let n = append_project_lines(&mut body, callers, true);
    append_str(&mut out, "├─ Callers (");
    append_chars(&mut out, &fmt_u64(n as u64));
    append_str(&mut out, "):\n");
    append_chars(&mut out, &body);
    append_str(&mut out, "│\n");
    proof {
        assert(out@ =~= callers_section(row_views(callers@)));
    }
    out
}

fn callees_section_chars(callees: &Vec<Row>) -> (r: Vec<char>)
    ensures
        r@ == callees_section(row_views(callees@)),
{
    let mut out: Vec<char> = Vec::new();
    let mut body: Vec<char> = Vec::new();
    let n = append_project_lines(&mut body, callees, false);
    if n == 0 {
        append_str(&mut out, "└─ Calls: none\n");
    } else {
        append_str(&mut out, "└─ Calls (");
        append_chars(&mut out, &fmt_u64(n as u64));
        append_str(&mut out, "):\n");
        append_chars(&mut out, &body);
    }
    proof {
        assert(out@ =~= callees_section(row_views(callees@)));
    }
    out
}

/// The detail of the symbol `node` (see `symbol_detail`): `members`,
/// `callers` and `callees` are the rows of those sections, read only where
/// `shows_members`, `shows_callers` and `shows_callees` select them.
pub fn symbol_detail_text(
    node: &Row,
    show_callers: bool,
    show_callees: bool,
    show_members: bool,
    members: &Vec<Row>,
    callers: &Vec<Row>,
    callees: &Vec<Row>,
) -> (r: String)
    requires
        members_shown(text_or(node@.kind, "?"@), show_callers, show_callees, show_members)
            ==> forall|i: int| 0 <= i < members@.len() ==> member_fits(#[trigger] members@[i]@),
    ensures
        r@ == symbol_detail(
            node@,
            show_callers,
            show_callees,
            show_members,
            row_views(members@),
            row_views(callers@),
            row_views(callees@),
        ),
{
    let mut out = detail_header_chars(node);
    let kind = text_or_chars(&node.kind, "?");
    let ks = string_of(&kind);
    if shows_members(ks.as_str(), show_callers, show_callees, show_members) {
        let sec = members_section_chars(members);
        append_chars(&mut out, &sec);
    }
    if shows_callers(show_callers, show_callees, show_members) {
        let sec = callers_section_chars(callers);
        append_chars(&mut out, &sec);
    }
    if shows_callees(show_callers, show_callees, show_members) {
        let sec = callees_section_chars(callees);
        append_chars(&mut out, &sec);
    }
    append_str(&mut out, "\n");
    proof {
        assert(out@ =~= symbol_detail(
            node@,
            show_callers,
            show_callees,
            show_members,
            row_views(members@),
            row_views(callers@),
            row_views(callees@),
        ));
    }
    string_of(&out)
}


/// Which sections the detail of a symbol shows. For a class, interface,
/// trait, struct, enum or record, the members show when they are asked for,
/// and also when neither callers nor callees are asked for (no section flag
/// at all shows every section); asking only for callers or callees hides
/// them; a symbol of another kind never shows members. Callers show when
/// asked for or when nothing else is, and likewise callees.
pub proof fn lemma_detail_sections(kind: Seq<char>, c: bool, ce: bool, m: bool)
    ensures
        (kind == "Class"@ || kind == "Interface"@ || kind == "Trait"@ || kind == "Struct"@
            || kind == "Enum"@ || kind == "Record"@) && m ==> members_shown(kind, c, ce, m),
        (kind == "Class"@ || kind == "Interface"@ || kind == "Trait"@ || kind == "Struct"@
            || kind == "Enum"@ || kind == "Record"@) && !c && !ce ==> members_shown(kind, c, ce, m),
        !m && (c || ce) ==> !members_shown(kind, c, ce, m),
        !(kind == "Class"@ || kind == "Interface"@ || kind == "Trait"@ || kind == "Struct"@
            || kind == "Enum"@ || kind == "Record"@) ==> !members_shown(kind, c, ce, m),
        !c && !ce && !m ==> callers_shown(c, ce, m) && callees_shown(c, ce, m),
        c ==> callers_shown(c, ce, m),
        ce ==> callees_shown(c, ce, m),
        !c && (ce || m) ==> !callers_shown(c, ce, m),
        !ce && (c || m) ==> !callees_shown(c, ce, m),
{
}

} // verus!
