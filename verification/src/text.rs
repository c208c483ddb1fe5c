//! Character-sequence utilities: every operation here works on `Vec<char>` /
//! `&[char]` and is specified over `Seq<char>`.
use vstd::prelude::*;

verus! {

// ---------------------------------------------------------------------------
// Conversions between `str`/`String` and `Vec<char>`.
// ---------------------------------------------------------------------------

/// The characters of `s`, in order.
pub fn chars_of(s: &str) -> (v: Vec<char>)
    ensures
        v@ == s@,
{
    let mut v: Vec<char> = Vec::new();
    for c in it: s.chars()
        invariant
            v@ == it.seq().take(it.index() as int),
            it.seq() == s@,
    {
        v.push(c);
    }
    v
}

/// Appends one character to a `String` (std's `String::push`).
#[verifier::external_body]
pub(crate) fn push_char(s: &mut String, c: char)
    ensures
        final(s)@ == old(s)@.push(c),
{
    s.push(c);
}

/// A `String` holding exactly the characters of `v`.
pub fn string_of(v: &[char]) -> (s: String)
    ensures
        s@ == v@,
{
    let mut s = String::new();
    let mut i: usize = 0;
    while i < v.len()
        invariant
            i <= v@.len(),
            s@ == v@.take(i as int),
        decreases v@.len() - i,
    {
        push_char(&mut s, v[i]);
        proof {
            assert(v@.take(i as int + 1) =~= v@.take(i as int).push(v@[i as int]));
        }
        i = i + 1;
    }
    proof {
        assert(v@.take(v@.len() as int) =~= v@);
    }
    s
}

/// A copy of `s[from..to]`.
pub fn slice_range(s: &[char], from: usize, to: usize) -> (r: Vec<char>)
    requires
        from <= to <= s@.len(),
    ensures
        r@ == s@.subrange(from as int, to as int),
{
    let mut r: Vec<char> = Vec::new();
    let mut i = from;
    while i < to
        invariant
            from <= i <= to <= s@.len(),
            r@ == s@.subrange(from as int, i as int),
        decreases to - i,
    {
        r.push(s[i]);
        proof {
            assert(s@.subrange(from as int, i as int + 1) =~= s@.subrange(from as int, i as int).push(
                s@[i as int],
            ));
        }
        i = i + 1;
    }
    r
}

/// `a` followed by `b`.
pub fn cat(a: &[char], b: &[char]) -> (r: Vec<char>)
    ensures
        r@ == a@ + b@,
{
    let mut r = slice_range(a, 0, a.len());
    let mut i: usize = 0;
    proof {
        assert(a@.subrange(0, a@.len() as int) =~= a@);
    }
    while i < b.len()
        invariant
            i <= b@.len(),
            r@ == a@ + b@.take(i as int),
        decreases b@.len() - i,
    {
        r.push(b[i]);
        proof {
            assert(b@.take(i as int + 1) =~= b@.take(i as int).push(b@[i as int]));
            assert(a@ + b@.take(i as int + 1) =~= (a@ + b@.take(i as int)).push(b@[i as int]));
        }
        i = i + 1;
    }
    proof {
        assert(b@.take(b@.len() as int) =~= b@);
    }
    r
}

/// Appends all of `b` to `r`.
pub fn append_chars(r: &mut Vec<char>, b: &[char])
    ensures
        final(r)@ == old(r)@ + b@,
{
    let mut i: usize = 0;
    while i < b.len()
        invariant
            i <= b@.len(),
            r@ == old(r)@ + b@.take(i as int),
        decreases b@.len() - i,
    {
        r.push(b[i]);
        proof {
            assert(b@.take(i as int + 1) =~= b@.take(i as int).push(b@[i as int]));
            assert(old(r)@ + b@.take(i as int + 1) =~= (old(r)@ + b@.take(i as int)).push(
                b@[i as int],
            ));
        }
        i = i + 1;
    }
    proof {
        assert(b@.take(b@.len() as int) =~= b@);
    }
}

/// Appends the characters of `s` to `r`.
pub fn append_str(r: &mut Vec<char>, s: &str)
    ensures
        final(r)@ == old(r)@ + s@,
{
    let v = chars_of(s);
    append_chars(r, &v);
}

/// Whether two character slices are equal.
pub fn eq_chars(a: &[char], b: &[char]) -> (r: bool)
    ensures
        r == (a@ == b@),
{
    if a.len() != b.len() {
        return false;
    }
    let mut i: usize = 0;
    while i < a.len()
        invariant
            a@.len() == b@.len(),
            i <= a@.len(),
            forall|j: int| 0 <= j < i ==> a@[j] == b@[j],
        decreases a@.len() - i,
    {
        if a[i] != b[i] {
            return false;
        }
        i = i + 1;
    }
    proof {
        assert(a@ =~= b@);
    }
    true
}

/// Whether the characters of a string equal those of `b`.
pub fn str_eq(a: &str, b: &str) -> (r: bool)
    ensures
        r == (a@ == b@),
{
    let va = chars_of(a);
    let vb = chars_of(b);
    eq_chars(&va, &vb)
}

// ---------------------------------------------------------------------------
// Searching.
// ---------------------------------------------------------------------------

/// `p` occurs in `s` starting at position `i`.
pub open spec fn occurs_at(s: Seq<char>, p: Seq<char>, i: int) -> bool {
    0 <= i && i + p.len() <= s.len() && s.subrange(i, i + p.len()) == p
}

/// Position of the first occurrence of `p` in `s` at or after `i`, or -1.
pub open spec fn find_from(s: Seq<char>, p: Seq<char>, i: int) -> int
    decreases s.len() + 1 - i,
{
    if i < 0 || i + p.len() > s.len() {
        -1
    } else if occurs_at(s, p, i) {
        i
    } else {
        find_from(s, p, i + 1)
    }
}

/// Position of the first occurrence of `p` in `s`, or -1.
pub open spec fn find(s: Seq<char>, p: Seq<char>) -> int {
    find_from(s, p, 0)
}

/// Position of the last occurrence of `p` in `s` at or before `i`, or -1.
pub open spec fn rfind_from(s: Seq<char>, p: Seq<char>, i: int) -> int
    decreases i + 1,
{
    if i < 0 {
        -1
    } else if occurs_at(s, p, i) {
        i
    } else {
        rfind_from(s, p, i - 1)
    }
}

/// Position of the last occurrence of `p` in `s`, or -1.
pub open spec fn rfind(s: Seq<char>, p: Seq<char>) -> int {
    rfind_from(s, p, s.len() - p.len())
}

/// `p` occurs somewhere in `s`.
pub open spec fn contains(s: Seq<char>, p: Seq<char>) -> bool {
    find(s, p) >= 0
}

pub open spec fn is_prefix(p: Seq<char>, s: Seq<char>) -> bool {
    p.len() <= s.len() && s.subrange(0, p.len() as int) == p
}

pub open spec fn is_suffix(p: Seq<char>, s: Seq<char>) -> bool {
    p.len() <= s.len() && s.subrange(s.len() - p.len(), s.len() as int) == p
}

/// Whether `p` occurs in `s` at position `i`.
pub fn matches_at(s: &[char], p: &[char], i: usize) -> (r: bool)
    ensures
        r == occurs_at(s@, p@, i as int),
{
    if i > s.len() || p.len() > s.len() - i {
        return false;
    }
    let mut k: usize = 0;
    while k < p.len()
        invariant
            i + p@.len() <= s@.len(),
            s@.len() == s.len(),
            p@.len() == p.len(),
            k <= p@.len(),
            forall|j: int| 0 <= j < k ==> s@[i + j] == p@[j],
        decreases p@.len() - k,
    {
        if s[i + k] != p[k] {
            proof {
                assert(s@.subrange(i as int, i + p@.len())[k as int] != p@[k as int]);
            }
            return false;
        }
        k = k + 1;
    }
    proof {
        assert(s@.subrange(i as int, i + p@.len()) =~= p@);
    }
    true
}

/// The first position at which `p` occurs in `s`.
pub fn find_chars(s: &[char], p: &[char]) -> (r: Option<usize>)
    ensures
        r matches Some(i) ==> find(s@, p@) == i && occurs_at(s@, p@, i as int),
        r is None ==> find(s@, p@) == -1,
{
    if p.len() > s.len() {
        return None;
    }
    let mut i: usize = 0;
    while i <= s.len() - p.len()
        invariant
            p@.len() <= s@.len(),
            i <= s@.len() - p@.len() + 1,
            find_from(s@, p@, 0) == find_from(s@, p@, i as int),
        decreases s@.len() + 1 - i,
    {
        if matches_at(s, p, i) {
            return Some(i);
        }
        if i == s.len() - p.len() {
            proof {
                assert(find_from(s@, p@, i as int + 1) == -1);
            }
            return None;
        }
        i = i + 1;
    }
    None
}

/// The last position at which `p` occurs in `s`.
pub fn rfind_chars(s: &[char], p: &[char]) -> (r: Option<usize>)
    ensures
        r matches Some(i) ==> rfind(s@, p@) == i && occurs_at(s@, p@, i as int),
        r is None ==> rfind(s@, p@) == -1,
{
    if p.len() > s.len() {
        proof {
            assert(!occurs_at(s@, p@, s@.len() - p@.len()));
        }
        return None;
    }
    let mut i: usize = s.len() - p.len();
    loop
        invariant
            i + p@.len() <= s@.len(),
            rfind(s@, p@) == rfind_from(s@, p@, i as int),
        decreases i,
    {
        if matches_at(s, p, i) {
            return Some(i);
        }
        if i == 0 {
            proof {
                assert(rfind_from(s@, p@, -1) == -1);
            }
            return None;
        }
        i = i - 1;
    }
}

/// Whether `p` is a prefix of `s`.
pub fn starts_with(s: &[char], p: &[char]) -> (r: bool)
    ensures
        r == is_prefix(p@, s@),
{
    let r = matches_at(s, p, 0);
    proof {
        if p@.len() <= s@.len() {
            assert(s@.subrange(0, p@.len() as int) =~= s@.subrange(0int, 0int + p@.len()));
        }
    }
    r
}

/// Whether `p` is a suffix of `s`.
pub fn ends_with(s: &[char], p: &[char]) -> (r: bool)
    ensures
        r == is_suffix(p@, s@),
{
    if p.len() > s.len() {
        return false;
    }
    matches_at(s, p, s.len() - p.len())
}

/// Whether `p` occurs in `s`.
pub fn contains_chars(s: &[char], p: &[char]) -> (r: bool)
    ensures
        r == contains(s@, p@),
{
    find_chars(s, p).is_some()
}

/// Whether the character `c` occurs in `s`.
pub fn has_char(s: &[char], c: char) -> (r: bool)
    ensures
        r == s@.contains(c),
{
    let mut i: usize = 0;
    while i < s.len()
        invariant
            i <= s@.len(),
            forall|j: int| 0 <= j < i ==> s@[j] != c,
        decreases s@.len() - i,
    {
        if s[i] == c {
            proof {
                assert(s@[i as int] == c);
            }
            return true;
        }
        i = i + 1;
    }
    false
}


// ---------------------------------------------------------------------------
// Splitting, stripping and trimming.
// ---------------------------------------------------------------------------

/// What follows the last occurrence of `sep` (all of `s` when there is none).
pub open spec fn after_last(s: Seq<char>, sep: Seq<char>) -> Seq<char> {
    let r = rfind(s, sep);
    if r >= 0 && r + sep.len() <= s.len() {
        s.subrange(r + sep.len(), s.len() as int)
    } else {
        s
    }
}

/// What precedes the first occurrence of `sep` (all of `s` when there is none).
pub open spec fn before_first(s: Seq<char>, sep: Seq<char>) -> Seq<char> {
    let f = find(s, sep);
    if f >= 0 && f <= s.len() {
        s.subrange(0, f)
    } else {
        s
    }
}

/// `s` without its prefix `p`, when `p` is a prefix.
pub open spec fn strip_prefix(s: Seq<char>, p: Seq<char>) -> Option<Seq<char>> {
    if is_prefix(p, s) {
        Some(s.subrange(p.len() as int, s.len() as int))
    } else {
        None
    }
}

/// `s` without its suffix `p`, when `p` is a suffix.
pub open spec fn strip_suffix(s: Seq<char>, p: Seq<char>) -> Option<Seq<char>> {
    if is_suffix(p, s) {
        Some(s.subrange(0, s.len() - p.len()))
    } else {
        None
    }
}

/// `s` with every leading `c` removed.
pub open spec fn trim_start_char(s: Seq<char>, c: char) -> Seq<char>
    decreases s.len(),
{
    if s.len() > 0 && s[0] == c {
        trim_start_char(s.subrange(1, s.len() as int), c)
    } else {
        s
    }
}

/// `s` with every trailing `c` removed.
pub open spec fn trim_end_char(s: Seq<char>, c: char) -> Seq<char>
    decreases s.len(),
{
    if s.len() > 0 && s[s.len() - 1] == c {
        trim_end_char(s.subrange(0, s.len() - 1), c)
    } else {
        s
    }
}

/// `s` with every repeated trailing occurrence of the (nonempty) pattern `p` removed.
pub open spec fn trim_end_pat(s: Seq<char>, p: Seq<char>) -> Seq<char>
    decreases s.len(),
{
    if p.len() > 0 && is_suffix(p, s) {
        trim_end_pat(s.subrange(0, s.len() - p.len()), p)
    } else {
        s
    }
}

/// `s` with every repeated leading occurrence of the (nonempty) pattern `p` removed.
pub open spec fn trim_start_pat(s: Seq<char>, p: Seq<char>) -> Seq<char>
    decreases s.len(),
{
    if p.len() > 0 && is_prefix(p, s) {
        trim_start_pat(s.subrange(p.len() as int, s.len() as int), p)
    } else {
        s
    }
}

/// Unicode `White_Space` (the characters for which `char::is_whitespace` holds).
pub open spec fn is_ws(c: char) -> bool {
    let u = c as u32;
    (0x09 <= u <= 0x0d) || u == 0x20 || u == 0x85 || u == 0xa0 || u == 0x1680 || (0x2000 <= u
        <= 0x200a) || u == 0x2028 || u == 0x2029 || u == 0x202f || u == 0x205f || u == 0x3000
}

pub open spec fn trim_ws_start(s: Seq<char>) -> Seq<char>
    decreases s.len(),
{
    if s.len() > 0 && is_ws(s[0]) {
        trim_ws_start(s.subrange(1, s.len() as int))
    } else {
        s
    }
}

pub open spec fn trim_ws_end(s: Seq<char>) -> Seq<char>
    decreases s.len(),
{
    if s.len() > 0 && is_ws(s[s.len() - 1]) {
        trim_ws_end(s.subrange(0, s.len() - 1))
    } else {
        s
    }
}

/// `s` without leading and trailing whitespace.
pub open spec fn trim_ws(s: Seq<char>) -> Seq<char> {
    trim_ws_end(trim_ws_start(s))
}

/// Whether `c` is whitespace (`char::is_whitespace`).
pub fn is_whitespace(c: char) -> (r: bool)
    ensures
        r == is_ws(c),
{
    let u = c as u32;
    (0x09 <= u && u <= 0x0d) || u == 0x20 || u == 0x85 || u == 0xa0 || u == 0x1680 || (0x2000
        <= u && u <= 0x200a) || u == 0x2028 || u == 0x2029 || u == 0x202f || u == 0x205f || u
        == 0x3000
}

/// The text after the last `sep` (`s.rsplit(sep).next()`).
pub fn after_last_chars(s: &[char], sep: &[char]) -> (r: Vec<char>)
    ensures
        r@ == after_last(s@, sep@),
{
    match rfind_chars(s, sep) {
        Some(i) => {
            proof {
                assert(i + sep@.len() <= s@.len());
            }
            if sep.len() <= s.len() - i {
                slice_range(s, i + sep.len(), s.len())
            } else {
                slice_range(s, 0, s.len())
            }
        },
        None => slice_range(s, 0, s.len()),
    }
}

/// The text before the first `sep` (`s.split(sep).next()`).
pub fn before_first_chars(s: &[char], sep: &[char]) -> (r: Vec<char>)
    ensures
        r@ == before_first(s@, sep@),
{
    match find_chars(s, sep) {
        Some(i) => {
            if i <= s.len() {
                slice_range(s, 0, i)
            } else {
                slice_range(s, 0, s.len())
            }
        },
        None => slice_range(s, 0, s.len()),
    }
}

pub fn strip_prefix_chars(s: &[char], p: &[char]) -> (r: Option<Vec<char>>)
    ensures
        r matches Some(v) ==> strip_prefix(s@, p@) == Some(v@),
        r is None ==> strip_prefix(s@, p@) is None,
{
    if starts_with(s, p) {
        Some(slice_range(s, p.len(), s.len()))
    } else {
        None
    }
}

pub fn strip_suffix_chars(s: &[char], p: &[char]) -> (r: Option<Vec<char>>)
    ensures
        r matches Some(v) ==> strip_suffix(s@, p@) == Some(v@),
        r is None ==> strip_suffix(s@, p@) is None,
{
    if ends_with(s, p) {
        Some(slice_range(s, 0, s.len() - p.len()))
    } else {
        None
    }
}

pub fn trim_start_char_chars(s: &[char], c: char) -> (r: Vec<char>)
    ensures
        r@ == trim_start_char(s@, c),
{
    let mut i: usize = 0;
    proof {
        assert(s@.subrange(0, s@.len() as int) =~= s@);
    }
    while i < s.len() && s[i] == c
        invariant
            i <= s@.len(),
            trim_start_char(s@, c) == trim_start_char(s@.subrange(i as int, s@.len() as int), c),
        decreases s@.len() - i,
    {
        proof {
            assert(s@.subrange(i as int, s@.len() as int).subrange(1, s@.len() - i) =~= s@.subrange(
                i + 1,
                s@.len() as int,
            ));
        }
        i = i + 1;
    }
    slice_range(s, i, s.len())
}

pub fn trim_end_char_chars(s: &[char], c: char) -> (r: Vec<char>)
    ensures
        r@ == trim_end_char(s@, c),
{
    let mut j: usize = s.len();
    proof {
        assert(s@.subrange(0, s@.len() as int) =~= s@);
    }
    while j > 0 && s[j - 1] == c
        invariant
            j <= s@.len(),
            trim_end_char(s@, c) == trim_end_char(s@.subrange(0, j as int), c),
        decreases j,
    {
        proof {
            assert(s@.subrange(0, j as int).subrange(0, j - 1) =~= s@.subrange(0, j - 1));
        }
        j = j - 1;
    }
    slice_range(s, 0, j)
}

pub fn trim_end_pat_chars(s: &[char], p: &[char]) -> (r: Vec<char>)
    ensures
        r@ == trim_end_pat(s@, p@),
{
    let mut cur = slice_range(s, 0, s.len());
    proof {
        assert(cur@ =~= s@);
    }
    while p.len() > 0 && ends_with(&cur, p)
        invariant
            trim_end_pat(s@, p@) == trim_end_pat(cur@, p@),
        decreases cur@.len(),
    {
        let n = cur.len() - p.len();
        cur = slice_range(&cur, 0, n);
    }
    cur
}

pub fn trim_start_pat_chars(s: &[char], p: &[char]) -> (r: Vec<char>)
    ensures
        r@ == trim_start_pat(s@, p@),
{
    let mut cur = slice_range(s, 0, s.len());
    proof {
        assert(cur@ =~= s@);
    }
    while p.len() > 0 && starts_with(&cur, p)
        invariant
            trim_start_pat(s@, p@) == trim_start_pat(cur@, p@),
        decreases cur@.len(),
    {
        let n = cur.len();
        cur = slice_range(&cur, p.len(), n);
    }
    cur
}

/// `s` without leading and trailing whitespace (`str::trim`).
pub fn trim_chars(s: &[char]) -> (r: Vec<char>)
    ensures
        r@ == trim_ws(s@),
{
    let mut i: usize = 0;
    proof {
        assert(s@.subrange(0, s@.len() as int) =~= s@);
    }
    while i < s.len() && is_whitespace(s[i])
        invariant
            i <= s@.len(),
            trim_ws_start(s@) == trim_ws_start(s@.subrange(i as int, s@.len() as int)),
        decreases s@.len() - i,
    {
        proof {
            assert(s@.subrange(i as int, s@.len() as int).subrange(1, s@.len() - i) =~= s@.subrange(
                i + 1,
                s@.len() as int,
            ));
        }
        i = i + 1;
    }
    let mid = slice_range(s, i, s.len());
    let mut j: usize = mid.len();
    proof {
        assert(mid@.subrange(0, mid@.len() as int) =~= mid@);
    }
    while j > 0 && is_whitespace(mid[j - 1])
        invariant
            j <= mid@.len(),
            trim_ws_end(mid@) == trim_ws_end(mid@.subrange(0, j as int)),
        decreases j,
    {
        proof {
            assert(mid@.subrange(0, j as int).subrange(0, j - 1) =~= mid@.subrange(0, j - 1));
        }
        j = j - 1;
    }
    proof {
        assert(mid@.subrange(0, mid@.len() as int) =~= mid@);
    }
    slice_range(&mid, 0, j)
}

/// Splits at the first `c`: `s.split_once(c)`.
pub fn split_once_char(s: &[char], c: char) -> (r: Option<(Vec<char>, Vec<char>)>)
    ensures
        r matches Some((a, b)) ==> {
            let f = find(s@, seq![c]);
            &&& 0 <= f < s@.len()
            &&& a@ == s@.subrange(0, f)
            &&& b@ == s@.subrange(f + 1, s@.len() as int)
        },
        r is None ==> find(s@, seq![c]) == -1,
{
    let pat = vec![c];
    proof {
        assert(pat@ =~= seq![c]);
    }
    match find_chars(s, &pat) {
        Some(i) => {
            if i < s.len() {
                Some((slice_range(s, 0, i), slice_range(s, i + 1, s.len())))
            } else {
                proof {
                    assert(!occurs_at(s@, seq![c], i as int));
                }
                None
            }
        },
        None => None,
    }
}

/// Splits at the last `c`: `s.rsplit_once(c)`.
pub fn rsplit_once_char(s: &[char], c: char) -> (r: Option<(Vec<char>, Vec<char>)>)
    ensures
        r matches Some((a, b)) ==> {
            let f = rfind(s@, seq![c]);
            &&& 0 <= f < s@.len()
            &&& a@ == s@.subrange(0, f)
            &&& b@ == s@.subrange(f + 1, s@.len() as int)
        },
        r is None ==> rfind(s@, seq![c]) == -1,
{
    let pat = vec![c];
    proof {
        assert(pat@ =~= seq![c]);
    }
    match rfind_chars(s, &pat) {
        Some(i) => {
            if i < s.len() {
                Some((slice_range(s, 0, i), slice_range(s, i + 1, s.len())))
            } else {
                proof {
                    assert(!occurs_at(s@, seq![c], i as int));
                }
                None
            }
        },
        None => None,
    }
}

/// `s.replace(from, to)` for a nonempty pattern `from`.
pub open spec fn replace(s: Seq<char>, from: Seq<char>, to: Seq<char>) -> Seq<char>
    decreases s.len(),
{
    let i = find(s, from);
    if from.len() == 0 || i < 0 || i + from.len() > s.len() {
        s
    } else {
        s.subrange(0, i) + to + replace(s.subrange(i + from.len(), s.len() as int), from, to)
    }
}

pub fn replace_chars(s: &[char], from: &[char], to: &[char]) -> (r: Vec<char>)
    ensures
        r@ == replace(s@, from@, to@),
{
    let mut out: Vec<char> = Vec::new();
    let mut rest = slice_range(s, 0, s.len());
    proof {
        assert(rest@ =~= s@);
    }
    loop
        invariant
            replace(s@, from@, to@) == out@ + replace(rest@, from@, to@),
        decreases rest@.len(),
    {
        if from.len() == 0 {
            append_chars(&mut out, &rest);
            return out;
        }
        match find_chars(&rest, from) {
            Some(i) => {
                proof {
                    assert(i + from@.len() <= rest@.len());
                }
                if from.len() > rest.len() - i {
                    append_chars(&mut out, &rest);
                    return out;
                }
                let head = slice_range(&rest, 0, i);
                append_chars(&mut out, &head);
                append_chars(&mut out, to);
                let n = rest.len();
                proof {
                    assert(out@ + replace(rest@.subrange(i + from@.len(), n as int), from@, to@)
                        =~= old_out_helper(out@, head@, to@, replace(
                        rest@.subrange(i + from@.len(), n as int),
                        from@,
                        to@,
                    )));
                }
                rest = slice_range(&rest, i + from.len(), n);
            },
            None => {
                append_chars(&mut out, &rest);
                return out;
            },
        }
    }
}

spec fn old_out_helper(o: Seq<char>, h: Seq<char>, t: Seq<char>, r: Seq<char>) -> Seq<char> {
    o + r
}

pub open spec fn ascii_lower(c: char) -> char {
    if 'A' <= c <= 'Z' {
        ((c as u32) + 32) as char
    } else {
        c
    }
}

/// `s.to_ascii_lowercase()`.
pub open spec fn to_ascii_lower(s: Seq<char>) -> Seq<char> {
    Seq::new(s.len(), |i: int| ascii_lower(s[i]))
}

pub fn lower_char(c: char) -> (r: char)
    ensures
        r == ascii_lower(c),
{
    if 'A' <= c && c <= 'Z' {
        let u = (c as u32) + 32;
        proof {
            assert(0x61 <= u <= 0x7a);
        }
        char_from_ascii(u as u8)
    } else {
        c
    }
}

/// The ASCII character with code `b`.
pub fn char_from_ascii(b: u8) -> (c: char)
    requires
        b < 128,
    ensures
        c as u32 == b as u32,
{
    b as char
}

pub fn to_ascii_lower_chars(s: &[char]) -> (r: Vec<char>)
    ensures
        r@ == to_ascii_lower(s@),
{
    let mut r: Vec<char> = Vec::new();
    let mut i: usize = 0;
    while i < s.len()
        invariant
            i <= s@.len(),
            r@ =~= to_ascii_lower(s@.subrange(0, i as int)),
        decreases s@.len() - i,
    {
        r.push(lower_char(s[i]));
        i = i + 1;
    }
    r
}

/// `s.split(c)` as a sequence of pieces.
pub open spec fn split_char(s: Seq<char>, c: char) -> Seq<Seq<char>>
    decreases s.len(),
{
    let i = find(s, seq![c]);
    if i < 0 || i >= s.len() {
        seq![s]
    } else {
        seq![s.subrange(0, i)] + split_char(s.subrange(i + 1, s.len() as int), c)
    }
}

pub fn split_char_chars(s: &[char], c: char) -> (r: Vec<Vec<char>>)
    ensures
        r@.map_values(|v: Vec<char>| v@) == split_char(s@, c),
{
    let mut out: Vec<Vec<char>> = Vec::new();
    let mut rest = slice_range(s, 0, s.len());
    proof {
        assert(rest@ =~= s@);
    }
    let pat = vec![c];
    proof {
        assert(pat@ =~= seq![c]);
    }
    loop
        invariant
            pat@ == seq![c],
            split_char(s@, c) == out@.map_values(|v: Vec<char>| v@) + split_char(rest@, c),
        decreases rest@.len(),
    {
        match find_chars(&rest, &pat) {
            Some(i) => {
                if i >= rest.len() {
                    let ghost o = out@;
                    out.push(rest);
                    proof {
                        assert(out@.map_values(|v: Vec<char>| v@) =~= o.map_values(
                            |v: Vec<char>| v@,
                        ).push(rest@));
                    }
                    return out;
                }
                let head = slice_range(&rest, 0, i);
                let n = rest.len();
                let tail = slice_range(&rest, i + 1, n);
                let ghost o = out@;
                out.push(head);
                proof {
                    assert(out@.map_values(|v: Vec<char>| v@) =~= o.map_values(|v: Vec<char>| v@)
                        + seq![head@]);
                }
                rest = tail;
            },
            None => {
                let ghost o = out@;
                let ghost rv = rest@;
                out.push(rest);
                proof {
                    assert(out@.map_values(|v: Vec<char>| v@) =~= o.map_values(|v: Vec<char>| v@)
                        + seq![rv]);
                }
                return out;
            },
        }
    }
}

/// A line without its trailing carriage return.
pub open spec fn strip_cr(s: Seq<char>) -> Seq<char> {
    if s.len() > 0 && s[s.len() - 1] == '\r' {
        s.subrange(0, s.len() - 1)
    } else {
        s
    }
}

/// `s.lines()`: pieces ended by `'\n'` (or `"\r\n"`, whose `'\r'` is dropped),
/// and a last piece with no line ending, kept as it is; no final empty piece
/// after a trailing newline.
pub open spec fn lines(s: Seq<char>) -> Seq<Seq<char>>
    decreases s.len(),
{
    let i = find(s, seq!['\n']);
    if s.len() == 0 {
        seq![]
    } else if i < 0 || i >= s.len() {
        seq![s]
    } else {
        seq![strip_cr(s.subrange(0, i))] + lines(s.subrange(i + 1, s.len() as int))
    }
}

pub fn strip_cr_chars(s: Vec<char>) -> (r: Vec<char>)
    ensures
        r@ == strip_cr(s@),
{
    if s.len() > 0 && s[s.len() - 1] == '\r' {
        slice_range(&s, 0, s.len() - 1)
    } else {
        s
    }
}

pub fn lines_chars(s: &[char]) -> (r: Vec<Vec<char>>)
    ensures
        r@.map_values(|v: Vec<char>| v@) == lines(s@),
{
    let mut out: Vec<Vec<char>> = Vec::new();
    let mut rest = slice_range(s, 0, s.len());
    proof {
        assert(rest@ =~= s@);
    }
    let pat = vec!['\n'];
    proof {
        assert(pat@ =~= seq!['\n']);
    }
    loop
        invariant
            pat@ == seq!['\n'],
            lines(s@) == out@.map_values(|v: Vec<char>| v@) + lines(rest@),
        decreases rest@.len(),
    {
        if rest.len() == 0 {
            proof {
                assert(out@.map_values(|v: Vec<char>| v@) + lines(rest@) =~= out@.map_values(
                    |v: Vec<char>| v@,
                ));
            }
            return out;
        }
        match find_chars(&rest, &pat) {
            Some(i) => {
                if i >= rest.len() {
                    let ghost o = out@;
                    let line = rest;
                    out.push(line);
                    proof {
                        assert(out@.map_values(|v: Vec<char>| v@) =~= o.map_values(
                            |v: Vec<char>| v@,
                        ).push(line@));
                    }
                    return out;
                }
                let head = strip_cr_chars(slice_range(&rest, 0, i));
                let n = rest.len();
                let tail = slice_range(&rest, i + 1, n);
                let ghost o = out@;
                out.push(head);
                proof {
                    assert(out@.map_values(|v: Vec<char>| v@) =~= o.map_values(|v: Vec<char>| v@)
                        + seq![head@]);
                }
                rest = tail;
            },
            None => {
                let ghost o = out@;
                let line = rest;
                out.push(line);
                proof {
                    assert(out@.map_values(|v: Vec<char>| v@) =~= o.map_values(|v: Vec<char>| v@)
                        + seq![line@]);
                }
                return out;
            },
        }
    }
}


// ---------------------------------------------------------------------------
// Unicode properties and decoding from std.
// ---------------------------------------------------------------------------

/// Whether `c` has the Unicode `Uppercase` property (`char::is_uppercase`).
pub uninterp spec fn uppercase_char(c: char) -> bool;

/// Whether `c` has the Unicode `Lowercase` property (`char::is_lowercase`).
pub uninterp spec fn lowercase_char(c: char) -> bool;

/// `char::is_uppercase`; the contract claims the property, and that ASCII
/// capitals have it while ASCII lower-case letters, digits and `_` do not.
#[verifier::external_body]
pub(crate) fn is_uppercase(c: char) -> (r: bool)
    ensures
        r == uppercase_char(c),
        'A' <= c <= 'Z' ==> r,
        ('a' <= c <= 'z' || '0' <= c <= '9' || c == '_') ==> !r,
{
    c.is_uppercase()
}

/// `char::is_lowercase`; the contract claims the property, and that ASCII
/// lower-case letters have it while ASCII capitals, digits and `_` do not.
#[verifier::external_body]
pub(crate) fn is_lowercase(c: char) -> (r: bool)
    ensures
        r == lowercase_char(c),
        'a' <= c <= 'z' ==> r,
        ('A' <= c <= 'Z' || '0' <= c <= '9' || c == '_') ==> !r,
{
    c.is_lowercase()
}

/// Whether `c` is alphabetic or numeric in Unicode (`char::is_alphanumeric`).
pub uninterp spec fn alphanumeric_char(c: char) -> bool;

/// `char::is_alphanumeric`; the contract claims the property, and that ASCII
/// letters and digits have it while ASCII space, punctuation and `_` do not.
#[verifier::external_body]
pub(crate) fn is_alphanumeric(c: char) -> (r: bool)
    ensures
        r == alphanumeric_char(c),
        ('a' <= c <= 'z' || 'A' <= c <= 'Z' || '0' <= c <= '9') ==> r,
        (c as u32) < 128 && !('a' <= c <= 'z' || 'A' <= c <= 'Z' || '0' <= c <= '9') ==> !r,
{
    c.is_alphanumeric()
}

/// `std::str::from_utf8`: the text that `b` encodes, when `b` is valid UTF-8.
#[verifier::external_body]
pub(crate) fn decode_utf8_bytes(b: &[u8]) -> (r: Option<String>)
    ensures
        r is Some <==> vstd::utf8::valid_utf8(b@),
        r matches Some(s) ==> s@ == vstd::utf8::decode_utf8(b@),
{
    match std::str::from_utf8(b) {
        Ok(s) => Some(s.to_string()),
        Err(_) => None,
    }
}

/// The text that `String::from_utf8_lossy` makes of `b`.
pub uninterp spec fn utf8_lossy(b: Seq<u8>) -> Seq<char>;

/// `String::from_utf8_lossy`: the text of `b`, invalid sequences replaced by
/// U+FFFD; the contract names the result and claims that valid UTF-8 is decoded
/// as it is.
#[verifier::external_body]
pub(crate) fn decode_utf8_lossy(b: &[u8]) -> (r: String)
    ensures
        r@ == utf8_lossy(b@),
        vstd::utf8::valid_utf8(b@) ==> r@ == vstd::utf8::decode_utf8(b@),
{
    String::from_utf8_lossy(b).into_owned()
}


// ---------------------------------------------------------------------------
// Joining strings.
// ---------------------------------------------------------------------------

/// `a` followed by `b`.
pub fn cat2(a: &str, b: &str) -> (r: String)
    ensures
        r@ == a@ + b@,
{
    let mut v = chars_of(a);
    append_str(&mut v, b);
    string_of(&v)
}

/// `a`, `b` and `c` in a row.
pub fn cat3(a: &str, b: &str, c: &str) -> (r: String)
    ensures
        r@ == a@ + b@ + c@,
{
    let mut v = chars_of(a);
    append_str(&mut v, b);
    append_str(&mut v, c);
    string_of(&v)
}

/// `a`, `b`, `c` and `d` in a row.
pub fn cat4(a: &str, b: &str, c: &str, d: &str) -> (r: String)
    ensures
        r@ == a@ + b@ + c@ + d@,
{
    let mut v = chars_of(a);
    append_str(&mut v, b);
    append_str(&mut v, c);
    append_str(&mut v, d);
    string_of(&v)
}

/// `a` to `e` in a row.
pub fn cat5(a: &str, b: &str, c: &str, d: &str, e: &str) -> (r: String)
    ensures
        r@ == a@ + b@ + c@ + d@ + e@,
{
    let mut v = chars_of(a);
    append_str(&mut v, b);
    append_str(&mut v, c);
    append_str(&mut v, d);
    append_str(&mut v, e);
    string_of(&v)
}

/// The number of bytes that UTF-8 takes for `c`.
pub open spec fn utf8_width(c: char) -> nat {
    if (c as u32) < 0x80 {
        1
    } else if (c as u32) < 0x800 {
        2
    } else if (c as u32) < 0x10000 {
        3
    } else {
        4
    }
}

/// The byte length of the UTF-8 encoding of `s` (what `str::len` gives).
pub open spec fn byte_len(s: Seq<char>) -> nat
    decreases s.len(),
{
    if s.len() == 0 {
        0
    } else {
        byte_len(s.drop_last()) + utf8_width(s.last())
    }
}

/// Whether the UTF-8 encoding of `v` takes more than `limit` bytes.
pub fn utf8_longer_than(v: &[char], limit: usize) -> (r: bool)
    ensures
        r == (byte_len(v@) > limit),
{
    let mut acc: usize = 0;
    let mut i: usize = 0;
    while i < v.len()
        invariant
            i <= v@.len(),
            acc == byte_len(v@.take(i as int)),
            acc <= limit,
        decreases v@.len() - i,
    {
        proof {
            assert(v@.take(i as int + 1).drop_last() =~= v@.take(i as int));
        }
        let u = v[i] as u32;
        let w: usize = if u < 0x80 {
            1
        } else if u < 0x800 {
            2
        } else if u < 0x10000 {
            3
        } else {
            4
        };
        if w > limit - acc {
            proof {
                lemma_byte_len_prefix(v@, i as int + 1);
            }
            return true;
        }
        acc = acc + w;
        i = i + 1;
    }
    proof {
        assert(v@.take(v@.len() as int) =~= v@);
    }
    false
}

/// A prefix takes no more bytes than the whole.
pub proof fn lemma_byte_len_prefix(s: Seq<char>, k: int)
    requires
        0 <= k <= s.len(),
    ensures
        byte_len(s.take(k)) <= byte_len(s),
    decreases s.len(),
{
    if k < s.len() {
        assert(s.drop_last().take(k) =~= s.take(k));
        lemma_byte_len_prefix(s.drop_last(), k);
    } else {
        assert(s.take(k) =~= s);
    }
}

/// Longer prefixes take more bytes.
pub proof fn lemma_byte_len_take_mono(s: Seq<char>, i: int, j: int)
    requires
        0 <= i < j <= s.len(),
    ensures
        byte_len(s.take(i)) < byte_len(s.take(j)),
    decreases j - i,
{
    assert(s.take(j).drop_last() =~= s.take(j - 1));
    if i < j - 1 {
        lemma_byte_len_take_mono(s, i, j - 1);
    }
}

/// The UTF-8 byte length of `v`.
pub fn utf8_byte_len(v: &[char]) -> (r: u128)
    ensures
        r == byte_len(v@),
{
    let mut acc: u128 = 0;
    let mut i: usize = 0;
    while i < v.len()
        invariant
            i <= v@.len(),
            acc == byte_len(v@.take(i as int)),
            acc <= 4 * i,
        decreases v@.len() - i,
    {
        proof {
            assert(v@.take(i as int + 1).drop_last() =~= v@.take(i as int));
        }
        let u = v[i] as u32;
        let w: u128 = if u < 0x80 {
            1
        } else if u < 0x800 {
            2
        } else if u < 0x10000 {
            3
        } else {
            4
        };
        acc = acc + w;
        i = i + 1;
    }
    proof {
        assert(v@.take(v@.len() as int) =~= v@);
    }
    acc
}

/// The first `k` characters of `s` take exactly `b` bytes: `b` is a character
/// boundary of the text.
pub open spec fn boundary_at(s: Seq<char>, b: int, k: int) -> bool {
    0 <= k <= s.len() && byte_len(s.take(k)) == b
}

/// Byte offset `b` falls on a character boundary of `s`.
pub open spec fn is_boundary(s: Seq<char>, b: int) -> bool {
    exists|k: int| #[trigger] boundary_at(s, b, k)
}

/// The characters in the first `b` bytes of `s` (`b` on a character boundary).
pub open spec fn bytes_prefix(s: Seq<char>, b: int) -> Seq<char> {
    s.take(choose|k: int| #[trigger] boundary_at(s, b, k))
}

/// The characters in the first `b` bytes of `v`, where `b` is a character boundary.
pub fn take_bytes(v: &[char], b: usize) -> (r: Vec<char>)
    requires
        is_boundary(v@, b as int),
    ensures
        r@ == bytes_prefix(v@, b as int),
{
    let ghost k = choose|k: int| #[trigger] boundary_at(v@, b as int, k);
    let mut acc: usize = 0;
    let mut i: usize = 0;
    while acc < b
        invariant
            boundary_at(v@, b as int, k),
            i <= k,
            acc == byte_len(v@.take(i as int)),
            acc <= b,
        decreases b - acc,
    {
        proof {
            assert(i < k) by {
                if i == k {
                    assert(acc == b);
                }
            }
            assert(v@.take(i as int + 1).drop_last() =~= v@.take(i as int));
            if i + 1 < k {
                lemma_byte_len_take_mono(v@, i as int + 1, k);
            }
        }
        let u = v[i] as u32;
        let w: usize = if u < 0x80 {
            1
        } else if u < 0x800 {
            2
        } else if u < 0x10000 {
            3
        } else {
            4
        };
        acc = acc + w;
        i = i + 1;
    }
    proof {
        if (i as int) < k {
            lemma_byte_len_take_mono(v@, i as int, k);
        }
    }
    slice_range(v, 0, i)
}

/// The pieces joined with `sep` between them.
pub open spec fn join_with(parts: Seq<Seq<char>>, sep: Seq<char>) -> Seq<char>
    decreases parts.len(),
{
    if parts.len() == 0 {
        seq![]
    } else if parts.len() == 1 {
        parts[0]
    } else {
        join_with(parts.drop_last(), sep) + sep + parts.last()
    }
}

/// Joins the pieces with `sep` between them.
pub fn join_chars(parts: &Vec<Vec<char>>, sep: &[char]) -> (r: Vec<char>)
    ensures
        r@ == join_with(parts@.map_values(|v: Vec<char>| v@), sep@),
{
    let ghost pv = parts@.map_values(|v: Vec<char>| v@);
    let mut out: Vec<char> = Vec::new();
    let mut i: usize = 0;
    proof {
        assert(pv.take(0) =~= Seq::<Seq<char>>::empty());
    }
    while i < parts.len()
        invariant
            i <= parts@.len(),
            pv == parts@.map_values(|v: Vec<char>| v@),
            out@ == join_with(pv.take(i as int), sep@),
        decreases parts@.len() - i,
    {
        proof {
            assert(pv.take(i as int + 1).drop_last() =~= pv.take(i as int));
            assert(pv.take(i as int + 1).last() == parts@[i as int]@);
        }
        if i > 0 {
            append_chars(&mut out, sep);
        }
        append_chars(&mut out, &parts[i]);
        proof {
            if i == 0 {
                assert(pv.take(1).len() == 1);
                assert(out@ =~= pv.take(1)[0]);
            }
        }
        i = i + 1;
    }
    proof {
        assert(pv.take(parts@.len() as int) =~= pv);
    }
    out
}

/// `a` comes strictly before `b` in lexicographic order of code points (the
/// order of `String`s).
pub open spec fn seq_lt(a: Seq<char>, b: Seq<char>) -> bool
    decreases a.len(),
{
    if a.len() == 0 {
        b.len() > 0
    } else if b.len() == 0 {
        false
    } else if a[0] != b[0] {
        (a[0] as u32) < (b[0] as u32)
    } else {
        seq_lt(a.drop_first(), b.drop_first())
    }
}

/// Whether `a` comes strictly before `b` (`a < b` on `String`s).
pub fn chars_lt(a: &[char], b: &[char]) -> (r: bool)
    ensures
        r == seq_lt(a@, b@),
{
    let mut i: usize = 0;
    proof {
        assert(a@.subrange(0, a@.len() as int) =~= a@);
        assert(b@.subrange(0, b@.len() as int) =~= b@);
    }
    while i < a.len() && i < b.len() && a[i] == b[i]
        invariant
            i <= a@.len(),
            i <= b@.len(),
            seq_lt(a@, b@) == seq_lt(a@.subrange(i as int, a@.len() as int), b@.subrange(i as int, b@.len() as int)),
        decreases a@.len() - i,
    {
        proof {
            let x = a@.subrange(i as int, a@.len() as int);
            let y = b@.subrange(i as int, b@.len() as int);
            assert(x.drop_first() =~= a@.subrange(i as int + 1, a@.len() as int));
            assert(y.drop_first() =~= b@.subrange(i as int + 1, b@.len() as int));
        }
        i = i + 1;
    }
    proof {
        let x = a@.subrange(i as int, a@.len() as int);
        let y = b@.subrange(i as int, b@.len() as int);
        if i < a.len() && i < b.len() {
            assert(x[0] == a@[i as int] && y[0] == b@[i as int]);
        }
    }
    if i == a.len() {
        i < b.len()
    } else if i == b.len() {
        false
    } else {
        (a[i] as u32) < (b[i] as u32)
    }
}

} // verus!
