//! The hotspots listing.
use vstd::prelude::*;
use crate::text::{chars_of, string_of, append_str, append_chars, utf8_byte_len, byte_len, boundary_at, take_bytes, is_boundary, bytes_prefix};
use crate::commands::rows::{
    Row, RowView, row_views, text_or, text_or_chars, pad_right, append_padded_right, json_number,
    json_number_chars,
};

verus! {

/// `s` when it takes at most `max` bytes, else its first `max - 3` bytes
/// (which must end on a character boundary) followed by `...`.
pub fn truncate(s: &str, max: usize) -> (r: String)
    requires
        byte_len(s@) <= max || (max >= 3 && is_boundary(s@, max - 3)),
    ensures
        byte_len(s@) <= max ==> r@ == s@,
        byte_len(s@) > max ==> r@ == bytes_prefix(s@, max - 3) + "..."@,
{
    let v = chars_of(s);
    if utf8_byte_len(&v) <= max as u128 {
        return s.to_string();
    }
    let mut head = take_bytes(&v, max - 3);
    append_str(&mut head, "...");
    string_of(&head)
}

/// `s` cut to `max` bytes as `truncate` does.
pub open spec fn cut(s: Seq<char>, max: int) -> Seq<char> {
    if byte_len(s) <= max {
        s
    } else {
        bytes_prefix(s, max - 3) + "..."@
    }
}

/// The name of a hotspot can be cut to 30 bytes (it is short, or its 27th
/// byte ends a character).
pub open spec fn name_fits(r: RowView) -> bool {
    byte_len(text_or(r.name, "?"@)) <= 30 || is_boundary(text_or(r.name, "?"@), 27)
}

/// `n` dashes.
pub open spec fn dashes(n: nat) -> Seq<char> {
    Seq::new(n, |i: int| '-')
}

/// The line of one hotspot. The counts are JSON values, which ignore the
/// column widths.
pub open spec fn hotspot_line(r: RowView) -> Seq<char> {
    pad_right(cut(text_or(r.name, "?"@), 30), 30) + " "@ + pad_right(text_or(r.kind, "?"@), 15) + " "@
        + json_number(r.outgoing) + " "@ + json_number(r.incoming) + " "@ + json_number(
        r.connections,
    ) + "\n"@
}

pub open spec fn hotspot_lines(rs: Seq<RowView>) -> Seq<char>
    decreases rs.len(),
{
    if rs.len() == 0 {
        seq![]
    } else {
        hotspot_lines(rs.drop_last()) + hotspot_line(rs.last())
    }
}

/// The hotspots table: a header, a rule and one line per symbol, or a hint
/// when there is none.
pub open spec fn hotspots_text(rs: Seq<RowView>) -> Seq<char> {
    if rs.len() == 0 {
        "No hotspots found. Run 'ast-graph scan .' first.\n"@
    } else {
        pad_right("Name"@, 30) + " "@ + pad_right("Kind"@, 15) + " "@ + crate::commands::rows::pad_left(
            "Out"@,
            8,
        ) + " "@ + crate::commands::rows::pad_left("In"@, 8) + " "@ + crate::commands::rows::pad_left(
            "Total"@,
            8,
        ) + "\n"@ + dashes(75) + "\n"@ + hotspot_lines(rs)
    }
}

fn hotspot_line_chars(r: &Row) -> (out: Vec<char>)
    requires
        name_fits(r@),
    ensures
        out@ == hotspot_line(r@),
{
    let mut out: Vec<char> = Vec::new();
    let name = text_or_chars(&r.name, "?");
    let t = truncate(string_of(&name).as_str(), 30);
    append_padded_right(&mut out, &chars_of(t.as_str()), 30);
    append_str(&mut out, " ");
    append_padded_right(&mut out, &text_or_chars(&r.kind, "?"), 15);
    append_str(&mut out, " ");
    append_chars(&mut out, &json_number_chars(r.outgoing));
    append_str(&mut out, " ");
    append_chars(&mut out, &json_number_chars(r.incoming));
    append_str(&mut out, " ");
    append_chars(&mut out, &json_number_chars(r.connections));
    append_str(&mut out, "\n");
    proof {
        assert(out@ =~= hotspot_line(r@));
    }
    out
}

/// The hotspots table for the rows `results` (see `hotspots_text`).
pub fn hotspots_report(results: &Vec<Row>) -> (r: String)
    requires
        forall|i: int| 0 <= i < results@.len() ==> name_fits(#[trigger] results@[i]@),
    ensures
        r@ == hotspots_text(row_views(results@)),
{
    let ghost rv = row_views(results@);
    let mut out: Vec<char> = Vec::new();
    if results.len() == 0 {
        append_str(&mut out, "No hotspots found. Run 'ast-graph scan .' first.\n");
        proof {
            assert(out@ =~= hotspots_text(rv));
        }
        return string_of(&out);
    }
    append_padded_right(&mut out, &chars_of("Name"), 30);
    append_str(&mut out, " ");
    append_padded_right(&mut out, &chars_of("Kind"), 15);
    append_str(&mut out, " ");
    crate::commands::rows::append_padded_left(&mut out, &chars_of("Out"), 8);
    append_str(&mut out, " ");
    crate::commands::rows::append_padded_left(&mut out, &chars_of("In"), 8);
    append_str(&mut out, " ");
    crate::commands::rows::append_padded_left(&mut out, &chars_of("Total"), 8);
    append_str(&mut out, "\n");
    let ghost h0 = out@;
    let mut k: usize = 0;
    while k < 75
        invariant
            k <= 75,
            out@ == h0 + dashes(k as nat),
        decreases 75 - k,
    {
        out.push('-');
        proof {
            assert(out@ =~= h0 + dashes(k as nat + 1));
        }
        k = k + 1;
    }
    append_str(&mut out, "\n");
    let ghost head = out@;
    let mut i: usize = 0;
    while i < results.len()
        invariant
            i <= results@.len(),
            rv == row_views(results@),
            forall|j: int| 0 <= j < results@.len() ==> name_fits(#[trigger] results@[j]@),
            out@ == head + hotspot_lines(rv.take(i as int)),
        decreases results@.len() - i,
    {
        proof {
            assert(rv.take(i as int + 1).drop_last() =~= rv.take(i as int));
            assert(rv.take(i as int + 1).last() == results@[i as int]@);
            assert(name_fits(results@[i as int]@));
        }
        let line = hotspot_line_chars(&results[i]);
        append_chars(&mut out, &line);
        i = i + 1;
    }
    proof {
        assert(rv.take(results@.len() as int) =~= rv);
        assert(out@ =~= hotspots_text(rv));
    }
    string_of(&out)
}

} // verus!
