//! The functions a function calls, transitively, as an indented tree.
use vstd::prelude::*;
use crate::commands::rows::{Row, RowView, Target, row_views, text_or, text_or_chars, int_or_zero};
use crate::text::{string_of, append_str, append_chars, str_eq};
use crate::num::{dec_int, fmt_i64};

verus! {

/// The kinds a call chain may start from.
pub open spec fn chain_kind(k: Seq<char>) -> bool {
    k == "Function"@ || k == "Method"@ || k == "Constructor"@
}

pub open spec fn chain_candidate() -> spec_fn(RowView) -> bool {
    |r: RowView| chain_kind(text_or(r.kind, ""@))
}

pub open spec fn chain_candidate_line(r: RowView) -> Seq<char> {
    "  "@ + text_or(r.name, "?"@) + " ("@ + text_or(r.kind, "?"@) + ") - "@ + text_or(r.id, "?"@)
        + "\n"@
}

pub open spec fn chain_candidate_lines(rs: Seq<RowView>) -> Seq<char>
    decreases rs.len(),
{
    if rs.len() == 0 {
        seq![]
    } else {
        chain_candidate_lines(rs.drop_last()) + chain_candidate_line(rs.last())
    }
}

/// The list of candidates shown where there are several.
pub open spec fn chain_preamble(c: Seq<RowView>) -> Seq<char> {
    if c.len() > 1 {
        "Multiple matches found:\n"@ + chain_candidate_lines(c) + "\n"@
    } else {
        seq![]
    }
}

pub open spec fn no_function_text(query: Seq<char>) -> Seq<char> {
    "No function matching '"@ + query + "' found. Run 'ast-graph scan .' first.\n"@
}

fn chain_candidates(matches: &Vec<Row>) -> (r: Vec<Row>)
    ensures
        row_views(r@) == row_views(matches@).filter(chain_candidate()),
{
    let ghost mv = row_views(matches@);
    let mut r: Vec<Row> = Vec::new();
    let mut i: usize = 0;
    while i < matches.len()
        invariant
            i <= matches@.len(),
            mv == row_views(matches@),
            row_views(r@) == mv.take(i as int).filter(chain_candidate()),
        decreases matches@.len() - i,
    {
        let m = &matches[i];
        proof {
            assert(mv.take(i as int + 1) =~= mv.take(i as int).push(m@));
            mv.take(i as int).lemma_filter_push(m@, chain_candidate());
        }
        let k: &str = match &m.kind {
            Some(s) => s.as_str(),
            None => "",
        };
        proof {
            assert(k@ == text_or(m@.kind, ""@));
        }
        if str_eq(k, "Function") || str_eq(k, "Method") || str_eq(k, "Constructor") {
            let ghost before = row_views(r@);
            r.push(m.duplicate());
            proof {
                assert(row_views(r@) =~= before.push(m@));
            }
        }
        i = i + 1;
    }
    proof {
        assert(mv.take(matches@.len() as int) =~= mv);
    }
    r
}

/// Picks the first match that is a function, method or constructor; the
/// error is the message shown when there is none.
pub fn call_chain_target(query: &str, matches: &Vec<Row>) -> (r: Result<Target, String>)
    ensures
        ({
            let c = row_views(matches@).filter(chain_candidate());
            &&& (r is Err <==> c.len() == 0)
            &&& (r matches Err(m) ==> m@ == no_function_text(query@))
            &&& (r matches Ok(t) ==> t.preamble@ == chain_preamble(c) && t.id@ == text_or(c[0].id, ""@)
                && t.name@ == text_or(c[0].name, query@))
        }),
{
    let cands = chain_candidates(matches);
    if cands.len() == 0 {
        let mut m: Vec<char> = Vec::new();
        append_str(&mut m, "No function matching '");
        append_str(&mut m, query);
        append_str(&mut m, "' found. Run 'ast-graph scan .' first.\n");
        proof {
            assert(m@ =~= no_function_text(query@));
        }
        return Err(string_of(&m));
    }
    let ghost cv = row_views(cands@);
    let mut pre: Vec<char> = Vec::new();
    if cands.len() > 1 {
        append_str(&mut pre, "Multiple matches found:\n");
        let ghost head = pre@;
        let mut i: usize = 0;
        while i < cands.len()
            invariant
                i <= cands@.len(),
                cv == row_views(cands@),
                pre@ == head + chain_candidate_lines(cv.take(i as int)),
            decreases cands@.len() - i,
        {
            proof {
                assert(cv.take(i as int + 1).drop_last() =~= cv.take(i as int));
                assert(cv.take(i as int + 1).last() == cands@[i as int]@);
            }
            append_str(&mut pre, "  ");
            append_chars(&mut pre, &text_or_chars(&cands[i].name, "?"));
            append_str(&mut pre, " (");
            append_chars(&mut pre, &text_or_chars(&cands[i].kind, "?"));
            append_str(&mut pre, ") - ");
            append_chars(&mut pre, &text_or_chars(&cands[i].id, "?"));
            append_str(&mut pre, "\n");
            proof {
                assert(pre@ =~= head + chain_candidate_lines(cv.take(i as int + 1)));
            }
            i = i + 1;
        }
        proof {
            assert(cv.take(cands@.len() as int) =~= cv);
        }
        append_str(&mut pre, "\n");
    }
    proof {
        assert(pre@ =~= chain_preamble(cv));
        assert(cv[0] == cands@[0]@);
    }
    let id = text_or_chars(&cands[0].id, "");
    let name = text_or_chars(&cands[0].name, query);
    Ok(Target { preamble: string_of(&pre), id: string_of(&id), name: string_of(&name) })
}

/// `n` copies of two spaces.
pub open spec fn indent(n: nat) -> Seq<char> {
    Seq::new(2 * n, |i: int| ' ')
}

/// The line of one entry of the chain: indented by its depth, with the line
/// of the call where that is positive.
pub open spec fn chain_line(e: RowView) -> Seq<char> {
    let l = int_or_zero(e.call_line);
    indent(int_or_zero(e.depth) as nat) + text_or(e.name, "?"@) + " ("@ + text_or(e.kind, "?"@) + ")"@
        + if e.call_line is Some && l > 0 {
        " @L"@ + dec_int(l)
    } else {
        Seq::<char>::empty()
    } + "\n"@
}

pub open spec fn chain_lines(es: Seq<RowView>) -> Seq<char>
    decreases es.len(),
{
    if es.len() == 0 {
        seq![]
    } else {
        chain_lines(es.drop_last()) + chain_line(es.last())
    }
}

/// The depth of an entry can be indented: not negative, and twice it fits
/// in a `usize`.
pub open spec fn indentable(e: RowView) -> bool {
    0 <= int_or_zero(e.depth) && 2 * int_or_zero(e.depth) <= usize::MAX
}

/// The call chain from `name` within `depth` hops.
pub open spec fn call_chain_text(name: Seq<char>, depth: i32, chain: Seq<RowView>) -> Seq<char> {
    "Call chain from '"@ + name + "' (depth "@ + dec_int(depth as int) + "):\n\n"@ + if chain.len()
        == 0 {
        "  (no outgoing calls found)\n"@
    } else {
        chain_lines(chain)
    }
}

fn chain_line_chars(e: &Row) -> (r: Vec<char>)
    requires
        indentable(e@),
    ensures
        r@ == chain_line(e@),
{
    let mut out: Vec<char> = Vec::new();
    let d: i64 = match e.depth {
        Some(v) => v,
        None => 0,
    };
    let n: usize = d as usize;
    let mut k: usize = 0;
    while k < n
        invariant
            k <= n,
            2 * n <= usize::MAX,
            out@ == indent(k as nat),
        decreases n - k,
    {
        out.push(' ');
        out.push(' ');
        proof {
            assert(out@ =~= indent(k as nat + 1));
        }
        k = k + 1;
    }
    append_chars(&mut out, &text_or_chars(&e.name, "?"));
    append_str(&mut out, " (");
    append_chars(&mut out, &text_or_chars(&e.kind, "?"));
    append_str(&mut out, ")");
    match e.call_line {
        Some(l) => {
            if l > 0 {
                append_str(&mut out, " @L");
                append_chars(&mut out, &fmt_i64(l));
            }
        },
        None => {},
    }
    append_str(&mut out, "\n");
    proof {
        assert(out@ =~= chain_line(e@));
    }
    out
}

/// The call chain from `name` within `depth` hops, one indented line per
/// entry of `chain`.
pub fn call_chain_report(name: &str, depth: i32, chain: &Vec<Row>) -> (r: String)
    requires
        forall|i: int| 0 <= i < chain@.len() ==> indentable(#[trigger] chain@[i]@),
    ensures
        r@ == call_chain_text(name@, depth, row_views(chain@)),
{
    let ghost cv = row_views(chain@);
    let mut out: Vec<char> = Vec::new();
    append_str(&mut out, "Call chain from '");
    append_str(&mut out, name);
    append_str(&mut out, "' (depth ");
    append_chars(&mut out, &fmt_i64(depth as i64));
    append_str(&mut out, "):\n\n");
    if chain.len() == 0 {
        append_str(&mut out, "  (no outgoing calls found)\n");
    } else {
        let ghost head = out@;
        let mut i: usize = 0;
        while i < chain.len()
            invariant
                i <= chain@.len(),
                cv == row_views(chain@),
                forall|j: int| 0 <= j < chain@.len() ==> indentable(#[trigger] chain@[j]@),
                out@ == head + chain_lines(cv.take(i as int)),
            decreases chain@.len() - i,
        {
            proof {
                assert(cv.take(i as int + 1).drop_last() =~= cv.take(i as int));
                assert(cv.take(i as int + 1).last() == chain@[i as int]@);
                assert(indentable(chain@[i as int]@));
            }
            let line = chain_line_chars(&chain[i]);
            append_chars(&mut out, &line);
            i = i + 1;
        }
        proof {
            assert(cv.take(chain@.len() as int) =~= cv);
        }
    }
    proof {
        assert(out@ =~= call_chain_text(name@, depth, cv));
    }
    string_of(&out)
}

} // verus!
