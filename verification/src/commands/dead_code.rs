//! Symbols that nothing calls.
use vstd::prelude::*;
use crate::commands::rows::{
    Row, RowView, row_views, text_or, text_or_chars, int_or_zero, pad_right, pad_left,
    append_padded_right, append_padded_left,
};
use crate::text::{
    chars_of, string_of, append_str, append_chars, eq_chars, split_char, split_char_chars, trim_ws,
    trim_chars, join_with, join_chars,
};
use crate::num::{dec_nat, dec_int, fmt_u64, fmt_i64};

verus! {

/// The kinds searched by default.
pub open spec fn default_dead_kinds() -> Seq<Seq<char>> {
    seq!["Function"@, "Method"@, "Constructor"@]
}

/// The kinds to search: the comma-separated list given, each item trimmed,
/// else functions, methods and constructors.
pub open spec fn dead_kinds_of(kinds: Option<Seq<char>>) -> Seq<Seq<char>> {
    match kinds {
        Some(s) => split_char(s, ',').map_values(|k: Seq<char>| trim_ws(k)),
        None => default_dead_kinds(),
    }
}

/// The kinds the search for dead symbols covers.
pub fn dead_code_kinds(kinds: Option<&str>) -> (r: Vec<String>)
    ensures
        r@.map_values(|s: String| s@) == dead_kinds_of(
            match kinds {
                Some(s) => Some(s@),
                None => None,
            },
        ),
{
    match kinds {
        Some(s) => {
            let parts = split_char_chars(&chars_of(s), ',');
            let ghost pv = parts@.map_values(|v: Vec<char>| v@);
            let mut r: Vec<String> = Vec::new();
            let mut i: usize = 0;
            while i < parts.len()
                invariant
                    i <= parts@.len(),
                    pv == parts@.map_values(|v: Vec<char>| v@),
                    r@.map_values(|s: String| s@) == pv.take(i as int).map_values(
                        |k: Seq<char>| trim_ws(k),
                    ),
                decreases parts@.len() - i,
            {
                let ghost before = r@.map_values(|s: String| s@);
                let t = trim_chars(&parts[i]);
                r.push(string_of(&t));
                proof {
                    assert(r@.map_values(|s: String| s@) =~= before.push(trim_ws(pv[i as int])));
                    assert(pv.take(i as int + 1).map_values(|k: Seq<char>| trim_ws(k)) =~= pv.take(
                        i as int,
                    ).map_values(|k: Seq<char>| trim_ws(k)).push(trim_ws(pv[i as int])));
                }
                i = i + 1;
            }
            proof {
                assert(pv.take(parts@.len() as int) =~= pv);
            }
            r
        },
        None => {
            let r = vec!["Function".to_string(), "Method".to_string(), "Constructor".to_string()];
            proof {
                assert(r@.map_values(|s: String| s@) =~= default_dead_kinds());
            }
            r
        },
    }
}

/// Path fragments of vendored or generated files, left out by default.
pub open spec fn default_excludes() -> Seq<Seq<char>> {
    seq![
        "node_modules"@,
        "dist/"@,
        "build/"@,
        "target/"@,
        ".min.js"@,
        ".min.mjs"@,
        ".bundle.js"@,
        "pdf.worker"@,
        "vendor/"@,
        "third_party/"@,
    ]
}

/// The path fragments whose files the search leaves out: none with
/// `include_all`, else the vendored and generated ones.
pub fn dead_code_excludes(include_all: bool) -> (r: Vec<String>)
    ensures
        r@.map_values(|s: String| s@) == if include_all {
            Seq::<Seq<char>>::empty()
        } else {
            default_excludes()
        },
{
    if include_all {
        let r: Vec<String> = Vec::new();
        proof {
            assert(r@.map_values(|s: String| s@) =~= Seq::<Seq<char>>::empty());
        }
        return r;
    }
    let r = vec![
        "node_modules".to_string(),
        "dist/".to_string(),
        "build/".to_string(),
        "target/".to_string(),
        ".min.js".to_string(),
        ".min.mjs".to_string(),
        ".bundle.js".to_string(),
        "pdf.worker".to_string(),
        "vendor/".to_string(),
        "third_party/".to_string(),
    ];
    proof {
        assert(r@.map_values(|s: String| s@) =~= default_excludes());
    }
    r
}

/// The line of one dead symbol.
pub open spec fn dead_line(e: RowView) -> Seq<char> {
    let vis = text_or(e.visibility, ""@);
    "  L"@ + pad_left(dec_int(int_or_zero(e.line_start)), 5) + "  "@ + pad_right(
        text_or(e.kind, "?"@),
        12,
    ) + " "@ + text_or(e.name, "?"@) + if vis.len() == 0 {
        Seq::<char>::empty()
    } else {
        " ["@ + vis + "]"@
    } + "\n"@
}

/// The lines of the dead symbols, each file named before its first symbol
/// that follows a symbol of another file; also the file last named.
pub open spec fn dead_lines(es: Seq<RowView>) -> (Seq<char>, Seq<char>)
    decreases es.len(),
{
    if es.len() == 0 {
        (seq![], seq![])
    } else {
        let (text, last) = dead_lines(es.drop_last());
        let e = es.last();
        let file = text_or(e.file_path, "?"@);
        if file != last {
            (text + file + "\n"@ + dead_line(e), file)
        } else {
            (text + dead_line(e), last)
        }
    }
}

/// The report on the dead symbols `es` of the kinds `kinds`.
pub open spec fn dead_code_text(kinds: Seq<Seq<char>>, es: Seq<RowView>) -> Seq<char> {
    let ks = join_with(kinds, "/"@);
    if es.len() == 0 {
        "No dead "@ + ks + " found.\n"@
            + "(A symbol is 'dead' if the graph contains zero incoming CALLS edges to it.\n"@
            + " Entry points and dynamically-dispatched methods will show up here too — review results before deleting.)\n"@
    } else {
        "Found "@ + dec_nat(es.len()) + " "@ + ks + " with no inbound CALLS edges (likely dead):\n\n"@
            + dead_lines(es).0 + "\n"@ + "Caveats:\n"@
            + "  - Entry points (main, HTTP handlers, event listeners) have no callers by design.\n"@
            + "  - Dynamic dispatch (virtual calls, reflection, callbacks) isn't visible to the graph.\n"@
            + "  - Public library APIs may be called by external consumers.\n"@
            + "  - Run with --include-all to disable vendored-file exclusions.\n"@
    }
}

fn dead_line_chars(e: &Row) -> (r: Vec<char>)
    ensures
        r@ == dead_line(e@),
{
    let mut out: Vec<char> = Vec::new();
    append_str(&mut out, "  L");
    let l: i64 = match e.line_start {
        Some(v) => v,
        None => 0,
    };
    append_padded_left(&mut out, &fmt_i64(l), 5);
    append_str(&mut out, "  ");
    append_padded_right(&mut out, &text_or_chars(&e.kind, "?"), 12);
    append_str(&mut out, " ");
    append_chars(&mut out, &text_or_chars(&e.name, "?"));
    let vis = text_or_chars(&e.visibility, "");
    if vis.len() > 0 {
        append_str(&mut out, " [");
        append_chars(&mut out, &vis);
        append_str(&mut out, "]");
    }
    append_str(&mut out, "\n");
    proof {
        assert(out@ =~= dead_line(e@));
    }
    out
}

/// The report on the dead symbols `results` of the kinds `kinds`.
pub fn dead_code_report(kinds: &Vec<String>, results: &Vec<Row>) -> (r: String)
    ensures
        r@ == dead_code_text(kinds@.map_values(|s: String| s@), row_views(results@)),
{
    let ghost ev = row_views(results@);
    let mut kv: Vec<Vec<char>> = Vec::new();
    let mut i: usize = 0;
    while i < kinds.len()
        invariant
            i <= kinds@.len(),
            kv@.map_values(|v: Vec<char>| v@) == kinds@.take(i as int).map_values(|s: String| s@),
        decreases kinds@.len() - i,
    {
        let ghost before = kv@.map_values(|v: Vec<char>| v@);
        kv.push(chars_of(kinds[i].as_str()));
        proof {
            assert(kv@.map_values(|v: Vec<char>| v@) =~= before.push(kinds@[i as int]@));
            assert(kinds@.take(i as int + 1).map_values(|s: String| s@) =~= kinds@.take(
                i as int,
            ).map_values(|s: String| s@).push(kinds@[i as int]@));
        }
        i = i + 1;
    }
    proof {
        assert(kinds@.take(kinds@.len() as int) =~= kinds@);
    }
    let ks = join_chars(&kv, &chars_of("/"));
    let mut out: Vec<char> = Vec::new();
    if results.len() == 0 {
        append_str(&mut out, "No dead ");
        append_chars(&mut out, &ks);
        append_str(&mut out, " found.\n");
        append_str(
            &mut out,
            "(A symbol is 'dead' if the graph contains zero incoming CALLS edges to it.\n",
        );
        append_str(
            &mut out,
            " Entry points and dynamically-dispatched methods will show up here too — review results before deleting.)\n",
        );
        proof {
            assert(out@ =~= dead_code_text(kinds@.map_values(|s: String| s@), ev));
        }
        return string_of(&out);
    }
    append_str(&mut out, "Found ");
    append_chars(&mut out, &fmt_u64(results.len() as u64));
    append_str(&mut out, " ");
    append_chars(&mut out, &ks);
    append_str(&mut out, " with no inbound CALLS edges (likely dead):\n\n");
    let ghost head = out@;
    let mut last: Vec<char> = Vec::new();
    let mut j: usize = 0;
    while j < results.len()
        invariant
            j <= results@.len(),
            ev == row_views(results@),
            out@ == head + dead_lines(ev.take(j as int)).0,
            last@ == dead_lines(ev.take(j as int)).1,
        decreases results@.len() - j,
    {
        let e = &results[j];
        proof {
            assert(ev.take(j as int + 1).drop_last() =~= ev.take(j as int));
            assert(ev.take(j as int + 1).last() == e@);
        }
        let file = text_or_chars(&e.file_path, "?");
        if !eq_chars(&file, &last) {
            append_chars(&mut out, &file);
            append_str(&mut out, "\n");
            last = file;
        }
        let line = dead_line_chars(e);
        append_chars(&mut out, &line);
        proof {
            assert(out@ =~= head + dead_lines(ev.take(j as int + 1)).0);
        }
        j = j + 1;
    }
    proof {
        assert(ev.take(results@.len() as int) =~= ev);
    }
    append_str(&mut out, "\n");
    append_str(&mut out, "Caveats:\n");
    append_str(
        &mut out,
        "  - Entry points (main, HTTP handlers, event listeners) have no callers by design.\n",
    );
    append_str(
        &mut out,
        "  - Dynamic dispatch (virtual calls, reflection, callbacks) isn't visible to the graph.\n",
    );
    append_str(&mut out, "  - Public library APIs may be called by external consumers.\n");
    append_str(&mut out, "  - Run with --include-all to disable vendored-file exclusions.\n");
    proof {
        assert(out@ =~= dead_code_text(kinds@.map_values(|s: String| s@), ev));
    }
    string_of(&out)
}

} // verus!
