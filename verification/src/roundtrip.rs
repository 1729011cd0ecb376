//! The round-trip law: printing a well-formed metadata item and parsing the
//! result back yields exactly the item, first over tokens, then over text.

use vstd::prelude::*;
use crate::error::Error;
use crate::meta::{
    false_chars, keyword_safe, true_chars, wf_meta, wf_nested, LitV, MetaListV, MetaNameValueV,
    MetaV, NestedMetaV,
};
use crate::parse::{
    lit_of_tok, spec_parse_meta, spec_parse_nested, spec_parse_nested_list, spec_parse_path,
    spec_parse_segments,
};
use crate::path::{wf_path, PathV};
use crate::print::{
    comma_opt, digit_char, esc_char, escape_seq, int_chars, lit_tok, meta_toks,
    nested_seq_toks, nested_toks, path_toks, render_toks, segs_toks, tok_text,
};
use crate::text::wf_ident;
use crate::token::{digit_val, digits_val, TokV};

verus! {

/// The sequence `x` sits inside `ts` starting at position `i`.
pub open spec fn region<T>(ts: Seq<T>, i: int, x: Seq<T>) -> bool {
    &&& 0 <= i
    &&& i + x.len() <= ts.len()
    &&& ts.subrange(i, i + x.len()) == x
}

proof fn lemma_region_index<T>(ts: Seq<T>, i: int, x: Seq<T>)
    requires
        region(ts, i, x),
    ensures
        forall|k: int| 0 <= k < x.len() ==> ts[i + k] == #[trigger] x[k],
{
    assert forall|k: int| 0 <= k < x.len() implies ts[i + k] == #[trigger] x[k] by {
        assert(ts.subrange(i, i + x.len())[k] == x[k]);
    }
}

proof fn lemma_region_split<T>(ts: Seq<T>, i: int, a: Seq<T>, b: Seq<T>)
    requires
        region(ts, i, a + b),
    ensures
        region(ts, i, a),
        region(ts, i + a.len(), b),
{
    lemma_region_index(ts, i, a + b);
    assert(ts.subrange(i, i + a.len()) =~= a);
    assert forall|k: int|
        0 <= k < b.len() implies ts.subrange(i + a.len(), i + a.len() + b.len())[k] == b[k] by {
        assert((a + b)[a.len() + k] == b[k]);
        assert(ts[i + (a.len() + k)] == (a + b)[a.len() + k]);
    }
    assert(ts.subrange(i + a.len(), i + a.len() + b.len()) =~= b);
}

proof fn lemma_segs_toks_len(segs: Seq<Seq<char>>)
    ensures
        segs.len() == 0 ==> segs_toks(segs).len() == 0,
        segs.len() > 0 ==> segs_toks(segs).len() == 2 * segs.len() - 1,
        segs.len() > 0 ==> segs_toks(segs)[0] == TokV::Ident(segs[0]),
    decreases segs.len(),
{
    if segs.len() > 1 {
        lemma_segs_toks_len(segs.drop_first());
    }
}

proof fn lemma_segs_rt(ts: Seq<TokV>, i: int, segs: Seq<Seq<char>>)
    requires
        segs.len() > 0,
        region(ts, i, segs_toks(segs)),
        i + segs_toks(segs).len() == ts.len() || !(ts[i + segs_toks(segs).len()] is PathSep),
    ensures
        spec_parse_segments(ts, i) == Ok::<_, Error>(
            (segs, i + segs_toks(segs).len()),
        ),
    decreases segs.len(),
{
    lemma_segs_toks_len(segs);
    lemma_region_index(ts, i, segs_toks(segs));
    let toks = segs_toks(segs);
    let e = i + toks.len();
    assert(ts[i] == toks[0]);
    assert(ts[i] == TokV::Ident(segs[0]));
    if segs.len() == 1 {
        assert(e == i + 1);
        assert(seq![segs[0]] =~= segs);
    } else {
        let rest = segs.drop_first();
        lemma_segs_toks_len(rest);
        assert(toks == seq![TokV::Ident(segs[0]), TokV::PathSep] + segs_toks(rest));
        assert(ts[i + 1] == toks[1]);
        assert(ts[i + 1] == TokV::PathSep);
        assert(region(ts, i + 2, segs_toks(rest))) by {
            assert forall|k: int| 0 <= k < segs_toks(rest).len() implies ts.subrange(
                i + 2,
                i + 2 + segs_toks(rest).len(),
            )[k] == segs_toks(rest)[k] by {
                assert(ts[i + (2 + k)] == toks[2 + k]);
            }
            assert(ts.subrange(i + 2, i + 2 + segs_toks(rest).len()) =~= segs_toks(rest));
        }
        lemma_segs_rt(ts, i + 2, rest);
        assert(seq![segs[0]] + rest =~= segs);
    }
}

proof fn lemma_path_rt(ts: Seq<TokV>, i: int, p: PathV)
    requires
        wf_path(p),
        region(ts, i, path_toks(p)),
        i + path_toks(p).len() == ts.len() || !(ts[i + path_toks(p).len()] is PathSep),
    ensures
        spec_parse_path(ts, i) == Ok::<_, Error>((p, i + path_toks(p).len())),
{
    lemma_region_index(ts, i, path_toks(p));
    lemma_segs_toks_len(p.segments);
    if p.leading_colon {
        assert(path_toks(p) == seq![TokV::PathSep] + segs_toks(p.segments));
        assert(ts[i] == path_toks(p)[0]);
        assert(ts[i] == TokV::PathSep);
        assert(ts[i + 1] == path_toks(p)[1]);
        assert(ts[i + 1] == TokV::Ident(p.segments[0]));
        assert(region(ts, i + 1, segs_toks(p.segments))) by {
            assert forall|k: int| 0 <= k < segs_toks(p.segments).len() implies ts.subrange(
                i + 1,
                i + 1 + segs_toks(p.segments).len(),
            )[k] == segs_toks(p.segments)[k] by {
                assert(ts[i + (1 + k)] == path_toks(p)[1 + k]);
            }
            assert(ts.subrange(i + 1, i + 1 + segs_toks(p.segments).len()) =~= segs_toks(
                p.segments,
            ));
        }
        lemma_segs_rt(ts, i + 1, p.segments);
        assert(PathV { leading_colon: true, segments: p.segments } =~= p);
    } else {
        assert(path_toks(p) == segs_toks(p.segments));
        assert(ts[i] == TokV::Ident(p.segments[0]));
        lemma_segs_rt(ts, i, p.segments);
        assert(PathV { leading_colon: false, segments: p.segments } =~= p);
    }
}

proof fn lemma_lit_tok_inverse(l: LitV)
    ensures
        lit_of_tok(lit_tok(l)) == Some(l),
{
    assert(true_chars().len() == 4);
    assert(false_chars().len() == 5);
}

proof fn lemma_meta_toks_first(m: MetaV)
    requires
        wf_meta(m),
    ensures
        meta_toks(m).len() >= 1,
        meta_toks(m)[0] is Ident || meta_toks(m)[0] is PathSep,
        !spec_meta_path_of(m).leading_colon ==> meta_toks(m)[0] == TokV::Ident(
            spec_meta_path_of(m).segments[0],
        ),
        spec_meta_path_of(m).leading_colon ==> meta_toks(m)[0] is PathSep,
{
    let p = spec_meta_path_of(m);
    lemma_segs_toks_len(p.segments);
    match m {
        MetaV::Path(_) => {},
        MetaV::List(_) => {},
        MetaV::NameValue(_) => {},
    }
}

/// The path of a meta, under its own name to keep trigger shapes stable.
pub open spec fn spec_meta_path_of(m: MetaV) -> PathV {
    crate::meta::spec_meta_path(m)
}

proof fn lemma_nested_toks_first(n: NestedMetaV)
    requires
        wf_nested(n),
    ensures
        nested_toks(n).len() >= 1,
        !(nested_toks(n)[0] is RParen),
        !(nested_toks(n)[0] is Comma),
{
    match n {
        NestedMetaV::Meta(m) => {
            lemma_meta_toks_first(m);
        },
        NestedMetaV::Lit(_) => {},
    }
}

/// Tokens that cannot follow a complete metadata item without changing how
/// it parses.
pub open spec fn follow_ok(ts: Seq<TokV>, j: int) -> bool {
    j == ts.len() || !((ts[j] is PathSep) || (ts[j] is LParen) || (ts[j] is Eq))
}

proof fn lemma_meta_rt(ts: Seq<TokV>, i: int, m: MetaV)
    requires
        wf_meta(m),
        region(ts, i, meta_toks(m)),
        follow_ok(ts, i + meta_toks(m).len()),
    ensures
        spec_parse_meta(ts, i) == Ok::<_, Error>((m, i + meta_toks(m).len())),
    decreases m, 1int,
{
    lemma_region_index(ts, i, meta_toks(m));
    match m {
        MetaV::Path(p) => {
            lemma_path_rt(ts, i, p);
        },
        MetaV::NameValue(nv) => {
            let pt = path_toks(nv.path);
            let tail = seq![TokV::Eq, lit_tok(nv.value)];
            assert(meta_toks(m) == pt + tail);
            lemma_region_split(ts, i, pt, tail);
            lemma_region_index(ts, i + pt.len(), tail);
            let j = i + pt.len();
            assert(ts[j + 0] == tail[0]);
            assert(ts[j + 1] == tail[1]);
            lemma_path_rt(ts, i, nv.path);
            lemma_lit_tok_inverse(nv.value);
            assert(MetaV::NameValue(
                MetaNameValueV { path: nv.path, value: lit_of_tok(ts[j + 1])->Some_0 },
            ) =~= m);
        },
        MetaV::List(l) => {
            let pt = path_toks(l.path);
            let body = nested_seq_toks(l.nested) + comma_opt(l.trailing_comma);
            let mid = seq![TokV::LParen] + body;
            let tail = seq![TokV::RParen];
            assert(meta_toks(m) =~= pt + (mid + tail));
            lemma_region_split(ts, i, pt, mid + tail);
            lemma_region_split(ts, i + pt.len(), mid, tail);
            lemma_region_split(ts, i + pt.len(), seq![TokV::LParen], body);
            let j = i + pt.len();
            lemma_region_index(ts, j, mid);
            assert(ts[j + 0] == mid[0]);
            assert(mid[0] == TokV::LParen);
            lemma_path_rt(ts, i, l.path);
            let e = j + 1 + body.len();
            lemma_region_index(ts, j + mid.len(), tail);
            assert(tail[0] == TokV::RParen);
            assert(ts[(j + mid.len()) + 0] == tail[0]);
            assert(e == j + mid.len());
            lemma_items_rt(ts, j + 1, l.nested, l.trailing_comma);
            assert(MetaV::List(
                MetaListV {
                    path: l.path,
                    nested: l.nested,
                    trailing_comma: l.trailing_comma,
                },
            ) =~= m);
        },
    }
}

proof fn lemma_items_rt(ts: Seq<TokV>, i: int, items: Seq<NestedMetaV>, tc: bool)
    requires
        forall|k: int| 0 <= k < items.len() ==> wf_nested(#[trigger] items[k]),
        tc ==> items.len() > 0,
        region(ts, i, nested_seq_toks(items) + comma_opt(tc)),
        i + (nested_seq_toks(items) + comma_opt(tc)).len() < ts.len(),
        ts[i + (nested_seq_toks(items) + comma_opt(tc)).len()] is RParen,
    ensures
        spec_parse_nested_list(ts, i) == Ok::<_, Error>(
            (items, tc, i + (nested_seq_toks(items) + comma_opt(tc)).len() + 1),
        ),
    decreases items, 2int,
{
    let body = nested_seq_toks(items) + comma_opt(tc);
    lemma_region_index(ts, i, body);
    let e = i + body.len();
    if items.len() == 0 {
        assert(body =~= Seq::<TokV>::empty());
        assert(e == i);
        assert(ts[e] is RParen);
        assert(Seq::<NestedMetaV>::empty() =~= items);
    } else if items.len() == 1 {
        assert(nested_seq_toks(items) == nested_toks(items[0]));
        lemma_nested_toks_first(items[0]);
        if tc {
            assert(body =~= nested_toks(items[0]) + seq![TokV::Comma]);
            lemma_region_split(ts, i, nested_toks(items[0]), seq![TokV::Comma]);
            let j = i + nested_toks(items[0]).len();
            lemma_region_index(ts, j, seq![TokV::Comma]);
            assert(ts[j + 0] == seq![TokV::Comma][0]);
            assert(ts[j] == TokV::Comma);
            assert(ts[i + 0] == body[0]);
            assert(body[0] == nested_toks(items[0])[0]);
            lemma_nested_rt(ts, i, items[0]);
            assert(e == j + 1);
            assert(spec_parse_nested_list(ts, j + 1) == Ok::<_, Error>(
                (Seq::<NestedMetaV>::empty(), false, j + 2),
            ));
            assert(seq![items[0]] =~= items);
        } else {
            assert(body =~= nested_toks(items[0]));
            assert(ts[i + 0] == body[0]);
            assert(body[0] == nested_toks(items[0])[0]);
            lemma_nested_rt(ts, i, items[0]);
            assert(seq![items[0]] =~= items);
        }
    } else {
        let head = nested_toks(items[0]);
        let rest = items.drop_first();
        let rest_body = nested_seq_toks(rest) + comma_opt(tc);
        assert(nested_seq_toks(items) == head + (seq![TokV::Comma] + nested_seq_toks(rest)));
        assert(body =~= head + (seq![TokV::Comma] + rest_body));
        lemma_region_split(ts, i, head, seq![TokV::Comma] + rest_body);
        lemma_region_split(ts, i + head.len(), seq![TokV::Comma], rest_body);
        let j = i + head.len();
        lemma_region_index(ts, j, seq![TokV::Comma] + rest_body);
        assert(ts[j + 0] == (seq![TokV::Comma] + rest_body)[0]);
        assert(ts[j] == TokV::Comma);
        lemma_nested_toks_first(items[0]);
        assert(ts[i + 0] == body[0]);
        assert(body[0] == head[0]);
        lemma_nested_rt(ts, i, items[0]);
        assert(forall|k: int|
            0 <= k < rest.len() ==> wf_nested(#[trigger] rest[k]) && rest[k] == items[k + 1]);
        lemma_items_rt(ts, j + 1, rest, tc);
        assert(seq![items[0]] + rest =~= items);
    }
}

proof fn lemma_nested_rt(ts: Seq<TokV>, i: int, n: NestedMetaV)
    requires
        wf_nested(n),
        region(ts, i, nested_toks(n)),
        follow_ok(ts, i + nested_toks(n).len()),
    ensures
        spec_parse_nested(ts, i) == Ok::<_, Error>((n, i + nested_toks(n).len())),
    decreases n, 3int,
{
    lemma_region_index(ts, i, nested_toks(n));
    assert(true_chars().len() == 4);
    assert(false_chars().len() == 5);
    match n {
        NestedMetaV::Lit(l) => {
            assert(nested_toks(n) == seq![lit_tok(l)]);
            assert(nested_toks(n)[0] == lit_tok(l));
            assert(ts[i + 0] == nested_toks(n)[0]);
            match l {
                LitV::Str(_) => {},
                LitV::Int(_) => {},
                LitV::Bool(b) => {
                    assert(ts[i] == TokV::Ident(
                        if b {
                            true_chars()
                        } else {
                            false_chars()
                        },
                    ));
                },
            }
        },
        NestedMetaV::Meta(m) => {
            assert(nested_toks(n) == meta_toks(m));
            lemma_meta_toks_first(m);
            assert(ts[i + 0] == meta_toks(m)[0]);
            let p = spec_meta_path_of(m);
            if p.leading_colon {
                lemma_meta_rt(ts, i, m);
            } else {
                let x = p.segments[0];
                if x == true_chars() || x == false_chars() {
                    // keyword_safe: the item is a one-segment name-value
                    // pair, so `=` follows the keyword and the parser takes
                    // the meta branch.
                    assert(m is NameValue && p.segments.len() == 1);
                    lemma_segs_toks_len(p.segments);
                    assert(meta_toks(m) == path_toks(p) + seq![
                        TokV::Eq,
                        lit_tok(m->NameValue_0.value),
                    ]);
                    assert(path_toks(p).len() == 1);
                    assert(ts[i + 1] == meta_toks(m)[1]);
                    assert(ts[i + 1] is Eq);
                    lemma_meta_rt(ts, i, m);
                } else {
                    lemma_meta_rt(ts, i, m);
                }
            }
        },
    }
}

/// Printing a well-formed metadata item to tokens and parsing the tokens
/// back yields exactly the item, with every token consumed.
pub proof fn lemma_meta_toks_round_trip(m: MetaV)
    requires
        wf_meta(m),
    ensures
        spec_parse_meta(meta_toks(m), 0) == Ok::<_, Error>(
            (m, meta_toks(m).len() as int),
        ),
{
    let ts = meta_toks(m);
    assert(ts.subrange(0, ts.len() as int) =~= ts);
    assert(region(ts, 0, ts));
    lemma_meta_rt(ts, 0, m);
}

/// Tokens whose spelling begins with an identifier or digit character.
pub open spec fn wordy(t: TokV) -> bool {
    t is Ident || t is LitInt
}

/// A well-formed token: identifiers are well-formed identifiers.
pub open spec fn wf_tok(t: TokV) -> bool {
    match t {
        TokV::Ident(x) => wf_ident(x),
        _ => true,
    }
}

pub open spec fn toks_wf(ts: Seq<TokV>) -> bool {
    forall|k: int| 0 <= k < ts.len() ==> wf_tok(#[trigger] ts[k])
}

/// No two adjacent tokens whose spellings would run together.
pub open spec fn sep_ok(ts: Seq<TokV>) -> bool {
    forall|k: int| 0 <= k < ts.len() - 1 ==> !(wordy(#[trigger] ts[k]) && wordy(ts[k + 1]))
}

proof fn lemma_concat_shape(a: Seq<TokV>, b: Seq<TokV>)
    requires
        toks_wf(a),
        toks_wf(b),
        sep_ok(a),
        sep_ok(b),
        a.len() == 0 || b.len() == 0 || !(wordy(a.last()) && wordy(b[0])),
    ensures
        toks_wf(a + b),
        sep_ok(a + b),
{
    assert forall|k: int| 0 <= k < (a + b).len() implies wf_tok(#[trigger] (a + b)[k]) by {
        if k < a.len() {
            assert(wf_tok(a[k]));
        } else {
            assert(wf_tok(b[k - a.len()]));
        }
    }
    assert forall|k: int|
        0 <= k < (a + b).len() - 1 implies !(wordy(#[trigger] (a + b)[k]) && wordy(
        (a + b)[k + 1],
    )) by {
        if k + 1 < a.len() {
            assert((a + b)[k] == a[k] && (a + b)[k + 1] == a[k + 1]);
        } else if k >= a.len() {
            assert((a + b)[k] == b[k - a.len()] && (a + b)[k + 1] == b[k + 1 - a.len()]);
        } else {
            assert((a + b)[k] == a[a.len() - 1] && (a + b)[k + 1] == b[0]);
        }
    }
}

proof fn lemma_segs_toks_shape(segs: Seq<Seq<char>>)
    requires
        forall|k: int| 0 <= k < segs.len() ==> wf_ident(#[trigger] segs[k]),
    ensures
        toks_wf(segs_toks(segs)),
        sep_ok(segs_toks(segs)),
    decreases segs.len(),
{
    if segs.len() == 0 {
    } else if segs.len() == 1 {
        assert(segs_toks(segs) == seq![TokV::Ident(segs[0])]);
        assert(segs_toks(segs)[0] == TokV::Ident(segs[0]));
    } else {
        let rest = segs.drop_first();
        assert(forall|k: int| 0 <= k < rest.len() ==> wf_ident(#[trigger] rest[k]) && rest[k]
            == segs[k + 1]);
        lemma_segs_toks_shape(rest);
        let head = seq![TokV::Ident(segs[0]), TokV::PathSep];
        assert(toks_wf(head) && sep_ok(head)) by {
            assert(head[0] == TokV::Ident(segs[0]) && head[1] == TokV::PathSep);
        }
        assert(head.last() == TokV::PathSep);
        lemma_concat_shape(head, segs_toks(rest));
    }
}

proof fn lemma_path_toks_shape(p: PathV)
    requires
        wf_path(p),
    ensures
        toks_wf(path_toks(p)),
        sep_ok(path_toks(p)),
{
    lemma_segs_toks_shape(p.segments);
    if p.leading_colon {
        let head = seq![TokV::PathSep];
        assert(toks_wf(head) && sep_ok(head)) by {
            assert(head[0] == TokV::PathSep);
        }
        lemma_concat_shape(head, segs_toks(p.segments));
    }
}

proof fn lemma_meta_toks_shape(m: MetaV)
    requires
        wf_meta(m),
    ensures
        toks_wf(meta_toks(m)),
        sep_ok(meta_toks(m)),
    decreases m, 1int,
{
    match m {
        MetaV::Path(p) => {
            lemma_path_toks_shape(p);
        },
        MetaV::NameValue(nv) => {
            lemma_path_toks_shape(nv.path);
            let tail = seq![TokV::Eq, lit_tok(nv.value)];
            assert(toks_wf(tail) && sep_ok(tail)) by {
                assert(tail[0] == TokV::Eq && tail[1] == lit_tok(nv.value));
                assert(true_chars().len() == 4 && false_chars().len() == 5);
                assert(wf_tok(lit_tok(nv.value)));
            }
            assert(tail[0] == TokV::Eq);
            lemma_concat_shape(path_toks(nv.path), tail);
        },
        MetaV::List(l) => {
            lemma_path_toks_shape(l.path);
            lemma_items_toks_shape(l.nested);
            let lp = seq![TokV::LParen];
            let co = comma_opt(l.trailing_comma);
            let rp = seq![TokV::RParen];
            assert(toks_wf(lp) && sep_ok(lp) && toks_wf(rp) && sep_ok(rp) && toks_wf(co)
                && sep_ok(co)) by {
                assert(lp[0] == TokV::LParen && rp[0] == TokV::RParen);
                if l.trailing_comma {
                    assert(co[0] == TokV::Comma);
                }
            }
            lemma_concat_shape(lp, nested_seq_toks(l.nested));
            if l.trailing_comma {
                assert(co[0] == TokV::Comma);
            }
            lemma_concat_shape(lp + nested_seq_toks(l.nested), co);
            lemma_concat_shape(lp + nested_seq_toks(l.nested) + co, rp);
            assert((lp + nested_seq_toks(l.nested) + co + rp)[0] == TokV::LParen);
            lemma_concat_shape(path_toks(l.path), lp + nested_seq_toks(l.nested) + co + rp);
            assert(meta_toks(m) =~= path_toks(l.path) + (lp + nested_seq_toks(l.nested) + co
                + rp));
        },
    }
}

proof fn lemma_items_toks_shape(items: Seq<NestedMetaV>)
    requires
        forall|k: int| 0 <= k < items.len() ==> wf_nested(#[trigger] items[k]),
    ensures
        toks_wf(nested_seq_toks(items)),
        sep_ok(nested_seq_toks(items)),
    decreases items, 3int,
{
    if items.len() == 0 {
    } else if items.len() == 1 {
        lemma_nested_toks_shape(items[0]);
    } else {
        let rest = items.drop_first();
        assert(forall|k: int| 0 <= k < rest.len() ==> wf_nested(#[trigger] rest[k]) && rest[k]
            == items[k + 1]);
        lemma_nested_toks_shape(items[0]);
        lemma_items_toks_shape(rest);
        let comma = seq![TokV::Comma];
        assert(toks_wf(comma) && sep_ok(comma)) by {
            assert(comma[0] == TokV::Comma);
        }
        lemma_concat_shape(nested_toks(items[0]), comma);
        assert((nested_toks(items[0]) + comma).last() == TokV::Comma);
        lemma_concat_shape(nested_toks(items[0]) + comma, nested_seq_toks(rest));
        assert(nested_seq_toks(items) =~= nested_toks(items[0]) + comma + nested_seq_toks(
            rest,
        ));
    }
}

proof fn lemma_nested_toks_shape(n: NestedMetaV)
    requires
        wf_nested(n),
    ensures
        toks_wf(nested_toks(n)),
        sep_ok(nested_toks(n)),
    decreases n, 2int,
{
    match n {
        NestedMetaV::Meta(m) => {
            lemma_meta_toks_shape(m);
        },
        NestedMetaV::Lit(l) => {
            assert(nested_toks(n) == seq![lit_tok(l)]);
            assert(true_chars().len() == 4 && false_chars().len() == 5);
            assert(wf_tok(lit_tok(l)));
            assert(nested_toks(n)[0] == lit_tok(l));
        },
    }
}

proof fn lemma_scan_ident_determined(s: Seq<char>, i: int, j: int)
    requires
        0 <= i <= j <= s.len(),
        forall|k: int| i <= k < j ==> crate::text::spec_ident_continue(#[trigger] s[k]),
        j == s.len() || !crate::text::spec_ident_continue(s[j]),
    ensures
        crate::token::scan_ident_end(s, i) == j,
    decreases j - i,
{
    if i < j {
        lemma_scan_ident_determined(s, i + 1, j);
    }
}

proof fn lemma_scan_digit_determined(s: Seq<char>, i: int, j: int)
    requires
        0 <= i <= j <= s.len(),
        forall|k: int| i <= k < j ==> crate::text::spec_is_digit(#[trigger] s[k]),
        j == s.len() || !crate::text::spec_is_digit(s[j]),
    ensures
        crate::token::scan_digit_end(s, i) == j,
    decreases j - i,
{
    if i < j {
        lemma_scan_digit_determined(s, i + 1, j);
    }
}

proof fn lemma_int_chars_props(n: nat)
    ensures
        int_chars(n).len() >= 1,
        forall|k: int| 0 <= k < int_chars(n).len() ==> crate::text::spec_is_digit(
            #[trigger] int_chars(n)[k],
        ),
        digits_val(int_chars(n)) == n,
    decreases n,
{
    if n < 10 {
        assert(digit_val(digit_char(n)) == n);
        assert(int_chars(n) == seq![digit_char(n)]);
        assert(int_chars(n)[0] == digit_char(n));
        assert(int_chars(n).drop_last() =~= Seq::<char>::empty());
        assert(digits_val(int_chars(n)) == digits_val(Seq::<char>::empty()) * 10 + digit_val(
            digit_char(n),
        ));
    } else {
        lemma_int_chars_props(n / 10);
        let prefix = int_chars(n / 10);
        let d = digit_char(n % 10);
        assert(digit_val(d) == n % 10);
        assert(int_chars(n) == prefix.push(d));
        assert(int_chars(n).drop_last() =~= prefix);
        assert(digits_val(int_chars(n)) == digits_val(prefix) * 10 + digit_val(d));
        assert forall|k: int| 0 <= k < int_chars(n).len() implies crate::text::spec_is_digit(
            #[trigger] int_chars(n)[k],
        ) by {
            if k < prefix.len() {
                assert(int_chars(n)[k] == prefix[k]);
            } else {
                assert(int_chars(n)[k] == d);
            }
        }
    }
}

proof fn lemma_scan_escape(s: Seq<char>, i: int, content: Seq<char>)
    requires
        0 <= i,
        region(s, i, escape_seq(content)),
        i + escape_seq(content).len() < s.len(),
        s[i + escape_seq(content).len()] == '"',
    ensures
        crate::token::spec_scan_str(s, i) == Ok::<_, Error>(
            (content, i + escape_seq(content).len() + 1),
        ),
    decreases content.len(),
{
    lemma_region_index(s, i, escape_seq(content));
    if content.len() == 0 {
        assert(Seq::<char>::empty() =~= content);
    } else {
        let c = content[0];
        let rest = content.drop_first();
        let esc = esc_char(c);
        assert(escape_seq(content) == esc + escape_seq(rest));
        lemma_region_split(s, i, esc, escape_seq(rest));
        lemma_region_index(s, i, esc);
        if esc.len() == 2 {
            assert(s[i + 0] == esc[0]);
            assert(s[i + 1] == esc[1]);
            assert(s[i] == '\\');
            assert(crate::token::spec_unescape(s[i + 1]) == Some(c));
            lemma_scan_escape(s, i + 2, rest);
            assert(seq![c] + rest =~= content);
        } else {
            assert(s[i + 0] == esc[0]);
            assert(s[i] == c);
            assert(c != '"' && c != '\\');
            lemma_scan_escape(s, i + 1, rest);
            assert(seq![c] + rest =~= content);
        }
    }
}

proof fn lemma_tok_text_first(t: TokV)
    requires
        wf_tok(t),
    ensures
        tok_text(t).len() >= 1,
        !wordy(t) ==> !crate::text::spec_ident_continue(tok_text(t)[0])
            && !crate::text::spec_is_digit(tok_text(t)[0]),
{
    match t {
        TokV::LParen => {
            assert(tok_text(t)[0] == '(');
        },
        TokV::RParen => {
            assert(tok_text(t)[0] == ')');
        },
        TokV::Comma => {
            assert(tok_text(t)[0] == ',');
        },
        TokV::Eq => {
            assert(tok_text(t)[0] == '=');
        },
        TokV::PathSep => {
            assert(tok_text(t)[0] == ':');
        },
        TokV::Ident(_) => {},
        TokV::LitStr(_) => {
            assert(tok_text(t)[0] == '"');
        },
        TokV::LitInt(n) => {
            lemma_int_chars_props(n as nat);
        },
    }
}

/// Lexing the rendered text of well-separated, well-formed tokens yields
/// exactly those tokens.
proof fn lemma_lex_rt(ts: Seq<TokV>, s: Seq<char>, i: int)
    requires
        toks_wf(ts),
        sep_ok(ts),
        0 <= i <= s.len(),
        region(s, i, render_toks(ts)),
        i + render_toks(ts).len() == s.len(),
    ensures
        crate::token::spec_lex_from(s, i) == Ok::<_, Error>(ts),
    decreases ts.len(),
{
    if ts.len() == 0 {
        assert(Seq::<TokV>::empty() =~= ts);
    } else {
        let t0 = ts[0];
        let rest = ts.drop_first();
        let text0 = tok_text(t0);
        assert(render_toks(ts) == text0 + render_toks(rest));
        lemma_region_split(s, i, text0, render_toks(rest));
        lemma_region_index(s, i, text0);
        lemma_tok_text_first(t0);
        assert(wf_tok(ts[0]));
        assert(forall|k: int| 0 <= k < rest.len() ==> rest[k] == ts[k + 1]);
        assert(toks_wf(rest) && sep_ok(rest)) by {
            assert(forall|k: int| 0 <= k < rest.len() ==> wf_tok(#[trigger] rest[k]));
            assert(forall|k: int|
                0 <= k < rest.len() - 1 ==> !(wordy(#[trigger] rest[k]) && wordy(rest[k + 1])));
        }
        let e = i + text0.len();
        lemma_lex_rt(rest, s, e);
        // The character right after this token, if any, starts the next
        // token and can neither continue an identifier nor a number when the
        // next token is not wordy.
        if e < s.len() {
            assert(rest.len() > 0) by {
                assert(render_toks(rest).len() > 0);
            }
            lemma_tok_text_first(rest[0]);
            assert(render_toks(rest) == tok_text(rest[0]) + render_toks(rest.drop_first()));
            lemma_region_index(s, e, render_toks(rest));
            assert(s[e + 0] == render_toks(rest)[0]);
            assert(render_toks(rest)[0] == tok_text(rest[0])[0]);
        }
        match t0 {
            TokV::LParen => {
                assert(s[i + 0] == text0[0]);
            },
            TokV::RParen => {
                assert(s[i + 0] == text0[0]);
            },
            TokV::Comma => {
                assert(s[i + 0] == text0[0]);
            },
            TokV::Eq => {
                assert(s[i + 0] == text0[0]);
            },
            TokV::PathSep => {
                assert(s[i + 0] == text0[0]);
                assert(s[i + 1] == text0[1]);
            },
            TokV::Ident(x) => {
                assert(s[i + 0] == text0[0]);
                assert forall|k: int| i <= k < e implies crate::text::spec_ident_continue(
                    #[trigger] s[k],
                ) by {
                    assert(s[i + (k - i)] == x[k - i]);
                }
                if e < s.len() {
                    assert(!wordy(rest[0])) by {
                        assert(wordy(ts[0]));
                        assert(!(wordy(ts[0]) && wordy(ts[0int + 1])));
                    }
                }
                lemma_scan_ident_determined(s, i, e);
                assert(s.subrange(i, e) == x);
            },
            TokV::LitStr(content) => {
                assert(s[i + 0] == text0[0]);
                assert(text0 == seq!['"'] + (escape_seq(content) + seq!['"']));
                assert(s[i] == '"');
                lemma_region_split(s, i, seq!['"'], escape_seq(content) + seq!['"']);
                lemma_region_split(s, i + 1, escape_seq(content), seq!['"']);
                lemma_region_index(s, i + 1 + escape_seq(content).len(), seq!['"']);
                assert(s[(i + 1 + escape_seq(content).len()) + 0] == '"');
                lemma_scan_escape(s, i + 1, content);
            },
            TokV::LitInt(n) => {
                lemma_int_chars_props(n as nat);
                assert(s[i + 0] == text0[0]);
                assert(text0[0] == int_chars(n as nat)[0]);
                assert forall|k: int| i <= k < e implies crate::text::spec_is_digit(
                    #[trigger] s[k],
                ) by {
                    assert(s[i + (k - i)] == int_chars(n as nat)[k - i]);
                }
                if e < s.len() {
                    assert(!wordy(rest[0])) by {
                        assert(wordy(ts[0]));
                        assert(!(wordy(ts[0]) && wordy(ts[0int + 1])));
                    }
                }
                lemma_scan_digit_determined(s, i, e);
                assert(s.subrange(i, e) == int_chars(n as nat));
                assert(digits_val(s.subrange(i, e)) == n);
            },
        }
        assert(i < s.len());
        assert(crate::token::spec_lex_from(s, i) == crate::token::lex_cons(
            s,
            t0,
            i + text0.len(),
        ));
        assert(seq![t0] + rest =~= ts);
    }
}

/// The round-trip law: printing a well-formed metadata item as text and
/// parsing the text back yields exactly the item.
pub proof fn lemma_meta_text_round_trip(m: MetaV)
    requires
        wf_meta(m),
    ensures
        crate::parse::spec_parse_meta_str(crate::print::spec_meta_text(m)) == Ok::<
            MetaV,
            Error,
        >(m),
{
    let ts = meta_toks(m);
    let s = render_toks(ts);
    lemma_meta_toks_shape(m);
    assert(region(s, 0, render_toks(ts))) by {
        assert(s.subrange(0, s.len() as int) =~= s);
    }
    lemma_lex_rt(ts, s, 0);
    lemma_meta_toks_round_trip(m);
}

/// Everything the parser accepts, the printer reproduces: a successfully
/// parsed item is well-formed, and parsing its canonical text yields it
/// again.
pub proof fn lemma_parse_then_print(s: Seq<char>)
    ensures
        crate::parse::spec_parse_meta_str(s) matches Ok(m) ==> wf_meta(m)
            && crate::parse::spec_parse_meta_str(crate::print::spec_meta_text(m)) == Ok::<
            MetaV,
            Error,
        >(m),
{
    if let Ok(m) = crate::parse::spec_parse_meta_str(s) {
        if let Ok(ts) = crate::token::spec_lex(s) {
            crate::token::lemma_lex_wf(s, 0);
            crate::parse::lemma_parse_meta_wf(ts, 0);
            lemma_meta_text_round_trip(m);
        }
    }
}

proof fn lemma_lit_tok_complete(t: TokV)
    requires
        lit_of_tok(t) is Some,
    ensures
        lit_tok(lit_of_tok(t)->Some_0) == t,
{
    assert(true_chars().len() == 4);
    assert(false_chars().len() == 5);
}

proof fn lemma_segs_consumed(ts: Seq<TokV>, i: int)
    requires
        0 <= i,
    ensures
        spec_parse_segments(ts, i) matches Ok((segs, j)) ==> i < j <= ts.len() && ts.subrange(
            i,
            j,
        ) == segs_toks(segs),
    decreases ts.len() - i,
{
    if 0 <= i < ts.len() && ts[i] is Ident {
        let x = ts[i]->Ident_0;
        if i + 1 < ts.len() && ts[i + 1] is PathSep {
            lemma_segs_consumed(ts, i + 2);
            if let Ok((rest, j)) = spec_parse_segments(ts, i + 2) {
                let segs = seq![x] + rest;
                assert(segs.len() > 1);
                assert(segs[0] == x);
                assert(segs.drop_first() =~= rest);
                assert(segs_toks(segs) == seq![TokV::Ident(x), TokV::PathSep] + segs_toks(
                    rest,
                ));
                assert(ts.subrange(i, j) =~= seq![ts[i], ts[i + 1]] + ts.subrange(i + 2, j));
                assert(ts.subrange(i, j) =~= segs_toks(segs));
            }
        } else {
            assert(ts.subrange(i, i + 1) =~= seq![ts[i]]);
            assert(segs_toks(seq![x]) == seq![TokV::Ident(x)]);
            assert(ts.subrange(i, i + 1) =~= segs_toks(seq![x]));
        }
    }
}

proof fn lemma_path_consumed(ts: Seq<TokV>, i: int)
    requires
        0 <= i,
    ensures
        spec_parse_path(ts, i) matches Ok((p, j)) ==> i < j <= ts.len() && ts.subrange(i, j)
            == path_toks(p),
{
    let leading = 0 <= i < ts.len() && ts[i] is PathSep;
    let j0 = if leading {
        i + 1
    } else {
        i
    };
    lemma_segs_consumed(ts, j0);
    if let Ok((p, j)) = spec_parse_path(ts, i) {
        if leading {
            assert(ts[i] == TokV::PathSep);
            assert(ts.subrange(i, j) =~= seq![ts[i]] + ts.subrange(i + 1, j));
            assert(ts.subrange(i, j) =~= path_toks(p));
        } else {
            assert(ts.subrange(i, j) =~= path_toks(p));
        }
    }
}

proof fn lemma_meta_consumed(ts: Seq<TokV>, i: int)
    requires
        0 <= i,
    ensures
        spec_parse_meta(ts, i) matches Ok((m, j)) ==> i < j <= ts.len() && ts.subrange(i, j)
            == meta_toks(m),
    decreases ts.len() - i, 0int,
{
    lemma_path_consumed(ts, i);
    if let Ok((path, j0)) = spec_parse_path(ts, i) {
        if j0 < ts.len() && ts[j0] is LParen {
            lemma_items_consumed(ts, j0 + 1);
            if let Ok((items, tc, k)) = spec_parse_nested_list(ts, j0 + 1) {
                assert(ts[j0] == TokV::LParen);
                assert(ts.subrange(i, k) =~= ts.subrange(i, j0) + seq![ts[j0]] + ts.subrange(
                    j0 + 1,
                    k,
                ));
                let m = MetaV::List(MetaListV { path, nested: items, trailing_comma: tc });
                assert(meta_toks(m) =~= path_toks(path) + seq![TokV::LParen] + (
                nested_seq_toks(items) + comma_opt(tc) + seq![TokV::RParen]));
                assert(ts.subrange(i, k) =~= meta_toks(m));
            }
        } else if j0 < ts.len() && ts[j0] is Eq {
            if j0 + 1 < ts.len() && lit_of_tok(ts[j0 + 1]) is Some {
                lemma_lit_tok_complete(ts[j0 + 1]);
                assert(ts[j0] == TokV::Eq);
                assert(ts.subrange(i, j0 + 2) =~= ts.subrange(i, j0) + seq![
                    ts[j0],
                    ts[j0 + 1],
                ]);
                let m = MetaV::NameValue(
                    MetaNameValueV { path, value: lit_of_tok(ts[j0 + 1])->Some_0 },
                );
                assert(ts.subrange(i, j0 + 2) =~= meta_toks(m));
            }
        }
    }
}

proof fn lemma_items_consumed(ts: Seq<TokV>, i: int)
    requires
        0 <= i,
    ensures
        spec_parse_nested_list(ts, i) matches Ok((items, tc, k)) ==> i < k <= ts.len()
            && ts.subrange(i, k) == nested_seq_toks(items) + comma_opt(tc) + seq![
            TokV::RParen,
        ],
    decreases ts.len() - i, 2int,
{
    if 0 <= i < ts.len() {
        if ts[i] is RParen {
            assert(ts[i] == TokV::RParen);
            assert(ts.subrange(i, i + 1) =~= nested_seq_toks(Seq::<NestedMetaV>::empty())
                + comma_opt(false) + seq![TokV::RParen]);
        } else {
            lemma_nested_consumed(ts, i);
            if let Ok((n, j)) = spec_parse_nested(ts, i) {
                if j < ts.len() && ts[j] is Comma {
                    assert(ts[j] == TokV::Comma);
                    lemma_items_consumed(ts, j + 1);
                    if let Ok((rest, rest_tc, k)) = spec_parse_nested_list(ts, j + 1) {
                        let items = seq![n] + rest;
                        let tc = if rest.len() == 0 {
                            true
                        } else {
                            rest_tc
                        };
                        assert(ts.subrange(i, k) =~= ts.subrange(i, j) + seq![ts[j]]
                            + ts.subrange(j + 1, k));
                        if rest.len() == 0 {
                            assert(nested_seq_toks(items) =~= nested_toks(n)) by {
                                assert(items.len() == 1);
                                assert(items[0] == n);
                            }
                            assert(nested_seq_toks(rest) =~= Seq::<TokV>::empty());
                            assert(ts.subrange(i, k) =~= nested_seq_toks(items) + comma_opt(
                                true,
                            ) + seq![TokV::RParen]);
                        } else {
                            assert(items.len() > 1);
                            assert(items[0] == n);
                            assert(items.drop_first() =~= rest);
                            assert(nested_seq_toks(items) == nested_toks(n) + seq![
                                TokV::Comma,
                            ] + nested_seq_toks(rest));
                            assert(ts.subrange(i, k) =~= nested_seq_toks(items) + comma_opt(
                                tc,
                            ) + seq![TokV::RParen]);
                        }
                    }
                } else if j < ts.len() && ts[j] is RParen {
                    assert(ts[j] == TokV::RParen);
                    assert(ts.subrange(i, j + 1) =~= ts.subrange(i, j) + seq![ts[j]]);
                    assert(nested_seq_toks(seq![n]) == nested_toks(n)) by {
                        assert(seq![n].len() == 1);
                        assert(seq![n][0] == n);
                    }
                    assert(ts.subrange(i, j + 1) =~= nested_seq_toks(seq![n]) + comma_opt(
                        false,
                    ) + seq![TokV::RParen]);
                }
            }
        }
    }
}

proof fn lemma_nested_consumed(ts: Seq<TokV>, i: int)
    requires
        0 <= i,
    ensures
        spec_parse_nested(ts, i) matches Ok((n, j)) ==> i < j <= ts.len() && ts.subrange(i, j)
            == nested_toks(n),
    decreases ts.len() - i, 1int,
{
    if 0 <= i < ts.len() {
        assert(true_chars().len() == 4);
        assert(false_chars().len() == 5);
        match ts[i] {
            TokV::LitStr(s) => {
                assert(ts.subrange(i, i + 1) =~= seq![ts[i]]);
                assert(ts.subrange(i, i + 1) =~= nested_toks(NestedMetaV::Lit(LitV::Str(s))));
            },
            TokV::LitInt(nn) => {
                assert(ts.subrange(i, i + 1) =~= seq![ts[i]]);
                assert(ts.subrange(i, i + 1) =~= nested_toks(
                    NestedMetaV::Lit(LitV::Int(nn)),
                ));
            },
            TokV::Ident(x) => {
                if (x == true_chars() || x == false_chars()) && !(i + 1 < ts.len() && ts[i
                    + 1] is Eq) {
                    assert(ts.subrange(i, i + 1) =~= seq![ts[i]]);
                    assert(ts.subrange(i, i + 1) =~= nested_toks(
                        NestedMetaV::Lit(LitV::Bool(x == true_chars())),
                    ));
                } else {
                    lemma_meta_consumed(ts, i);
                }
            },
            TokV::PathSep => {
                lemma_meta_consumed(ts, i);
            },
            _ => {},
        }
    }
}

/// Printing after parsing is token-preserving: when a string parses, the
/// parsed item prints back to exactly the token sequence the string lexed
/// to.
pub proof fn lemma_print_preserves_tokens(s: Seq<char>)
    ensures
        crate::parse::spec_parse_meta_str(s) matches Ok(m) ==> crate::token::spec_lex(s)
            == Ok::<Seq<TokV>, Error>(meta_toks(m)),
{
    if let Ok(m) = crate::parse::spec_parse_meta_str(s) {
        if let Ok(ts) = crate::token::spec_lex(s) {
            lemma_meta_consumed(ts, 0);
            assert(ts.subrange(0, ts.len() as int) =~= ts);
        }
    }
}

} // verus!
