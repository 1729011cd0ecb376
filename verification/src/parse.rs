//! The recursive-descent parser of the attribute micro-language, given both
//! as specification functions over token sequences and as executable code
//! proved to match them.

use vstd::prelude::*;
use crate::error::Error;
use crate::meta::{
    false_chars, lemma_nested_views, nested_views, true_chars, Lit, LitV, Meta1, MetaList1,
    MetaListV, MetaNameValue, MetaNameValueV, MetaV, NestedMeta, NestedMetaV,
};
use crate::path::{Path, PathV};
use crate::text::{str_eq, str_to_chars};
use crate::token::{lex_chars, spec_lex, toks_view, Tok, TokV};

verus! {

/// Parses `ident (:: ident)*` starting at an identifier token; after each
/// `::` another identifier is required.
pub open spec fn spec_parse_segments(ts: Seq<TokV>, i: int) -> Result<
    (Seq<Seq<char>>, int),
    Error,
>
    decreases ts.len() - i,
    when 0 <= i
{
    if 0 <= i < ts.len() && ts[i] is Ident {
        if i + 1 < ts.len() && ts[i + 1] is PathSep {
            match spec_parse_segments(ts, i + 2) {
                Ok((rest, j)) => Ok((seq![ts[i]->Ident_0] + rest, j)),
                Err(e) => Err(e),
            }
        } else {
            Ok((seq![ts[i]->Ident_0], i + 1))
        }
    } else {
        Err(Error::ExpectedPathSegment { at: i as usize })
    }
}

pub proof fn lemma_parse_segments_bounds(ts: Seq<TokV>, i: int)
    requires
        0 <= i,
    ensures
        spec_parse_segments(ts, i) matches Ok((segs, j)) ==> i < j <= ts.len() && segs.len() > 0,
    decreases ts.len() - i,
{
    if 0 <= i < ts.len() && ts[i] is Ident && i + 1 < ts.len() && ts[i + 1] is PathSep {
        lemma_parse_segments_bounds(ts, i + 2);
    }
}

/// Parses a path: an optional leading `::` followed by segments.
pub open spec fn spec_parse_path(ts: Seq<TokV>, i: int) -> Result<(PathV, int), Error> {
    let leading = 0 <= i < ts.len() && ts[i] is PathSep;
    let j = if leading {
        i + 1
    } else {
        i
    };
    if 0 <= j < ts.len() && ts[j] is Ident {
        match spec_parse_segments(ts, j) {
            Ok((segs, k)) => Ok((PathV { leading_colon: leading, segments: segs }, k)),
            Err(e) => Err(e),
        }
    } else {
        Err(Error::ExpectedPath { at: j as usize })
    }
}

pub proof fn lemma_parse_path_bounds(ts: Seq<TokV>, i: int)
    requires
        0 <= i,
    ensures
        spec_parse_path(ts, i) matches Ok((p, j)) ==> i < j <= ts.len(),
{
    let leading = 0 <= i < ts.len() && ts[i] is PathSep;
    let j = if leading {
        i + 1
    } else {
        i
    };
    lemma_parse_segments_bounds(ts, j);
}

/// The literal value a single token stands for in a nested position, if any;
/// the keywords `true` and `false` are boolean literals there.
pub open spec fn lit_of_tok(t: TokV) -> Option<LitV> {
    match t {
        TokV::LitStr(s) => Some(LitV::Str(s)),
        TokV::LitInt(n) => Some(LitV::Int(n)),
        TokV::Ident(x) => if x == true_chars() {
            Some(LitV::Bool(true))
        } else if x == false_chars() {
            Some(LitV::Bool(false))
        } else {
            None
        },
        _ => None,
    }
}

/// Parses one whole metadata item: a path, then either a parenthesised
/// nested list, a `=` with a literal value, or nothing.
pub open spec fn spec_parse_meta(ts: Seq<TokV>, i: int) -> Result<(MetaV, int), Error>
    decreases ts.len() - i, 0int,
    when 0 <= i
    via spec_parse_meta_dec
{
    match spec_parse_path(ts, i) {
        Err(e) => Err(e),
        Ok((path, j)) => {
            if j < ts.len() && ts[j] is LParen {
                match spec_parse_nested_list(ts, j + 1) {
                    Ok((items, tc, k)) => Ok(
                        (
                            MetaV::List(
                                MetaListV { path, nested: items, trailing_comma: tc },
                            ),
                            k,
                        ),
                    ),
                    Err(e) => Err(e),
                }
            } else if j < ts.len() && ts[j] is Eq {
                if j + 1 < ts.len() && lit_of_tok(ts[j + 1]) is Some {
                    Ok(
                        (
                            MetaV::NameValue(
                                MetaNameValueV {
                                    path,
                                    value: lit_of_tok(ts[j + 1])->Some_0,
                                },
                            ),
                            j + 2,
                        ),
                    )
                } else {
                    Err(Error::ExpectedLit { at: (j + 1) as usize })
                }
            } else {
                Ok((MetaV::Path(path), j))
            }
        },
    }
}

#[via_fn]
proof fn spec_parse_meta_dec(ts: Seq<TokV>, i: int) {
    lemma_parse_path_bounds(ts, i);
}

/// Parses the elements between the parentheses of a list, commas between
/// them, up to and including the closing `)`. Besides the elements and the
/// end position, the result records whether the last element was followed by
/// a trailing comma.
pub open spec fn spec_parse_nested_list(ts: Seq<TokV>, i: int) -> Result<
    (Seq<NestedMetaV>, bool, int),
    Error,
>
    decreases ts.len() - i, 2int,
    when 0 <= i
{
    if !(0 <= i < ts.len()) {
        Err(Error::ExpectedIdentOrLit { at: i as usize })
    } else if ts[i] is RParen {
        Ok((Seq::empty(), false, i + 1))
    } else {
        match spec_parse_nested(ts, i) {
            Err(e) => Err(e),
            Ok((n, j)) => {
                if j < ts.len() && ts[j] is Comma {
                    // The parser always moves forward; the bound keeps that
                    // visible to the termination check.
                    match spec_parse_nested_list(ts, if j + 1 > i + 1 {
                        j + 1
                    } else {
                        i + 1
                    }) {
                        Ok((rest, rest_tc, k)) => Ok(
                            (
                                seq![n] + rest,
                                if rest.len() == 0 {
                                    true
                                } else {
                                    rest_tc
                                },
                                k,
                            ),
                        ),
                        Err(e) => Err(e),
                    }
                } else if j < ts.len() && ts[j] is RParen {
                    Ok((seq![n], false, j + 1))
                } else {
                    Err(Error::ExpectedCommaOrParen { at: j as usize })
                }
            },
        }
    }
}

/// Parses one nested element: a literal token, a boolean keyword not
/// followed by `=`, or a whole nested metadata item.
pub open spec fn spec_parse_nested(ts: Seq<TokV>, i: int) -> Result<(NestedMetaV, int), Error>
    decreases ts.len() - i, 1int,
    when 0 <= i
{
    if !(0 <= i < ts.len()) {
        Err(Error::ExpectedIdentOrLit { at: i as usize })
    } else {
        match ts[i] {
            TokV::LitStr(s) => Ok((NestedMetaV::Lit(LitV::Str(s)), i + 1)),
            TokV::LitInt(n) => Ok((NestedMetaV::Lit(LitV::Int(n)), i + 1)),
            TokV::Ident(x) => {
                if (x == true_chars() || x == false_chars()) && !(i + 1 < ts.len() && ts[i + 1]
                    is Eq) {
                    Ok((NestedMetaV::Lit(LitV::Bool(x == true_chars())), i + 1))
                } else {
                    match spec_parse_meta(ts, i) {
                        Ok((m, j)) => Ok((NestedMetaV::Meta(m), j)),
                        Err(e) => Err(e),
                    }
                }
            },
            TokV::PathSep => match spec_parse_meta(ts, i) {
                Ok((m, j)) => Ok((NestedMetaV::Meta(m), j)),
                Err(e) => Err(e),
            },
            _ => Err(Error::ExpectedIdentOrLit { at: i as usize }),
        }
    }
}

/// Parsing a whole character string: lexing, one metadata item, and nothing
/// left over.
pub open spec fn spec_parse_meta_str(s: Seq<char>) -> Result<MetaV, Error> {
    match spec_lex(s) {
        Err(e) => Err(e),
        Ok(ts) => match spec_parse_meta(ts, 0) {
            Err(e) => Err(e),
            Ok((m, j)) => if j == ts.len() {
                Ok(m)
            } else {
                Err(Error::TrailingTokens { at: j as usize })
            },
        },
    }
}

fn parse_segments(ts: &Vec<Tok>, i: usize) -> (r: Result<(Vec<String>, usize), Error>)
    ensures
        match r {
            Ok((segs, j)) => spec_parse_segments(toks_view(ts@), i as int) == Ok::<_, Error>(
                (segs@.map_values(|s: String| s@), j as int),
            ) && i < j <= ts.len(),
            Err(e) => spec_parse_segments(toks_view(ts@), i as int) == Err::<
                (Seq<Seq<char>>, int),
                _,
            >(e),
        },
    decreases ts.len() - i,
{
    if i >= ts.len() {
        return Err(Error::ExpectedPathSegment { at: i });
    }
    let x: String = match &ts[i] {
        Tok::Ident(x) => x.clone(),
        _ => {
            return Err(Error::ExpectedPathSegment { at: i });
        },
    };
    if i + 1 < ts.len() && matches!(&ts[i + 1], Tok::PathSep) {
        match parse_segments(ts, i + 2) {
            Ok((rest, j)) => {
                let mut segs = rest;
                let ghost rest_view = segs@.map_values(|s: String| s@);
                segs.insert(0, x);
                proof {
                    assert(segs@.map_values(|s: String| s@) =~= seq![x@] + rest_view);
                }
                Ok((segs, j))
            },
            Err(e) => Err(e),
        }
    } else {
        let mut segs: Vec<String> = Vec::new();
        segs.push(x);
        proof {
            assert(segs@.map_values(|s: String| s@) =~= seq![x@]);
        }
        Ok((segs, i + 1))
    }
}

fn parse_path(ts: &Vec<Tok>, i: usize) -> (r: Result<(Path, usize), Error>)
    ensures
        match r {
            Ok((p, j)) => spec_parse_path(toks_view(ts@), i as int) == Ok::<_, Error>(
                (p@, j as int),
            ) && i < j <= ts.len(),
            Err(e) => spec_parse_path(toks_view(ts@), i as int) == Err::<(PathV, int), _>(e),
        },
{
    let leading = i < ts.len() && matches!(&ts[i], Tok::PathSep);
    let j = if leading {
        i + 1
    } else {
        i
    };
    if !(j < ts.len() && matches!(&ts[j], Tok::Ident(_))) {
        return Err(Error::ExpectedPath { at: j });
    }
    match parse_segments(ts, j) {
        Ok((segments, k)) => Ok((Path { leading_colon: leading, segments }, k)),
        Err(e) => Err(e),
    }
}

/// The literal a single token stands for in a nested position, if any.
fn tok_to_lit(t: &Tok) -> (r: Option<Lit>)
    ensures
        match r {
            Some(l) => lit_of_tok(t@) == Some(l@),
            None => lit_of_tok(t@) is None,
        },
{
    proof {
        reveal_strlit("true");
        reveal_strlit("false");
        assert("true"@ =~= true_chars());
        assert("false"@ =~= false_chars());
    }
    match t {
        Tok::LitStr(s) => Some(Lit::Str(s.clone())),
        Tok::LitInt(n) => Some(Lit::Int(*n)),
        Tok::Ident(x) => {
            if str_eq(x.as_str(), "true") {
                Some(Lit::Bool(true))
            } else if str_eq(x.as_str(), "false") {
                Some(Lit::Bool(false))
            } else {
                None
            }
        },
        _ => None,
    }
}

fn parse_meta_toks(ts: &Vec<Tok>, i: usize) -> (r: Result<(Meta1, usize), Error>)
    ensures
        match r {
            Ok((m, j)) => spec_parse_meta(toks_view(ts@), i as int) == Ok::<_, Error>(
                (m@, j as int),
            ) && i < j <= ts.len(),
            Err(e) => spec_parse_meta(toks_view(ts@), i as int) == Err::<(MetaV, int), _>(e),
        },
    decreases ts.len() - i, 0int,
{
    let (path, j) = match parse_path(ts, i) {
        Ok(pj) => pj,
        Err(e) => {
            return Err(e);
        },
    };
    if j < ts.len() && matches!(&ts[j], Tok::LParen) {
        match parse_nested_list_toks(ts, j + 1) {
            Ok((items, tc, k)) => Ok(
                (Meta1::List(MetaList1 { path, nested: items, trailing_comma: tc }), k),
            ),
            Err(e) => Err(e),
        }
    } else if j < ts.len() && matches!(&ts[j], Tok::Eq) {
        if j + 1 < ts.len() {
            match tok_to_lit(&ts[j + 1]) {
                Some(value) => Ok((Meta1::NameValue(MetaNameValue { path, value }), j + 2)),
                None => Err(Error::ExpectedLit { at: j + 1 }),
            }
        } else {
            Err(Error::ExpectedLit { at: j + 1 })
        }
    } else {
        Ok((Meta1::Path(path), j))
    }
}

fn parse_nested_list_toks(ts: &Vec<Tok>, i: usize) -> (r: Result<
    (Vec<NestedMeta>, bool, usize),
    Error,
>)
    ensures
        match r {
            Ok((v, tc, j)) => spec_parse_nested_list(toks_view(ts@), i as int) == Ok::<
                _,
                Error,
            >((nested_views(v@), tc, j as int)) && i < j <= ts.len(),
            Err(e) => spec_parse_nested_list(toks_view(ts@), i as int) == Err::<
                (Seq<NestedMetaV>, bool, int),
                _,
            >(e),
        },
    decreases ts.len() - i, 2int,
{
    if i >= ts.len() {
        return Err(Error::ExpectedIdentOrLit { at: i });
    }
    if matches!(&ts[i], Tok::RParen) {
        let v: Vec<NestedMeta> = Vec::new();
        proof {
            assert(nested_views(v@) =~= Seq::<NestedMetaV>::empty());
        }
        return Ok((v, false, i + 1));
    }
    match parse_nested_toks(ts, i) {
        Err(e) => Err(e),
        Ok((n, j)) => {
            if j < ts.len() && matches!(&ts[j], Tok::Comma) {
                match parse_nested_list_toks(ts, j + 1) {
                    Ok((rest, rest_tc, k)) => {
                        let tc = if rest.len() == 0 {
                            true
                        } else {
                            rest_tc
                        };
                        proof {
                            lemma_nested_views(rest@);
                        }
                        let ghost rest_seq = rest@;
                        let ghost rest_view = nested_views(rest@);
                        let ghost n_view = n@;
                        let mut v = rest;
                        v.insert(0, n);
                        proof {
                            lemma_nested_views(v@);
                            lemma_nested_views(rest_seq);
                            assert(v@ =~= seq![v@[0]] + rest_seq);
                            assert(nested_views(v@) =~= seq![n_view] + rest_view);
                        }
                        Ok((v, tc, k))
                    },
                    Err(e) => Err(e),
                }
            } else if j < ts.len() && matches!(&ts[j], Tok::RParen) {
                let mut v: Vec<NestedMeta> = Vec::new();
                let ghost n_view = n@;
                v.push(n);
                proof {
                    lemma_nested_views(v@);
                    assert(nested_views(v@) =~= seq![n_view]);
                }
                Ok((v, false, j + 1))
            } else {
                Err(Error::ExpectedCommaOrParen { at: j })
            }
        },
    }
}

fn parse_nested_toks(ts: &Vec<Tok>, i: usize) -> (r: Result<(NestedMeta, usize), Error>)
    ensures
        match r {
            Ok((n, j)) => spec_parse_nested(toks_view(ts@), i as int) == Ok::<_, Error>(
                (n@, j as int),
            ) && i < j <= ts.len(),
            Err(e) => spec_parse_nested(toks_view(ts@), i as int) == Err::<
                (NestedMetaV, int),
                _,
            >(e),
        },
    decreases ts.len() - i, 1int,
{
    if i >= ts.len() {
        return Err(Error::ExpectedIdentOrLit { at: i });
    }
    proof {
        reveal_strlit("true");
        reveal_strlit("false");
        assert("true"@ =~= true_chars());
        assert("false"@ =~= false_chars());
    }
    match &ts[i] {
        Tok::LitStr(s) => Ok((NestedMeta::Lit(Lit::Str(s.clone())), i + 1)),
        Tok::LitInt(n) => Ok((NestedMeta::Lit(Lit::Int(*n)), i + 1)),
        Tok::Ident(x) => {
            let is_true = str_eq(x.as_str(), "true");
            let is_false = str_eq(x.as_str(), "false");
            if (is_true || is_false) && !(i + 1 < ts.len() && matches!(&ts[i + 1], Tok::Eq)) {
                Ok((NestedMeta::Lit(Lit::Bool(is_true)), i + 1))
            } else {
                match parse_meta_toks(ts, i) {
                    Ok((m, j)) => Ok((NestedMeta::Meta(m), j)),
                    Err(e) => Err(e),
                }
            }
        },
        Tok::PathSep => match parse_meta_toks(ts, i) {
            Ok((m, j)) => Ok((NestedMeta::Meta(m), j)),
            Err(e) => Err(e),
        },
        _ => Err(Error::ExpectedIdentOrLit { at: i }),
    }
}

impl Meta1 {
    /// Parses a whole string as one metadata item, exactly as
    /// [`spec_parse_meta_str`] says.
    pub fn parse(s: &str) -> (r: Result<Meta1, Error>)
        ensures
            match r {
                Ok(m) => spec_parse_meta_str(s@) == Ok::<_, Error>(m@),
                Err(e) => spec_parse_meta_str(s@) == Err::<MetaV, _>(e),
            },
    {
        let chars = str_to_chars(s);
        let ts = match lex_chars(&chars) {
            Ok(ts) => ts,
            Err(e) => {
                return Err(e);
            },
        };
        match parse_meta_toks(&ts, 0) {
            Err(e) => Err(e),
            Ok((m, j)) => {
                if j == ts.len() {
                    Ok(m)
                } else {
                    Err(Error::TrailingTokens { at: j })
                }
            },
        }
    }
}

impl MetaList1 {
    /// Parses a whole string as a parenthesised list item; any other kind of
    /// item is rejected.
    pub fn parse(s: &str) -> (r: Result<MetaList1, Error>)
        ensures
            match r {
                Ok(l) => spec_parse_meta_str(s@) == Ok::<_, Error>(MetaV::List(l@)),
                Err(e) => match spec_parse_meta_str(s@) {
                    Ok(m) => !(m is List) && e == Error::NotAList,
                    Err(pe) => e == pe,
                },
            },
    {
        match Meta1::parse(s) {
            Ok(Meta1::List(l)) => Ok(l),
            Ok(_) => Err(Error::NotAList),
            Err(e) => Err(e),
        }
    }
}

/// Segments the parser accepts are well-formed identifiers, and more than
/// one segment begins with a separator after the first.
pub proof fn lemma_parse_segments_wf(ts: Seq<TokV>, i: int)
    requires
        0 <= i,
        forall|k: int| 0 <= k < ts.len() ==> crate::roundtrip::wf_tok(#[trigger] ts[k]),
    ensures
        spec_parse_segments(ts, i) matches Ok((segs, j)) ==> {
            &&& i < j <= ts.len()
            &&& segs.len() > 0
            &&& forall|k: int| 0 <= k < segs.len() ==> crate::text::wf_ident(#[trigger] segs[k])
            &&& segs[0] == ts[i]->Ident_0
            &&& (segs.len() > 1 ==> i + 1 < ts.len() && ts[i + 1] is PathSep)
            &&& j == i + 2 * segs.len() - 1
        },
    decreases ts.len() - i,
{
    if 0 <= i < ts.len() && ts[i] is Ident {
        assert(crate::roundtrip::wf_tok(ts[i]));
        if i + 1 < ts.len() && ts[i + 1] is PathSep {
            lemma_parse_segments_wf(ts, i + 2);
            if let Ok((rest, j)) = spec_parse_segments(ts, i + 2) {
                assert forall|k: int|
                    0 <= k < (seq![ts[i]->Ident_0] + rest).len() implies crate::text::wf_ident(
                    #[trigger] (seq![ts[i]->Ident_0] + rest)[k],
                ) by {
                    if k > 0 {
                        assert((seq![ts[i]->Ident_0] + rest)[k] == rest[k - 1]);
                    }
                }
            }
        }
    }
}

/// Paths the parser accepts are well-formed, and their first token pins
/// their shape.
pub proof fn lemma_parse_path_wf(ts: Seq<TokV>, i: int)
    requires
        0 <= i,
        forall|k: int| 0 <= k < ts.len() ==> crate::roundtrip::wf_tok(#[trigger] ts[k]),
    ensures
        spec_parse_path(ts, i) matches Ok((p, j)) ==> {
            &&& i < j <= ts.len()
            &&& crate::path::wf_path(p)
            &&& p.leading_colon == (i < ts.len() && ts[i] is PathSep)
            &&& (!p.leading_colon ==> p.segments[0] == ts[i]->Ident_0 && (p.segments.len() > 1
                ==> i + 1 < ts.len() && ts[i + 1] is PathSep) && j == i + 2 * p.segments.len()
                - 1)
            &&& (p.leading_colon ==> j == i + 2 * p.segments.len())
        },
{
    let leading = 0 <= i < ts.len() && ts[i] is PathSep;
    let j = if leading {
        i + 1
    } else {
        i
    };
    lemma_parse_segments_wf(ts, j);
}

/// Metas the parser accepts are well-formed and safe to stand in nested
/// positions, except that a bare boolean keyword path never comes back from
/// a nested position in the first place.
pub proof fn lemma_parse_meta_wf(ts: Seq<TokV>, i: int)
    requires
        0 <= i,
        forall|k: int| 0 <= k < ts.len() ==> crate::roundtrip::wf_tok(#[trigger] ts[k]),
    ensures
        spec_parse_meta(ts, i) matches Ok((m, j)) ==> {
            &&& i < j <= ts.len()
            &&& crate::meta::wf_meta(m)
            &&& crate::meta::spec_meta_path(m).leading_colon == (i < ts.len() && ts[i]
                is PathSep)
            &&& (!crate::meta::spec_meta_path(m).leading_colon ==> crate::meta::spec_meta_path(
                m,
            ).segments[0] == ts[i]->Ident_0)
            &&& (!crate::meta::spec_meta_path(m).leading_colon && !(m is NameValue
                && crate::meta::spec_meta_path(m).segments.len() == 1) ==> !(i + 1 < ts.len()
                && ts[i + 1] is Eq))
        },
    decreases ts.len() - i, 0int,
{
    lemma_parse_path_wf(ts, i);
    if let Ok((path, j)) = spec_parse_path(ts, i) {
        if j < ts.len() && ts[j] is LParen {
            lemma_parse_nested_list_wf(ts, j + 1);
            if path.segments.len() == 1 && !path.leading_colon {
                assert(j == i + 1);
            }
        } else if j < ts.len() && ts[j] is Eq {
            if path.segments.len() > 1 && !path.leading_colon {
                assert(ts[i + 1] is PathSep);
            }
        } else {
            if path.segments.len() == 1 && !path.leading_colon {
                assert(j == i + 1);
            } else if path.segments.len() > 1 && !path.leading_colon {
                assert(ts[i + 1] is PathSep);
            }
        }
    }
}

/// Nested lists the parser accepts hold only well-formed elements, and a
/// trailing comma is recorded only for a nonempty list.
pub proof fn lemma_parse_nested_list_wf(ts: Seq<TokV>, i: int)
    requires
        0 <= i,
        forall|k: int| 0 <= k < ts.len() ==> crate::roundtrip::wf_tok(#[trigger] ts[k]),
    ensures
        spec_parse_nested_list(ts, i) matches Ok((items, tc, j)) ==> {
            &&& i < j <= ts.len()
            &&& (tc ==> items.len() > 0)
            &&& forall|k: int|
                0 <= k < items.len() ==> crate::meta::wf_nested(#[trigger] items[k])
        },
    decreases ts.len() - i, 2int,
{
    if 0 <= i < ts.len() && !(ts[i] is RParen) {
        lemma_parse_nested_wf(ts, i);
        if let Ok((n, j)) = spec_parse_nested(ts, i) {
            if j < ts.len() && ts[j] is Comma {
                lemma_parse_nested_list_wf(ts, if j + 1 > i + 1 {
                    j + 1
                } else {
                    i + 1
                });
                if let Ok((rest, rest_tc, k)) = spec_parse_nested_list(ts, j + 1) {
                    assert forall|q: int|
                        0 <= q < (seq![n] + rest).len() implies crate::meta::wf_nested(
                        #[trigger] (seq![n] + rest)[q],
                    ) by {
                        if q > 0 {
                            assert((seq![n] + rest)[q] == rest[q - 1]);
                        }
                    }
                }
            } else if j < ts.len() && ts[j] is RParen {
                assert(seq![n][0] == n);
            }
        }
    }
}

/// Nested elements the parser accepts are well-formed: in particular, a meta
/// that starts with a bare boolean keyword only comes back as a one-segment
/// name-value pair.
pub proof fn lemma_parse_nested_wf(ts: Seq<TokV>, i: int)
    requires
        0 <= i,
        forall|k: int| 0 <= k < ts.len() ==> crate::roundtrip::wf_tok(#[trigger] ts[k]),
    ensures
        spec_parse_nested(ts, i) matches Ok((n, j)) ==> i < j <= ts.len()
            && crate::meta::wf_nested(n),
    decreases ts.len() - i, 1int,
{
    if 0 <= i < ts.len() {
        match ts[i] {
            TokV::Ident(x) => {
                lemma_parse_meta_wf(ts, i);
                if !((x == true_chars() || x == false_chars()) && !(i + 1 < ts.len() && ts[i
                    + 1] is Eq)) {
                    if let Ok((m, j)) = spec_parse_meta(ts, i) {
                        let p = crate::meta::spec_meta_path(m);
                        if !p.leading_colon && (p.segments[0] == true_chars() || p.segments[0]
                            == false_chars()) {
                            assert(x == true_chars() || x == false_chars());
                            assert(i + 1 < ts.len() && ts[i + 1] is Eq);
                            assert(m is NameValue && p.segments.len() == 1);
                        }
                        assert(crate::meta::keyword_safe(m));
                    }
                }
            },
            TokV::PathSep => {
                lemma_parse_meta_wf(ts, i);
                if let Ok((m, j)) = spec_parse_meta(ts, i) {
                    assert(crate::meta::keyword_safe(m));
                }
            },
            _ => {},
        }
    }
}

} // verus!
