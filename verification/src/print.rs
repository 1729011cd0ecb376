//! The printer of the attribute micro-language: metadata back to tokens and
//! tokens back to characters, in a canonical spelling.

use vstd::prelude::*;
use crate::meta::{
    false_chars, lemma_nested_views, nested_views, true_chars, Lit, LitV, Meta1, MetaList1,
    MetaV, NestedMeta, NestedMetaV,
};
use crate::path::{Path, PathV};
use crate::text::str_to_chars;
use crate::token::{toks_view, Tok, TokV};

verus! {

/// Tokens of a nonempty segment sequence: identifiers joined by `::`.
pub open spec fn segs_toks(segs: Seq<Seq<char>>) -> Seq<TokV>
    decreases segs.len(),
{
    if segs.len() == 0 {
        Seq::empty()
    } else if segs.len() == 1 {
        seq![TokV::Ident(segs[0])]
    } else {
        seq![TokV::Ident(segs[0]), TokV::PathSep] + segs_toks(segs.drop_first())
    }
}

/// Tokens of a path.
pub open spec fn path_toks(p: PathV) -> Seq<TokV> {
    if p.leading_colon {
        seq![TokV::PathSep] + segs_toks(p.segments)
    } else {
        segs_toks(p.segments)
    }
}

/// The single token of a literal; boolean literals print as keywords.
pub open spec fn lit_tok(l: LitV) -> TokV {
    match l {
        LitV::Str(s) => TokV::LitStr(s),
        LitV::Int(n) => TokV::LitInt(n),
        LitV::Bool(b) => TokV::Ident(
            if b {
                true_chars()
            } else {
                false_chars()
            },
        ),
    }
}

/// The comma a list prints after its last element, when its source had one.
pub open spec fn comma_opt(tc: bool) -> Seq<TokV> {
    if tc {
        seq![TokV::Comma]
    } else {
        Seq::empty()
    }
}

/// Tokens of one metadata item; a stored trailing comma is reproduced.
pub open spec fn meta_toks(m: MetaV) -> Seq<TokV>
    decreases m,
{
    match m {
        MetaV::Path(p) => path_toks(p),
        MetaV::List(l) => path_toks(l.path) + seq![TokV::LParen] + nested_seq_toks(l.nested)
            + comma_opt(l.trailing_comma) + seq![TokV::RParen],
        MetaV::NameValue(nv) => path_toks(nv.path) + seq![TokV::Eq, lit_tok(nv.value)],
    }
}

/// Tokens of the elements of a list, commas between them, no trailing comma.
pub open spec fn nested_seq_toks(items: Seq<NestedMetaV>) -> Seq<TokV>
    decreases items,
{
    if items.len() == 0 {
        Seq::empty()
    } else if items.len() == 1 {
        nested_toks(items[0])
    } else {
        nested_toks(items[0]) + seq![TokV::Comma] + nested_seq_toks(items.drop_first())
    }
}

/// Tokens of one list element.
pub open spec fn nested_toks(n: NestedMetaV) -> Seq<TokV>
    decreases n,
{
    match n {
        NestedMetaV::Meta(m) => meta_toks(m),
        NestedMetaV::Lit(l) => seq![lit_tok(l)],
    }
}

/// Appending an element to a printed list appends a comma (when the list was
/// nonempty) and the element's tokens.
pub proof fn lemma_nested_seq_toks_push(s: Seq<NestedMetaV>, x: NestedMetaV)
    ensures
        s.len() == 0 ==> nested_seq_toks(s.push(x)) =~= nested_toks(x),
        s.len() > 0 ==> nested_seq_toks(s.push(x)) =~= nested_seq_toks(s) + seq![TokV::Comma]
            + nested_toks(x),
    decreases s.len(),
{
    if s.len() > 0 {
        lemma_nested_seq_toks_push(s.drop_first(), x);
        assert(s.push(x).drop_first() =~= s.drop_first().push(x));
        assert(s.push(x)[0] == s[0]);
    }
}

/// Appending a segment appends a separator and its identifier token.
pub proof fn lemma_segs_toks_push(s: Seq<Seq<char>>, x: Seq<char>)
    ensures
        s.len() == 0 ==> segs_toks(s.push(x)) =~= seq![TokV::Ident(x)],
        s.len() > 0 ==> segs_toks(s.push(x)) =~= segs_toks(s) + seq![TokV::PathSep, TokV::Ident(
            x,
        )],
    decreases s.len(),
{
    if s.len() > 0 {
        lemma_segs_toks_push(s.drop_first(), x);
        assert(s.push(x).drop_first() =~= s.drop_first().push(x));
        assert(s.push(x)[0] == s[0]);
    }
}

/// The decimal digit character for a value below ten.
pub open spec fn digit_char(d: nat) -> char {
    if d == 0 {
        '0'
    } else if d == 1 {
        '1'
    } else if d == 2 {
        '2'
    } else if d == 3 {
        '3'
    } else if d == 4 {
        '4'
    } else if d == 5 {
        '5'
    } else if d == 6 {
        '6'
    } else if d == 7 {
        '7'
    } else if d == 8 {
        '8'
    } else {
        '9'
    }
}

/// The decimal spelling of an integer, most significant digit first.
pub open spec fn int_chars(n: nat) -> Seq<char>
    decreases n,
{
    if n < 10 {
        seq![digit_char(n)]
    } else {
        int_chars(n / 10).push(digit_char(n % 10))
    }
}

/// How one character is spelled inside a printed string literal.
pub open spec fn esc_char(c: char) -> Seq<char> {
    if c == '"' {
        seq!['\\', '"']
    } else if c == '\\' {
        seq!['\\', '\\']
    } else if c == '\n' {
        seq!['\\', 'n']
    } else if c == '\t' {
        seq!['\\', 't']
    } else if c == '\r' {
        seq!['\\', 'r']
    } else if c == '\0' {
        seq!['\\', '0']
    } else {
        seq![c]
    }
}

/// The escaped spelling of a whole string literal body.
pub open spec fn escape_seq(s: Seq<char>) -> Seq<char>
    decreases s.len(),
{
    if s.len() == 0 {
        Seq::empty()
    } else {
        esc_char(s[0]) + escape_seq(s.drop_first())
    }
}

pub proof fn lemma_escape_push(s: Seq<char>, c: char)
    ensures
        escape_seq(s.push(c)) =~= escape_seq(s) + esc_char(c),
    decreases s.len(),
{
    if s.len() == 0 {
        assert(s.push(c)[0] == c);
        assert(s.push(c).drop_first() =~= s);
    } else {
        lemma_escape_push(s.drop_first(), c);
        assert(s.push(c).drop_first() =~= s.drop_first().push(c));
        assert(s.push(c)[0] == s[0]);
        assert(escape_seq(s.push(c)) =~= esc_char(s[0]) + escape_seq(s.drop_first().push(c)));
    }
}

/// The characters one token is spelled with.
pub open spec fn tok_text(t: TokV) -> Seq<char> {
    match t {
        TokV::LParen => seq!['('],
        TokV::RParen => seq![')'],
        TokV::Comma => seq![','],
        TokV::Eq => seq!['='],
        TokV::PathSep => seq![':', ':'],
        TokV::Ident(x) => x,
        TokV::LitStr(s) => seq!['"'] + escape_seq(s) + seq!['"'],
        TokV::LitInt(n) => int_chars(n as nat),
    }
}

/// The characters of a whole token sequence, with no spacing between tokens.
pub open spec fn render_toks(ts: Seq<TokV>) -> Seq<char>
    decreases ts.len(),
{
    if ts.len() == 0 {
        Seq::empty()
    } else {
        tok_text(ts[0]) + render_toks(ts.drop_first())
    }
}

pub proof fn lemma_render_push(ts: Seq<TokV>, t: TokV)
    ensures
        render_toks(ts.push(t)) =~= render_toks(ts) + tok_text(t),
    decreases ts.len(),
{
    if ts.len() == 0 {
        assert(ts.push(t)[0] == t);
        assert(ts.push(t).drop_first() =~= ts);
    } else {
        lemma_render_push(ts.drop_first(), t);
        assert(ts.push(t).drop_first() =~= ts.drop_first().push(t));
        assert(ts.push(t)[0] == ts[0]);
        assert(render_toks(ts.push(t)) =~= tok_text(ts[0]) + render_toks(ts.drop_first().push(
            t,
        )));
    }
}

/// The canonical text of a metadata item.
pub open spec fn spec_meta_text(m: MetaV) -> Seq<char> {
    render_toks(meta_toks(m))
}

fn digit_char_of(d: u64) -> (r: char)
    requires
        d < 10,
    ensures
        r == digit_char(d as nat),
{
    if d == 0 {
        '0'
    } else if d == 1 {
        '1'
    } else if d == 2 {
        '2'
    } else if d == 3 {
        '3'
    } else if d == 4 {
        '4'
    } else if d == 5 {
        '5'
    } else if d == 6 {
        '6'
    } else if d == 7 {
        '7'
    } else if d == 8 {
        '8'
    } else {
        '9'
    }
}

fn int_to_chars(n: u64) -> (r: Vec<char>)
    ensures
        r@ == int_chars(n as nat),
    decreases n,
{
    if n < 10 {
        let mut v: Vec<char> = Vec::new();
        v.push(digit_char_of(n));
        proof {
            assert(v@ =~= int_chars(n as nat));
        }
        v
    } else {
        let mut v = int_to_chars(n / 10);
        v.push(digit_char_of(n % 10));
        v
    }
}

fn push_esc_char(out: &mut Vec<char>, c: char)
    ensures
        final(out)@ == old(out)@ + esc_char(c),
{
    if c == '"' {
        out.push('\\');
        out.push('"');
    } else if c == '\\' {
        out.push('\\');
        out.push('\\');
    } else if c == '\n' {
        out.push('\\');
        out.push('n');
    } else if c == '\t' {
        out.push('\\');
        out.push('t');
    } else if c == '\r' {
        out.push('\\');
        out.push('r');
    } else if c == '\0' {
        out.push('\\');
        out.push('0');
    } else {
        out.push(c);
    }
    proof {
        assert(out@ =~= old(out)@ + esc_char(c));
    }
}

/// Appends one token's spelling.
fn push_tok_text(out: &mut Vec<char>, t: &Tok)
    ensures
        final(out)@ == old(out)@ + tok_text(t@),
{
    match t {
        Tok::LParen => out.push('('),
        Tok::RParen => out.push(')'),
        Tok::Comma => out.push(','),
        Tok::Eq => out.push('='),
        Tok::PathSep => {
            out.push(':');
            out.push(':');
        },
        Tok::Ident(x) => {
            let mut chars = str_to_chars(x.as_str());
            out.append(&mut chars);
        },
        Tok::LitStr(s) => {
            out.push('"');
            let chars = str_to_chars(s.as_str());
            let ghost base = out@;
            let mut k: usize = 0;
            while k < chars.len()
                invariant
                    k <= chars.len(),
                    chars@ == s@,
                    out@ == base + escape_seq(s@.take(k as int)),
                decreases chars.len() - k,
            {
                proof {
                    lemma_escape_push(s@.take(k as int), s@[k as int]);
                    assert(s@.take(k + 1 as int) =~= s@.take(k as int).push(s@[k as int]));
                }
                push_esc_char(out, chars[k]);
                k = k + 1;
            }
            proof {
                assert(s@.take(s@.len() as int) =~= s@);
            }
            out.push('"');
        },
        Tok::LitInt(n) => {
            let mut digits = int_to_chars(*n);
            out.append(&mut digits);
        },
    }
    proof {
        assert(out@ =~= old(out)@ + tok_text(t@));
    }
}

/// Renders a token vector to its canonical text.
pub fn render_tokens(ts: &Vec<Tok>) -> (r: Vec<char>)
    ensures
        r@ == render_toks(toks_view(ts@)),
{
    let mut out: Vec<char> = Vec::new();
    let mut i: usize = 0;
    while i < ts.len()
        invariant
            i <= ts.len(),
            out@ == render_toks(toks_view(ts@).take(i as int)),
        decreases ts.len() - i,
    {
        proof {
            lemma_render_push(toks_view(ts@).take(i as int), ts@[i as int]@);
            assert(toks_view(ts@).take(i + 1 as int) =~= toks_view(ts@).take(i as int).push(
                ts@[i as int]@,
            ));
        }
        push_tok_text(&mut out, &ts[i]);
        i = i + 1;
    }
    proof {
        assert(toks_view(ts@).take(ts@.len() as int) =~= toks_view(ts@));
    }
    out
}

fn lit_to_tok(l: &Lit) -> (r: Tok)
    ensures
        r@ == lit_tok(l@),
{
    proof {
        reveal_strlit("true");
        reveal_strlit("false");
        assert("true"@ =~= true_chars());
        assert("false"@ =~= false_chars());
    }
    match l {
        Lit::Str(s) => Tok::LitStr(s.clone()),
        Lit::Int(n) => Tok::LitInt(*n),
        Lit::Bool(b) => {
            if *b {
                Tok::Ident(<String as vstd::string::StringExecFns>::from_str("true"))
            } else {
                Tok::Ident(<String as vstd::string::StringExecFns>::from_str("false"))
            }
        },
    }
}

fn path_to_toks(p: &Path) -> (r: Vec<Tok>)
    ensures
        toks_view(r@) == path_toks(p@),
{
    let mut out: Vec<Tok> = Vec::new();
    if p.leading_colon {
        out.push(Tok::PathSep);
    }
    let ghost lead = toks_view(out@);
    let ghost segs = p@.segments;
    let mut k: usize = 0;
    while k < p.segments.len()
        invariant
            k <= p.segments.len(),
            segs == p@.segments,
            segs.len() == p.segments.len(),
            forall|j: int| 0 <= j < segs.len() ==> segs[j] == #[trigger] p.segments@[j]@,
            toks_view(out@) == lead + segs_toks(segs.take(k as int)),
        decreases p.segments.len() - k,
    {
        proof {
            lemma_segs_toks_push(segs.take(k as int), segs[k as int]);
            assert(segs.take(k + 1 as int) =~= segs.take(k as int).push(segs[k as int]));
        }
        let ghost before = out@;
        let seg = p.segments[k].clone();
        let ghost segv = seg@;
        if k > 0 {
            out.push(Tok::PathSep);
            proof {
                crate::token::lemma_toks_view_push(before, Tok::PathSep);
            }
        }
        let ghost mid = out@;
        out.push(Tok::Ident(seg));
        proof {
            assert(segv == segs[k as int]);
            crate::token::lemma_toks_view_push(mid, Tok::Ident(seg));
            assert(toks_view(out@) =~= lead + segs_toks(segs.take(k + 1 as int)));
        }
        k = k + 1;
    }
    proof {
        assert(segs.take(segs.len() as int) =~= segs);
        assert(toks_view(out@) =~= path_toks(p@));
    }
    out
}

/// The tokens of one metadata item, exactly as [`meta_toks`] says.
pub fn meta_to_toks(m: &Meta1) -> (r: Vec<Tok>)
    ensures
        toks_view(r@) == meta_toks(m@),
    decreases m,
{
    match m {
        Meta1::Path(p) => path_to_toks(p),
        Meta1::List(l) => list_to_toks(l),
        Meta1::NameValue(nv) => {
            let mut out = path_to_toks(&nv.path);
            out.push(Tok::Eq);
            out.push(lit_to_tok(&nv.value));
            proof {
                assert(toks_view(out@) =~= meta_toks(m@));
            }
            out
        },
    }
}

/// The tokens of a list item: its path, then its elements in parentheses.
pub fn list_to_toks(l: &MetaList1) -> (r: Vec<Tok>)
    ensures
        toks_view(r@) == meta_toks(MetaV::List(l@)),
    decreases l,
{
    let mut out = path_to_toks(&l.path);
    out.push(Tok::LParen);
    let ghost base = toks_view(out@);
    let ghost items = nested_views(l.nested@);
    proof {
        lemma_nested_views(l.nested@);
    }
    let mut k: usize = 0;
    while k < l.nested.len()
        invariant
            k <= l.nested.len(),
            items == nested_views(l.nested@),
            items.len() == l.nested.len(),
            forall|j: int| 0 <= j < items.len() ==> items[j] == #[trigger] l.nested@[j]@,
            toks_view(out@) == base + nested_seq_toks(items.take(k as int)),
        decreases l.nested.len() - k,
    {
        proof {
            lemma_nested_seq_toks_push(items.take(k as int), items[k as int]);
            assert(items.take(k + 1 as int) =~= items.take(k as int).push(items[k as int]));
        }
        let ghost before = out@;
        if k > 0 {
            out.push(Tok::Comma);
            proof {
                crate::token::lemma_toks_view_push(before, Tok::Comma);
            }
        }
        let ghost mid = out@;
        let mut toks = nested_to_toks(&l.nested[k]);
        let ghost toks_seq = toks@;
        out.append(&mut toks);
        proof {
            crate::token::lemma_toks_view_concat(mid, toks_seq);
            assert(toks_view(out@) =~= base + nested_seq_toks(items.take(k + 1 as int)));
        }
        k = k + 1;
    }
    proof {
        assert(items.take(items.len() as int) =~= items);
    }
    if l.trailing_comma {
        let ghost mid = out@;
        out.push(Tok::Comma);
        proof {
            crate::token::lemma_toks_view_push(mid, Tok::Comma);
        }
    }
    let ghost whole = out@;
    out.push(Tok::RParen);
    proof {
        crate::token::lemma_toks_view_push(whole, Tok::RParen);
        assert(toks_view(out@) =~= meta_toks(MetaV::List(l@)));
    }
    out
}

/// The tokens of one list element.
pub fn nested_to_toks(n: &NestedMeta) -> (r: Vec<Tok>)
    ensures
        toks_view(r@) == nested_toks(n@),
    decreases n,
{
    match n {
        NestedMeta::Meta(m) => meta_to_toks(m),
        NestedMeta::Lit(l) => {
            let mut out: Vec<Tok> = Vec::new();
            out.push(lit_to_tok(l));
            proof {
                assert(toks_view(out@) =~= nested_toks(n@));
            }
            out
        },
    }
}

impl Meta1 {
    /// The canonical text of the item, exactly as [`spec_meta_text`] says.
    pub fn to_text(&self) -> (r: String)
        ensures
            r@ == spec_meta_text(self@),
    {
        let toks = meta_to_toks(self);
        let chars = render_tokens(&toks);
        crate::text::chars_to_string(&chars)
    }
}

impl MetaList1 {
    /// The canonical text of the list item.
    pub fn to_text(&self) -> (r: String)
        ensures
            r@ == spec_meta_text(MetaV::List(self@)),
    {
        let toks = list_to_toks(self);
        let chars = render_tokens(&toks);
        crate::text::chars_to_string(&chars)
    }
}

impl NestedMeta {
    /// The canonical text of one list element.
    pub fn to_text(&self) -> (r: String)
        ensures
            r@ == render_toks(nested_toks(self@)),
    {
        let toks = nested_to_toks(self);
        let chars = render_tokens(&toks);
        crate::text::chars_to_string(&chars)
    }
}

} // verus!
