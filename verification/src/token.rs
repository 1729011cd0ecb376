//! Tokens of the attribute micro-language and the lexer that produces them.

use vstd::prelude::*;
use crate::error::Error;
use crate::text::{
    chars_to_string, ident_continue, ident_start, is_digit, is_space, spec_ident_continue,
    spec_ident_start, spec_is_digit, spec_is_space, substring_chars, wf_ident,
};

verus! {

/// One token of the attribute micro-language.
pub enum Tok {
    /// `(`
    LParen,
    /// `)`
    RParen,
    /// `,`
    Comma,
    /// `=`
    Eq,
    /// `::`
    PathSep,
    /// An identifier (keywords included).
    Ident(String),
    /// A string literal, already unescaped.
    LitStr(String),
    /// An unsigned integer literal.
    LitInt(u64),
}

/// The mathematical value of a token.
pub enum TokV {
    LParen,
    RParen,
    Comma,
    Eq,
    PathSep,
    Ident(Seq<char>),
    LitStr(Seq<char>),
    LitInt(u64),
}

impl View for Tok {
    type V = TokV;

    open spec fn view(&self) -> TokV {
        match self {
            Tok::LParen => TokV::LParen,
            Tok::RParen => TokV::RParen,
            Tok::Comma => TokV::Comma,
            Tok::Eq => TokV::Eq,
            Tok::PathSep => TokV::PathSep,
            Tok::Ident(s) => TokV::Ident(s@),
            Tok::LitStr(s) => TokV::LitStr(s@),
            Tok::LitInt(n) => TokV::LitInt(*n),
        }
    }
}

/// The values of a whole token vector.
pub open spec fn toks_view(ts: Seq<Tok>) -> Seq<TokV> {
    ts.map_values(|t: Tok| t@)
}

pub proof fn lemma_toks_view_push(ts: Seq<Tok>, t: Tok)
    ensures
        toks_view(ts.push(t)) =~= toks_view(ts).push(t@),
{
}

pub proof fn lemma_toks_view_concat(a: Seq<Tok>, b: Seq<Tok>)
    ensures
        toks_view(a + b) =~= toks_view(a) + toks_view(b),
{
}

/// First position at or after `i` whose character no longer continues an
/// identifier.
pub open spec fn scan_ident_end(s: Seq<char>, i: int) -> int
    decreases s.len() - i,
{
    if 0 <= i < s.len() && spec_ident_continue(s[i]) {
        scan_ident_end(s, i + 1)
    } else {
        i
    }
}

/// First position at or after `i` whose character is not a decimal digit.
pub open spec fn scan_digit_end(s: Seq<char>, i: int) -> int
    decreases s.len() - i,
{
    if 0 <= i < s.len() && spec_is_digit(s[i]) {
        scan_digit_end(s, i + 1)
    } else {
        i
    }
}

pub proof fn lemma_scan_ident_end(s: Seq<char>, i: int)
    requires
        0 <= i <= s.len(),
    ensures
        i <= scan_ident_end(s, i) <= s.len(),
        forall|k: int| i <= k < scan_ident_end(s, i) ==> spec_ident_continue(#[trigger] s[k]),
        scan_ident_end(s, i) < s.len() ==> !spec_ident_continue(s[scan_ident_end(s, i)]),
    decreases s.len() - i,
{
    if i < s.len() && spec_ident_continue(s[i]) {
        lemma_scan_ident_end(s, i + 1);
    }
}

pub proof fn lemma_scan_digit_end(s: Seq<char>, i: int)
    requires
        0 <= i <= s.len(),
    ensures
        i <= scan_digit_end(s, i) <= s.len(),
        forall|k: int| i <= k < scan_digit_end(s, i) ==> spec_is_digit(#[trigger] s[k]),
        scan_digit_end(s, i) < s.len() ==> !spec_is_digit(s[scan_digit_end(s, i)]),
    decreases s.len() - i,
{
    if i < s.len() && spec_is_digit(s[i]) {
        lemma_scan_digit_end(s, i + 1);
    }
}

/// The numeric value of a decimal digit.
pub open spec fn digit_val(c: char) -> nat {
    (c as int - '0' as int) as nat
}

/// The value of a digit string, most significant digit first.
pub open spec fn digits_val(s: Seq<char>) -> nat
    decreases s.len(),
{
    if s.len() == 0 {
        0
    } else {
        digits_val(s.drop_last()) * 10 + digit_val(s.last())
    }
}

/// The character an escape code stands for, if it is one the lexer knows.
pub open spec fn spec_unescape(c: char) -> Option<char> {
    if c == 'n' {
        Some('\n')
    } else if c == 't' {
        Some('\t')
    } else if c == 'r' {
        Some('\r')
    } else if c == '\\' {
        Some('\\')
    } else if c == '"' {
        Some('"')
    } else if c == '\'' {
        Some('\'')
    } else if c == '0' {
        Some('\0')
    } else {
        None
    }
}

/// Scans the body of a string literal starting just after the opening quote.
/// Returns the unescaped content and the position just after the closing
/// quote.
pub open spec fn spec_scan_str(s: Seq<char>, i: int) -> Result<(Seq<char>, int), Error>
    decreases s.len() - i,
{
    if !(0 <= i < s.len()) {
        Err(Error::UnterminatedString { pos: if i >= 0 { i as usize } else { 0 } })
    } else if s[i] == '"' {
        Ok((Seq::empty(), i + 1))
    } else if s[i] == '\\' {
        if i + 1 < s.len() {
            match spec_unescape(s[i + 1]) {
                Some(c) => match spec_scan_str(s, i + 2) {
                    Ok((rest, j)) => Ok((seq![c] + rest, j)),
                    Err(e) => Err(e),
                },
                None => Err(Error::UnexpectedCharacter { pos: (i + 1) as usize }),
            }
        } else {
            Err(Error::UnterminatedString { pos: (i + 1) as usize })
        }
    } else {
        match spec_scan_str(s, i + 1) {
            Ok((rest, j)) => Ok((seq![s[i]] + rest, j)),
            Err(e) => Err(e),
        }
    }
}

pub proof fn lemma_scan_str_bounds(s: Seq<char>, i: int)
    requires
        0 <= i,
    ensures
        spec_scan_str(s, i) matches Ok((c, j)) ==> i < j <= s.len(),
    decreases s.len() - i,
{
    if 0 <= i < s.len() && s[i] != '"' {
        if s[i] == '\\' {
            if i + 1 < s.len() {
                lemma_scan_str_bounds(s, i + 2);
            }
        } else {
            lemma_scan_str_bounds(s, i + 1);
        }
    }
}

/// Appends one token to a result of lexing the rest of the input.
pub open spec fn lex_cons(s: Seq<char>, t: TokV, j: int) -> Result<Seq<TokV>, Error>
    decreases s.len() - j, 1int,
    when j <= s.len()
{
    match spec_lex_from(s, j) {
        Ok(rest) => Ok(seq![t] + rest),
        Err(e) => Err(e),
    }
}

/// Lexes the input from position `i` to the end.
pub open spec fn spec_lex_from(s: Seq<char>, i: int) -> Result<Seq<TokV>, Error>
    decreases s.len() - i, 0int,
    when 0 <= i
    via spec_lex_from_dec
{
    if !(0 <= i < s.len()) {
        Ok(Seq::empty())
    } else if spec_is_space(s[i]) {
        spec_lex_from(s, i + 1)
    } else if s[i] == '(' {
        lex_cons(s, TokV::LParen, i + 1)
    } else if s[i] == ')' {
        lex_cons(s, TokV::RParen, i + 1)
    } else if s[i] == ',' {
        lex_cons(s, TokV::Comma, i + 1)
    } else if s[i] == '=' {
        lex_cons(s, TokV::Eq, i + 1)
    } else if s[i] == ':' {
        if i + 1 < s.len() && s[i + 1] == ':' {
            lex_cons(s, TokV::PathSep, i + 2)
        } else {
            Err(Error::LoneColon { pos: i as usize })
        }
    } else if s[i] == '"' {
        match spec_scan_str(s, i + 1) {
            Ok((content, j)) => lex_cons(s, TokV::LitStr(content), j),
            Err(e) => Err(e),
        }
    } else if spec_ident_start(s[i]) {
        lex_cons(s, TokV::Ident(s.subrange(i, scan_ident_end(s, i))), scan_ident_end(s, i))
    } else if spec_is_digit(s[i]) {
        if digits_val(s.subrange(i, scan_digit_end(s, i))) <= u64::MAX {
            lex_cons(
                s,
                TokV::LitInt(digits_val(s.subrange(i, scan_digit_end(s, i))) as u64),
                scan_digit_end(s, i),
            )
        } else {
            Err(Error::IntegerOverflow { pos: i as usize })
        }
    } else {
        Err(Error::UnexpectedCharacter { pos: i as usize })
    }
}

#[via_fn]
proof fn spec_lex_from_dec(s: Seq<char>, i: int) {
    if 0 <= i < s.len() {
        lemma_scan_ident_end(s, i);
        lemma_scan_digit_end(s, i);
        lemma_scan_str_bounds(s, i + 1);
        if spec_ident_start(s[i]) {
            assert(scan_ident_end(s, i) == scan_ident_end(s, i + 1));
        }
        if spec_is_digit(s[i]) {
            assert(scan_digit_end(s, i) == scan_digit_end(s, i + 1));
        }
    }
}

/// The tokens of the whole input, or the first lexing error.
pub open spec fn spec_lex(s: Seq<char>) -> Result<Seq<TokV>, Error> {
    spec_lex_from(s, 0)
}

fn unescape_char(c: char) -> (r: Option<char>)
    ensures
        r == spec_unescape(c),
{
    if c == 'n' {
        Some('\n')
    } else if c == 't' {
        Some('\t')
    } else if c == 'r' {
        Some('\r')
    } else if c == '\\' {
        Some('\\')
    } else if c == '"' {
        Some('"')
    } else if c == '\'' {
        Some('\'')
    } else if c == '0' {
        Some('\0')
    } else {
        None
    }
}

fn scan_ident(s: &Vec<char>, i: usize) -> (j: usize)
    requires
        i <= s.len(),
    ensures
        j == scan_ident_end(s@, i as int),
        i <= j <= s.len(),
{
    let mut j: usize = i;
    while j < s.len() && ident_continue(s[j])
        invariant
            i <= j <= s.len(),
            scan_ident_end(s@, i as int) == scan_ident_end(s@, j as int),
        decreases s.len() - j,
    {
        j = j + 1;
    }
    j
}

/// If the digit string starting at `i` fits in 64 bits, its value and end;
/// otherwise the overflow error the lexer reports.
fn scan_int(s: &Vec<char>, i: usize) -> (r: Result<(u64, usize), Error>)
    requires
        i < s.len(),
        spec_is_digit(s@[i as int]),
    ensures
        match r {
            Ok((v, j)) => {
                &&& j == scan_digit_end(s@, i as int)
                &&& digits_val(s@.subrange(i as int, j as int)) <= u64::MAX
                &&& v == digits_val(s@.subrange(i as int, j as int))
            },
            Err(e) => {
                &&& e == (Error::IntegerOverflow { pos: i })
                &&& digits_val(s@.subrange(i as int, scan_digit_end(s@, i as int))) > u64::MAX
            },
        },
{
    proof {
        lemma_scan_digit_end(s@, i as int);
    }
    let ghost end = scan_digit_end(s@, i as int);
    let mut j: usize = i;
    let mut val: u64 = 0;
    while j < s.len() && is_digit(s[j])
        invariant
            i <= j <= s.len(),
            scan_digit_end(s@, i as int) == scan_digit_end(s@, j as int),
            end == scan_digit_end(s@, i as int),
            val == digits_val(s@.subrange(i as int, j as int)),
        decreases s.len() - j,
    {
        let c = s[j];
        let d: u64 = ((c as u32) - ('0' as u32)) as u64;
        assert(d == digit_val(c) && d <= 9);
        let ghost pre = s@.subrange(i as int, j as int);
        proof {
            lemma_scan_digit_end(s@, j + 1);
            assert(scan_digit_end(s@, j as int) == scan_digit_end(s@, j + 1));
            assert(s@.subrange(i as int, j + 1 as int).drop_last() =~= pre);
            assert(digits_val(s@.subrange(i as int, j + 1 as int)) == digits_val(pre) * 10 + d);
        }
        if val > (u64::MAX - d) / 10 {
            proof {
                assert(digits_val(s@.subrange(i as int, j + 1 as int)) > u64::MAX);
                lemma_digits_val_monotone(s@, i as int, j + 1, end);
            }
            return Err(Error::IntegerOverflow { pos: i });
        }
        val = val * 10 + d;
        j = j + 1;
    }
    Ok((val, j))
}

/// Digit strings only grow in value as more digits are appended.
proof fn lemma_digits_val_monotone(s: Seq<char>, i: int, a: int, b: int)
    requires
        0 <= i <= a <= b <= s.len(),
    ensures
        digits_val(s.subrange(i, b)) >= digits_val(s.subrange(i, a)),
    decreases b - a,
{
    if a < b {
        lemma_digits_val_monotone(s, i, a, b - 1);
        assert(s.subrange(i, b).drop_last() =~= s.subrange(i, b - 1));
        assert(digits_val(s.subrange(i, b)) == digits_val(s.subrange(i, b - 1)) * 10 + digit_val(
            s.subrange(i, b).last(),
        ));
    }
}

/// Scans a string literal body starting just after the opening quote.
fn scan_string(s: &Vec<char>, i: usize) -> (r: Result<(String, usize), Error>)
    requires
        i <= s.len(),
    ensures
        match r {
            Ok((c, j)) => spec_scan_str(s@, i as int) == Ok::<_, Error>((c@, j as int)) && i < j
                <= s.len(),
            Err(e) => spec_scan_str(s@, i as int) == Err::<(Seq<char>, int), _>(e),
        },
{
    proof {
        lemma_scan_str_bounds(s@, i as int);
    }
    let mut j: usize = i;
    let mut content: Vec<char> = Vec::new();
    loop
        invariant
            i <= j <= s.len(),
            spec_scan_str(s@, i as int) == (match spec_scan_str(s@, j as int) {
                Ok((rest, k)) => Ok::<(Seq<char>, int), Error>((content@ + rest, k)),
                Err(e) => Err(e),
            }),
        decreases s.len() - j,
    {
        if j >= s.len() {
            return Err(Error::UnterminatedString { pos: j });
        }
        let c = s[j];
        if c == '"' {
            proof {
                assert(content@ + Seq::<char>::empty() =~= content@);
                lemma_scan_str_bounds(s@, i as int);
            }
            return Ok((chars_to_string(&content), j + 1));
        } else if c == '\\' {
            if j + 1 >= s.len() {
                return Err(Error::UnterminatedString { pos: j + 1 });
            }
            match unescape_char(s[j + 1]) {
                Some(u) => {
                    let ghost old_content = content@;
                    content.push(u);
                    proof {
                        assert(spec_scan_str(s@, j as int) == (match spec_scan_str(s@, j + 2) {
                            Ok((rest, k)) => Ok::<(Seq<char>, int), Error>((seq![u] + rest, k)),
                            Err(e) => Err(e),
                        }));
                        if let Ok((rest, k)) = spec_scan_str(s@, j + 2) {
                            assert(content@ + rest =~= old_content + (seq![u] + rest));
                        }
                    }
                    j = j + 2;
                },
                None => {
                    return Err(Error::UnexpectedCharacter { pos: j + 1 });
                },
            }
        } else {
            let ghost old_content = content@;
            content.push(c);
            proof {
                assert(spec_scan_str(s@, j as int) == (match spec_scan_str(s@, j + 1) {
                    Ok((rest, k)) => Ok::<(Seq<char>, int), Error>((seq![c] + rest, k)),
                    Err(e) => Err(e),
                }));
                if let Ok((rest, k)) = spec_scan_str(s@, j + 1) {
                    assert(content@ + rest =~= old_content + (seq![c] + rest));
                }
            }
            j = j + 1;
        }
    }
}

/// Lexes a character vector into tokens, or reports the first error, exactly
/// as [`spec_lex`] says.
pub fn lex_chars(s: &Vec<char>) -> (r: Result<Vec<Tok>, Error>)
    ensures
        match r {
            Ok(ts) => spec_lex(s@) == Ok::<_, Error>(toks_view(ts@)),
            Err(e) => spec_lex(s@) == Err::<Seq<TokV>, _>(e),
        },
{
    let mut acc: Vec<Tok> = Vec::new();
    let mut i: usize = 0;
    loop
        invariant
            i <= s.len(),
            spec_lex_from(s@, 0) == (match spec_lex_from(s@, i as int) {
                Ok(rest) => Ok::<Seq<TokV>, Error>(toks_view(acc@) + rest),
                Err(e) => Err(e),
            }),
        decreases s.len() - i,
    {
        if i >= s.len() {
            proof {
                assert(toks_view(acc@) + Seq::<TokV>::empty() =~= toks_view(acc@));
            }
            return Ok(acc);
        }
        let c = s[i];
        if is_space(c) {
            i = i + 1;
        } else {
            let (tok, next): (Tok, usize) = if c == '(' {
                (Tok::LParen, i + 1)
            } else if c == ')' {
                (Tok::RParen, i + 1)
            } else if c == ',' {
                (Tok::Comma, i + 1)
            } else if c == '=' {
                (Tok::Eq, i + 1)
            } else if c == ':' {
                if i + 1 < s.len() && s[i + 1] == ':' {
                    (Tok::PathSep, i + 2)
                } else {
                    return Err(Error::LoneColon { pos: i });
                }
            } else if c == '"' {
                match scan_string(s, i + 1) {
                    Ok((content, j)) => (Tok::LitStr(content), j),
                    Err(e) => {
                        return Err(e);
                    },
                }
            } else if ident_start(c) {
                proof {
                    lemma_scan_ident_end(s@, i as int);
                }
                let j = scan_ident(s, i);
                let content = substring_chars(s, i, j);
                (Tok::Ident(chars_to_string(&content)), j)
            } else if is_digit(c) {
                proof {
                    lemma_scan_digit_end(s@, i as int);
                }
                match scan_int(s, i) {
                    Ok((v, j)) => (Tok::LitInt(v), j),
                    Err(e) => {
                        return Err(e);
                    },
                }
            } else {
                return Err(Error::UnexpectedCharacter { pos: i });
            };
            proof {
                assert(spec_lex_from(s@, i as int) == lex_cons(s@, tok@, next as int));
                if let Ok(rest) = spec_lex_from(s@, next as int) {
                    assert(toks_view(acc@.push(tok)) =~= toks_view(acc@).push(tok@));
                    assert(toks_view(acc@).push(tok@) + rest =~= toks_view(acc@) + (seq![tok@]
                        + rest));
                }
            }
            acc.push(tok);
            i = next;
        }
    }
}

/// Every token the lexer produces is well-formed; in particular every
/// identifier token holds a well-formed identifier.
pub proof fn lemma_lex_wf(s: Seq<char>, i: int)
    requires
        0 <= i,
    ensures
        spec_lex_from(s, i) matches Ok(ts) ==> forall|k: int|
            0 <= k < ts.len() ==> crate::roundtrip::wf_tok(#[trigger] ts[k]),
    decreases s.len() - i,
{
    if 0 <= i < s.len() {
        lemma_scan_ident_end(s, i);
        lemma_scan_digit_end(s, i);
        lemma_scan_str_bounds(s, i + 1);
        if spec_is_space(s[i]) {
            lemma_lex_wf(s, i + 1);
        } else if let Ok(ts) = spec_lex_from(s, i) {
            // The position after the head token, and the head token itself,
            // in each branch of the lexer.
            let (t, j): (TokV, int) = if s[i] == '(' {
                (TokV::LParen, i + 1)
            } else if s[i] == ')' {
                (TokV::RParen, i + 1)
            } else if s[i] == ',' {
                (TokV::Comma, i + 1)
            } else if s[i] == '=' {
                (TokV::Eq, i + 1)
            } else if s[i] == ':' {
                (TokV::PathSep, i + 2)
            } else if s[i] == '"' {
                (TokV::LitStr(spec_scan_str(s, i + 1)->Ok_0.0), spec_scan_str(s, i + 1)->Ok_0.1)
            } else if spec_ident_start(s[i]) {
                (TokV::Ident(s.subrange(i, scan_ident_end(s, i))), scan_ident_end(s, i))
            } else {
                (
                    TokV::LitInt(digits_val(s.subrange(i, scan_digit_end(s, i))) as u64),
                    scan_digit_end(s, i),
                )
            };
            assert(spec_lex_from(s, i) == lex_cons(s, t, j));
            lemma_lex_wf(s, j);
            if let Ok(rest) = spec_lex_from(s, j) {
                assert(ts == seq![t] + rest);
                if spec_ident_start(s[i]) {
                    let x = s.subrange(i, scan_ident_end(s, i));
                    assert(x[0] == s[i]);
                    assert forall|k: int|
                        0 < k < x.len() implies spec_ident_continue(#[trigger] x[k]) by {
                        assert(x[k] == s[i + k]);
                    }
                    assert(crate::text::wf_ident(x));
                }
                assert(crate::roundtrip::wf_tok(t));
                assert forall|k: int|
                    0 <= k < ts.len() implies crate::roundtrip::wf_tok(#[trigger] ts[k]) by {
                    if k == 0 {
                        assert(ts[k] == t);
                    } else {
                        assert(ts[k] == rest[k - 1]);
                    }
                }
            }
        }
    }
}

} // verus!
