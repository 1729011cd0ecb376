use syn_ext::{Error, Lit, Meta1, MetaExt, NestedMeta};
use syn_ext::types::MetaList;

#[test]
fn test_parse_path_kinds() {
    let m = Meta1::parse("cfg").unwrap();
    assert!(m.is_path());
    assert_eq!(m.path().segments, vec!["cfg".to_string()]);

    let m = Meta1::parse("abc::de::ef").unwrap();
    assert!(m.is_path());
    assert!(!m.path().leading_colon);
    assert_eq!(
        m.path().segments,
        vec!["abc".to_string(), "de".to_string(), "ef".to_string()]
    );

    let m = Meta1::parse("::a::b").unwrap();
    assert!(m.path().leading_colon);
    assert_eq!(m.path().segments, vec!["a".to_string(), "b".to_string()]);
}

#[test]
fn test_parse_name_value() {
    let m = Meta1::parse("feature = \"full\"").unwrap();
    let nv = m.name_value().unwrap();
    assert!(nv.path.is_ident("feature"));
    assert!(matches!(&nv.value, Lit::Str(s) if s == "full"));

    let m = Meta1::parse("limit = 42").unwrap();
    assert!(matches!(m.name_value().unwrap().value, Lit::Int(42)));

    let m = Meta1::parse("on = true").unwrap();
    assert!(matches!(m.name_value().unwrap().value, Lit::Bool(true)));
}

#[test]
fn test_parse_nested_literals() {
    let l = MetaList::parse("f(true,false,7,\"s\")").unwrap();
    assert!(matches!(l.nested[0], NestedMeta::Lit(Lit::Bool(true))));
    assert!(matches!(l.nested[1], NestedMeta::Lit(Lit::Bool(false))));
    assert!(matches!(l.nested[2], NestedMeta::Lit(Lit::Int(7))));
    assert!(matches!(&l.nested[3], NestedMeta::Lit(Lit::Str(s)) if s == "s"));
}

#[test]
fn test_bool_keyword_before_eq_is_a_path() {
    let l = MetaList::parse("f(true = 1)").unwrap();
    match &l.nested[0] {
        NestedMeta::Meta(m) => {
            assert!(m.is_name_value());
            assert!(m.path().is_ident("true"));
        }
        _ => unreachable!(),
    }
}

#[test]
fn test_parse_trailing_comma_and_empty_list() {
    let a = Meta1::parse("a(b,)").unwrap();
    assert!(a.list().unwrap().trailing_comma);
    assert_eq!(a.to_text(), "a(b,)");

    let b = Meta1::parse("a(b)").unwrap();
    assert!(!b.list().unwrap().trailing_comma);
    assert_eq!(b.to_text(), "a(b)");
    assert_ne!(a, b);

    let c = Meta1::parse("a(x,y,)").unwrap();
    assert!(c.list().unwrap().trailing_comma);
    assert_eq!(c.list().unwrap().nested.len(), 2);
    assert_eq!(c.to_text(), "a(x,y,)");

    let e = Meta1::parse("a()").unwrap();
    assert!(e.list().unwrap().nested.is_empty());
    assert!(!e.list().unwrap().trailing_comma);
    assert_eq!(e.to_text(), "a()");
    assert_eq!(Meta1::parse("a(,)"), Err(Error::ExpectedIdentOrLit { at: 2 }));
}

#[test]
fn test_parse_skips_whitespace() {
    let m = Meta1::parse(" cfg ( all ( a , b ) ) ").unwrap();
    assert_eq!(m.to_text(), "cfg(all(a,b))");
}

#[test]
fn test_string_escapes_round_trip() {
    let m = Meta1::parse("a(\"x\\\"y\\\\z\\n\")").unwrap();
    match &m.list().unwrap().nested[0] {
        NestedMeta::Lit(Lit::Str(s)) => assert_eq!(s, "x\"y\\z\n"),
        _ => unreachable!(),
    }
    let printed = m.to_text();
    let again = Meta1::parse(&printed).unwrap();
    assert_eq!(again.to_text(), printed);
}

#[test]
fn test_parse_errors() {
    assert_eq!(Meta1::parse(""), Err(Error::ExpectedPath { at: 0 }));
    assert_eq!(Meta1::parse("="), Err(Error::ExpectedPath { at: 0 }));
    assert_eq!(Meta1::parse("a::"), Err(Error::ExpectedPathSegment { at: 2 }));
    assert_eq!(Meta1::parse("a ="), Err(Error::ExpectedLit { at: 2 }));
    assert_eq!(Meta1::parse("a = b"), Err(Error::ExpectedLit { at: 2 }));
    assert_eq!(Meta1::parse("a b"), Err(Error::TrailingTokens { at: 1 }));
    assert_eq!(Meta1::parse("a("), Err(Error::ExpectedIdentOrLit { at: 2 }));
    assert_eq!(Meta1::parse("a(b c)"), Err(Error::ExpectedCommaOrParen { at: 3 }));
    assert_eq!(Meta1::parse("a(=)"), Err(Error::ExpectedIdentOrLit { at: 2 }));
}

#[test]
fn test_lex_errors() {
    assert_eq!(Meta1::parse("a:b"), Err(Error::LoneColon { pos: 1 }));
    assert_eq!(Meta1::parse("a(\"x)"), Err(Error::UnterminatedString { pos: 5 }));
    assert_eq!(Meta1::parse("a#b"), Err(Error::UnexpectedCharacter { pos: 1 }));
    assert_eq!(
        Meta1::parse("a(99999999999999999999)"),
        Err(Error::IntegerOverflow { pos: 2 })
    );
    assert_eq!(
        Meta1::parse("a(18446744073709551615)").unwrap().to_text(),
        "a(18446744073709551615)"
    );
}

#[test]
fn test_error_messages() {
    assert_eq!(Error::NotAList.message(), "Not a List meta");
    assert_eq!(Error::NotANameValue.message(), "Not a NameValue meta");
    assert_eq!(Error::NotADoc.message(), "Not a doc meta");
    assert_eq!(Error::DocExpectsStrLit.message(), "Doc meta expects string literal");
    assert_eq!(
        Error::CannotPromote.message(),
        "Only Path can be promoted and List is accepted as non-promoted"
    );
    assert_eq!(
        Error::DuplicatePath { first: 0 }.message(),
        "this attribute path must be unique in the attribute"
    );
}

#[test]
fn test_meta_list_parse_rejects_other_kinds() {
    assert_eq!(MetaList::parse("a = 1"), Err(Error::NotAList));
    assert_eq!(MetaList::parse("a"), Err(Error::NotAList));
    assert!(MetaList::parse("a(b)").is_ok());
}

#[test]
fn test_canonical_text_reparses_with_syn() {
    let ours = Meta1::parse("cfg(all(a,b),feature=\"x\",n=3)").unwrap();
    let text = ours.to_text();
    let theirs: syn::Meta = syn::parse_str(&text).unwrap();
    let rendered = quote::ToTokens::to_token_stream(&theirs).to_string();
    let again = Meta1::parse(&rendered).unwrap();
    assert_eq!(again.to_text(), text);
}
