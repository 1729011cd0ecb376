use syn_ext::{Attribute, AttributeExt, AttributeIteratorExt, Lit, Meta1, MetaExt, MetaNameValue, NestedMeta, Path};

fn attr(text: &str) -> Attribute {
    Attribute { text: text.to_string() }
}

fn ident_path(name: &str) -> Path {
    Path { leading_colon: false, segments: vec![name.to_string()] }
}

fn round_trip(text: &str) {
    let meta = Meta1::parse(text).unwrap();
    let created = Attribute::from_meta(meta.clone());
    let meta2 = created.parse_meta().unwrap();
    assert_eq!(meta2, meta);
    let again = Attribute::from_meta(meta2);
    assert_eq!(created.text, again.text);
}

/// For input already spelled with no spacing, the reprint is the input
/// itself, token for token.
fn round_trip_exact(text: &str) {
    let meta = Meta1::parse(text).unwrap();
    let created = Attribute::from_meta(meta.clone());
    assert_eq!(created.text, text);
    assert_eq!(created.parse_meta().unwrap(), meta);
}

#[test]
fn run_test_meta_round_trip() {
    round_trip_exact("cfg(test)");
    round_trip("feature = \"full\"");
    round_trip_exact("cfg(all(a,b,any(c,d)))");
    round_trip_exact("a(b=\"1\",d)");
    round_trip_exact("abc::de::ef");
}

#[test]
fn test_try_meta_mut() {
    let mut attr = attr("cfg(test)");
    attr.try_meta_mut(|meta| match meta {
        Meta1::List(mut metalist) => {
            metalist.path = ident_path("newcfg");
            (Meta1::List(metalist), Ok(()))
        }
        _ => unreachable!(),
    })
    .unwrap();
    assert_eq!(attr.text, "newcfg(test)");

    attr.try_meta_mut(|meta| match meta {
        Meta1::List(mut metalist) => {
            metalist.nested.pop();
            metalist.nested.push(NestedMeta::Meta(Meta1::Path(ident_path("a"))));
            metalist.nested.push(NestedMeta::Meta(Meta1::NameValue(MetaNameValue {
                path: ident_path("b"),
                value: Lit::Str("c".to_string()),
            })));
            metalist.nested.push(NestedMeta::Lit(Lit::Str("d".to_string())));
            (Meta1::List(metalist), Ok(()))
        }
        _ => unreachable!(),
    })
    .unwrap();
    assert_eq!(attr.text, "newcfg(a,b=\"c\",\"d\")");
}

#[test]
fn test_try_promoted_list_mut() {
    let mut derive_attr = attr("derive");
    derive_attr
        .try_promoted_list_mut(|mut list| {
            list.nested.push(NestedMeta::Meta(Meta1::Path(ident_path("Clone"))));
            (list, Ok(()))
        })
        .unwrap();
    assert_eq!(derive_attr.text, "derive(Clone)");

    let mut nv = attr("a = 1");
    let r: Result<(), syn_ext::Error> = nv.try_promoted_list_mut(|list| (list, Ok(())));
    assert_eq!(r, Err(syn_ext::Error::CannotPromote));
    assert_eq!(nv.text, "a=1");
}

#[test]
fn test_promoted_list() {
    let attr = attr("derive");
    let list = attr.promoted_list().unwrap();
    assert!(list.path.is_ident("derive"));
    assert!(list.nested.is_empty());
}

#[test]
fn test_doc() {
    let attrs = vec![
        attr("derive"),
        attr("doc = \" doc line 1\""),
        attr("test"),
        attr("doc = \"doc line 2\""),
        attr("cfg"),
    ];
    let doc = attrs.doc().unwrap();
    assert_eq!(doc, "doc line 1\ndoc line 2");
}

#[test]
fn test_doc_none_without_doc_attrs() {
    let attrs = vec![attr("derive"), attr("cfg(test)")];
    assert!(attrs.doc().is_none());
}

#[test]
fn test_doc_trims_whitespace_only_content() {
    let meta = Meta1::parse("doc = \"   \"").unwrap();
    assert_eq!(meta.doc().unwrap(), "");
}

#[test]
fn test_attribute_get_ident() {
    assert_eq!(attr("cfg(test)").get_ident().unwrap(), "cfg");
    assert_eq!(attr("derive").get_ident().unwrap(), "derive");
    assert!(attr("abc::de::ef").get_ident().is_none());
    assert!(attr("!!").get_ident().is_none());
}

#[test]
fn test_is_doc() {
    assert!(Meta1::parse("doc = \"x\"").unwrap().is_doc());
    assert!(!Meta1::parse("doc = 3").unwrap().is_doc());
    assert!(!Meta1::parse("cfg(test)").unwrap().is_doc());
    assert!(!Meta1::parse("other = \"x\"").unwrap().is_doc());
}

#[test]
fn test_promote_to_list_in_place() {
    let mut meta = Meta1::parse("serde").unwrap();
    assert!(meta.is_path());
    meta.promote_to_list().unwrap();
    assert!(meta.is_list());
    assert!(meta.list().unwrap().nested.is_empty());

    let mut nv = Meta1::parse("a = 1").unwrap();
    assert_eq!(nv.promote_to_list(), Err(syn_ext::Error::CannotPromote));
    assert!(nv.is_name_value());
}

#[test]
fn test_round_trip_edge_cases() {
    round_trip_exact("f(true=1)");
    round_trip_exact("::a::b");
    round_trip_exact("x(\"quo\\\"te\\\\back\")");
    round_trip("n = 18446744073709551615");
    round_trip_exact("outer(inner(deep(a)),b)");
    round_trip_exact("a()");
    round_trip_exact("a(b,)");
    round_trip_exact("cfg(all(a,b,),c,)");
}
