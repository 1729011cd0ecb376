use syn_ext::{
    multi_map_get, unique_map_get, Error, Lit, MetaAttributeExt, MetaIteratorExt,
    NestedMetaIteratorExt, NestedMetaRefIteratorExt, Path,
};
use syn_ext::types::MetaList;

fn ident_path(name: &str) -> Path {
    Path { leading_colon: false, segments: vec![name.to_string()] }
}

#[test]
fn test_multi_map_groups_by_path() {
    let list = MetaList::parse("m(a=1,b=2,a=3)").unwrap();
    let (map, lits) = list.nested.to_multi_map_and_lits();
    assert!(lits.is_empty());
    assert_eq!(map.len(), 2);

    let group_a = multi_map_get(&map, &ident_path("a")).unwrap();
    assert_eq!(group_a.len(), 2);
    assert_eq!(group_a[0].0, 0);
    assert_eq!(group_a[1].0, 2);

    let group_b = multi_map_get(&map, &ident_path("b")).unwrap();
    assert_eq!(group_b.len(), 1);
    assert_eq!(group_b[0].0, 1);

    assert!(multi_map_get(&map, &ident_path("c")).is_none());
}

#[test]
fn test_unique_map_rejects_duplicates() {
    let list = MetaList::parse("m(a=1,b=2,a=3)").unwrap();
    match list.nested.to_unique_map_and_lits() {
        Err(Error::DuplicatePath { first }) => assert_eq!(first, 0),
        _ => unreachable!(),
    }
}

#[test]
fn test_unique_map_accepts_distinct_paths() {
    let list = MetaList::parse("m(a=1,b=2,c)").unwrap();
    let (map, lits) = list.nested.into_unique_map_and_lits().unwrap();
    assert!(lits.is_empty());
    assert_eq!(map.len(), 3);
    let (idx, meta) = unique_map_get(&map, &ident_path("b")).unwrap();
    assert_eq!(*idx, 1);
    assert!(meta.path().is_ident("b"));
}

#[test]
fn test_lits_are_split_out_with_positions() {
    let list = MetaList::parse("m(a,\"s\",3)").unwrap();
    let (map, lits) = list.nested.into_multi_map_and_lits();
    assert_eq!(map.len(), 1);
    assert_eq!(lits.len(), 2);
    assert_eq!(lits[0].0, 1);
    assert!(matches!(&lits[0].1, Lit::Str(s) if s == "s"));
    assert_eq!(lits[1].0, 2);
    assert!(matches!(lits[1].1, Lit::Int(3)));
}

#[test]
fn test_to_multi_map_over_indexed_metas() {
    let entries = vec![
        (0usize, syn_ext::Meta1::parse("cfg(a)").unwrap()),
        (1usize, syn_ext::Meta1::parse("cfg(b)").unwrap()),
    ];
    let map = entries.to_multi_map();
    assert_eq!(map.len(), 1);
    let group = multi_map_get(&map, &ident_path("cfg")).unwrap();
    assert_eq!(group.len(), 2);
}

#[test]
fn test_attr_maps_split_unparsable_attrs() {
    let attrs = vec![
        syn_ext::Attribute { text: "cfg(a)".to_string() },
        syn_ext::Attribute { text: "!!".to_string() },
        syn_ext::Attribute { text: "serde(x)".to_string() },
    ];
    let (map, rest) = attrs.to_multi_map_and_attrs();
    assert_eq!(map.len(), 2);
    assert_eq!(rest.len(), 1);
    assert_eq!(rest[0].0, 1);
    assert_eq!(rest[0].1.text, "!!");

    let (umap, urest) = attrs.to_unique_map_and_attrs().unwrap();
    assert_eq!(umap.len(), 2);
    assert_eq!(urest.len(), 1);
}

#[test]
fn test_unique_map_cites_first_occurrence() {
    let list = MetaList::parse("m(k=1,k=2,k=3)").unwrap();
    match list.nested.to_unique_map_and_lits() {
        Err(Error::DuplicatePath { first }) => assert_eq!(first, 0),
        _ => unreachable!(),
    }
    let list = MetaList::parse("m(x,k=1,k=2)").unwrap();
    match list.nested.to_unique_map_and_lits() {
        Err(Error::DuplicatePath { first }) => assert_eq!(first, 1),
        _ => unreachable!(),
    }
}
