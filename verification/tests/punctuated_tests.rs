use syn_ext::PunctuatedExt;
use syn_ext::types::MetaList;

#[test]
fn test_remove() {
    let mut list = MetaList::parse("meta(a,b,c,d)").unwrap();
    PunctuatedExt::remove(&mut list.nested, 2);
    let expected = MetaList::parse("meta(a,b,d)").unwrap();
    assert_eq!(list.to_text(), expected.to_text());
    PunctuatedExt::remove(&mut list.nested, 0);
    let expected = MetaList::parse("meta(b,d)").unwrap();
    assert_eq!(list.to_text(), expected.to_text());
}

#[test]
fn test_remove_returns_the_element() {
    let mut v: Vec<u32> = vec![10, 20, 30];
    let r = PunctuatedExt::remove(&mut v, 1);
    assert_eq!(r, 20);
    assert_eq!(v, vec![10, 30]);
}
