use syn_ext::{
    Attribute, Block, Function, FunctionLike, GenericParam, GetIdent, ImplItem, Item,
    ItemAttrExt, ItemLike, ItemMod, ItemModExt, Signature, TraitItem, UseTree, Visibility,
};

fn attr(text: &str) -> Attribute {
    Attribute { text: text.to_string() }
}

fn function(name: &str) -> Function {
    Function {
        attrs: Vec::new(),
        vis: Visibility::Inherited,
        sig: Signature { ident: name.to_string() },
        block: Some(Block { text: "{}".to_string() }),
    }
}

#[test]
fn test_attrs() {
    let mut item = Item::Type { attrs: vec![attr("test")], ident: "A".to_string() };
    {
        let a = &item.attrs().unwrap()[0];
        assert_eq!(a.text, "test");
    }
    {
        let taken = item.take_attrs().unwrap();
        assert_eq!(taken[0].text, "test");
        assert!(item.attrs().unwrap().is_empty());
        item.set_attrs(taken).unwrap();
        assert_eq!(item.attrs().unwrap()[0].text, "test");
    }
}

#[test]
fn test_items() {
    let module = ItemMod {
        attrs: Vec::new(),
        ident: "m".to_string(),
        content: Some(vec![
            Item::Static { attrs: Vec::new(), ident: "x".to_string() },
            Item::Fn(function("f")),
        ]),
    };
    let content = module.items().unwrap();
    assert!(matches!(content[0], Item::Static { .. }));
    assert!(matches!(content[1], Item::Fn(_)));
}

#[test]
fn test_items_decl() {
    let module = ItemMod { attrs: Vec::new(), ident: "m".to_string(), content: None };
    assert!(module.items().is_none());
}

#[test]
fn test_function_like() {
    let free = Item::Fn(function("f"));
    let method = ImplItem::Method(function("f"));
    let f = free.function_or_method().unwrap();
    let m = method.function_or_method().unwrap();
    assert_eq!(f.sig().ident, m.sig().ident);
}

#[test]
fn test_set_items() {
    let mut module = ItemMod {
        attrs: Vec::new(),
        ident: "m".to_string(),
        content: Some(Vec::new()),
    };
    assert!(module.set_items(vec![Item::Verbatim]));
    assert_eq!(module.items().unwrap().len(), 1);

    let mut decl = ItemMod { attrs: Vec::new(), ident: "d".to_string(), content: None };
    assert!(!decl.set_items(Vec::new()));
}

#[test]
fn test_item_kind_predicates() {
    let c = Item::Const { attrs: Vec::new(), ident: "C".to_string() };
    assert!(c.is_const() && !c.is_type() && !c.is_macro());
    let t = TraitItem::Type { attrs: Vec::new(), ident: "T".to_string() };
    assert!(t.is_type() && !t.is_const());
    let m = ImplItem::Macro {
        attrs: Vec::new(),
        path: syn_ext::Path { leading_colon: false, segments: vec!["m".to_string()] },
    };
    assert!(m.is_macro());
}

#[test]
fn test_item_get_ident() {
    let s = Item::Struct { attrs: Vec::new(), ident: "S".to_string() };
    assert_eq!(s.get_ident().unwrap(), "S");
    let f = Item::Fn(function("f"));
    assert_eq!(f.get_ident().unwrap(), "f");
    let i = Item::Impl { attrs: Vec::new() };
    assert!(i.get_ident().is_none());
    let u = Item::Use { attrs: Vec::new(), tree: UseTree::Name("n".to_string()) };
    assert_eq!(u.get_ident().unwrap(), "n");
    let g = Item::Use { attrs: Vec::new(), tree: UseTree::Other };
    assert!(g.get_ident().is_none());
}

#[test]
fn test_verbatim_has_no_attrs() {
    let mut v = Item::Verbatim;
    assert_eq!(v.attrs().unwrap_err(), syn_ext::Error::NoAttrs);
    assert_eq!(v.take_attrs().unwrap_err(), syn_ext::Error::NoAttrs);
    assert_eq!(
        TraitItem::Verbatim.function_or_method().unwrap_err(),
        syn_ext::Error::NotAFunction
    );
}

#[test]
fn test_generic_param_get_ident() {
    assert_eq!(GenericParam::Type { ident: "T".to_string() }.get_ident().unwrap(), "T");
    assert_eq!(GenericParam::Lifetime { ident: "a".to_string() }.get_ident().unwrap(), "a");
    assert_eq!(GenericParam::Const { ident: "N".to_string() }.get_ident().unwrap(), "N");
}
