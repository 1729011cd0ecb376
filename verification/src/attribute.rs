//! Attributes as carriers of metadata text: parsing them into metadata,
//! printing metadata back into them, gathering doc comments, and building
//! maps over whole attribute lists.

use vstd::prelude::*;
use vstd::string::StringExecFns;
use crate::error::Error;
use crate::maps::{
    entries_view, mm_view, multi_map_of, um_view, unique_map_of, MetaIteratorExt, MultiMetaMap,
    UniqueMetaMap,
};
use crate::meta::{spec_meta_path, LitV, Meta1, MetaExt, MetaList1, MetaListV, MetaV};
use crate::parse::spec_parse_meta_str;
use crate::path::{spec_path_ident, PathV};
use crate::print::spec_meta_text;
use crate::text::{push_char, spec_trim};

verus! {

/// An attribute: the text of its content, in the shape the structured
/// metadata micro-language gives it (`cfg(test)`, `doc = "..."`).
#[derive(Debug, PartialEq, Eq)]
pub struct Attribute {
    pub text: String,
}

impl View for Attribute {
    type V = Seq<char>;

    open spec fn view(&self) -> Seq<char> {
        self.text@
    }
}

impl Clone for Attribute {
    /// Cloning keeps the attribute's text.
    fn clone(&self) -> (r: Self)
        ensures
            r@ == self@,
    {
        Attribute { text: self.text.clone() }
    }
}

/// Conversion of metadata values into attributes.
pub trait IntoAttribute: Sized {
    /// The text the value prints as.
    spec fn spec_text(&self) -> Seq<char>;

    /// Builds the attribute holding the value's canonical text.
    fn into_attribute(self) -> (r: Attribute)
        ensures
            r@ == self.spec_text(),
    ;
}

impl IntoAttribute for Meta1 {
    open spec fn spec_text(&self) -> Seq<char> {
        spec_meta_text(self@)
    }

    fn into_attribute(self) -> (r: Attribute) {
        Attribute { text: self.to_text() }
    }
}

impl IntoAttribute for MetaList1 {
    open spec fn spec_text(&self) -> Seq<char> {
        spec_meta_text(MetaV::List(self@))
    }

    fn into_attribute(self) -> (r: Attribute) {
        Attribute { text: self.to_text() }
    }
}

/// The list an attribute's metadata promotes to: a list itself, a bare path
/// with no elements; name-value pairs do not promote and never reach this.
pub open spec fn spec_promoted(m: MetaV) -> MetaListV {
    match m {
        MetaV::List(l) => l,
        _ => MetaListV {
            path: spec_meta_path(m),
            nested: Seq::empty(),
            trailing_comma: false,
        },
    }
}

/// The single identifier of an attribute's path, when its text parses and
/// the path is one bare segment.
pub open spec fn spec_attr_ident(t: Seq<char>) -> Option<Seq<char>> {
    match spec_parse_meta_str(t) {
        Ok(m) => spec_path_ident(spec_meta_path(m)),
        Err(_) => None,
    }
}

/// Parsing, printing and promotion on attributes.
pub trait AttributeExt: View<V = Seq<char>> + Sized {
    /// Builds an attribute holding any metadata value's canonical text.
    fn from_meta<M: IntoAttribute>(meta: M) -> (r: Self)
        ensures
            r@ == meta.spec_text(),
    ;

    /// Parses the attribute's content as one metadata item.
    fn parse_meta(&self) -> (r: Result<Meta1, Error>)
        ensures
            match r {
                Ok(m) => spec_parse_meta_str(self@) == Ok::<_, Error>(m@),
                Err(e) => spec_parse_meta_str(self@) == Err::<MetaV, _>(e),
            },
    ;

    /// The attribute's list value: a list as it stands, a bare path promoted
    /// to an empty list, anything else refused.
    fn promoted_list(&self) -> (r: Result<MetaList1, Error>)
        ensures
            match spec_parse_meta_str(self@) {
                Ok(m) => match m {
                    MetaV::Path(p) => r matches Ok(l) && l@ == (MetaListV {
                        path: p,
                        nested: Seq::empty(),
                        trailing_comma: false,
                    }),
                    MetaV::List(lv) => r matches Ok(l) && l@ == lv,
                    MetaV::NameValue(_) => r == Err::<MetaList1, Error>(Error::CannotPromote),
                },
                Err(e) => r == Err::<MetaList1, Error>(e),
            },
    ;

    /// Parses the content, hands the metadata to `f`, and writes the
    /// metadata `f` returns back into the attribute, whether or not `f`
    /// succeeded; a parse error alone leaves the attribute unchanged.
    fn try_meta_mut<R, F: FnOnce(Meta1) -> (Meta1, Result<R, Error>)>(&mut self, f: F) -> (r:
        Result<R, Error>)
        requires
            forall|m: Meta1|
                (spec_parse_meta_str(old(self)@) matches Ok(mv) && m@ == mv)
                    ==> #[trigger] call_requires(f, (m,)),
        ensures
            match spec_parse_meta_str(old(self)@) {
                Err(e) => r == Err::<R, Error>(e) && final(self)@ == old(self)@,
                Ok(mv) => exists|m: Meta1, out: (Meta1, Result<R, Error>)|
                    {
                        &&& m@ == mv
                        &&& #[trigger] call_ensures(f, (m,), out)
                        &&& final(self)@ == spec_meta_text(out.0@)
                        &&& r == out.1
                    },
            },
    ;

    /// Parses the content, promotes it to a list, hands the list to `f`, and
    /// writes the list `f` returns back into the attribute; a name-value
    /// pair cannot promote and is written back unchanged beside the error.
    fn try_promoted_list_mut<R, F: FnOnce(MetaList1) -> (MetaList1, Result<R, Error>)>(
        &mut self,
        f: F,
    ) -> (r: Result<R, Error>)
        requires
            forall|l: MetaList1|
                (spec_parse_meta_str(old(self)@) matches Ok(mv) && !(mv is NameValue) && l@
                    == spec_promoted(mv)) ==> #[trigger] call_requires(f, (l,)),
        ensures
            match spec_parse_meta_str(old(self)@) {
                Err(e) => r == Err::<R, Error>(e) && final(self)@ == old(self)@,
                Ok(mv) => {
                    if mv is NameValue {
                        r == Err::<R, Error>(Error::CannotPromote) && final(self)@
                            == spec_meta_text(mv)
                    } else {
                        exists|l: MetaList1, out: (MetaList1, Result<R, Error>)|
                            {
                                &&& l@ == spec_promoted(mv)
                                &&& #[trigger] call_ensures(f, (l,), out)
                                &&& final(self)@ == spec_meta_text(MetaV::List(out.0@))
                                &&& r == out.1
                            }
                    }
                },
            },
    ;
}

impl AttributeExt for Attribute {
    fn from_meta<M: IntoAttribute>(meta: M) -> (r: Self) {
        meta.into_attribute()
    }

    fn parse_meta(&self) -> (r: Result<Meta1, Error>) {
        Meta1::parse(self.text.as_str())
    }

    fn promoted_list(&self) -> (r: Result<MetaList1, Error>) {
        match self.parse_meta() {
            Err(e) => Err(e),
            Ok(Meta1::Path(path)) => {
                let l = MetaList1 { path, nested: Vec::new(), trailing_comma: false };
                proof {
                    assert(l@.nested =~= Seq::<crate::meta::NestedMetaV>::empty());
                    assert(l@ =~= (MetaListV {
                        path: spec_parse_meta_str(self@)->Ok_0->Path_0,
                        nested: Seq::empty(),
                        trailing_comma: false,
                    }));
                }
                Ok(l)
            },
            Ok(Meta1::List(l)) => Ok(l),
            Ok(Meta1::NameValue(_)) => Err(Error::CannotPromote),
        }
    }

    fn try_meta_mut<R, F: FnOnce(Meta1) -> (Meta1, Result<R, Error>)>(&mut self, f: F) -> (r:
        Result<R, Error>) {
        let meta = match self.parse_meta() {
            Ok(m) => m,
            Err(e) => {
                return Err(e);
            },
        };
        let (meta2, result) = f(meta);
        self.set_meta(&meta2);
        result
    }

    fn try_promoted_list_mut<R, F: FnOnce(MetaList1) -> (MetaList1, Result<R, Error>)>(
        &mut self,
        f: F,
    ) -> (r: Result<R, Error>) {
        let meta = match self.parse_meta() {
            Ok(m) => m,
            Err(e) => {
                return Err(e);
            },
        };
        let list = match meta {
            Meta1::Path(path) => {
                let l = MetaList1 { path, nested: Vec::new(), trailing_comma: false };
                proof {
                    assert(l@.nested =~= Seq::<crate::meta::NestedMetaV>::empty());
                    assert(l@ =~= spec_promoted(spec_parse_meta_str(old(self)@)->Ok_0));
                }
                l
            },
            Meta1::List(l) => l,
            Meta1::NameValue(nv) => {
                let back = Meta1::NameValue(nv);
                self.set_meta(&back);
                return Err(Error::CannotPromote);
            },
        };
        let (list2, result) = f(list);
        let ghost out0 = (list2, result);
        let back = Meta1::List(list2);
        self.set_meta(&back);
        proof {
            assert(back@ == MetaV::List(out0.0@));
        }
        result
    }
}

impl Attribute {
    /// Writes a metadata value back into the attribute: afterwards the
    /// attribute holds the value's canonical text.
    pub fn set_meta(&mut self, meta: &Meta1)
        ensures
            final(self)@ == spec_meta_text(meta@),
    {
        self.text = meta.to_text();
    }

    /// The single identifier of the attribute's path, when the content
    /// parses and its path is one bare segment.
    pub fn get_ident(&self) -> (r: Option<String>)
        ensures
            match r {
                Some(s) => spec_attr_ident(self@) == Some(s@),
                None => spec_attr_ident(self@) is None,
            },
    {
        match self.parse_meta() {
            Ok(m) => match m.path().get_ident() {
                Some(s) => Some(s.clone()),
                None => None,
            },
            Err(_) => None,
        }
    }
}

/// The trimmed doc string a metadata value carries, when it reads
/// `doc = "..."`.
pub open spec fn spec_doc_of_meta(m: MetaV) -> Option<Seq<char>> {
    match m {
        MetaV::NameValue(nv) => {
            if spec_path_ident(nv.path) == Some(crate::meta::doc_chars()) {
                match nv.value {
                    LitV::Str(s) => Some(spec_trim(s)),
                    _ => None,
                }
            } else {
                None
            }
        },
        _ => None,
    }
}

/// The doc string an attribute contributes, if its text parses to a doc
/// meta.
pub open spec fn doc_of_text(t: Seq<char>) -> Option<Seq<char>> {
    match spec_parse_meta_str(t) {
        Ok(m) => spec_doc_of_meta(m),
        Err(_) => None,
    }
}

/// The texts of an attribute list.
pub open spec fn attr_texts(s: Seq<Attribute>) -> Seq<Seq<char>> {
    s.map_values(|a: Attribute| a@)
}

/// The doc strings contributed by a list of attribute texts, in order.
pub open spec fn doc_items(texts: Seq<Seq<char>>) -> Seq<Seq<char>>
    decreases texts.len(),
{
    if texts.len() == 0 {
        Seq::empty()
    } else {
        doc_items(texts.drop_last()) + (match doc_of_text(texts.last()) {
            Some(d) => seq![d],
            None => Seq::empty(),
        })
    }
}

/// Lines joined by a newline between each pair.
pub open spec fn join_nl(items: Seq<Seq<char>>) -> Seq<char>
    decreases items.len(),
{
    if items.len() == 0 {
        Seq::empty()
    } else if items.len() == 1 {
        items[0]
    } else {
        join_nl(items.drop_last()) + seq!['\n'] + items.last()
    }
}

/// Gathering the doc comment of a whole attribute list.
pub trait AttributeIteratorExt {
    /// The texts the collection holds.
    spec fn texts(&self) -> Seq<Seq<char>>;

    /// The doc strings of all `doc = "..."` attributes, trimmed and joined
    /// by newlines; nothing when no attribute carries one.
    fn doc(&self) -> (r: Option<String>)
        ensures
            match r {
                Some(d) => doc_items(self.texts()).len() > 0 && d@ == join_nl(
                    doc_items(self.texts()),
                ),
                None => doc_items(self.texts()).len() == 0,
            },
    ;
}

impl AttributeIteratorExt for Vec<Attribute> {
    open spec fn texts(&self) -> Seq<Seq<char>> {
        attr_texts(self@)
    }

    fn doc(&self) -> (r: Option<String>) {
        let ghost ts = attr_texts(self@);
        let mut docs: Vec<String> = Vec::new();
        let mut i: usize = 0;
        proof {
            assert(docs@.map_values(|d: String| d@) =~= doc_items(ts.take(0)));
        }
        while i < self.len()
            invariant
                i <= self.len(),
                ts == attr_texts(self@),
                ts.len() == self.len(),
                docs@.map_values(|d: String| d@) == doc_items(ts.take(i as int)),
            decreases self.len() - i,
        {
            proof {
                assert(ts.take(i + 1).drop_last() =~= ts.take(i as int));
                assert(ts.take(i + 1).last() == ts[i as int]);
                assert(ts[i as int] == self@[i as int]@);
            }
            let ghost old_docs = docs@;
            match self[i].parse_meta() {
                Ok(m) => match m.doc() {
                    Ok(d) => {
                        docs.push(d);
                        proof {
                            assert(docs@.map_values(|d: String| d@) =~= old_docs.map_values(
                                |d: String| d@,
                            ) + seq![docs@.last()@]);
                        }
                    },
                    Err(_) => {
                        proof {
                            assert(doc_of_text(ts[i as int]) is None);
                        }
                    },
                },
                Err(_) => {
                    proof {
                        assert(doc_of_text(ts[i as int]) is None);
                    }
                },
            }
            i = i + 1;
        }
        proof {
            assert(ts.take(ts.len() as int) =~= ts);
        }
        if docs.len() == 0 {
            return None;
        }
        let ghost items = doc_items(ts);
        let mut out = String::new();
        let mut k: usize = 0;
        proof {
            assert(items.len() == docs@.len());
        }
        while k < docs.len()
            invariant
                k <= docs.len(),
                items == doc_items(ts),
                items.len() == docs@.len(),
                forall|j: int| 0 <= j < docs@.len() ==> items[j] == #[trigger] docs@[j]@,
                k == 0 ==> out@ =~= Seq::<char>::empty(),
                k > 0 ==> out@ == join_nl(items.take(k as int)),
            decreases docs.len() - k,
        {
            proof {
                assert(items.take(k + 1).drop_last() =~= items.take(k as int));
                assert(items.take(k + 1).last() == items[k as int]);
            }
            if k > 0 {
                push_char(&mut out, '\n');
            }
            out.append(docs[k].as_str());
            proof {
                if k == 0 {
                    assert(items.take(1)[0] == items[0]);
                    assert(out@ =~= join_nl(items.take(1)));
                } else {
                    assert(out@ =~= join_nl(items.take(k + 1)));
                }
            }
            k = k + 1;
        }
        proof {
            assert(items.take(items.len() as int) =~= items);
        }
        Some(out)
    }
}

/// The indexed parsed metas of a list of attribute texts.
pub open spec fn parsed_entries(texts: Seq<Seq<char>>) -> Seq<(usize, MetaV)>
    decreases texts.len(),
{
    if texts.len() == 0 {
        Seq::empty()
    } else {
        parsed_entries(texts.drop_last()) + (match spec_parse_meta_str(texts.last()) {
            Ok(m) => seq![(((texts.len() - 1) as usize), m)],
            Err(_) => Seq::empty(),
        })
    }
}

/// The indexed texts that do not parse as metadata.
pub open spec fn failed_attrs(texts: Seq<Seq<char>>) -> Seq<(usize, Seq<char>)>
    decreases texts.len(),
{
    if texts.len() == 0 {
        Seq::empty()
    } else {
        failed_attrs(texts.drop_last()) + (match spec_parse_meta_str(texts.last()) {
            Ok(_) => Seq::empty(),
            Err(_) => seq![(((texts.len() - 1) as usize), texts.last())],
        })
    }
}

/// Map building over whole attribute lists: attributes that parse go into a
/// map keyed by path, the others are handed back with their positions.
pub trait MetaAttributeExt {
    /// The texts the collection holds.
    spec fn map_texts(&self) -> Seq<Seq<char>>;

    /// Groups the parsed metadata by path and returns the unparsed
    /// attributes apart.
    fn to_multi_map_and_attrs(&self) -> (r: (MultiMetaMap, Vec<(usize, Attribute)>))
        ensures
            mm_view(r.0@) == multi_map_of(parsed_entries(self.map_texts())),
            r.1@.map_values(|e: (usize, Attribute)| (e.0, e.1@)) == failed_attrs(
                self.map_texts(),
            ),
    ;

    /// Maps each path to its single parsed metadata item and returns the
    /// unparsed attributes apart; an error as soon as a path repeats.
    fn to_unique_map_and_attrs(&self) -> (r: Result<
        (UniqueMetaMap, Vec<(usize, Attribute)>),
        Error,
    >)
        ensures
            match r {
                Ok((m, rest)) => unique_map_of(parsed_entries(self.map_texts())) == Ok::<
                    _,
                    Error,
                >(um_view(m@)) && rest@.map_values(|e: (usize, Attribute)| (e.0, e.1@))
                    == failed_attrs(self.map_texts()),
                Err(e) => unique_map_of(parsed_entries(self.map_texts())) == Err::<
                    Seq<(PathV, (usize, MetaV))>,
                    _,
                >(e),
            },
    ;
}

/// Splits attributes into parsed indexed metas and unparsed indexed
/// attributes.
fn split_attrs(attrs: &Vec<Attribute>) -> (r: (Vec<(usize, Meta1)>, Vec<(usize, Attribute)>))
    ensures
        entries_view(r.0@) == parsed_entries(attr_texts(attrs@)),
        r.1@.map_values(|e: (usize, Attribute)| (e.0, e.1@)) == failed_attrs(
            attr_texts(attrs@),
        ),
{
    let ghost ts = attr_texts(attrs@);
    let mut metas: Vec<(usize, Meta1)> = Vec::new();
    let mut rest: Vec<(usize, Attribute)> = Vec::new();
    let mut i: usize = 0;
    proof {
        assert(entries_view(metas@) =~= parsed_entries(ts.take(0)));
        assert(rest@.map_values(|e: (usize, Attribute)| (e.0, e.1@)) =~= failed_attrs(
            ts.take(0),
        ));
    }
    while i < attrs.len()
        invariant
            i <= attrs.len(),
            ts == attr_texts(attrs@),
            ts.len() == attrs.len(),
            entries_view(metas@) == parsed_entries(ts.take(i as int)),
            rest@.map_values(|e: (usize, Attribute)| (e.0, e.1@)) == failed_attrs(
                ts.take(i as int),
            ),
        decreases attrs.len() - i,
    {
        proof {
            assert(ts.take(i + 1).drop_last() =~= ts.take(i as int));
            assert(ts.take(i + 1).last() == ts[i as int]);
            assert(ts[i as int] == attrs@[i as int]@);
        }
        let ghost old_metas = metas@;
        let ghost old_rest = rest@;
        match attrs[i].parse_meta() {
            Ok(m) => {
                metas.push((i, m));
                proof {
                    assert(entries_view(metas@) =~= entries_view(old_metas) + seq![
                        ((i, metas@.last().1@)),
                    ]);
                    assert(rest@.map_values(|e: (usize, Attribute)| (e.0, e.1@))
                        =~= failed_attrs(ts.take(i + 1)));
                }
            },
            Err(_) => {
                rest.push((i, attrs[i].clone()));
                proof {
                    assert(rest@.map_values(|e: (usize, Attribute)| (e.0, e.1@))
                        =~= old_rest.map_values(|e: (usize, Attribute)| (e.0, e.1@)) + seq![
                        ((i, rest@.last().1@)),
                    ]);
                    assert(entries_view(metas@) =~= parsed_entries(ts.take(i + 1)));
                }
            },
        }
        i = i + 1;
    }
    proof {
        assert(ts.take(ts.len() as int) =~= ts);
    }
    (metas, rest)
}

impl MetaAttributeExt for Vec<Attribute> {
    open spec fn map_texts(&self) -> Seq<Seq<char>> {
        attr_texts(self@)
    }

    fn to_multi_map_and_attrs(&self) -> (r: (MultiMetaMap, Vec<(usize, Attribute)>)) {
        let (metas, rest) = split_attrs(self);
        let map = metas.to_multi_map();
        (map, rest)
    }

    fn to_unique_map_and_attrs(&self) -> (r: Result<
        (UniqueMetaMap, Vec<(usize, Attribute)>),
        Error,
    >) {
        let (metas, rest) = split_attrs(self);
        match metas.to_unique_map() {
            Ok(map) => Ok((map, rest)),
            Err(e) => Err(e),
        }
    }
}

} // verus!
