//! Maps keyed by path, built from indexed lists of metadata items: one that
//! collects every item under its path, and one that insists each path occurs
//! once.

use vstd::prelude::*;
use crate::error::Error;
use crate::meta::{nested_views, spec_meta_path, Lit, LitV, Meta1, MetaV, NestedMeta, NestedMetaV};
use crate::path::{Path, PathV};

verus! {

/// A map from paths to all the indexed items carrying that path, keys in
/// first-occurrence order.
pub type MultiMetaMap = Vec<(Path, Vec<(usize, Meta1)>)>;

/// A map from paths to the single indexed item carrying that path.
pub type UniqueMetaMap = Vec<(Path, (usize, Meta1))>;

/// The values of an indexed item list.
pub open spec fn entries_view(s: Seq<(usize, Meta1)>) -> Seq<(usize, MetaV)> {
    s.map_values(|e: (usize, Meta1)| (e.0, e.1@))
}

/// The value of a multi-valued map.
pub open spec fn mm_view(m: Seq<(Path, Vec<(usize, Meta1)>)>) -> Seq<
    (PathV, Seq<(usize, MetaV)>),
> {
    m.map_values(|g: (Path, Vec<(usize, Meta1)>)| (g.0@, entries_view(g.1@)))
}

/// The value of a unique-valued map.
pub open spec fn um_view(m: Seq<(Path, (usize, Meta1))>) -> Seq<(PathV, (usize, MetaV))> {
    m.map_values(|g: (Path, (usize, Meta1))| (g.0@, (g.1.0, g.1.1@)))
}

/// The first position holding the key `p`, or a negative value if none does.
pub open spec fn key_index<V>(m: Seq<(PathV, V)>, p: PathV) -> int
    decreases m.len(),
{
    if m.len() == 0 {
        -1
    } else if m[0].0 == p {
        0
    } else {
        let r = key_index(m.drop_first(), p);
        if r < 0 {
            -1
        } else {
            r + 1
        }
    }
}

pub proof fn lemma_key_index<V>(m: Seq<(PathV, V)>, p: PathV)
    ensures
        key_index(m, p) >= 0 ==> 0 <= key_index(m, p) < m.len() && m[key_index(m, p)].0 == p
            && forall|j: int| 0 <= j < key_index(m, p) ==> (#[trigger] m[j]).0 != p,
        key_index(m, p) < 0 ==> forall|j: int| 0 <= j < m.len() ==> (#[trigger] m[j]).0 != p,
    decreases m.len(),
{
    if m.len() > 0 && m[0].0 != p {
        lemma_key_index(m.drop_first(), p);
        let r = key_index(m.drop_first(), p);
        if r >= 0 {
            assert(m.drop_first()[r] == m[r + 1]);
            assert forall|j: int| 0 <= j < key_index(m, p) implies (#[trigger] m[j]).0 != p by {
                if j > 0 {
                    assert(m.drop_first()[j - 1] == m[j]);
                }
            }
        } else {
            assert forall|j: int| 0 <= j < m.len() implies (#[trigger] m[j]).0 != p by {
                if j > 0 {
                    assert(m.drop_first()[j - 1] == m[j]);
                }
            }
        }
    }
}

/// Adds one indexed item to a multi-valued map: appended to its path's group
/// when the path is present, opening a new group at the end otherwise.
pub open spec fn multi_insert(
    m: Seq<(PathV, Seq<(usize, MetaV)>)>,
    e: (usize, MetaV),
) -> Seq<(PathV, Seq<(usize, MetaV)>)> {
    let p = spec_meta_path(e.1);
    let ki = key_index(m, p);
    if ki >= 0 {
        m.update(ki, (p, m[ki].1.push(e)))
    } else {
        m.push((p, seq![e]))
    }
}

/// The multi-valued map of an indexed item list, items taken left to right.
pub open spec fn multi_map_of(entries: Seq<(usize, MetaV)>) -> Seq<
    (PathV, Seq<(usize, MetaV)>),
>
    decreases entries.len(),
{
    if entries.len() == 0 {
        Seq::empty()
    } else {
        multi_insert(multi_map_of(entries.drop_last()), entries.last())
    }
}

/// The unique-valued map of an indexed item list: an error as soon as a path
/// repeats, carrying the input index of the path's first occurrence.
pub open spec fn unique_map_of(entries: Seq<(usize, MetaV)>) -> Result<
    Seq<(PathV, (usize, MetaV))>,
    Error,
>
    decreases entries.len(),
{
    if entries.len() == 0 {
        Ok(Seq::empty())
    } else {
        match unique_map_of(entries.drop_last()) {
            Err(e) => Err(e),
            Ok(m) => {
                let e0 = entries.last();
                let p = spec_meta_path(e0.1);
                let ki = key_index(m, p);
                if ki >= 0 {
                    Err(Error::DuplicatePath { first: m[ki].1.0 })
                } else {
                    Ok(m.push((p, e0)))
                }
            },
        }
    }
}

/// Map building over indexed lists of metadata items.
pub trait MetaIteratorExt {
    /// The indexed item values the collection holds.
    spec fn entries(&self) -> Seq<(usize, MetaV)>;

    /// Groups the items by path, keys in first-occurrence order, each group
    /// in input order.
    fn to_multi_map(&self) -> (r: MultiMetaMap)
        ensures
            mm_view(r@) == multi_map_of(self.entries()),
    ;

    /// Maps each path to its single item; an error as soon as a path
    /// repeats, naming the input index of its first occurrence.
    fn to_unique_map(&self) -> (r: Result<UniqueMetaMap, Error>)
        ensures
            match r {
                Ok(m) => unique_map_of(self.entries()) == Ok::<_, Error>(um_view(m@)),
                Err(e) => unique_map_of(self.entries()) == Err::<
                    Seq<(PathV, (usize, MetaV))>,
                    _,
                >(e),
            },
    ;
}

/// The position of `p` among the keys of a multi-valued map, if present.
fn mm_find(m: &MultiMetaMap, p: &Path) -> (r: Option<usize>)
    ensures
        match r {
            Some(j) => j == key_index(mm_view(m@), p@) && j < m.len(),
            None => key_index(mm_view(m@), p@) < 0,
        },
{
    proof {
        lemma_key_index(mm_view(m@), p@);
    }
    let mut j: usize = 0;
    while j < m.len()
        invariant
            j <= m.len(),
            forall|k: int| 0 <= k < j ==> (#[trigger] mm_view(m@)[k]).0 != p@,
        decreases m.len() - j,
    {
        if m[j].0.eq_path(p) {
            proof {
                assert(mm_view(m@)[j as int].0 == p@);
                lemma_key_index(mm_view(m@), p@);
            }
            return Some(j);
        }
        proof {
            assert(mm_view(m@)[j as int].0 != p@);
        }
        j = j + 1;
    }
    None
}

/// The position of `p` among the keys of a unique-valued map, if present.
fn um_find(m: &UniqueMetaMap, p: &Path) -> (r: Option<usize>)
    ensures
        match r {
            Some(j) => j == key_index(um_view(m@), p@) && j < m.len(),
            None => key_index(um_view(m@), p@) < 0,
        },
{
    proof {
        lemma_key_index(um_view(m@), p@);
    }
    let mut j: usize = 0;
    while j < m.len()
        invariant
            j <= m.len(),
            forall|k: int| 0 <= k < j ==> (#[trigger] um_view(m@)[k]).0 != p@,
        decreases m.len() - j,
    {
        if m[j].0.eq_path(p) {
            proof {
                assert(um_view(m@)[j as int].0 == p@);
                lemma_key_index(um_view(m@), p@);
            }
            return Some(j);
        }
        proof {
            assert(um_view(m@)[j as int].0 != p@);
        }
        j = j + 1;
    }
    None
}

impl MetaIteratorExt for Vec<(usize, Meta1)> {
    open spec fn entries(&self) -> Seq<(usize, MetaV)> {
        entries_view(self@)
    }

    fn to_multi_map(&self) -> (r: MultiMetaMap) {
        let ghost all = entries_view(self@);
        let mut m: MultiMetaMap = Vec::new();
        let mut i: usize = 0;
        proof {
            assert(mm_view(m@) =~= multi_map_of(all.take(0)));
        }
        while i < self.len()
            invariant
                i <= self.len(),
                all == entries_view(self@),
                all.len() == self.len(),
                mm_view(m@) == multi_map_of(all.take(i as int)),
            decreases self.len() - i,
        {
            let idx = self[i].0;
            let meta = self[i].1.clone();
            let p = meta.path().clone();
            let ghost e = (idx, meta@);
            proof {
                assert(all[i as int] == (self@[i as int].0, self@[i as int].1@));
                assert(e == all[i as int]);
                assert(all.take(i + 1).drop_last() =~= all.take(i as int));
                assert(all.take(i + 1).last() == all[i as int]);
                assert(multi_map_of(all.take(i + 1)) == multi_insert(
                    multi_map_of(all.take(i as int)),
                    all[i as int],
                ));
            }
            let ghost before = mm_view(m@);
            let ghost mseq = m@;
            match mm_find(&m, &p) {
                Some(j) => {
                    proof {
                        lemma_key_index(before, p@);
                    }
                    let pair = m.remove(j);
                    let mut group = pair.1;
                    let ghost oldg = group@;
                    group.push((idx, meta));
                    m.insert(j, (pair.0, group));
                    proof {
                        assert(m@ =~= mseq.update(j as int, m@[j as int]));
                        assert(before[j as int].0 == p@);
                        assert(before[j as int].1 == entries_view(oldg));
                        assert(entries_view(m@[j as int].1@) =~= before[j as int].1.push(e));
                        assert(mm_view(m@) =~= multi_insert(before, e));
                    }
                },
                None => {
                    let mut group: Vec<(usize, Meta1)> = Vec::new();
                    group.push((idx, meta));
                    m.push((p, group));
                    proof {
                        assert(entries_view(group@) =~= seq![e]);
                        assert(mm_view(m@) =~= multi_insert(before, e));
                    }
                },
            }
            i = i + 1;
        }
        proof {
            assert(all.take(all.len() as int) =~= all);
        }
        m
    }

    fn to_unique_map(&self) -> (r: Result<UniqueMetaMap, Error>) {
        let ghost all = entries_view(self@);
        let mut m: UniqueMetaMap = Vec::new();
        let mut i: usize = 0;
        proof {
            assert(um_view(m@) =~= Seq::<(PathV, (usize, MetaV))>::empty());
        }
        while i < self.len()
            invariant
                i <= self.len(),
                all == entries_view(self@),
                all.len() == self.len(),
                unique_map_of(all.take(i as int)) == Ok::<_, Error>(um_view(m@)),
            decreases self.len() - i,
        {
            let idx = self[i].0;
            let meta = self[i].1.clone();
            let p = meta.path().clone();
            let ghost e = (idx, meta@);
            proof {
                assert(all[i as int] == (self@[i as int].0, self@[i as int].1@));
                assert(e == all[i as int]);
                assert(all.take(i + 1).drop_last() =~= all.take(i as int));
                assert(all.take(i + 1).last() == all[i as int]);
            }
            let ghost before = um_view(m@);
            match um_find(&m, &p) {
                Some(j) => {
                    proof {
                        lemma_key_index(before, p@);
                        assert(before[j as int] == (m@[j as int].0@, (
                            m@[j as int].1.0,
                            m@[j as int].1.1@,
                        )));
                        assert(unique_map_of(all.take(i + 1)) == Err::<
                            Seq<(PathV, (usize, MetaV))>,
                            Error,
                        >(Error::DuplicatePath { first: m@[j as int].1.0 }));
                        lemma_unique_err_extend(all, i + 1);
                    }
                    return Err(Error::DuplicatePath { first: m[j].1.0 });
                },
                None => {
                    m.push((p, (idx, meta)));
                    proof {
                        assert(um_view(m@) =~= before.push((p@, e)));
                    }
                },
            }
            i = i + 1;
        }
        proof {
            assert(all.take(all.len() as int) =~= all);
        }
        Ok(m)
    }
}

/// All the items of a path's group, or the empty sequence for an absent key.
pub open spec fn group_of(m: Seq<(PathV, Seq<(usize, MetaV)>)>, p: PathV) -> Seq<
    (usize, MetaV),
> {
    let ki = key_index(m, p);
    if ki >= 0 {
        m[ki].1
    } else {
        Seq::empty()
    }
}

/// The nested items with a given path, in input order.
pub open spec fn path_pred(p: PathV) -> spec_fn((usize, MetaV)) -> bool {
    |e: (usize, MetaV)| spec_meta_path(e.1) == p
}

/// The group a multi-valued map holds under each path is exactly the input
/// items with that path, in input order.
pub proof fn lemma_multi_map_groups(entries: Seq<(usize, MetaV)>, p: PathV)
    ensures
        group_of(multi_map_of(entries), p) == entries.filter(path_pred(p)),
    decreases entries.len(),
{
    reveal(Seq::filter);
    let pred = path_pred(p);
    if entries.len() == 0 {
        assert(entries.filter(pred) =~= Seq::<(usize, MetaV)>::empty());
        assert(key_index(multi_map_of(entries), p) == -1);
    } else {
        let prefix = entries.drop_last();
        let e0 = entries.last();
        let q = spec_meta_path(e0.1);
        lemma_multi_map_groups(prefix, p);
        let m = multi_map_of(prefix);
        assert(multi_map_of(entries) == multi_insert(m, e0));
        assert(entries.filter(pred) == (if pred(e0) {
            prefix.filter(pred).push(e0)
        } else {
            prefix.filter(pred)
        }));
        lemma_key_index(m, q);
        lemma_key_index(m, p);
        let ki = key_index(m, q);
        if ki >= 0 {
            let g = (q, m[ki].1.push(e0));
            let m2 = m.update(ki, g);
            lemma_key_index_update(m, ki, g, p);
            if p == q {
                assert(m2[ki] == g);
                assert(group_of(m2, p) == m[ki].1.push(e0));
                assert(group_of(m, p) == m[ki].1);
            } else {
                let kip = key_index(m, p);
                if kip >= 0 {
                    assert(m[kip].0 == p && m[ki].0 == q);
                    assert(kip != ki);
                    assert(m2[kip] == m[kip]);
                    assert(group_of(m2, p) == group_of(m, p));
                } else {
                    assert(group_of(m2, p) == group_of(m, p));
                }
            }
        } else {
            let g = (q, seq![e0]);
            let m2 = m.push(g);
            lemma_key_index_push(m, g, p);
            if p == q {
                assert(key_index(m2, p) == m.len());
                assert(m2[m.len() as int] == g);
                assert(group_of(m2, p) == seq![e0]);
                assert(group_of(m, p) =~= Seq::<(usize, MetaV)>::empty());
                assert(prefix.filter(pred) + seq![e0] =~= seq![e0]);
                assert(prefix.filter(pred).push(e0) =~= seq![e0]);
            } else {
                let kip = key_index(m, p);
                if kip >= 0 {
                    assert(m2[kip] == m[kip]);
                    assert(group_of(m2, p) == group_of(m, p));
                } else {
                    assert(key_index(m2, p) < 0);
                    assert(group_of(m2, p) == group_of(m, p));
                }
            }
        }
    }
}

/// Replacing one slot with the same key moves no key's first position.
proof fn lemma_key_index_update<V>(m: Seq<(PathV, V)>, j: int, g: (PathV, V), p: PathV)
    requires
        0 <= j < m.len(),
        g.0 == m[j].0,
    ensures
        key_index(m.update(j, g), p) == key_index(m, p),
        key_index(m, p) == j ==> m.update(j, g)[j] == g,
    decreases m.len(),
{
    lemma_key_index(m, p);
    let m2 = m.update(j, g);
    assert(m2[0] == (if j == 0 {
        g
    } else {
        m[0]
    }));
    assert(m2[0].0 == m[0].0);
    if m[0].0 != p {
        if j == 0 {
            assert(m2.drop_first() =~= m.drop_first());
        } else {
            assert(m2.drop_first() =~= m.drop_first().update(j - 1, g));
            lemma_key_index_update(m.drop_first(), j - 1, g, p);
        }
    }
}

/// How the first position of a key moves under a push.
proof fn lemma_key_index_push<V>(m: Seq<(PathV, V)>, g: (PathV, V), p: PathV)
    ensures
        key_index(m, p) >= 0 ==> key_index(m.push(g), p) == key_index(m, p)
            && m.push(g)[key_index(m, p)] == m[key_index(m, p)],
        key_index(m, p) < 0 && g.0 == p ==> key_index(m.push(g), p) == m.len()
            && m.push(g)[m.len() as int] == g,
        key_index(m, p) < 0 && g.0 != p ==> key_index(m.push(g), p) < 0,
    decreases m.len(),
{
    lemma_key_index(m, p);
    if m.len() == 0 {
        assert(m.push(g)[0] == g);
        assert(m.push(g).drop_first() =~= Seq::<(PathV, V)>::empty());
        assert(key_index(Seq::<(PathV, V)>::empty(), p) == -1);
    } else {
        assert(m.push(g)[0] == m[0]);
        if m[0].0 != p {
            assert(m.push(g).drop_first() =~= m.drop_first().push(g));
            lemma_key_index_push(m.drop_first(), g, p);
            if key_index(m, p) >= 0 {
                assert(m.drop_first()[key_index(m.drop_first(), p)] == m[key_index(m, p)]);
                assert(m.drop_first().push(g)[key_index(m.drop_first(), p)] == m.push(g)[
                    key_index(m, p)
                ]);
            }
        }
    }
}

/// An error in a prefix of the input is the error of the whole input.
proof fn lemma_unique_err_extend(entries: Seq<(usize, MetaV)>, k: int)
    requires
        0 <= k <= entries.len(),
        unique_map_of(entries.take(k)) is Err,
    ensures
        unique_map_of(entries) == unique_map_of(entries.take(k)),
    decreases entries.len() - k,
{
    if k < entries.len() {
        assert(entries.take(k + 1).drop_last() =~= entries.take(k));
        lemma_unique_err_extend(entries, k + 1);
    } else {
        assert(entries.take(k) =~= entries);
    }
}

/// A unique-valued map succeeds exactly on pairwise-distinct paths, and then
/// keeps every item in input order under its own path.
pub proof fn lemma_unique_map_props(entries: Seq<(usize, MetaV)>)
    ensures
        unique_map_of(entries) matches Ok(m) ==> {
            &&& m.len() == entries.len()
            &&& forall|k: int|
                0 <= k < entries.len() ==> #[trigger] m[k] == (
                    spec_meta_path(entries[k].1),
                    entries[k],
                )
        },
        unique_map_of(entries) is Ok <==> (forall|i: int, j: int|
            0 <= i < j < entries.len() ==> spec_meta_path(#[trigger] entries[i].1)
                != spec_meta_path(#[trigger] entries[j].1)),
    decreases entries.len(),
{
    if entries.len() > 0 {
        let prefix = entries.drop_last();
        lemma_unique_map_props(prefix);
        assert(forall|k: int| 0 <= k < prefix.len() ==> #[trigger] prefix[k] == entries[k]);
        let e0 = entries.last();
        let q = spec_meta_path(e0.1);
        match unique_map_of(prefix) {
            Ok(m) => {
                lemma_key_index(m, q);
                let ki = key_index(m, q);
                if ki >= 0 {
                    // The repeated path shows the whole input is not
                    // pairwise distinct.
                    assert(m[ki] == (spec_meta_path(prefix[ki].1), prefix[ki]));
                    assert(spec_meta_path(entries[ki].1) == q);
                    assert(spec_meta_path(entries[entries.len() - 1].1) == q);
                    assert(!(forall|i: int, j: int|
                        0 <= i < j < entries.len() ==> spec_meta_path(#[trigger] entries[i].1)
                            != spec_meta_path(#[trigger] entries[j].1)));
                } else {
                    let m2 = m.push((q, e0));
                    assert forall|k: int|
                        0 <= k < entries.len() implies #[trigger] m2[k] == (
                        spec_meta_path(entries[k].1),
                        entries[k],
                    ) by {
                        if k < prefix.len() {
                            assert(m2[k] == m[k]);
                        } else {
                            assert(m2[k] == (q, e0));
                        }
                    }
                    assert forall|i: int, j: int|
                        0 <= i < j < entries.len() implies spec_meta_path(
                        #[trigger] entries[i].1,
                    ) != spec_meta_path(#[trigger] entries[j].1) by {
                        if j == entries.len() - 1 {
                            assert(m[i] == (spec_meta_path(prefix[i].1), prefix[i]));
                            assert(m[i].0 != q);
                        } else {
                            assert(spec_meta_path(prefix[i].1) != spec_meta_path(prefix[j].1));
                        }
                    }
                }
            },
            Err(_) => {
                // The prefix already held a repeated path.
                assert(!(forall|i: int, j: int|
                    0 <= i < j < prefix.len() ==> spec_meta_path(#[trigger] prefix[i].1)
                        != spec_meta_path(#[trigger] prefix[j].1)));
                let (i0, j0) = choose|i: int, j: int|
                    0 <= i < j < prefix.len() && spec_meta_path(#[trigger] prefix[i].1)
                        == spec_meta_path(#[trigger] prefix[j].1);
                assert(spec_meta_path(entries[i0].1) == spec_meta_path(entries[j0].1));
                assert(!(forall|i: int, j: int|
                    0 <= i < j < entries.len() ==> spec_meta_path(#[trigger] entries[i].1)
                        != spec_meta_path(#[trigger] entries[j].1)));
            },
        }
    }
}

/// The indexed metadata items of a nested-element list, literals left out.
pub open spec fn metas_of(s: Seq<NestedMetaV>) -> Seq<(usize, MetaV)>
    decreases s.len(),
{
    if s.len() == 0 {
        Seq::empty()
    } else {
        metas_of(s.drop_last()) + (match s.last() {
            NestedMetaV::Meta(m) => seq![(((s.len() - 1) as usize), m)],
            NestedMetaV::Lit(_) => Seq::empty(),
        })
    }
}

/// The indexed literals of a nested-element list, metadata items left out.
pub open spec fn lits_of(s: Seq<NestedMetaV>) -> Seq<(usize, LitV)>
    decreases s.len(),
{
    if s.len() == 0 {
        Seq::empty()
    } else {
        lits_of(s.drop_last()) + (match s.last() {
            NestedMetaV::Lit(l) => seq![(((s.len() - 1) as usize), l)],
            NestedMetaV::Meta(_) => Seq::empty(),
        })
    }
}

/// The values of an indexed literal list.
pub open spec fn lits_view(s: Seq<(usize, Lit)>) -> Seq<(usize, LitV)> {
    s.map_values(|e: (usize, Lit)| (e.0, e.1@))
}

/// Splits a nested-element list into its indexed metadata items and indexed
/// literals.
fn split_nested(items: &Vec<NestedMeta>) -> (r: (Vec<(usize, Meta1)>, Vec<(usize, Lit)>))
    ensures
        entries_view(r.0@) == metas_of(nested_views(items@)),
        lits_view(r.1@) == lits_of(nested_views(items@)),
{
    let ghost all = nested_views(items@);
    proof {
        crate::meta::lemma_nested_views(items@);
    }
    let mut metas: Vec<(usize, Meta1)> = Vec::new();
    let mut lits: Vec<(usize, Lit)> = Vec::new();
    let mut i: usize = 0;
    proof {
        assert(entries_view(metas@) =~= metas_of(all.take(0)));
        assert(lits_view(lits@) =~= lits_of(all.take(0)));
    }
    while i < items.len()
        invariant
            i <= items.len(),
            all == nested_views(items@),
            all.len() == items.len(),
            forall|j: int| 0 <= j < all.len() ==> all[j] == #[trigger] items@[j]@,
            entries_view(metas@) == metas_of(all.take(i as int)),
            lits_view(lits@) == lits_of(all.take(i as int)),
        decreases items.len() - i,
    {
        proof {
            assert(all.take(i + 1).drop_last() =~= all.take(i as int));
            assert(all.take(i + 1).last() == all[i as int]);
        }
        let ghost old_metas = metas@;
        let ghost old_lits = lits@;
        match &items[i] {
            NestedMeta::Meta(m) => {
                metas.push((i, m.clone()));
                proof {
                    assert(entries_view(metas@) =~= entries_view(old_metas) + seq![
                        ((i, items@[i as int]@->Meta_0)),
                    ]);
                    assert(lits_view(lits@) =~= lits_of(all.take(i + 1)));
                }
            },
            NestedMeta::Lit(l) => {
                lits.push((i, l.clone()));
                proof {
                    assert(lits_view(lits@) =~= lits_view(old_lits) + seq![
                        ((i, items@[i as int]@->Lit_0)),
                    ]);
                    assert(entries_view(metas@) =~= metas_of(all.take(i + 1)));
                }
            },
        }
        i = i + 1;
    }
    proof {
        assert(all.take(all.len() as int) =~= all);
    }
    (metas, lits)
}

/// Map building over borrowed nested-element lists: the metadata items go
/// into a map keyed by path, the bare literals are handed back with their
/// positions.
pub trait NestedMetaRefIteratorExt {
    /// The element values the collection holds.
    spec fn elems(&self) -> Seq<NestedMetaV>;

    /// Groups the metadata items by path and returns the literals apart.
    fn to_multi_map_and_lits(&self) -> (r: (MultiMetaMap, Vec<(usize, Lit)>))
        ensures
            mm_view(r.0@) == multi_map_of(metas_of(self.elems())),
            lits_view(r.1@) == lits_of(self.elems()),
    ;

    /// Maps each path to its single metadata item and returns the literals
    /// apart; an error as soon as a path repeats.
    fn to_unique_map_and_lits(&self) -> (r: Result<(UniqueMetaMap, Vec<(usize, Lit)>), Error>)
        ensures
            match r {
                Ok((m, lits)) => unique_map_of(metas_of(self.elems())) == Ok::<_, Error>(
                    um_view(m@),
                ) && lits_view(lits@) == lits_of(self.elems()),
                Err(e) => unique_map_of(metas_of(self.elems())) == Err::<
                    Seq<(PathV, (usize, MetaV))>,
                    _,
                >(e),
            },
    ;
}

impl NestedMetaRefIteratorExt for Vec<NestedMeta> {
    open spec fn elems(&self) -> Seq<NestedMetaV> {
        nested_views(self@)
    }

    fn to_multi_map_and_lits(&self) -> (r: (MultiMetaMap, Vec<(usize, Lit)>)) {
        let (metas, lits) = split_nested(self);
        let map = metas.to_multi_map();
        (map, lits)
    }

    fn to_unique_map_and_lits(&self) -> (r: Result<
        (UniqueMetaMap, Vec<(usize, Lit)>),
        Error,
    >) {
        let (metas, lits) = split_nested(self);
        match metas.to_unique_map() {
            Ok(map) => Ok((map, lits)),
            Err(e) => Err(e),
        }
    }
}

/// Map building over owned nested-element lists.
pub trait NestedMetaIteratorExt: Sized {
    /// The element values the collection holds.
    spec fn elems_owned(&self) -> Seq<NestedMetaV>;

    /// Groups the metadata items by path and returns the literals apart.
    fn into_multi_map_and_lits(self) -> (r: (MultiMetaMap, Vec<(usize, Lit)>))
        ensures
            mm_view(r.0@) == multi_map_of(metas_of(self.elems_owned())),
            lits_view(r.1@) == lits_of(self.elems_owned()),
    ;

    /// Maps each path to its single metadata item and returns the literals
    /// apart; an error as soon as a path repeats.
    fn into_unique_map_and_lits(self) -> (r: Result<
        (UniqueMetaMap, Vec<(usize, Lit)>),
        Error,
    >)
        ensures
            match r {
                Ok((m, lits)) => unique_map_of(metas_of(self.elems_owned())) == Ok::<_, Error>(
                    um_view(m@),
                ) && lits_view(lits@) == lits_of(self.elems_owned()),
                Err(e) => unique_map_of(metas_of(self.elems_owned())) == Err::<
                    Seq<(PathV, (usize, MetaV))>,
                    _,
                >(e),
            },
    ;
}

impl NestedMetaIteratorExt for Vec<NestedMeta> {
    open spec fn elems_owned(&self) -> Seq<NestedMetaV> {
        nested_views(self@)
    }

    fn into_multi_map_and_lits(self) -> (r: (MultiMetaMap, Vec<(usize, Lit)>)) {
        self.to_multi_map_and_lits()
    }

    fn into_unique_map_and_lits(self) -> (r: Result<
        (UniqueMetaMap, Vec<(usize, Lit)>),
        Error,
    >) {
        self.to_unique_map_and_lits()
    }
}

/// The group held under `p`, if the key is present.
pub fn multi_map_get<'a>(m: &'a MultiMetaMap, p: &Path) -> (r: Option<
    &'a Vec<(usize, Meta1)>,
>)
    ensures
        match r {
            Some(g) => key_index(mm_view(m@), p@) >= 0 && entries_view(g@) == group_of(
                mm_view(m@),
                p@,
            ),
            None => key_index(mm_view(m@), p@) < 0,
        },
{
    match mm_find(m, p) {
        Some(j) => Some(&m[j].1),
        None => None,
    }
}

/// The single indexed item held under `p`, if the key is present.
pub fn unique_map_get<'a>(m: &'a UniqueMetaMap, p: &Path) -> (r: Option<&'a (usize, Meta1)>)
    ensures
        match r {
            Some(g) => {
                let ki = key_index(um_view(m@), p@);
                ki >= 0 && (g.0, g.1@) == um_view(m@)[ki].1
            },
            None => key_index(um_view(m@), p@) < 0,
        },
{
    match um_find(m, p) {
        Some(j) => Some(&m[j].1),
        None => None,
    }
}

/// The keys of a multi-valued map are pairwise distinct.
pub proof fn lemma_multi_map_keys_distinct(entries: Seq<(usize, MetaV)>)
    ensures
        forall|k1: int, k2: int|
            0 <= k1 < k2 < multi_map_of(entries).len() ==> (#[trigger] multi_map_of(
                entries,
            )[k1]).0 != (#[trigger] multi_map_of(entries)[k2]).0,
    decreases entries.len(),
{
    if entries.len() > 0 {
        let prefix = entries.drop_last();
        lemma_multi_map_keys_distinct(prefix);
        let m = multi_map_of(prefix);
        let e0 = entries.last();
        let q = spec_meta_path(e0.1);
        lemma_key_index(m, q);
        let ki = key_index(m, q);
        let m2 = multi_map_of(entries);
        if ki >= 0 {
            assert(m2 == m.update(ki, (q, m[ki].1.push(e0))));
            assert forall|k1: int, k2: int|
                0 <= k1 < k2 < m2.len() implies (#[trigger] m2[k1]).0 != (
            #[trigger] m2[k2]).0 by {
                assert(m2[k1].0 == m[k1].0 && m2[k2].0 == m[k2].0);
            }
        } else {
            assert(m2 == m.push((q, seq![e0])));
            assert forall|k1: int, k2: int|
                0 <= k1 < k2 < m2.len() implies (#[trigger] m2[k1]).0 != (
            #[trigger] m2[k2]).0 by {
                if k2 == m.len() {
                    assert(m2[k1].0 == m[k1].0);
                    assert(m[k1].0 != q);
                } else {
                    assert(m2[k1].0 == m[k1].0 && m2[k2].0 == m[k2].0);
                }
            }
        }
    }
}

} // verus!
