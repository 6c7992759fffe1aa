//! The physical table: one set of items, each addressed by a globally
//! unique partition-key / sort-key pair.
//!
//! This is the in-memory realization of the backing store's contract,
//! the second implementation the data-access layer is written against:
//! conditional creation fails exactly when the key pair already exists,
//! and deletion and replacement touch exactly the addressed item. The
//! store-backed realization lives outside the library.

use vstd::prelude::*;

use crate::attr::{attr_str, Attr, AttrName, AttrV, Item};
use crate::keys::{has_prefix, str_eq, str_has_prefix};
use crate::Error;

verus! {

/// An item carries its own primary key as two string attributes.
pub open spec fn keyed(m: Map<AttrName, AttrV>) -> bool {
    &&& m.contains_key(AttrName::Pk)
    &&& m[AttrName::Pk] is S
    &&& m.contains_key(AttrName::Sk)
    &&& m[AttrName::Sk] is S
}

/// The partition-key / sort-key pair of an item.
pub open spec fn item_key(m: Map<AttrName, AttrV>) -> (Seq<char>, Seq<char>) {
    (attr_str(m[AttrName::Pk]), attr_str(m[AttrName::Sk]))
}

/// The meaning of a row list: a map from key pairs to items.
pub open spec fn rows_map(s: Seq<Item>) -> Map<(Seq<char>, Seq<char>), Map<AttrName, AttrV>>
    decreases s.len(),
{
    if s.len() == 0 {
        Map::empty()
    } else {
        rows_map(s.drop_last()).insert(item_key(s.last()@), s.last()@)
    }
}

/// Rows are well-formed and no key pair occurs twice.
pub open spec fn rows_wf(s: Seq<Item>) -> bool {
    &&& forall|i: int|
        0 <= i < s.len() ==> (#[trigger] s[i]).wf() && keyed(s[i]@)
    &&& forall|i: int, j: int|
        0 <= i < j < s.len() ==> item_key(#[trigger] s[i]@) != item_key(#[trigger] s[j]@)
}

pub proof fn lemma_rows_map_at(s: Seq<Item>, i: int)
    requires
        rows_wf(s),
        0 <= i < s.len(),
    ensures
        rows_map(s).contains_key(item_key(s[i]@)),
        rows_map(s)[item_key(s[i]@)] == s[i]@,
    decreases s.len(),
{
    if i < s.len() - 1 {
        assert(s.drop_last()[i] == s[i]);
        lemma_rows_map_at(s.drop_last(), i);
        assert(item_key(s[i]@) != item_key(s.last()@));
    }
}

pub proof fn lemma_rows_map_contains(s: Seq<Item>, k: (Seq<char>, Seq<char>))
    ensures
        rows_map(s).contains_key(k) <==> exists|i: int|
            0 <= i < s.len() && item_key(#[trigger] s[i]@) == k,
    decreases s.len(),
{
    if s.len() > 0 {
        lemma_rows_map_contains(s.drop_last(), k);
        if item_key(s.last()@) == k {
            assert(item_key(s[s.len() - 1]@) == k);
        } else if rows_map(s).contains_key(k) {
            let i = choose|i: int|
                0 <= i < s.len() - 1 && item_key(#[trigger] s.drop_last()[i]@) == k;
            assert(item_key(s[i]@) == k);
        } else {
            assert forall|i: int| 0 <= i < s.len() && item_key(#[trigger] s[i]@) == k implies false by {
                if i < s.len() - 1 {
                    assert(item_key(s.drop_last()[i]@) == k);
                }
            }
        }
    }
}

/// In a well-formed table, an item sits under its own key.
pub proof fn lemma_rows_map_key(s: Seq<Item>, k: (Seq<char>, Seq<char>))
    requires
        rows_wf(s),
        rows_map(s).contains_key(k),
    ensures
        item_key(rows_map(s)[k]) == k,
        keyed(rows_map(s)[k]),
{
    lemma_rows_map_contains(s, k);
    let i = choose|i: int| 0 <= i < s.len() && item_key(#[trigger] s[i]@) == k;
    lemma_rows_map_at(s, i);
}

proof fn lemma_rows_map_update(s: Seq<Item>, i: int, item: Item)
    requires
        rows_wf(s),
        0 <= i < s.len(),
        item.wf(),
        keyed(item@),
        item_key(item@) == item_key(s[i]@),
    ensures
        rows_map(s.update(i, item)) == rows_map(s).insert(item_key(item@), item@),
        rows_wf(s.update(i, item)),
    decreases s.len(),
{
    let t = s.update(i, item);
    if i == s.len() - 1 {
        assert(t.drop_last() =~= s.drop_last());
        assert(t.last() == item);
        assert(rows_map(t) =~= rows_map(s).insert(item_key(item@), item@));
    } else {
        assert(s.drop_last()[i] == s[i]);
        lemma_rows_map_update(s.drop_last(), i, item);
        assert(t.drop_last() =~= s.drop_last().update(i, item));
        assert(t.last() == s.last());
        assert(item_key(s[i]@) != item_key(s.last()@));
        assert(rows_map(t) =~= rows_map(s).insert(item_key(item@), item@));
    }
}

proof fn lemma_rows_map_remove(s: Seq<Item>, i: int)
    requires
        rows_wf(s),
        0 <= i < s.len(),
    ensures
        rows_map(s.remove(i)) == rows_map(s).remove(item_key(s[i]@)),
        rows_wf(s.remove(i)),
    decreases s.len(),
{
    let t = s.remove(i);
    lemma_rows_map_contains(s.drop_last(), item_key(s.last()@));
    if i == s.len() - 1 {
        assert(t =~= s.drop_last());
        assert forall|j: int|
            0 <= j < s.len() - 1 implies item_key(#[trigger] s.drop_last()[j]@) != item_key(
            s.last()@,
        ) by {
            assert(s.drop_last()[j] == s[j]);
        }
        assert(!rows_map(s.drop_last()).contains_key(item_key(s.last()@)));
        assert(rows_map(t) =~= rows_map(s).remove(item_key(s[i]@)));
    } else {
        assert(s.drop_last()[i] == s[i]);
        lemma_rows_map_remove(s.drop_last(), i);
        assert(t.drop_last() =~= s.drop_last().remove(i));
        assert(t.last() == s.last());
        assert(item_key(s[i]@) != item_key(s.last()@));
        assert(rows_map(t) =~= rows_map(s).remove(item_key(s[i]@)));
        assert forall|a: int, b: int| 0 <= a < b < t.len() implies item_key(
            #[trigger] t[a]@,
        ) != item_key(#[trigger] t[b]@) by {
            let sa: int = if a < i {
                a
            } else {
                a + 1
            };
            let sb: int = if b < i {
                b
            } else {
                b + 1
            };
            assert(t[a] == s[sa]);
            assert(t[b] == s[sb]);
        }
    }
}

/// Every key of `a` is in `b` with the same value.
pub open spec fn submap_values<K, V>(a: Map<K, V>, b: Map<K, V>) -> bool {
    forall|k: K| #[trigger] a.contains_key(k) ==> b.contains_key(k) && a[k] == b[k]
}

/// A condition selecting rows for bulk deletion.
pub enum RowCond {
    /// Rows under a partition key whose sort key begins with a prefix:
    /// the shape of bulk session revocation.
    SkPrefix(String, String),
    /// Rows whose TTL attribute is at most the given time: the shape
    /// of the store's TTL reclamation.
    TtlAtMost(i64),
}

/// Whether a row matches a [`RowCond`].
pub open spec fn cond_matches(c: RowCond, m: Map<AttrName, AttrV>) -> bool {
    match c {
        RowCond::SkPrefix(pk, prefix) => item_key(m).0 == pk@ && has_prefix(item_key(m).1, prefix@),
        RowCond::TtlAtMost(t) => m.contains_key(AttrName::Ttl) && match m[AttrName::Ttl] {
            AttrV::N(v) => v <= t,
            _ => false,
        },
    }
}

fn cond_matches_row(c: &RowCond, row: &Item) -> (r: bool)
    requires
        row.wf(),
        keyed(row@),
    ensures
        r == cond_matches(*c, row@),
{
    match c {
        RowCond::SkPrefix(pk, prefix) => {
            let rpk = match row.get_s(AttrName::Pk) {
                Some(s) => s,
                None => vstd::pervasive::unreached(),
            };
            if !str_eq(rpk.as_str(), pk.as_str()) {
                return false;
            }
            let rsk = match row.get_s(AttrName::Sk) {
                Some(s) => s,
                None => vstd::pervasive::unreached(),
            };
            str_has_prefix(rsk.as_str(), prefix.as_str())
        },
        RowCond::TtlAtMost(t) => {
            match row.get(AttrName::Ttl) {
                Some(Attr::N(v)) => *v <= *t,
                Some(_) => false,
                None => false,
            }
        },
    }
}

/// The one physical table.
pub struct Table {
    pub rows: Vec<Item>,
}

impl View for Table {
    type V = Map<(Seq<char>, Seq<char>), Map<AttrName, AttrV>>;

    open spec fn view(&self) -> Map<(Seq<char>, Seq<char>), Map<AttrName, AttrV>> {
        rows_map(self.rows@)
    }
}

impl Table {
    pub open spec fn wf(self) -> bool {
        rows_wf(self.rows@)
    }

    pub fn new() -> (r: Table)
        ensures
            r.wf(),
            r@ == Map::<(Seq<char>, Seq<char>), Map<AttrName, AttrV>>::empty(),
    {
        Table { rows: Vec::new() }
    }

    /// Index of the item with the given key pair, if any.
    fn find(&self, pk: &str, sk: &str) -> (r: Option<usize>)
        requires
            self.wf(),
        ensures
            match r {
                Some(i) => i < self.rows@.len() && item_key(self.rows@[i as int]@) == (pk@, sk@)
                    && self@.contains_key((pk@, sk@)) && self@[(pk@, sk@)] == self.rows@[i as int]@,
                None => !self@.contains_key((pk@, sk@)),
            },
    {
        let len = self.rows.len();
        let mut i: usize = 0;
        while i < len
            invariant
                i <= len,
                len == self.rows@.len(),
                self.wf(),
                forall|j: int| 0 <= j < i ==> item_key(#[trigger] self.rows@[j]@) != (pk@, sk@),
            decreases len - i,
        {
            let row = &self.rows[i];
            let rpk = match row.get_s(AttrName::Pk) {
                Some(s) => s,
                None => vstd::pervasive::unreached(),
            };
            if str_eq(rpk.as_str(), pk) {
                let rsk = match row.get_s(AttrName::Sk) {
                    Some(s) => s,
                    None => vstd::pervasive::unreached(),
                };
                if str_eq(rsk.as_str(), sk) {
                    proof {
                        lemma_rows_map_at(self.rows@, i as int);
                    }
                    return Some(i);
                }
            }
            i = i + 1;
        }
        proof {
            lemma_rows_map_contains(self.rows@, (pk@, sk@));
        }
        None
    }

    /// Reads the item stored under a key pair.
    pub fn get_item(&self, pk: &str, sk: &str) -> (r: Option<Item>)
        requires
            self.wf(),
        ensures
            match r {
                Some(item) => self@.contains_key((pk@, sk@)) && self@[(pk@, sk@)] == item@
                    && item.wf() && keyed(item@),
                None => !self@.contains_key((pk@, sk@)),
            },
    {
        match self.find(pk, sk) {
            Some(i) => Some(self.rows[i].clone()),
            None => None,
        }
    }

    pub fn contains(&self, pk: &str, sk: &str) -> (r: bool)
        requires
            self.wf(),
        ensures
            r == self@.contains_key((pk@, sk@)),
    {
        self.find(pk, sk).is_some()
    }

    /// A conditional write: stores the item only if its key pair does
    /// not already exist; fails with `Conflict` otherwise.
    pub fn put_new(&mut self, item: Item) -> (r: Result<(), Error>)
        requires
            old(self).wf(),
            item.wf(),
            keyed(item@),
        ensures
            final(self).wf(),
            r is Ok <==> !old(self)@.contains_key(item_key(item@)),
            r is Ok ==> final(self)@ == old(self)@.insert(item_key(item@), item@),
            r is Err ==> final(self)@ == old(self)@ && r == Err::<(), Error>(Error::Conflict),
    {
        let pk = match item.get_s(AttrName::Pk) {
            Some(s) => s.clone(),
            None => vstd::pervasive::unreached(),
        };
        let sk = match item.get_s(AttrName::Sk) {
            Some(s) => s.clone(),
            None => vstd::pervasive::unreached(),
        };
        match self.find(pk.as_str(), sk.as_str()) {
            Some(_) => Err(Error::Conflict),
            None => {
                proof {
                    lemma_rows_map_contains(self.rows@, (pk@, sk@));
                    assert(self.rows@.push(item).drop_last() =~= self.rows@);
                    assert forall|a: int, b: int|
                        0 <= a < b < self.rows@.push(item).len() implies item_key(
                        #[trigger] self.rows@.push(item)[a]@,
                    ) != item_key(#[trigger] self.rows@.push(item)[b]@) by {
                        if b < self.rows@.len() {
                            assert(self.rows@[a] == self.rows@.push(item)[a]);
                            assert(self.rows@[b] == self.rows@.push(item)[b]);
                        } else {
                            assert(self.rows@.push(item)[b] == item);
                            assert(self.rows@.push(item)[a] == self.rows@[a]);
                        }
                    }
                }
                self.rows.push(item);
                Ok(())
            },
        }
    }

    /// An unconditional write: stores the item, replacing any item
    /// that the key pair already names.
    pub fn put_any(&mut self, item: Item)
        requires
            old(self).wf(),
            item.wf(),
            keyed(item@),
        ensures
            final(self).wf(),
            final(self)@ == old(self)@.insert(item_key(item@), item@),
    {
        let pk = match item.get_s(AttrName::Pk) {
            Some(s) => s.clone(),
            None => vstd::pervasive::unreached(),
        };
        let sk = match item.get_s(AttrName::Sk) {
            Some(s) => s.clone(),
            None => vstd::pervasive::unreached(),
        };
        match self.find(pk.as_str(), sk.as_str()) {
            Some(i) => {
                proof {
                    lemma_rows_map_update(self.rows@, i as int, item);
                }
                self.rows.set(i, item);
            },
            None => {
                proof {
                    lemma_rows_map_contains(self.rows@, (pk@, sk@));
                    assert(self.rows@.push(item).drop_last() =~= self.rows@);
                    assert forall|a: int, b: int|
                        0 <= a < b < self.rows@.push(item).len() implies item_key(
                        #[trigger] self.rows@.push(item)[a]@,
                    ) != item_key(#[trigger] self.rows@.push(item)[b]@) by {
                        if b < self.rows@.len() {
                            assert(self.rows@[a] == self.rows@.push(item)[a]);
                            assert(self.rows@[b] == self.rows@.push(item)[b]);
                        } else {
                            assert(self.rows@.push(item)[b] == item);
                            assert(self.rows@.push(item)[a] == self.rows@[a]);
                        }
                    }
                }
                self.rows.push(item);
            },
        }
    }

    /// Deletes every item a condition selects. One sweep serves both
    /// bulk session revocation and the store's TTL reclamation.
    pub fn delete_matching(&mut self, cond: &RowCond)
        requires
            old(self).wf(),
        ensures
            final(self).wf(),
            forall|k: (Seq<char>, Seq<char>)|
                final(self)@.contains_key(k) <==> old(self)@.contains_key(k) && !cond_matches(
                    *cond,
                    old(self)@[k],
                ),
            forall|k: (Seq<char>, Seq<char>)|
                final(self)@.contains_key(k) ==> final(self)@[k] == old(self)@[k],
    {
        let ghost orig = self.rows@;
        let len = self.rows.len();
        let mut kept: Vec<Item> = Vec::new();
        let mut i: usize = 0;
        while i < len
            invariant
                i <= len,
                len == orig.len(),
                rows_wf(orig),
                self.rows@ == orig,
                rows_wf(kept@),
                submap_values(rows_map(kept@), rows_map(orig)),
                forall|k: (Seq<char>, Seq<char>)|
                    rows_map(kept@).contains_key(k) <==> exists|j: int|
                        0 <= j < i && item_key(#[trigger] orig[j]@) == k && !cond_matches(
                            *cond,
                            orig[j]@,
                        ),
            decreases len - i,
        {
            let row = &self.rows[i];
            proof {
                lemma_rows_map_at(orig, i as int);
                lemma_rows_map_contains(kept@, item_key(orig[i as int]@));
            }
            if !cond_matches_row(cond, row) {
                proof {
                    if rows_map(kept@).contains_key(item_key(orig[i as int]@)) {
                        let j = choose|j: int|
                            0 <= j < i && item_key(#[trigger] orig[j]@) == item_key(
                                orig[i as int]@,
                            ) && !cond_matches(*cond, orig[j]@);
                        assert(false);
                    }
                }
                let copy = row.clone();
                let ghost prev = kept@;
                let ghost newkey = item_key(orig[i as int]@);
                kept.push(copy);
                proof {
                    assert(kept@.drop_last() =~= prev);
                    assert(kept@.last() == copy);
                    assert(copy@ == orig[i as int]@);
                    assert(rows_map(kept@) == rows_map(prev).insert(newkey, orig[i as int]@));
                    assert forall|a: int, b: int| 0 <= a < b < kept@.len() implies item_key(
                        #[trigger] kept@[a]@,
                    ) != item_key(#[trigger] kept@[b]@) by {
                        if b < prev.len() {
                            assert(kept@[a] == prev[a]);
                            assert(kept@[b] == prev[b]);
                        } else {
                            assert(kept@[a] == prev[a]);
                            assert(kept@[b] == copy);
                            lemma_rows_map_at(prev, a);
                        }
                    }
                    assert forall|k: (Seq<char>, Seq<char>)|
                        rows_map(kept@).contains_key(k) implies (exists|j: int|
                        0 <= j < i + 1 && item_key(#[trigger] orig[j]@) == k && !cond_matches(
                            *cond,
                            orig[j]@,
                        )) by {
                        if k == newkey {
                            assert(item_key(orig[i as int]@) == k && !cond_matches(
                                *cond,
                                orig[i as int]@,
                            ));
                        } else {
                            assert(rows_map(prev).contains_key(k));
                        }
                    }
                    assert(submap_values(rows_map(prev), rows_map(orig)));
                    assert forall|k: (Seq<char>, Seq<char>)|
                        #[trigger] rows_map(kept@).contains_key(k) implies rows_map(
                        orig,
                    ).contains_key(k) && rows_map(kept@)[k] == rows_map(orig)[k] by {
                        lemma_rows_map_at(orig, i as int);
                        if k == newkey {
                            assert(rows_map(kept@)[k] == orig[i as int]@);
                            assert(rows_map(orig).contains_key(k));
                            assert(rows_map(orig)[k] == orig[i as int]@);
                        } else {
                            assert(rows_map(prev).contains_key(k));
                            assert(rows_map(kept@)[k] == rows_map(prev)[k]);
                        }
                    }
                    assert(submap_values(rows_map(kept@), rows_map(orig)));
                    assert forall|k: (Seq<char>, Seq<char>)|
                        (exists|j: int|
                            0 <= j < i + 1 && item_key(#[trigger] orig[j]@) == k && !cond_matches(
                                *cond,
                                orig[j]@,
                            )) implies rows_map(kept@).contains_key(k) by {
                        let j = choose|j: int|
                            0 <= j < i + 1 && item_key(#[trigger] orig[j]@) == k && !cond_matches(
                                *cond,
                                orig[j]@,
                            );
                        if j < i {
                            assert(rows_map(prev).contains_key(k));
                        } else {
                            assert(k == newkey);
                        }
                    }
                }
            } else {
                proof {
                    assert forall|k: (Seq<char>, Seq<char>)|
                        rows_map(kept@).contains_key(k) implies (exists|j: int|
                        0 <= j < i + 1 && item_key(#[trigger] orig[j]@) == k && !cond_matches(
                            *cond,
                            orig[j]@,
                        )) by {
                        let j = choose|j: int|
                            0 <= j < i && item_key(#[trigger] orig[j]@) == k && !cond_matches(
                                *cond,
                                orig[j]@,
                            );
                    }
                    assert forall|k: (Seq<char>, Seq<char>)|
                        (exists|j: int|
                            0 <= j < i + 1 && item_key(#[trigger] orig[j]@) == k && !cond_matches(
                                *cond,
                                orig[j]@,
                            )) implies rows_map(kept@).contains_key(k) by {
                        let j = choose|j: int|
                            0 <= j < i + 1 && item_key(#[trigger] orig[j]@) == k && !cond_matches(
                                *cond,
                                orig[j]@,
                            );
                        if j == i {
                            assert(false);
                        }
                    }
                }
            }
            i = i + 1;
        }
        let ghost keptv = kept@;
        self.rows = kept;
        proof {
            assert forall|k: (Seq<char>, Seq<char>)| #[trigger]
                self@.contains_key(k) implies self@[k] == rows_map(orig)[k] by {
                assert(rows_map(keptv).contains_key(k));
            }
            assert forall|k: (Seq<char>, Seq<char>)|
                self@.contains_key(k) <==> (rows_map(orig).contains_key(k) && !cond_matches(
                    *cond,
                    rows_map(orig)[k],
                )) by {
                lemma_rows_map_contains(orig, k);
                if rows_map(orig).contains_key(k) {
                    let j = choose|j: int| 0 <= j < orig.len() && item_key(#[trigger] orig[j]@) == k;
                    lemma_rows_map_at(orig, j);
                    assert forall|j2: int|
                        0 <= j2 < orig.len() && item_key(#[trigger] orig[j2]@) == k implies
                        orig[j2]@ == rows_map(orig)[k] by {
                        lemma_rows_map_at(orig, j2);
                    }
                }
            }
        }
    }

    /// Deletes the item under a key pair; deleting an absent key is a
    /// no-op, as in the backing store.
    pub fn delete(&mut self, pk: &str, sk: &str)
        requires
            old(self).wf(),
        ensures
            final(self).wf(),
            final(self)@ == old(self)@.remove((pk@, sk@)),
    {
        match self.find(pk, sk) {
            Some(i) => {
                proof {
                    lemma_rows_map_remove(self.rows@, i as int);
                }
                self.rows.remove(i);
            },
            None => {
                proof {
                    assert(self@ =~= self@.remove((pk@, sk@)));
                }
            },
        }
    }
}

} // verus!
