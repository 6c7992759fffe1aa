//! The generic attribute map that every stored item is made of.
//!
//! The physical table stores items as maps from attribute names to
//! values. The fixed single-table layout uses a known set of attribute
//! names, so they are an enumeration here; the request-handling layer
//! renders them as the wire strings (`PK`, `GSI1PK`, ...). An item's
//! mathematical meaning is a finite map from names to abstract values.

use vstd::prelude::*;

verus! {

/// Attribute names of the single-table layout, including every
/// secondary-index projection.
#[derive(Clone, Copy, Debug, PartialEq, Eq, Structural)]
pub enum AttrName {
    Pk,
    Sk,
    Password,
    Phone,
    CreatedAt,
    UpdatedAt,
    ExpiredAt,
    Ttl,
    Owner,
    TaxDate,
    FitnessDate,
    InsuranceDate,
    RouteDate,
    Sold,
    Payer,
    Gsi1Pk,
    Gsi1Sk,
    Gsi2Pk,
    Gsi2Sk,
    Gsi3Pk,
    Gsi3Sk,
    Gsi4Pk,
    Gsi4Sk,
    Gsi5Pk,
    Gsi5Sk,
    Gsi7Pk,
    Lsi1Sk,
}

/// An attribute value: a string, a number, a boolean, or null.
#[derive(Debug)]
pub enum Attr {
    S(String),
    N(i64),
    Bool(bool),
    Null,
}

/// The mathematical value of an attribute.
pub enum AttrV {
    S(Seq<char>),
    N(int),
    Bool(bool),
    Null,
}

impl View for Attr {
    type V = AttrV;

    open spec fn view(&self) -> AttrV {
        match self {
            Attr::S(s) => AttrV::S(s@),
            Attr::N(n) => AttrV::N(*n as int),
            Attr::Bool(b) => AttrV::Bool(*b),
            Attr::Null => AttrV::Null,
        }
    }
}

impl Clone for Attr {
    fn clone(&self) -> (r: Self)
        ensures
            r == *self,
    {
        match self {
            Attr::S(s) => Attr::S(s.clone()),
            Attr::N(n) => Attr::N(*n),
            Attr::Bool(b) => Attr::Bool(*b),
            Attr::Null => Attr::Null,
        }
    }
}

impl Attr {
    /// The string inside, if the value is a string.
    pub fn as_s(&self) -> (r: Option<&String>)
        ensures
            match r {
                Some(s) => self@ == AttrV::S(s@),
                None => !(self@ is S),
            },
    {
        match self {
            Attr::S(s) => Some(s),
            _ => None,
        }
    }
}

/// The string inside an abstract attribute value; empty for non-strings.
pub open spec fn attr_str(v: AttrV) -> Seq<char> {
    match v {
        AttrV::S(s) => s,
        _ => Seq::empty(),
    }
}

/// The meaning of a name/value list: later entries win, as in a map.
pub open spec fn map_of(s: Seq<(AttrName, Attr)>) -> Map<AttrName, AttrV>
    decreases s.len(),
{
    if s.len() == 0 {
        Map::empty()
    } else {
        map_of(s.drop_last()).insert(s.last().0, s.last().1@)
    }
}

/// No attribute name occurs twice in the list.
pub open spec fn distinct_names(s: Seq<(AttrName, Attr)>) -> bool {
    forall|i: int, j: int|
        0 <= i < j < s.len() ==> (#[trigger] s[i]).0 != (#[trigger] s[j]).0
}

pub proof fn lemma_map_of_contains(s: Seq<(AttrName, Attr)>, n: AttrName)
    ensures
        map_of(s).contains_key(n) <==> exists|i: int| 0 <= i < s.len() && (#[trigger] s[i]).0 == n,
    decreases s.len(),
{
    if s.len() > 0 {
        lemma_map_of_contains(s.drop_last(), n);
        if s.last().0 == n {
            assert(s[s.len() - 1].0 == n);
        } else if map_of(s).contains_key(n) {
            let i = choose|i: int| 0 <= i < s.len() - 1 && (#[trigger] s.drop_last()[i]).0 == n;
            assert(s[i].0 == n);
        } else {
            assert forall|i: int| 0 <= i < s.len() && (#[trigger] s[i]).0 == n implies false by {
                if i < s.len() - 1 {
                    assert(s.drop_last()[i].0 == n);
                }
            }
        }
    }
}

pub proof fn lemma_map_of_at(s: Seq<(AttrName, Attr)>, i: int)
    requires
        distinct_names(s),
        0 <= i < s.len(),
    ensures
        map_of(s).contains_key(s[i].0),
        map_of(s)[s[i].0] == s[i].1@,
    decreases s.len(),
{
    if i < s.len() - 1 {
        assert(s.drop_last()[i] == s[i]);
        lemma_map_of_at(s.drop_last(), i);
        assert(s[i].0 != s.last().0);
    }
}

pub proof fn lemma_map_of_update(s: Seq<(AttrName, Attr)>, i: int, p: (AttrName, Attr))
    requires
        distinct_names(s),
        0 <= i < s.len(),
        s[i].0 == p.0,
    ensures
        map_of(s.update(i, p)) == map_of(s).insert(p.0, p.1@),
        distinct_names(s.update(i, p)),
    decreases s.len(),
{
    let t = s.update(i, p);
    if i == s.len() - 1 {
        assert(t.drop_last() =~= s.drop_last());
        assert(t.last() == p);
        assert(map_of(t) =~= map_of(s).insert(p.0, p.1@));
    } else {
        assert(s.drop_last()[i] == s[i]);
        lemma_map_of_update(s.drop_last(), i, p);
        assert(t.drop_last() =~= s.drop_last().update(i, p));
        assert(t.last() == s.last());
        assert(s[i].0 != s.last().0);
        assert(map_of(t) =~= map_of(s).insert(p.0, p.1@));
    }
}

/// A stored item: the attribute list of one row.
#[derive(Debug)]
pub struct Item {
    pub attrs: Vec<(AttrName, Attr)>,
}

impl Clone for Item {
    fn clone(&self) -> (r: Self)
        ensures
            r.attrs@ == self.attrs@,
            r@ == self@,
            r.wf() == self.wf(),
    {
        let len = self.attrs.len();
        let mut out: Vec<(AttrName, Attr)> = Vec::new();
        let mut i: usize = 0;
        while i < len
            invariant
                i <= len,
                len == self.attrs@.len(),
                out@ =~= self.attrs@.subrange(0, i as int),
            decreases len - i,
        {
            let p = &self.attrs[i];
            out.push((p.0, p.1.clone()));
            proof {
                assert(out@ =~= self.attrs@.subrange(0, i + 1));
            }
            i = i + 1;
        }
        proof {
            assert(out@ =~= self.attrs@);
        }
        Item { attrs: out }
    }
}

impl View for Item {
    type V = Map<AttrName, AttrV>;

    open spec fn view(&self) -> Map<AttrName, AttrV> {
        map_of(self.attrs@)
    }
}

impl Item {
    /// Well-formed items list each attribute name at most once.
    pub open spec fn wf(self) -> bool {
        distinct_names(self.attrs@)
    }

    pub fn new() -> (r: Item)
        ensures
            r.wf(),
            r@ == Map::<AttrName, AttrV>::empty(),
    {
        Item { attrs: Vec::new() }
    }

    /// Looks an attribute up by name.
    pub fn get(&self, n: AttrName) -> (r: Option<&Attr>)
        requires
            self.wf(),
        ensures
            match r {
                Some(a) => self@.contains_key(n) && self@[n] == a@,
                None => !self@.contains_key(n),
            },
    {
        let len = self.attrs.len();
        let mut i: usize = 0;
        while i < len
            invariant
                i <= len,
                len == self.attrs@.len(),
                self.wf(),
                forall|j: int| 0 <= j < i ==> (#[trigger] self.attrs@[j]).0 != n,
            decreases len - i,
        {
            if self.attrs[i].0 == n {
                proof {
                    lemma_map_of_at(self.attrs@, i as int);
                }
                return Some(&self.attrs[i].1);
            }
            i = i + 1;
        }
        proof {
            lemma_map_of_contains(self.attrs@, n);
        }
        None
    }

    /// The string value of an attribute, if present and a string.
    pub fn get_s(&self, n: AttrName) -> (r: Option<&String>)
        requires
            self.wf(),
        ensures
            match r {
                Some(s) => self@.contains_key(n) && self@[n] == AttrV::S(s@),
                None => !(self@.contains_key(n) && self@[n] is S),
            },
    {
        match self.get(n) {
            Some(a) => a.as_s(),
            None => None,
        }
    }

    /// Sets an attribute, replacing any earlier value of the name.
    pub fn set(&mut self, n: AttrName, v: Attr)
        requires
            old(self).wf(),
        ensures
            final(self).wf(),
            final(self)@ == old(self)@.insert(n, v@),
    {
        let len = self.attrs.len();
        let mut i: usize = 0;
        while i < len
            invariant
                i <= len,
                len == self.attrs@.len(),
                self.wf(),
                self@ == old(self)@,
                self.attrs@ == old(self).attrs@,
                forall|j: int| 0 <= j < i ==> (#[trigger] self.attrs@[j]).0 != n,
            decreases len - i,
        {
            if self.attrs[i].0 == n {
                proof {
                    lemma_map_of_update(self.attrs@, i as int, (n, v));
                }
                self.attrs.set(i, (n, v));
                return ;
            }
            i = i + 1;
        }
        proof {
            assert(self.attrs@.push((n, v)).drop_last() =~= self.attrs@);
            assert forall|a: int, b: int|
                0 <= a < b < self.attrs@.push((n, v)).len() implies (#[trigger] self.attrs@.push(
                (n, v),
            )[a]).0 != (#[trigger] self.attrs@.push((n, v))[b]).0 by {
                if b < self.attrs@.len() {
                    assert(self.attrs@[a].0 != self.attrs@[b].0);
                } else {
                    assert(self.attrs@[a].0 != n);
                }
            }
        }
        self.attrs.push((n, v));
    }
}

} // verus!
