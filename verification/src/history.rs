//! The audit trail: one append-only row per fee payment.
//!
//! A history row lives under its vehicle's partition key with sort key
//! `TRANSACTION#<date>#<feeType>`, where the date is the fee's due date
//! as it stood *before* the payment — the row is the only source of
//! truth for that prior value. A chronological index projection under
//! the `HISTORY` marker serves the history view.

use vstd::prelude::*;

use crate::attr::{attr_str, Attr, AttrName, AttrV, Item};
use crate::dates::{format_date, parse_date, spec_format_date, spec_parse_date};
use crate::keys::{has_prefix, plate_display, prefixed, spec_plate_display, str_after, str_has_prefix};
use crate::store::{item_key, keyed};
use crate::vehicle::spec_vehicle_key;

verus! {

/// One audit row: which vehicle, which fee, who paid, and the due date
/// the fee had before the payment.
#[derive(Debug)]
pub struct TransactionHistory {
    pub vehicle_no: String,
    pub date: String,
    pub transaction_type: String,
    pub payer: String,
}

/// The mathematical value of a history row.
pub struct TransactionHistoryV {
    pub vehicle_no: Seq<char>,
    pub date: Seq<char>,
    pub transaction_type: Seq<char>,
    pub payer: Seq<char>,
}

impl View for TransactionHistory {
    type V = TransactionHistoryV;

    open spec fn view(&self) -> TransactionHistoryV {
        TransactionHistoryV {
            vehicle_no: self.vehicle_no@,
            date: self.date@,
            transaction_type: self.transaction_type@,
            payer: self.payer@,
        }
    }
}

impl Clone for TransactionHistory {
    fn clone(&self) -> (r: Self)
        ensures
            r == *self,
    {
        TransactionHistory {
            vehicle_no: self.vehicle_no.clone(),
            date: self.date.clone(),
            transaction_type: self.transaction_type.clone(),
            payer: self.payer.clone(),
        }
    }
}

/// The chronological-index key of a history row: `TRANSACTION#<date>`.
pub open spec fn spec_history_key(date: Seq<char>) -> Seq<char> {
    "TRANSACTION#"@ + date
}

/// The sort key of a history row: `TRANSACTION#<date>#<feeType>`.
pub open spec fn spec_history_sk(date: Seq<char>, fee_type: Seq<char>) -> Seq<char> {
    "TRANSACTION#"@ + date + "#"@ + fee_type
}

pub fn history_key(transaction_date: &str) -> (r: Attr)
    ensures
        r@ == AttrV::S(spec_history_key(transaction_date@)),
{
    Attr::S(prefixed("TRANSACTION#", transaction_date))
}

/// The stored form of a history row.
pub open spec fn spec_history_item(h: TransactionHistoryV) -> Map<AttrName, AttrV> {
    Map::<AttrName, AttrV>::empty().insert(AttrName::Pk, AttrV::S(spec_vehicle_key(h.vehicle_no)))
        .insert(AttrName::Sk, AttrV::S(spec_history_sk(h.date, h.transaction_type))).insert(
        AttrName::Payer,
        AttrV::S(h.payer),
    ).insert(AttrName::Gsi3Pk, AttrV::S("HISTORY"@)).insert(
        AttrName::Gsi3Sk,
        AttrV::S(spec_history_key(h.date)),
    )
}

impl TransactionHistory {
    /// Builds a row, re-emitting the recorded date in canonical form;
    /// the date must parse.
    pub fn new(vehicle_no: String, date: String, transaction_type: String, payer: String) -> (r:
        TransactionHistory)
        requires
            spec_parse_date(date@) is Some,
        ensures
            r.vehicle_no == vehicle_no,
            r.date@ == spec_format_date(spec_parse_date(date@).unwrap()),
            r.transaction_type == transaction_type,
            r.payer == payer,
    {
        let canon = format_date(&parse_date(date.as_str()).unwrap());
        TransactionHistory { vehicle_no, date: canon, transaction_type, payer }
    }

    pub fn get_key(&self) -> (r: Attr)
        ensures
            r@ == AttrV::S(spec_history_key(self.date@)),
    {
        history_key(self.date.as_str())
    }

    /// Encodes the row for storage, including the chronological-index
    /// projection.
    pub fn to_item(&self) -> (r: Item)
        ensures
            r.wf(),
            keyed(r@),
            item_key(r@) == (spec_vehicle_key(self.vehicle_no@), spec_history_sk(
                self.date@,
                self.transaction_type@,
            )),
            r@ == spec_history_item(self@),
    {
        let mut sk = prefixed("TRANSACTION#", self.date.as_str());
        sk.append("#");
        sk.append(self.transaction_type.as_str());
        proof {
            assert(sk@ =~= spec_history_sk(self.date@, self.transaction_type@));
        }
        let mut item = Item::new();
        item.set(AttrName::Pk, crate::vehicle::vehicle_key(self.vehicle_no.as_str()));
        item.set(AttrName::Sk, Attr::S(sk));
        item.set(AttrName::Payer, Attr::S(self.payer.clone()));
        item.set(AttrName::Gsi3Pk, Attr::S("HISTORY".to_owned()));
        item.set(AttrName::Gsi3Sk, self.get_key());
        item
    }
}

/// Index of the first occurrence of `c` at or after `i`; the length of
/// `s` when there is none.
pub open spec fn find_char(s: Seq<char>, c: char, i: int) -> int
    decreases s.len() - i,
{
    if i < 0 || i >= s.len() {
        s.len() as int
    } else if s[i] == c {
        i
    } else {
        find_char(s, c, i + 1)
    }
}

proof fn lemma_find_char_range(s: Seq<char>, c: char, i: int)
    requires
        0 <= i <= s.len(),
    ensures
        i <= find_char(s, c, i) <= s.len(),
    decreases s.len() - i,
{
    if i < s.len() && s[i] != c {
        lemma_find_char_range(s, c, i + 1);
    }
}

fn find_char_from(s: &str, c: char) -> (r: usize)
    ensures
        r == find_char(s@, c, 0),
        r <= s@.len(),
{
    let len = s.unicode_len();
    let mut i: usize = 0;
    proof {
        lemma_find_char_range(s@, c, 0);
    }
    while i < len
        invariant
            i <= len,
            len == s@.len(),
            find_char(s@, c, 0) == find_char(s@, c, i as int),
        decreases len - i,
    {
        if s.get_char(i) == c {
            return i;
        }
        i = i + 1;
    }
    len
}

/// The history row encoded in a stored item: the sort key carries the
/// recorded date and fee type, the partition key the vehicle, and the
/// payer must be present.
#[verifier::opaque]
pub open spec fn spec_history_of_item(m: Map<AttrName, AttrV>) -> Option<TransactionHistoryV> {
    let sk = attr_str(m[AttrName::Sk]);
    let rest = sk.subrange("TRANSACTION#"@.len() as int, sk.len() as int);
    let h = find_char(rest, '#', 0);
    let pk = attr_str(m[AttrName::Pk]);
    if m.contains_key(AttrName::Sk) && m[AttrName::Sk] is S && has_prefix(sk, "TRANSACTION#"@) && h
        < rest.len() && m.contains_key(AttrName::Pk) && m[AttrName::Pk] is S && pk.len() >= 4
        && spec_plate_display(pk.subrange(4, pk.len() as int)) is Some && m.contains_key(
        AttrName::Payer,
    ) && m[AttrName::Payer] is S {
        Some(
            TransactionHistoryV {
                vehicle_no: spec_plate_display(pk.subrange(4, pk.len() as int)).unwrap(),
                date: rest.subrange(0, h),
                transaction_type: rest.subrange(h + 1, rest.len() as int),
                payer: attr_str(m[AttrName::Payer]),
            },
        )
    } else {
        None
    }
}

/// Decodes a stored item back to a history row; see
/// [`spec_history_of_item`].
pub fn history_from_item(item: &Item) -> (r: Option<TransactionHistory>)
    requires
        item.wf(),
    ensures
        match r {
            Some(h) => spec_history_of_item(item@) == Some(h@),
            None => spec_history_of_item(item@) is None,
        },
{
    proof {
        reveal_strlit("TRANSACTION#");
        reveal(spec_history_of_item);
    }
    let sk = match item.get_s(AttrName::Sk) {
        Some(s) => s,
        None => {
            return None;
        },
    };
    if !str_has_prefix(sk.as_str(), "TRANSACTION#") {
        return None;
    }
    let rest = str_after(sk.as_str(), 12);
    let h = find_char_from(rest.as_str(), '#');
    let restlen = rest.as_str().unicode_len();
    if h >= restlen {
        return None;
    }
    let date = rest.as_str().substring_char(0, h).to_owned();
    let ttype = rest.as_str().substring_char(h + 1, restlen).to_owned();
    let pk = match item.get_s(AttrName::Pk) {
        Some(s) => s,
        None => {
            return None;
        },
    };
    let pklen = pk.as_str().unicode_len();
    if pklen < 4 {
        return None;
    }
    let vehicle_no = match plate_display(pk.as_str().substring_char(4, pklen)) {
        Some(p) => p,
        None => {
            return None;
        },
    };
    let payer = match item.get_s(AttrName::Payer) {
        Some(s) => s.clone(),
        None => {
            return None;
        },
    };
    Some(TransactionHistory { vehicle_no, date, transaction_type: ttype, payer })
}

/// The history rows decoded from a list of items, in order, skipping
/// items that do not decode.
pub open spec fn spec_histories_of(s: Seq<Item>) -> Seq<TransactionHistoryV>
    decreases s.len(),
{
    if s.len() == 0 {
        Seq::empty()
    } else {
        spec_histories_of(s.drop_last()) + match spec_history_of_item(s.last()@) {
            Some(h) => seq![h],
            None => Seq::empty(),
        }
    }
}

/// Decodes a batch of items; see [`spec_histories_of`].
pub fn history_repo(items: Vec<Item>) -> (r: Vec<TransactionHistory>)
    requires
        forall|i: int| 0 <= i < items@.len() ==> (#[trigger] items@[i]).wf(),
    ensures
        r@.len() == spec_histories_of(items@).len(),
        forall|i: int| 0 <= i < r@.len() ==> (#[trigger] r@[i])@ == spec_histories_of(items@)[i],
{
    let len = items.len();
    let mut out: Vec<TransactionHistory> = Vec::new();
    let mut i: usize = 0;
    while i < len
        invariant
            i <= len,
            len == items@.len(),
            forall|j: int| 0 <= j < items@.len() ==> (#[trigger] items@[j]).wf(),
            out@.len() == spec_histories_of(items@.subrange(0, i as int)).len(),
            forall|j: int|
                0 <= j < out@.len() ==> (#[trigger] out@[j])@ == spec_histories_of(
                    items@.subrange(0, i as int),
                )[j],
        decreases len - i,
    {
        proof {
            assert(items@.subrange(0, i + 1).drop_last() =~= items@.subrange(0, i as int));
            assert(items@.subrange(0, i + 1).last() == items@[i as int]);
        }
        match history_from_item(&items[i]) {
            Some(h) => {
                out.push(h);
            },
            None => (),
        }
        i = i + 1;
    }
    proof {
        assert(items@.subrange(0, len as int) =~= items@);
    }
    out
}

} // verus!
