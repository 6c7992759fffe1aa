//! The vehicle entity, its storage codec, and its search entry.
//!
//! A vehicle lives under `CAR#<stored-plate>` as both partition and
//! sort key, carries one due date per fee type, and projects one
//! per-fee-type index entry plus a global list-all marker — all inside
//! the same item, so the projections cannot diverge. A companion search
//! entry under the `SEARCH` partition supports partial-plate lookup.

use vstd::prelude::*;

use crate::attr::{attr_str, Attr, AttrName, AttrV, Item};
use crate::dates::{format_date, parse_date, spec_format_date, spec_parse_date};
use crate::keys::{prefixed, spec_plate_display, spec_strip_dashes, strip_dashes, plate_display};
use crate::store::{item_key, keyed};

verus! {

/// A vehicle with its four fee due dates, each a date string.
#[derive(Debug)]
pub struct Vehicle {
    pub vehicle_no: String,
    pub owner: String,
    pub tax_date: String,
    pub fitness_date: String,
    pub insurance_date: String,
    pub route_date: String,
}

/// The mathematical value of a vehicle.
pub struct VehicleV {
    pub vehicle_no: Seq<char>,
    pub owner: Seq<char>,
    pub tax_date: Seq<char>,
    pub fitness_date: Seq<char>,
    pub insurance_date: Seq<char>,
    pub route_date: Seq<char>,
}

impl View for Vehicle {
    type V = VehicleV;

    open spec fn view(&self) -> VehicleV {
        VehicleV {
            vehicle_no: self.vehicle_no@,
            owner: self.owner@,
            tax_date: self.tax_date@,
            fitness_date: self.fitness_date@,
            insurance_date: self.insurance_date@,
            route_date: self.route_date@,
        }
    }
}

/// The storage key of a vehicle: `CAR#` plus the plate with dashes
/// stripped.
pub open spec fn spec_vehicle_key(plate: Seq<char>) -> Seq<char> {
    "CAR#"@ + spec_strip_dashes(plate)
}

/// The sort key of a search entry: `SEARCH#` plus the stripped plate.
pub open spec fn spec_search_key(fragment: Seq<char>) -> Seq<char> {
    "SEARCH#"@ + spec_strip_dashes(fragment)
}

/// The vehicle key as a plain string.
pub fn vehicle_key_str(car_id: &str) -> (r: String)
    ensures
        r@ == spec_vehicle_key(car_id@),
{
    prefixed("CAR#", strip_dashes(car_id).as_str())
}

pub fn vehicle_key(car_id: &str) -> (r: Attr)
    ensures
        r@ == AttrV::S(spec_vehicle_key(car_id@)),
{
    Attr::S(vehicle_key_str(car_id))
}

/// The search-entry sort key as a plain string.
pub fn vehicle_search_key_str(id: &str) -> (r: String)
    ensures
        r@ == spec_search_key(id@),
{
    prefixed("SEARCH#", strip_dashes(id).as_str())
}

pub fn vehicle_search_key(id: &str) -> (r: Attr)
    ensures
        r@ == AttrV::S(spec_search_key(id@)),
{
    Attr::S(vehicle_search_key_str(id))
}

/// A date attribute read leniently: a missing or non-string value
/// decodes to the empty string rather than an error.
pub open spec fn date_or_empty(m: Map<AttrName, AttrV>, n: AttrName) -> Seq<char> {
    if m.contains_key(n) && m[n] is S {
        attr_str(m[n])
    } else {
        Seq::empty()
    }
}

/// The stored form of a vehicle created at `now`.
pub open spec fn spec_vehicle_item(v: VehicleV, now: Seq<char>) -> Map<AttrName, AttrV> {
    Map::<AttrName, AttrV>::empty().insert(AttrName::Pk, AttrV::S(spec_vehicle_key(v.vehicle_no)))
        .insert(AttrName::Sk, AttrV::S(spec_vehicle_key(v.vehicle_no))).insert(
        AttrName::Owner,
        AttrV::S(v.owner),
    ).insert(AttrName::FitnessDate, AttrV::S(v.fitness_date)).insert(
        AttrName::TaxDate,
        AttrV::S(v.tax_date),
    ).insert(AttrName::RouteDate, AttrV::S(v.route_date)).insert(
        AttrName::InsuranceDate,
        AttrV::S(v.insurance_date),
    ).insert(AttrName::CreatedAt, AttrV::S(now)).insert(AttrName::UpdatedAt, AttrV::Null).insert(
        AttrName::Sold,
        AttrV::Bool(false),
    ).insert(AttrName::Gsi2Pk, AttrV::S("FEE#FITNESS"@)).insert(
        AttrName::Gsi2Sk,
        AttrV::S(spec_vehicle_key(v.vehicle_no)),
    ).insert(AttrName::Gsi3Pk, AttrV::S("FEE#INSURANCE"@)).insert(
        AttrName::Gsi3Sk,
        AttrV::S(spec_vehicle_key(v.vehicle_no)),
    ).insert(AttrName::Gsi4Pk, AttrV::S("FEE#ROUTE"@)).insert(
        AttrName::Gsi4Sk,
        AttrV::S(spec_vehicle_key(v.vehicle_no)),
    ).insert(AttrName::Gsi5Pk, AttrV::S("FEE#TAX"@)).insert(
        AttrName::Gsi5Sk,
        AttrV::S(spec_vehicle_key(v.vehicle_no)),
    ).insert(AttrName::Gsi7Pk, AttrV::S("VEHICLE"@))
}

/// The stored form of a vehicle's search entry.
pub open spec fn spec_search_item(plate: Seq<char>) -> Map<AttrName, AttrV> {
    Map::<AttrName, AttrV>::empty().insert(AttrName::Pk, AttrV::S("SEARCH"@)).insert(
        AttrName::Sk,
        AttrV::S(spec_search_key(plate)),
    ).insert(
        AttrName::Lsi1Sk,
        AttrV::S(spec_search_key(plate.subrange(plate.len() - 4, plate.len() as int))),
    )
}

impl Vehicle {
    /// Builds a vehicle, re-emitting each supplied date in the
    /// canonical form; the dates must parse.
    pub fn new(
        vehicle_no: String,
        owner: String,
        tax_date: String,
        fitness_date: String,
        insurance_date: String,
        route_date: String,
    ) -> (r: Vehicle)
        requires
            spec_parse_date(tax_date@) is Some,
            spec_parse_date(fitness_date@) is Some,
            spec_parse_date(insurance_date@) is Some,
            spec_parse_date(route_date@) is Some,
        ensures
            r.vehicle_no == vehicle_no,
            r.owner == owner,
            r.tax_date@ == spec_format_date(spec_parse_date(tax_date@).unwrap()),
            r.fitness_date@ == spec_format_date(spec_parse_date(fitness_date@).unwrap()),
            r.insurance_date@ == spec_format_date(spec_parse_date(insurance_date@).unwrap()),
            r.route_date@ == spec_format_date(spec_parse_date(route_date@).unwrap()),
    {
        let tax = format_date(&parse_date(tax_date.as_str()).unwrap());
        let fitness = format_date(&parse_date(fitness_date.as_str()).unwrap());
        let insurance = format_date(&parse_date(insurance_date.as_str()).unwrap());
        let route = format_date(&parse_date(route_date.as_str()).unwrap());
        Vehicle {
            vehicle_no,
            owner,
            tax_date: tax,
            fitness_date: fitness,
            insurance_date: insurance,
            route_date: route,
        }
    }

    pub fn get_key(&self) -> (r: Attr)
        ensures
            r@ == AttrV::S(spec_vehicle_key(self.vehicle_no@)),
    {
        vehicle_key(self.vehicle_no.as_str())
    }

    /// Encodes the companion search entry, keyed by the stripped plate
    /// with an alternate sort key of its last four characters.
    pub fn to_search_item(&self) -> (r: Item)
        requires
            self.vehicle_no@.len() >= 4,
        ensures
            r.wf(),
            keyed(r@),
            item_key(r@) == ("SEARCH"@, spec_search_key(self.vehicle_no@)),
            r@ == spec_search_item(self.vehicle_no@),
    {
        let len = self.vehicle_no.as_str().unicode_len();
        let last4 = self.vehicle_no.as_str().substring_char(len - 4, len);
        let mut item = Item::new();
        item.set(AttrName::Pk, Attr::S("SEARCH".to_owned()));
        item.set(AttrName::Sk, vehicle_search_key(self.vehicle_no.as_str()));
        item.set(AttrName::Lsi1Sk, vehicle_search_key(last4));
        item
    }

    /// Encodes the vehicle for storage at creation time `now`, with
    /// every index projection of the single-item design.
    pub fn to_item(self, now: &str) -> (r: Item)
        ensures
            r.wf(),
            keyed(r@),
            item_key(r@) == (spec_vehicle_key(self.vehicle_no@), spec_vehicle_key(
                self.vehicle_no@,
            )),
            r@ == spec_vehicle_item(self@, now@),
    {
        let key = self.get_key();
        let mut item = Item::new();
        item.set(AttrName::Pk, key.clone());
        item.set(AttrName::Sk, key.clone());
        item.set(AttrName::Owner, Attr::S(self.owner));
        item.set(AttrName::FitnessDate, Attr::S(self.fitness_date));
        item.set(AttrName::TaxDate, Attr::S(self.tax_date));
        item.set(AttrName::RouteDate, Attr::S(self.route_date));
        item.set(AttrName::InsuranceDate, Attr::S(self.insurance_date));
        item.set(AttrName::CreatedAt, Attr::S(now.to_owned()));
        item.set(AttrName::UpdatedAt, Attr::Null);
        item.set(AttrName::Sold, Attr::Bool(false));
        item.set(AttrName::Gsi2Pk, Attr::S("FEE#FITNESS".to_owned()));
        item.set(AttrName::Gsi2Sk, key.clone());
        item.set(AttrName::Gsi3Pk, Attr::S("FEE#INSURANCE".to_owned()));
        item.set(AttrName::Gsi3Sk, key.clone());
        item.set(AttrName::Gsi4Pk, Attr::S("FEE#ROUTE".to_owned()));
        item.set(AttrName::Gsi4Sk, key.clone());
        item.set(AttrName::Gsi5Pk, Attr::S("FEE#TAX".to_owned()));
        item.set(AttrName::Gsi5Sk, key);
        item.set(AttrName::Gsi7Pk, Attr::S("VEHICLE".to_owned()));
        item
    }
}

/// The vehicle encoded in a stored item: the sort key yields the
/// display plate, the owner must be present, and each missing date
/// attribute decodes to the empty string.
pub open spec fn spec_vehicle_of_item(m: Map<AttrName, AttrV>) -> Option<VehicleV> {
    if m.contains_key(AttrName::Sk) && m[AttrName::Sk] is S && attr_str(m[AttrName::Sk]).len() >= 4
        && spec_plate_display(
        attr_str(m[AttrName::Sk]).subrange(4, attr_str(m[AttrName::Sk]).len() as int),
    ) is Some && m.contains_key(AttrName::Owner) && m[AttrName::Owner] is S {
        Some(
            VehicleV {
                vehicle_no: spec_plate_display(
                    attr_str(m[AttrName::Sk]).subrange(4, attr_str(m[AttrName::Sk]).len() as int),
                ).unwrap(),
                owner: attr_str(m[AttrName::Owner]),
                tax_date: date_or_empty(m, AttrName::TaxDate),
                fitness_date: date_or_empty(m, AttrName::FitnessDate),
                insurance_date: date_or_empty(m, AttrName::InsuranceDate),
                route_date: date_or_empty(m, AttrName::RouteDate),
            },
        )
    } else {
        None
    }
}

/// Decodes a stored item back to a vehicle; see [`spec_vehicle_of_item`].
pub fn vehicle_from_item(item: &Item) -> (r: Option<Vehicle>)
    requires
        item.wf(),
    ensures
        match r {
            Some(v) => spec_vehicle_of_item(item@) == Some(v@),
            None => spec_vehicle_of_item(item@) is None,
        },
{
    let sk = match item.get_s(AttrName::Sk) {
        Some(s) => s,
        None => {
            return None;
        },
    };
    let sklen = sk.as_str().unicode_len();
    if sklen < 4 {
        return None;
    }
    let norm = sk.as_str().substring_char(4, sklen);
    let vehicle_no = match plate_display(norm) {
        Some(p) => p,
        None => {
            return None;
        },
    };
    let owner = match item.get_s(AttrName::Owner) {
        Some(s) => s.clone(),
        None => {
            return None;
        },
    };
    let tax_date = date_field(item, AttrName::TaxDate);
    let fitness_date = date_field(item, AttrName::FitnessDate);
    let insurance_date = date_field(item, AttrName::InsuranceDate);
    let route_date = date_field(item, AttrName::RouteDate);
    Some(Vehicle { vehicle_no, owner, tax_date, fitness_date, insurance_date, route_date })
}

/// Reads a date attribute leniently; see [`date_or_empty`].
pub fn date_field(item: &Item, n: AttrName) -> (r: String)
    requires
        item.wf(),
    ensures
        r@ == date_or_empty(item@, n),
{
    match item.get_s(n) {
        Some(s) => s.clone(),
        None => String::new(),
    }
}

/// The vehicles decoded from a list of items, in order, skipping items
/// that do not decode.
pub open spec fn spec_vehicles_of(s: Seq<Item>) -> Seq<VehicleV>
    decreases s.len(),
{
    if s.len() == 0 {
        Seq::empty()
    } else {
        spec_vehicles_of(s.drop_last()) + match spec_vehicle_of_item(s.last()@) {
            Some(v) => seq![v],
            None => Seq::empty(),
        }
    }
}

/// Decoding a batch depends only on the items' attribute maps.
pub proof fn lemma_vehicles_of_congruent(a: Seq<Item>, b: Seq<Item>)
    requires
        a.len() == b.len(),
        forall|i: int| 0 <= i < a.len() ==> (#[trigger] a[i])@ == b[i]@,
    ensures
        spec_vehicles_of(a) == spec_vehicles_of(b),
    decreases a.len(),
{
    if a.len() > 0 {
        assert forall|i: int| 0 <= i < a.len() - 1 implies (#[trigger] a.drop_last()[i])@
            == b.drop_last()[i]@ by {
            assert(a.drop_last()[i] == a[i]);
            assert(b.drop_last()[i] == b[i]);
        }
        lemma_vehicles_of_congruent(a.drop_last(), b.drop_last());
        assert(a.last()@ == b[a.len() - 1]@);
        assert(spec_vehicles_of(a) =~= spec_vehicles_of(b));
    }
}

/// Decodes a batch of items; see [`spec_vehicles_of`].
pub fn vehicle_repo(items: Vec<Item>) -> (r: Vec<Vehicle>)
    requires
        forall|i: int| 0 <= i < items@.len() ==> (#[trigger] items@[i]).wf(),
    ensures
        r@.len() == spec_vehicles_of(items@).len(),
        forall|i: int|
            0 <= i < r@.len() ==> (#[trigger] r@[i])@ == spec_vehicles_of(items@)[i],
{
    let len = items.len();
    let mut out: Vec<Vehicle> = Vec::new();
    let mut i: usize = 0;
    while i < len
        invariant
            i <= len,
            len == items@.len(),
            forall|j: int| 0 <= j < items@.len() ==> (#[trigger] items@[j]).wf(),
            out@.len() == spec_vehicles_of(items@.subrange(0, i as int)).len(),
            forall|j: int|
                0 <= j < out@.len() ==> (#[trigger] out@[j])@ == spec_vehicles_of(
                    items@.subrange(0, i as int),
                )[j],
        decreases len - i,
    {
        proof {
            assert(items@.subrange(0, i + 1).drop_last() =~= items@.subrange(0, i as int));
            assert(items@.subrange(0, i + 1).last() == items@[i as int]);
        }
        match vehicle_from_item(&items[i]) {
            Some(v) => {
                out.push(v);
            },
            None => (),
        }
        i = i + 1;
    }
    proof {
        assert(items@.subrange(0, len as int) =~= items@);
    }
    out
}

} // verus!
