//! The data-access operations: every way the table is read or written.
//!
//! `MemDataAccess` realizes the capability interface over the
//! in-memory table of [`crate::store`]; the store-backed realization
//! outside the library follows the same request shapes. The clock and
//! the token generator are outside services, so each operation that
//! needs them has a deterministic core taking their output as an
//! argument, verified for every value, and a thin entry that makes the
//! calls. Setting `fail_writes` makes every write fail as a rejected
//! store transaction would, leaving the table unchanged — the fault
//! injection that exercises the all-or-nothing contracts.

use vstd::prelude::*;

use crate::attr::{attr_str, Attr, AttrName, AttrV, Item};
use crate::keys::{has_prefix, prefixed, str_after, str_eq};
use crate::session::{
    format_rfc3339, fresh_token, rfc3339_of, spec_session_key, unix_now, Session, RENDERABLE_SECS,
    SESSION_TTL_SECS,
};
use crate::dates::{day_number, format_date, parse_date, spec_day_number, spec_format_date, spec_parse_date, valid_date, Date};
use crate::history::{history_from_item, spec_history_item, spec_history_of_item, spec_history_sk, TransactionHistory, TransactionHistoryV};
use crate::store::{cond_matches, item_key, keyed, lemma_rows_map_at, lemma_rows_map_contains,
    rows_map, RowCond, Table};
use crate::user::{bcrypt_hash, bcrypt_verifies, from_item, spec_user_item, spec_user_key,
    spec_username_of_key, User};
use crate::vehicle::{date_field, date_or_empty, lemma_vehicles_of_congruent, spec_search_item,
    spec_search_key, spec_vehicle_item, spec_vehicle_key, spec_vehicle_of_item, spec_vehicles_of,
    vehicle_key_str, vehicle_repo, vehicle_search_key_str, Vehicle, VehicleV};
use crate::Error;

verus! {

/// A partial vehicle update: the plate, and the subset of due dates to
/// change, absent fields left untouched.
#[derive(Debug)]
pub struct UpdateVehicle {
    pub vehicle_no: String,
    pub tax_date: Option<String>,
    pub insurance_date: Option<String>,
    pub route_date: Option<String>,
    pub fitness_date: Option<String>,
}

/// The mathematical value of a partial update.
pub struct UpdateVehicleV {
    pub vehicle_no: Seq<char>,
    pub tax_date: Option<Seq<char>>,
    pub insurance_date: Option<Seq<char>>,
    pub route_date: Option<Seq<char>>,
    pub fitness_date: Option<Seq<char>>,
}

pub open spec fn view_opt(o: Option<String>) -> Option<Seq<char>> {
    match o {
        Some(s) => Some(s@),
        None => None,
    }
}

impl View for UpdateVehicle {
    type V = UpdateVehicleV;

    open spec fn view(&self) -> UpdateVehicleV {
        UpdateVehicleV {
            vehicle_no: self.vehicle_no@,
            tax_date: view_opt(self.tax_date),
            insurance_date: view_opt(self.insurance_date),
            route_date: view_opt(self.route_date),
            fitness_date: view_opt(self.fitness_date),
        }
    }
}

impl Default for UpdateVehicle {
    /// An update that names no vehicle and changes nothing.
    fn default() -> (r: UpdateVehicle)
        ensures
            r.vehicle_no@ == Seq::<char>::empty(),
            r.tax_date is None,
            r.insurance_date is None,
            r.route_date is None,
            r.fitness_date is None,
    {
        UpdateVehicle {
            vehicle_no: String::new(),
            tax_date: None,
            insurance_date: None,
            route_date: None,
            fitness_date: None,
        }
    }
}

fn clone_opt(o: &Option<String>) -> (r: Option<String>)
    ensures
        r == *o,
{
    match o {
        Some(s) => Some(s.clone()),
        None => None,
    }
}

impl UpdateVehicle {
    /// The four date fields in their fixed order, each named by its
    /// wire placeholder.
    pub fn iter(&self) -> (r: Vec<(String, Option<String>)>)
        ensures
            r@.len() == 4,
            r@[0].0@ == ":tax_date"@ && r@[0].1 == self.tax_date,
            r@[1].0@ == ":insurance_date"@ && r@[1].1 == self.insurance_date,
            r@[2].0@ == ":fitness_date"@ && r@[2].1 == self.fitness_date,
            r@[3].0@ == ":route_date"@ && r@[3].1 == self.route_date,
    {
        let mut out: Vec<(String, Option<String>)> = Vec::new();
        out.push((":tax_date".to_owned(), clone_opt(&self.tax_date)));
        out.push((":insurance_date".to_owned(), clone_opt(&self.insurance_date)));
        out.push((":fitness_date".to_owned(), clone_opt(&self.fitness_date)));
        out.push((":route_date".to_owned(), clone_opt(&self.route_date)));
        out
    }
}

/// Names the history row a payment undo should remove.
#[derive(Debug)]
pub struct DeleteHistory {
    pub vehicle_id: String,
    pub fee_type: String,
    pub date: String,
}

/// A row of the reverse token index matching `token`, with its user
/// projection readable.
pub open spec fn is_session_row(m: Map<AttrName, AttrV>, token: Seq<char>) -> bool {
    &&& m.contains_key(AttrName::Gsi1Pk)
    &&& m[AttrName::Gsi1Pk] == AttrV::S(spec_session_key(token))
    &&& m.contains_key(AttrName::Gsi1Sk)
    &&& m[AttrName::Gsi1Sk] is S
}

/// A token is valid exactly when some item of the reverse index
/// matches it — whether it never existed or was reclaimed after
/// expiry, an absent row means invalid.
pub open spec fn spec_token_valid(
    t: Map<(Seq<char>, Seq<char>), Map<AttrName, AttrV>>,
    token: Seq<char>,
) -> bool {
    exists|k: (Seq<char>, Seq<char>)| #[trigger] t.contains_key(k) && is_session_row(t[k], token)
}

/// The token resolves to the user key `ukey` through some matching
/// reverse-index row.
pub open spec fn spec_resolves(
    t: Map<(Seq<char>, Seq<char>), Map<AttrName, AttrV>>,
    token: Seq<char>,
    ukey: Seq<char>,
) -> bool {
    exists|k: (Seq<char>, Seq<char>)| #[trigger]
        t.contains_key(k) && is_session_row(t[k], token) && attr_str(t[k][AttrName::Gsi1Sk])
            == ukey
}

/// The stored user under `username` exists and its digest accepts
/// `password`.
pub open spec fn spec_login_ok(
    t: Map<(Seq<char>, Seq<char>), Map<AttrName, AttrV>>,
    username: Seq<char>,
    password: Seq<char>,
) -> bool {
    let k = (spec_user_key(username), spec_user_key(username));
    &&& t.contains_key(k)
    &&& t[k].contains_key(AttrName::Password)
    &&& t[k][AttrName::Password] is S
    &&& bcrypt_verifies(password, attr_str(t[k][AttrName::Password]))
}

/// The user item stored under `ukey` exists and its digest accepts
/// `pass`.
pub open spec fn stored_pw_accepts(
    t: Map<(Seq<char>, Seq<char>), Map<AttrName, AttrV>>,
    ukey: Seq<char>,
    pass: Seq<char>,
) -> bool {
    &&& t.contains_key((ukey, ukey))
    &&& t[(ukey, ukey)].contains_key(AttrName::Password)
    &&& t[(ukey, ukey)][AttrName::Password] is S
    &&& bcrypt_verifies(pass, attr_str(t[(ukey, ukey)][AttrName::Password]))
}

/// The whole behaviour of a password rotation to `new_digest`:
/// `Unauthorized` comes only from a bad token or a rejected old
/// password; success is owed when the token validates, every user it
/// resolves to accepts the old password, and writes work; on success
/// exactly the resolved user's digest attribute changes.
pub open spec fn change_pass_post(
    oldt: Map<(Seq<char>, Seq<char>), Map<AttrName, AttrV>>,
    newt: Map<(Seq<char>, Seq<char>), Map<AttrName, AttrV>>,
    fail: bool,
    token: Seq<char>,
    old_pass: Seq<char>,
    new_digest: Seq<char>,
    r: Result<(), Error>,
) -> bool {
    &&& (r is Err ==> newt == oldt)
    &&& (!spec_token_valid(oldt, token) ==> r == Err::<(), Error>(Error::Unauthorized))
    &&& (r == Err::<(), Error>(Error::Unauthorized) ==> !spec_token_valid(oldt, token) || exists|
        ukey: Seq<char>,
    |
        #[trigger] spec_resolves(oldt, token, ukey) && !stored_pw_accepts(oldt, ukey, old_pass))
    &&& (spec_token_valid(oldt, token) && !fail && (forall|ukey: Seq<char>|
        #[trigger] spec_resolves(oldt, token, ukey) ==> stored_pw_accepts(oldt, ukey, old_pass))
        ==> r is Ok)
    &&& (r is Ok ==> !fail && exists|ukey: Seq<char>|
        #[trigger] spec_resolves(oldt, token, ukey) && stored_pw_accepts(oldt, ukey, old_pass)
            && newt == oldt.insert(
            (ukey, ukey),
            oldt[(ukey, ukey)].insert(AttrName::Password, AttrV::S(new_digest)),
        ))
}

/// The data-access capability over the in-memory table.
pub struct MemDataAccess {
    pub table: Table,
    /// When set, every write fails as a rejected store transaction.
    pub fail_writes: bool,
}

impl MemDataAccess {
    pub open spec fn wf(self) -> bool {
        self.table.wf()
    }

    pub fn new() -> (r: MemDataAccess)
        ensures
            r.wf(),
            r.table@ == Map::<(Seq<char>, Seq<char>), Map<AttrName, AttrV>>::empty(),
            !r.fail_writes,
    {
        MemDataAccess { table: Table::new(), fail_writes: false }
    }

    /// Resolves a token to the owning user's key through the reverse
    /// index; `None` exactly when the token is invalid.
    pub fn get_user(&self, token: &str) -> (r: Option<String>)
        requires
            self.wf(),
        ensures
            match r {
                Some(ukey) => spec_resolves(self.table@, token@, ukey@),
                None => !spec_token_valid(self.table@, token@),
            },
    {
        let skey = prefixed("SESSION#", token);
        let len = self.table.rows.len();
        let mut i: usize = 0;
        while i < len
            invariant
                i <= len,
                len == self.table.rows@.len(),
                self.wf(),
                skey@ == spec_session_key(token@),
                forall|j: int|
                    0 <= j < i ==> !is_session_row((#[trigger] self.table.rows@[j])@, token@),
            decreases len - i,
        {
            let row = &self.table.rows[i];
            let hit = match row.get_s(AttrName::Gsi1Pk) {
                Some(s) => str_eq(s.as_str(), skey.as_str()),
                None => false,
            };
            if hit {
                match row.get_s(AttrName::Gsi1Sk) {
                    Some(u) => {
                        proof {
                            lemma_rows_map_at(self.table.rows@, i as int);
                        }
                        return Some(u.clone());
                    },
                    None => (),
                }
            }
            i = i + 1;
        }
        proof {
            assert forall|k: (Seq<char>, Seq<char>)| #[trigger]
                self.table@.contains_key(k) implies !is_session_row(self.table@[k], token@) by {
                lemma_rows_map_contains(self.table.rows@, k);
                let j = choose|j: int|
                    0 <= j < self.table.rows@.len() && item_key(
                        #[trigger] self.table.rows@[j]@,
                    ) == k;
                lemma_rows_map_at(self.table.rows@, j);
            }
        }
        None
    }

    /// Whether a token names a live session.
    pub fn is_session_valid(&self, token: &str) -> (r: bool)
        requires
            self.wf(),
        ensures
            r == spec_token_valid(self.table@, token@),
    {
        self.get_user(token).is_some()
    }

    /// Whether the stored digest of `username` accepts `password`.
    pub fn is_login_successful(&self, username: &str, password: &str) -> (r: bool)
        requires
            self.wf(),
        ensures
            r == spec_login_ok(self.table@, username@, password@),
    {
        let key = prefixed("USER#", username);
        match self.table.get_item(key.as_str(), key.as_str()) {
            Some(item) => {
                match from_item(&item) {
                    Some(u) => u.varify(password),
                    None => false,
                }
            },
            None => false,
        }
    }

    /// Creates a user from an already-computed digest: a conditional
    /// write that fails with `Conflict` exactly when the username is
    /// taken, writing nothing then.
    pub fn create_user_with(&mut self, user: &User, digest: &str, now: &str) -> (r: Result<
        (),
        Error,
    >)
        requires
            old(self).wf(),
        ensures
            final(self).wf(),
            final(self).fail_writes == old(self).fail_writes,
            old(self).fail_writes ==> r == Err::<(), Error>(Error::StoreFailure) && final(self).table@ == old(self).table@,
            !old(self).fail_writes ==> {
                let key = (spec_user_key(user.username@), spec_user_key(user.username@));
                &&& (r is Ok <==> !old(self).table@.contains_key(key))
                &&& (r is Ok ==> final(self).table@ == old(self).table@.insert(
                    key,
                    spec_user_item(*user, digest@, now@),
                ))
                &&& (r is Err ==> r == Err::<(), Error>(Error::Conflict) && final(self).table@
                    == old(self).table@)
            },
    {
        if self.fail_writes {
            return Err(Error::StoreFailure);
        }
        let item = user.to_item(digest, now);
        self.table.put_new(item)
    }

    /// Creates a user: hashes the password, stamps the creation time,
    /// and writes conditionally — the second creation of a username
    /// fails with `Conflict` and writes nothing.
    pub fn create_user(&mut self, user: &User) -> (r: Result<(), Error>)
        requires
            old(self).wf(),
        ensures
            final(self).wf(),
            final(self).fail_writes == old(self).fail_writes,
            r is Err ==> final(self).table@ == old(self).table@,
            r == Err::<(), Error>(Error::Conflict) ==> old(self).table@.contains_key(
                (spec_user_key(user.username@), spec_user_key(user.username@)),
            ),
            !old(self).fail_writes && !old(self).table@.contains_key(
                (spec_user_key(user.username@), spec_user_key(user.username@)),
            ) ==> r is Ok || r == Err::<(), Error>(Error::StoreFailure),
            r is Ok ==> !old(self).fail_writes && !old(self).table@.contains_key(
                (spec_user_key(user.username@), spec_user_key(user.username@)),
            ) && exists|digest: Seq<char>, nowv: Seq<char>|
                bcrypt_verifies(user.password@, digest) && final(self).table@ == old(self).table@.insert(
                    (spec_user_key(user.username@), spec_user_key(user.username@)),
                    #[trigger] spec_user_item(*user, digest, nowv),
                ),
    {
        let now = unix_now();
        if now < 0 || now > RENDERABLE_SECS {
            return Err(Error::StoreFailure);
        }
        let nowstr = match format_rfc3339(now) {
            Some(s) => s,
            None => vstd::pervasive::unreached(),
        };
        let digest = match bcrypt_hash(user.password.as_str()) {
            Ok(d) => d,
            Err(e) => {
                return Err(e);
            },
        };
        let r = self.create_user_with(user, digest.as_str(), nowstr.as_str());
        r
    }

    /// Rotates a user's password to an already-computed digest: the
    /// token must resolve, the stored user must exist and accept the
    /// old password, and then only the digest attribute changes.
    pub fn change_pass_with(&mut self, token: &str, old_pass: &str, new_digest: &str) -> (r:
        Result<(), Error>)
        requires
            old(self).wf(),
        ensures
            final(self).wf(),
            final(self).fail_writes == old(self).fail_writes,
            change_pass_post(
                old(self).table@,
                final(self).table@,
                old(self).fail_writes,
                token@,
                old_pass@,
                new_digest@,
                r,
            ),
    {
        let ghost orig_rows = self.table.rows@;
        let ukey = match self.get_user(token) {
            Some(u) => u,
            None => {
                return Err(Error::Unauthorized);
            },
        };
        let mut item = match self.table.get_item(ukey.as_str(), ukey.as_str()) {
            Some(it) => it,
            None => {
                return Err(Error::NotFound);
            },
        };
        proof {
            crate::store::lemma_rows_map_key(orig_rows, (ukey@, ukey@));
        }
        let stored = match from_item(&item) {
            Some(u) => u,
            None => {
                return Err(Error::StoreFailure);
            },
        };
        if !stored.varify(old_pass) {
            return Err(Error::Unauthorized);
        }
        if self.fail_writes {
            return Err(Error::StoreFailure);
        }
        item.set(AttrName::Password, Attr::S(new_digest.to_owned()));
        self.table.put_any(item);
        Ok(())
    }

    /// Rotates a user's password, hashing the new one.
    pub fn change_pass(&mut self, token: &str, old_pass: &str, new_pass: &str) -> (r: Result<
        (),
        Error,
    >)
        requires
            old(self).wf(),
        ensures
            final(self).wf(),
            final(self).fail_writes == old(self).fail_writes,
            r is Err ==> final(self).table@ == old(self).table@,
            !spec_token_valid(old(self).table@, token@) ==> r == Err::<(), Error>(
                Error::Unauthorized,
            ),
            (r == Err::<(), Error>(Error::StoreFailure) && final(self).table@ == old(self).table@)
                || (r == Err::<(), Error>(Error::Unauthorized) && !spec_token_valid(
                old(self).table@,
                token@,
            )) || exists|digest: Seq<char>|
                bcrypt_verifies(new_pass@, digest) && #[trigger] change_pass_post(
                    old(self).table@,
                    final(self).table@,
                    old(self).fail_writes,
                    token@,
                    old_pass@,
                    digest,
                    r,
                ),
    {
        if !self.is_session_valid(token) {
            return Err(Error::Unauthorized);
        }
        let digest = match bcrypt_hash(new_pass) {
            Ok(d) => d,
            Err(e) => {
                return Err(e);
            },
        };
        let r = self.change_pass_with(token, old_pass, digest.as_str());
        proof {
            assert(bcrypt_verifies(new_pass@, digest@) && change_pass_post(
                old(self).table@,
                self.table@,
                old(self).fail_writes,
                token@,
                old_pass@,
                digest@,
                r,
            ));
        }
        r
    }

    /// Creates a session from an already-generated token at time
    /// `now`: authentication is the only gate, and on success exactly
    /// the one session item is written.
    pub fn get_session_at(&mut self, user: &User, token: String, now: i64) -> (r: Result<
        Session,
        Error,
    >)
        requires
            old(self).wf(),
            0 <= now <= RENDERABLE_SECS - SESSION_TTL_SECS,
        ensures
            final(self).wf(),
            final(self).fail_writes == old(self).fail_writes,
            !spec_login_ok(old(self).table@, user.username@, user.password@) ==> r
                == Err::<Session, Error>(Error::Unauthorized) && final(self).table@ == old(self).table@,
            spec_login_ok(old(self).table@, user.username@, user.password@) && old(self).fail_writes
                ==> r == Err::<Session, Error>(Error::StoreFailure) && final(self).table@ == old(self).table@,
            spec_login_ok(old(self).table@, user.username@, user.password@) && !old(self).fail_writes ==> r is Ok,
            r matches Ok(s) ==> {
                &&& s.session_id == token
                &&& s.created_at@ == rfc3339_of(now as int)
                &&& s.expired_at@ == rfc3339_of(now + SESSION_TTL_SECS)
                &&& final(self).table@ == old(self).table@.insert(
                    (spec_user_key(user.username@), spec_session_key(token@)),
                    s.spec_item(user.username@, now as int),
                )
            },
    {
        if !self.is_login_successful(user.username.as_str(), user.password.as_str()) {
            return Err(Error::Unauthorized);
        }
        if self.fail_writes {
            return Err(Error::StoreFailure);
        }
        let sess = match Session::new(token, now) {
            Some(s) => s,
            None => vstd::pervasive::unreached(),
        };
        let item = sess.to_item(user.username.as_str(), now);
        self.table.put_any(item);
        Ok(sess)
    }

    /// Logs a user in: on valid credentials, generates a fresh token
    /// and writes one session item with a seven-day TTL.
    pub fn get_session(&mut self, user: &User) -> (r: Result<Session, Error>)
        requires
            old(self).wf(),
        ensures
            final(self).wf(),
            final(self).fail_writes == old(self).fail_writes,
            r is Err ==> final(self).table@ == old(self).table@,
            !spec_login_ok(old(self).table@, user.username@, user.password@) ==> r
                == Err::<Session, Error>(Error::Unauthorized),
            spec_login_ok(old(self).table@, user.username@, user.password@) ==> r
                != Err::<Session, Error>(Error::Unauthorized),
            spec_login_ok(old(self).table@, user.username@, user.password@) && !old(
                self,
            ).fail_writes ==> r is Ok || r == Err::<Session, Error>(Error::StoreFailure),
            r matches Ok(s) ==> {
                &&& spec_login_ok(old(self).table@, user.username@, user.password@)
                &&& !old(self).fail_writes
                &&& s.session_id@.len() == 36
                &&& exists|nowv: int|
                    0 <= nowv && s.created_at@ == #[trigger] rfc3339_of(nowv) && s.expired_at@
                        == rfc3339_of(nowv + SESSION_TTL_SECS) && final(self).table@ == old(self).table@.insert(
                        (spec_user_key(user.username@), spec_session_key(s.session_id@)),
                        s.spec_item(user.username@, nowv),
                    )
            },
    {
        if !self.is_login_successful(user.username.as_str(), user.password.as_str()) {
            return Err(Error::Unauthorized);
        }
        let now = unix_now();
        if now < 0 || now > RENDERABLE_SECS - SESSION_TTL_SECS {
            return Err(Error::StoreFailure);
        }
        let token = fresh_token();
        self.get_session_at(user, token, now)
    }

    /// The store's TTL reclamation: removes every item whose TTL has
    /// passed `now`. Nothing else changes.
    pub fn expire_sessions(&mut self, now: i64)
        requires
            old(self).wf(),
        ensures
            final(self).wf(),
            final(self).fail_writes == old(self).fail_writes,
            forall|k: (Seq<char>, Seq<char>)|
                final(self).table@.contains_key(k) <==> old(self).table@.contains_key(k)
                    && !session_expired(old(self).table@[k], now),
            forall|k: (Seq<char>, Seq<char>)| #[trigger]
                final(self).table@.contains_key(k) ==> final(self).table@[k] == old(self).table@[k],
    {
        let cond = RowCond::TtlAtMost(now);
        proof {
            assert forall|m: Map<AttrName, AttrV>|
                cond_matches(RowCond::TtlAtMost(now), m) == session_expired(m, now) by {}
        }
        self.table.delete_matching(&cond);
    }

    /// Revokes every session of the token's owner: resolves the user,
    /// then deletes each item under the user's partition key whose
    /// sort key begins with `SESSION#`. Returns the username. Where
    /// the store-backed path deletes sequentially and can stop partway,
    /// this realization models the hardened choice of a batch-atomic
    /// sweep: either every session of the user goes, or (under an
    /// injected write failure) none does.
    pub fn delete_session(&mut self, token: &str) -> (r: Result<String, Error>)
        requires
            old(self).wf(),
        ensures
            final(self).wf(),
            final(self).fail_writes == old(self).fail_writes,
            r is Err ==> final(self).table@ == old(self).table@,
            !spec_token_valid(old(self).table@, token@) <==> r == Err::<String, Error>(
                Error::Unauthorized,
            ),
            spec_token_valid(old(self).table@, token@) && old(self).fail_writes ==> r
                == Err::<String, Error>(Error::StoreFailure),
            spec_token_valid(old(self).table@, token@) && !old(self).fail_writes ==> r is Ok,
            r matches Ok(name) ==> !old(self).fail_writes && exists|ukey: Seq<char>|
                {
                    &&& #[trigger] spec_resolves(old(self).table@, token@, ukey)
                    &&& name@ == spec_username_of_key(ukey)
                    &&& (forall|k: (Seq<char>, Seq<char>)|
                        final(self).table@.contains_key(k) <==> (old(self).table@.contains_key(k)
                            && !(k.0 == ukey && has_prefix(k.1, "SESSION#"@))))
                    &&& (forall|k: (Seq<char>, Seq<char>)| #[trigger]
                        final(self).table@.contains_key(k) ==> final(self).table@[k] == old(self).table@[k])
                },
    {
        let ghost orig = self.table@;
        let ghost orig_rows = self.table.rows@;
        let ukey = match self.get_user(token) {
            Some(u) => u,
            None => {
                return Err(Error::Unauthorized);
            },
        };
        if self.fail_writes {
            return Err(Error::StoreFailure);
        }
        let cond = RowCond::SkPrefix(ukey.clone(), "SESSION#".to_owned());
        self.table.delete_matching(&cond);
        proof {
            assert forall|k: (Seq<char>, Seq<char>)|
                self.table@.contains_key(k) <==> (orig.contains_key(k) && !(k.0 == ukey@
                    && has_prefix(k.1, "SESSION#"@))) by {
                if orig.contains_key(k) {
                    crate::store::lemma_rows_map_key(orig_rows, k);
                }
            }
            assert(spec_resolves(orig, token@, ukey@));
        }
        let name = if ukey.as_str().unicode_len() >= 5 {
            str_after(ukey.as_str(), 5)
        } else {
            ukey
        };
        Ok(name)
    }
}

/// The four recurring fees.
#[derive(Clone, Copy, Debug, PartialEq, Eq, Structural)]
pub enum FeeKind {
    Tax,
    Fitness,
    Insurance,
    Route,
}

/// The attribute holding a fee's due date.
pub open spec fn fee_date_name(k: FeeKind) -> AttrName {
    match k {
        FeeKind::Tax => AttrName::TaxDate,
        FeeKind::Fitness => AttrName::FitnessDate,
        FeeKind::Insurance => AttrName::InsuranceDate,
        FeeKind::Route => AttrName::RouteDate,
    }
}

/// The index attribute that marks vehicles for a fee's due-date scan.
pub open spec fn fee_marker_name(k: FeeKind) -> AttrName {
    match k {
        FeeKind::Tax => AttrName::Gsi5Pk,
        FeeKind::Fitness => AttrName::Gsi2Pk,
        FeeKind::Insurance => AttrName::Gsi3Pk,
        FeeKind::Route => AttrName::Gsi4Pk,
    }
}

/// The marker value of a fee's index entry.
pub open spec fn fee_marker_value(k: FeeKind) -> Seq<char> {
    match k {
        FeeKind::Tax => "FEE#TAX"@,
        FeeKind::Fitness => "FEE#FITNESS"@,
        FeeKind::Insurance => "FEE#INSURANCE"@,
        FeeKind::Route => "FEE#ROUTE"@,
    }
}

/// A fee name taken strictly: anything but the four names is rejected.
pub open spec fn spec_fee_kind_exact(s: Seq<char>) -> Option<FeeKind> {
    if s == "tax"@ {
        Some(FeeKind::Tax)
    } else if s == "fitness"@ {
        Some(FeeKind::Fitness)
    } else if s == "insurance"@ {
        Some(FeeKind::Insurance)
    } else if s == "route"@ {
        Some(FeeKind::Route)
    } else {
        None
    }
}

/// A fee name taken leniently: an unsupported name falls back to the
/// tax fee, as the due-date listing always has.
pub open spec fn spec_fee_kind_or_tax(s: Seq<char>) -> FeeKind {
    match spec_fee_kind_exact(s) {
        Some(k) => k,
        None => FeeKind::Tax,
    }
}

pub fn fee_kind_exact(s: &str) -> (r: Option<FeeKind>)
    ensures
        r == spec_fee_kind_exact(s@),
{
    if str_eq(s, "tax") {
        Some(FeeKind::Tax)
    } else if str_eq(s, "fitness") {
        Some(FeeKind::Fitness)
    } else if str_eq(s, "insurance") {
        Some(FeeKind::Insurance)
    } else if str_eq(s, "route") {
        Some(FeeKind::Route)
    } else {
        None
    }
}

pub fn fee_kind_or_tax(s: &str) -> (r: FeeKind)
    ensures
        r == spec_fee_kind_or_tax(s@),
{
    match fee_kind_exact(s) {
        Some(k) => k,
        None => FeeKind::Tax,
    }
}

pub fn fee_date_attr(k: FeeKind) -> (r: AttrName)
    ensures
        r == fee_date_name(k),
{
    match k {
        FeeKind::Tax => AttrName::TaxDate,
        FeeKind::Fitness => AttrName::FitnessDate,
        FeeKind::Insurance => AttrName::InsuranceDate,
        FeeKind::Route => AttrName::RouteDate,
    }
}

fn fee_marker_attr(k: FeeKind) -> (r: AttrName)
    ensures
        r == fee_marker_name(k),
{
    match k {
        FeeKind::Tax => AttrName::Gsi5Pk,
        FeeKind::Fitness => AttrName::Gsi2Pk,
        FeeKind::Insurance => AttrName::Gsi3Pk,
        FeeKind::Route => AttrName::Gsi4Pk,
    }
}

fn fee_marker_string(k: FeeKind) -> (r: String)
    ensures
        r@ == fee_marker_value(k),
{
    match k {
        FeeKind::Tax => "FEE#TAX".to_owned(),
        FeeKind::Fitness => "FEE#FITNESS".to_owned(),
        FeeKind::Insurance => "FEE#INSURANCE".to_owned(),
        FeeKind::Route => "FEE#ROUTE".to_owned(),
    }
}

/// A date string re-emitted canonically; meaningful when it parses.
pub open spec fn spec_canon(s: Seq<char>) -> Seq<char> {
    spec_format_date(spec_parse_date(s).unwrap())
}

/// At least one date field of the update is set.
pub open spec fn update_provided(u: UpdateVehicleV) -> bool {
    ||| u.tax_date is Some
    ||| u.insurance_date is Some
    ||| u.fitness_date is Some
    ||| u.route_date is Some
}

pub open spec fn opt_parses(o: Option<Seq<char>>) -> bool {
    match o {
        Some(s) => spec_parse_date(s) is Some,
        None => true,
    }
}

/// Every date field that is set parses.
pub open spec fn update_parses(u: UpdateVehicleV) -> bool {
    &&& opt_parses(u.tax_date)
    &&& opt_parses(u.insurance_date)
    &&& opt_parses(u.fitness_date)
    &&& opt_parses(u.route_date)
}

/// An acceptable update: at least one field set and all set fields
/// parse; anything else is a validation error.
pub open spec fn update_valid(u: UpdateVehicleV) -> bool {
    update_provided(u) && update_parses(u)
}

pub open spec fn apply_opt(
    m: Map<AttrName, AttrV>,
    n: AttrName,
    o: Option<Seq<char>>,
) -> Map<AttrName, AttrV> {
    match o {
        Some(s) => m.insert(n, AttrV::S(spec_canon(s))),
        None => m,
    }
}

/// The updated vehicle item: exactly the supplied date fields replaced
/// by their canonical renderings, and the update timestamp set; every
/// other attribute untouched.
pub open spec fn spec_apply_update(
    m: Map<AttrName, AttrV>,
    u: UpdateVehicleV,
    now: Seq<char>,
) -> Map<AttrName, AttrV> {
    apply_opt(
        apply_opt(
            apply_opt(apply_opt(m, AttrName::TaxDate, u.tax_date), AttrName::InsuranceDate, u.insurance_date),
            AttrName::FitnessDate,
            u.fitness_date,
        ),
        AttrName::RouteDate,
        u.route_date,
    ).insert(AttrName::UpdatedAt, AttrV::S(now))
}

/// Validates an update and applies it to a vehicle item: each supplied
/// date re-emitted canonically, the update timestamp set. Fails with
/// `Validation`, changing nothing, when no field is set or a set field
/// does not parse.
fn apply_update(item: &mut Item, u: &UpdateVehicle, now: &str) -> (r: Result<(), Error>)
    requires
        old(item).wf(),
    ensures
        final(item).wf(),
        r is Ok <==> update_valid(u@),
        r is Ok ==> final(item)@ == spec_apply_update(old(item)@, u@, now@),
        r is Err ==> r == Err::<(), Error>(Error::Validation) && final(item)@ == old(item)@
            && final(item).attrs@ == old(item).attrs@,
{
    let tax = match &u.tax_date {
        Some(s) => match parse_date(s.as_str()) {
            Some(d) => Some(format_date(&d)),
            None => {
                return Err(Error::Validation);
            },
        },
        None => None,
    };
    let insurance = match &u.insurance_date {
        Some(s) => match parse_date(s.as_str()) {
            Some(d) => Some(format_date(&d)),
            None => {
                return Err(Error::Validation);
            },
        },
        None => None,
    };
    let fitness = match &u.fitness_date {
        Some(s) => match parse_date(s.as_str()) {
            Some(d) => Some(format_date(&d)),
            None => {
                return Err(Error::Validation);
            },
        },
        None => None,
    };
    let route = match &u.route_date {
        Some(s) => match parse_date(s.as_str()) {
            Some(d) => Some(format_date(&d)),
            None => {
                return Err(Error::Validation);
            },
        },
        None => None,
    };
    if tax.is_none() && insurance.is_none() && fitness.is_none() && route.is_none() {
        return Err(Error::Validation);
    }
    match tax {
        Some(c) => item.set(AttrName::TaxDate, Attr::S(c)),
        None => (),
    }
    match insurance {
        Some(c) => item.set(AttrName::InsuranceDate, Attr::S(c)),
        None => (),
    }
    match fitness {
        Some(c) => item.set(AttrName::FitnessDate, Attr::S(c)),
        None => (),
    }
    match route {
        Some(c) => item.set(AttrName::RouteDate, Attr::S(c)),
        None => (),
    }
    item.set(AttrName::UpdatedAt, Attr::S(now.to_owned()));
    Ok(())
}

/// The whole behaviour of a fee payment at time `now`. Success is owed
/// exactly when the token validates, the vehicle exists, the fee name
/// is one of the four, the update is acceptable, and writes work; the
/// two writes — the updated vehicle and the audit row recording the
/// pre-update date — land together or not at all.
pub open spec fn pay_fee_post(
    oldt: Map<(Seq<char>, Seq<char>), Map<AttrName, AttrV>>,
    newt: Map<(Seq<char>, Seq<char>), Map<AttrName, AttrV>>,
    fail: bool,
    token: Seq<char>,
    fee_type: Seq<char>,
    u: UpdateVehicleV,
    now: Seq<char>,
    r: Result<(), Error>,
) -> bool {
    let vkey = (spec_vehicle_key(u.vehicle_no), spec_vehicle_key(u.vehicle_no));
    let kind_opt = spec_fee_kind_exact(fee_type);
    &&& (r is Err ==> newt == oldt)
    &&& (!spec_token_valid(oldt, token) <==> r == Err::<(), Error>(Error::Unauthorized))
    &&& (spec_token_valid(oldt, token) && !oldt.contains_key(vkey) ==> r == Err::<(), Error>(
        Error::NotFound,
    ))
    &&& (spec_token_valid(oldt, token) && oldt.contains_key(vkey) && kind_opt is None ==> r
        == Err::<(), Error>(Error::Validation))
    &&& (spec_token_valid(oldt, token) && oldt.contains_key(vkey) && kind_opt is Some
        && !update_valid(u) ==> r == Err::<(), Error>(Error::Validation))
    &&& (spec_token_valid(oldt, token) && oldt.contains_key(vkey) && kind_opt is Some
        && update_valid(u) && fail ==> r == Err::<(), Error>(Error::StoreFailure))
    &&& (spec_token_valid(oldt, token) && oldt.contains_key(vkey) && kind_opt is Some
        && update_valid(u) && !fail ==> r is Ok)
    &&& (r is Ok ==> {
        let prev = date_or_empty(oldt[vkey], fee_date_name(kind_opt.unwrap()));
        exists|payer_key: Seq<char>|
            #[trigger] spec_resolves(oldt, token, payer_key) && newt == oldt.insert(
                vkey,
                spec_apply_update(oldt[vkey], u, now),
            ).insert(
                (spec_vehicle_key(u.vehicle_no), spec_history_sk(prev, fee_type)),
                spec_history_item(
                    TransactionHistoryV {
                        vehicle_no: u.vehicle_no,
                        date: prev,
                        transaction_type: fee_type,
                        payer: spec_username_of_key(payer_key),
                    },
                ),
            )
    })
}

/// The whole behaviour of an administrative update at time `now`: the
/// same update mechanics as a payment, without the audit row.
pub open spec fn update_vehicle_post(
    oldt: Map<(Seq<char>, Seq<char>), Map<AttrName, AttrV>>,
    newt: Map<(Seq<char>, Seq<char>), Map<AttrName, AttrV>>,
    fail: bool,
    token: Seq<char>,
    u: UpdateVehicleV,
    now: Seq<char>,
    r: Result<(), Error>,
) -> bool {
    let vkey = (spec_vehicle_key(u.vehicle_no), spec_vehicle_key(u.vehicle_no));
    &&& (r is Err ==> newt == oldt)
    &&& (!spec_token_valid(oldt, token) <==> r == Err::<(), Error>(Error::Unauthorized))
    &&& (spec_token_valid(oldt, token) && !oldt.contains_key(vkey) ==> r == Err::<(), Error>(
        Error::NotFound,
    ))
    &&& (spec_token_valid(oldt, token) && oldt.contains_key(vkey) && !update_valid(u) ==> r
        == Err::<(), Error>(Error::Validation))
    &&& (spec_token_valid(oldt, token) && oldt.contains_key(vkey) && update_valid(u) && fail ==> r
        == Err::<(), Error>(Error::StoreFailure))
    &&& (spec_token_valid(oldt, token) && oldt.contains_key(vkey) && update_valid(u) && !fail
        ==> r is Ok)
    &&& (r is Ok ==> newt == oldt.insert(vkey, spec_apply_update(oldt[vkey], u, now)))
}

impl MemDataAccess {
    /// Strips the `USER#` prefix from a resolved user key.
    fn username_of(ukey: &str) -> (r: String)
        ensures
            r@ == spec_username_of_key(ukey@),
    {
        if ukey.unicode_len() >= 5 {
            str_after(ukey, 5)
        } else {
            ukey.to_owned()
        }
    }

    /// Pays a fee at time `now`: atomically rewrites the vehicle's
    /// supplied due dates and appends the audit row that records the
    /// fee's pre-payment date verbatim and the payer's username.
    pub fn pay_fee_at(&mut self, token: &str, fee_type: &str, update: &UpdateVehicle, now: &str)
        -> (r: Result<(), Error>)
        requires
            old(self).wf(),
        ensures
            final(self).wf(),
            final(self).fail_writes == old(self).fail_writes,
            pay_fee_post(
                old(self).table@,
                final(self).table@,
                old(self).fail_writes,
                token@,
                fee_type@,
                update@,
                now@,
                r,
            ),
    {
        let ghost orig_rows = self.table.rows@;
        let ukey = match self.get_user(token) {
            Some(u) => u,
            None => {
                return Err(Error::Unauthorized);
            },
        };
        let vkey = vehicle_key_str(update.vehicle_no.as_str());
        let mut vitem = match self.table.get_item(vkey.as_str(), vkey.as_str()) {
            Some(it) => it,
            None => {
                return Err(Error::NotFound);
            },
        };
        proof {
            crate::store::lemma_rows_map_key(orig_rows, (vkey@, vkey@));
        }
        let kind = match fee_kind_exact(fee_type) {
            Some(k) => k,
            None => {
                return Err(Error::Validation);
            },
        };
        let prev = date_field(&vitem, fee_date_attr(kind));
        match apply_update(&mut vitem, update, now) {
            Ok(()) => (),
            Err(e) => {
                return Err(e);
            },
        }
        if self.fail_writes {
            return Err(Error::StoreFailure);
        }
        let hist = TransactionHistory {
            vehicle_no: update.vehicle_no.clone(),
            date: prev,
            transaction_type: fee_type.to_owned(),
            payer: Self::username_of(ukey.as_str()),
        };
        let hitem = hist.to_item();
        self.table.put_any(vitem);
        self.table.put_any(hitem);
        Ok(())
    }

    /// Pays a fee, stamping the update with the clock's RFC 3339 time.
    pub fn pay_fee(&mut self, token: &str, fee_type: &str, update: &UpdateVehicle) -> (r: Result<
        (),
        Error,
    >)
        requires
            old(self).wf(),
        ensures
            final(self).wf(),
            final(self).fail_writes == old(self).fail_writes,
            r is Err ==> final(self).table@ == old(self).table@,
            spec_token_valid(old(self).table@, token@) && old(self).table@.contains_key(
                (spec_vehicle_key(update.vehicle_no@), spec_vehicle_key(update.vehicle_no@)),
            ) && spec_fee_kind_exact(fee_type@) is Some && update_valid(update@) && !old(
                self,
            ).fail_writes ==> r is Ok || r == Err::<(), Error>(Error::StoreFailure),
            (r == Err::<(), Error>(Error::StoreFailure) && final(self).table@ == old(self).table@)
                || exists|nowv: Seq<char>|
                #[trigger] pay_fee_post(
                    old(self).table@,
                    final(self).table@,
                    old(self).fail_writes,
                    token@,
                    fee_type@,
                    update@,
                    nowv,
                    r,
                ),
    {
        let now = unix_now();
        if now < 0 || now > RENDERABLE_SECS {
            return Err(Error::StoreFailure);
        }
        let nowstr = match format_rfc3339(now) {
            Some(s) => s,
            None => vstd::pervasive::unreached(),
        };
        self.pay_fee_at(token, fee_type, update, nowstr.as_str())
    }

    /// Corrects a vehicle's due dates at time `now`: the same update
    /// mechanics as a payment, with no audit row.
    pub fn update_vehicle_at(&mut self, token: &str, update: &UpdateVehicle, now: &str) -> (r:
        Result<(), Error>)
        requires
            old(self).wf(),
        ensures
            final(self).wf(),
            final(self).fail_writes == old(self).fail_writes,
            update_vehicle_post(
                old(self).table@,
                final(self).table@,
                old(self).fail_writes,
                token@,
                update@,
                now@,
                r,
            ),
    {
        let ghost orig_rows = self.table.rows@;
        match self.get_user(token) {
            Some(_) => (),
            None => {
                return Err(Error::Unauthorized);
            },
        }
        let vkey = vehicle_key_str(update.vehicle_no.as_str());
        let mut vitem = match self.table.get_item(vkey.as_str(), vkey.as_str()) {
            Some(it) => it,
            None => {
                return Err(Error::NotFound);
            },
        };
        proof {
            crate::store::lemma_rows_map_key(orig_rows, (vkey@, vkey@));
        }
        match apply_update(&mut vitem, update, now) {
            Ok(()) => (),
            Err(e) => {
                return Err(e);
            },
        }
        if self.fail_writes {
            return Err(Error::StoreFailure);
        }
        self.table.put_any(vitem);
        Ok(())
    }

    /// Corrects a vehicle's due dates, stamped with the clock's time.
    pub fn update_vehicle(&mut self, token: &str, update: &UpdateVehicle) -> (r: Result<(), Error>)
        requires
            old(self).wf(),
        ensures
            final(self).wf(),
            final(self).fail_writes == old(self).fail_writes,
            r is Err ==> final(self).table@ == old(self).table@,
            spec_token_valid(old(self).table@, token@) && old(self).table@.contains_key(
                (spec_vehicle_key(update.vehicle_no@), spec_vehicle_key(update.vehicle_no@)),
            ) && update_valid(update@) && !old(self).fail_writes ==> r is Ok || r == Err::<
                (),
                Error,
            >(Error::StoreFailure),
            (r == Err::<(), Error>(Error::StoreFailure) && final(self).table@ == old(self).table@)
                || exists|nowv: Seq<char>|
                #[trigger] update_vehicle_post(
                    old(self).table@,
                    final(self).table@,
                    old(self).fail_writes,
                    token@,
                    update@,
                    nowv,
                    r,
                ),
    {
        let now = unix_now();
        if now < 0 || now > RENDERABLE_SECS {
            return Err(Error::StoreFailure);
        }
        let nowstr = match format_rfc3339(now) {
            Some(s) => s,
            None => vstd::pervasive::unreached(),
        };
        self.update_vehicle_at(token, update, nowstr.as_str())
    }
}

/// An item the store's TTL reclamation takes at time `now`.
pub open spec fn session_expired(m: Map<AttrName, AttrV>, now: i64) -> bool {
    m.contains_key(AttrName::Ttl) && match m[AttrName::Ttl] {
        AttrV::N(v) => v <= now,
        _ => false,
    }
}

/// Relies on chrono's `Local::now` and `Datelike`: the local calendar
/// date of the clock, whose month and day are in their documented
/// ranges.
#[verifier::external_body]
fn today_local() -> (r: (i32, u32, u32))
    ensures
        1 <= r.1 <= 12,
        1 <= r.2 <= 31,
{
    let now = chrono::Local::now();
    (chrono::Datelike::year(&now), chrono::Datelike::month(&now), chrono::Datelike::day(&now))
}

/// The clock's local calendar date, when it falls in the supported
/// years.
pub fn current_date() -> (r: Option<Date>)
    ensures
        r matches Some(d) ==> d.valid(),
{
    let (y, m, d) = today_local();
    if y < 1 || y > 9999 {
        return None;
    }
    let date = Date { year: y as u32, month: m, day: d };
    if valid_date(&date) {
        Some(date)
    } else {
        None
    }
}

/// A date string falls in the queried window: overdue means strictly
/// before today; a positive window means today through today plus
/// `days`, inclusive. A string that does not parse is never in a
/// window.
pub open spec fn window_holds(ds: Seq<char>, today: Date, days: u32) -> bool {
    match spec_parse_date(ds) {
        Some(d) => if days == 0 {
            spec_day_number(d) < spec_day_number(today)
        } else {
            spec_day_number(today) <= spec_day_number(d) && spec_day_number(d) <= spec_day_number(
                today,
            ) + days
        },
        None => false,
    }
}

fn date_in_window(ds: &str, today: &Date, days: u32) -> (r: bool)
    requires
        today.valid(),
    ensures
        r == window_holds(ds@, *today, days),
{
    let d = match parse_date(ds) {
        Some(d) => d,
        None => {
            return false;
        },
    };
    let dn = day_number(&d);
    let dt = day_number(today);
    if days == 0 {
        dn < dt
    } else {
        dt <= dn && (dn as u64) <= (dt as u64) + (days as u64)
    }
}

/// An item carrying the list-all vehicle marker.
pub open spec fn is_vehicle_marked(m: Map<AttrName, AttrV>) -> bool {
    m.contains_key(AttrName::Gsi7Pk) && m[AttrName::Gsi7Pk] == AttrV::S("VEHICLE"@)
}

/// An item carrying a fee's index marker.
pub open spec fn fee_marked(m: Map<AttrName, AttrV>, k: FeeKind) -> bool {
    m.contains_key(fee_marker_name(k)) && m[fee_marker_name(k)] == AttrV::S(fee_marker_value(k))
}

/// An item of a fee's index whose due date falls in the window.
pub open spec fn in_fee_window(m: Map<AttrName, AttrV>, k: FeeKind, today: Date, days: u32) -> bool {
    fee_marked(m, k) && window_holds(date_or_empty(m, fee_date_name(k)), today, days)
}

/// The read patterns of the vehicle listings.
pub enum RowFilter {
    /// Every vehicle: the global list-all marker.
    VehicleAll,
    /// Vehicles of one fee index whose due date is in the window.
    FeeDue(FeeKind, Date, u32),
}

pub open spec fn filter_wf(f: RowFilter) -> bool {
    match f {
        RowFilter::VehicleAll => true,
        RowFilter::FeeDue(_, today, _) => today.valid(),
    }
}

#[verifier::opaque]
pub open spec fn filter_matches(f: RowFilter, m: Map<AttrName, AttrV>) -> bool {
    match f {
        RowFilter::VehicleAll => is_vehicle_marked(m),
        RowFilter::FeeDue(k, today, days) => in_fee_window(m, k, today, days),
    }
}

fn filter_matches_row(f: &RowFilter, row: &Item) -> (r: bool)
    requires
        row.wf(),
        filter_wf(*f),
    ensures
        r == filter_matches(*f, row@),
{
    proof {
        reveal(filter_matches);
    }
    match f {
        RowFilter::VehicleAll => {
            match row.get_s(AttrName::Gsi7Pk) {
                Some(s) => str_eq(s.as_str(), "VEHICLE"),
                None => false,
            }
        },
        RowFilter::FeeDue(k, today, days) => {
            let marked = match row.get_s(fee_marker_attr(*k)) {
                Some(s) => str_eq(s.as_str(), fee_marker_string(*k).as_str()),
                None => false,
            };
            if !marked {
                return false;
            }
            let ds = date_field(row, fee_date_attr(*k));
            date_in_window(ds.as_str(), today, *days)
        },
    }
}

/// The stored rows a filter selects, in table order.
pub open spec fn spec_filter_rows(s: Seq<Item>, f: RowFilter) -> Seq<Item>
    decreases s.len(),
{
    if s.len() == 0 {
        Seq::empty()
    } else {
        spec_filter_rows(s.drop_last(), f) + if filter_matches(f, s.last()@) {
            seq![s.last()]
        } else {
            Seq::empty()
        }
    }
}

/// The vehicles a listing returns: the filtered rows, decoded in order.
pub open spec fn spec_listed_vehicles(rows: Seq<Item>, f: RowFilter) -> Seq<VehicleV> {
    spec_vehicles_of(spec_filter_rows(rows, f))
}

/// Scans the table for the rows a filter selects: the returned items
/// are exactly the matching stored rows, in table order.
fn collect_rows(t: &Table, f: &RowFilter) -> (r: Vec<Item>)
    requires
        t.wf(),
        filter_wf(*f),
    ensures
        r@.len() == spec_filter_rows(t.rows@, *f).len(),
        forall|idx: int|
            0 <= idx < r@.len() ==> (#[trigger] r@[idx]).wf() && r@[idx].attrs@ == spec_filter_rows(
                t.rows@,
                *f,
            )[idx].attrs@,
{
    let len = t.rows.len();
    let mut out: Vec<Item> = Vec::new();
    let mut i: usize = 0;
    while i < len
        invariant
            i <= len,
            len == t.rows@.len(),
            t.wf(),
            filter_wf(*f),
            out@.len() == spec_filter_rows(t.rows@.subrange(0, i as int), *f).len(),
            forall|idx: int|
                0 <= idx < out@.len() ==> (#[trigger] out@[idx]).wf() && out@[idx].attrs@
                    == spec_filter_rows(t.rows@.subrange(0, i as int), *f)[idx].attrs@,
        decreases len - i,
    {
        proof {
            assert(t.rows@.subrange(0, i + 1).drop_last() =~= t.rows@.subrange(0, i as int));
            assert(t.rows@.subrange(0, i + 1).last() == t.rows@[i as int]);
        }
        let row = &t.rows[i];
        if filter_matches_row(f, row) {
            out.push(row.clone());
        }
        i = i + 1;
    }
    proof {
        assert(t.rows@.subrange(0, len as int) =~= t.rows@);
    }
    out
}

impl MemDataAccess {
    /// Registers a vehicle: one atomic transaction writes the vehicle
    /// item and its search entry, each conditioned on not existing
    /// already — on any conflict neither is written.
    pub fn add_vehicle_at(&mut self, token: &str, car: Vehicle, now: &str) -> (r: Result<
        (),
        Error,
    >)
        requires
            old(self).wf(),
            car.vehicle_no@.len() >= 4,
        ensures
            final(self).wf(),
            final(self).fail_writes == old(self).fail_writes,
            r is Err ==> final(self).table@ == old(self).table@,
            !spec_token_valid(old(self).table@, token@) <==> r == Err::<(), Error>(
                Error::Unauthorized,
            ),
            spec_token_valid(old(self).table@, token@) && old(self).fail_writes ==> r
                == Err::<(), Error>(Error::StoreFailure),
            spec_token_valid(old(self).table@, token@) && !old(self).fail_writes ==> {
                let vkey = (spec_vehicle_key(car.vehicle_no@), spec_vehicle_key(car.vehicle_no@));
                let skey = ("SEARCH"@, spec_search_key(car.vehicle_no@));
                &&& (r is Ok <==> !old(self).table@.contains_key(vkey) && !old(
                    self,
                ).table@.contains_key(skey))
                &&& (r is Err ==> r == Err::<(), Error>(Error::Conflict))
                &&& (r is Ok ==> final(self).table@ == old(self).table@.insert(
                    vkey,
                    spec_vehicle_item(car@, now@),
                ).insert(skey, spec_search_item(car.vehicle_no@)))
            },
    {
        if !self.is_session_valid(token) {
            return Err(Error::Unauthorized);
        }
        if self.fail_writes {
            return Err(Error::StoreFailure);
        }
        let vkey = vehicle_key_str(car.vehicle_no.as_str());
        let skey = vehicle_search_key_str(car.vehicle_no.as_str());
        if self.table.contains(vkey.as_str(), vkey.as_str()) {
            return Err(Error::Conflict);
        }
        if self.table.contains("SEARCH", skey.as_str()) {
            return Err(Error::Conflict);
        }
        proof {
            reveal_strlit("SEARCH");
            reveal_strlit("CAR#");
            if "SEARCH"@ == spec_vehicle_key(car.vehicle_no@) {
                assert("SEARCH"@[0] == 'S');
                assert(spec_vehicle_key(car.vehicle_no@)[0] == 'C');
            }
        }
        let sitem = car.to_search_item();
        let vitem = car.to_item(now);
        match self.table.put_new(vitem) {
            Ok(()) => (),
            Err(_) => {
                return vstd::pervasive::unreached();
            },
        }
        match self.table.put_new(sitem) {
            Ok(()) => (),
            Err(_) => {
                return vstd::pervasive::unreached();
            },
        }
        Ok(())
    }

    /// Registers a vehicle, stamped with the clock's RFC 3339 time.
    pub fn add_vehicle(&mut self, token: &str, car: Vehicle) -> (r: Result<(), Error>)
        requires
            old(self).wf(),
            car.vehicle_no@.len() >= 4,
        ensures
            final(self).wf(),
            final(self).fail_writes == old(self).fail_writes,
            r is Err ==> final(self).table@ == old(self).table@,
            !spec_token_valid(old(self).table@, token@) <==> r == Err::<(), Error>(
                Error::Unauthorized,
            ),
            r is Ok ==> !old(self).fail_writes && !old(self).table@.contains_key(
                (spec_vehicle_key(car.vehicle_no@), spec_vehicle_key(car.vehicle_no@)),
            ) && !old(self).table@.contains_key(("SEARCH"@, spec_search_key(car.vehicle_no@)))
                && exists|nowv: Seq<char>|
                final(self).table@ == old(self).table@.insert(
                    (spec_vehicle_key(car.vehicle_no@), spec_vehicle_key(car.vehicle_no@)),
                    #[trigger] spec_vehicle_item(car@, nowv),
                ).insert(("SEARCH"@, spec_search_key(car.vehicle_no@)), spec_search_item(
                    car.vehicle_no@,
                )),
            spec_token_valid(old(self).table@, token@) && !old(self).fail_writes && r is Err ==> (r
                == Err::<(), Error>(Error::Conflict) && (old(self).table@.contains_key(
                (spec_vehicle_key(car.vehicle_no@), spec_vehicle_key(car.vehicle_no@)),
            ) || old(self).table@.contains_key(("SEARCH"@, spec_search_key(car.vehicle_no@))))) || r
                == Err::<(), Error>(Error::StoreFailure),
            spec_token_valid(old(self).table@, token@) && !old(self).fail_writes && !old(
                self,
            ).table@.contains_key(
                (spec_vehicle_key(car.vehicle_no@), spec_vehicle_key(car.vehicle_no@)),
            ) && !old(self).table@.contains_key(("SEARCH"@, spec_search_key(car.vehicle_no@)))
                ==> r is Ok || r == Err::<(), Error>(Error::StoreFailure),
    {
        if !self.is_session_valid(token) {
            return Err(Error::Unauthorized);
        }
        let now = unix_now();
        if now < 0 || now > RENDERABLE_SECS {
            return Err(Error::StoreFailure);
        }
        let nowstr = match format_rfc3339(now) {
            Some(s) => s,
            None => vstd::pervasive::unreached(),
        };
        self.add_vehicle_at(token, car, nowstr.as_str())
    }

    /// Lists every vehicle: the items under the list-all marker,
    /// decoded in table order.
    pub fn get_all_vehicle(&self, token: &str) -> (r: Result<Vec<Vehicle>, Error>)
        requires
            self.wf(),
        ensures
            !spec_token_valid(self.table@, token@) <==> r == Err::<Vec<Vehicle>, Error>(
                Error::Unauthorized,
            ),
            spec_token_valid(self.table@, token@) ==> r is Ok,
            r matches Ok(vs) ==> {
                let listed = spec_listed_vehicles(self.table.rows@, RowFilter::VehicleAll);
                vs@.len() == listed.len() && forall|idx: int|
                    0 <= idx < vs@.len() ==> (#[trigger] vs@[idx])@ == listed[idx]
            },
    {
        if !self.is_session_valid(token) {
            return Err(Error::Unauthorized);
        }
        let filter = RowFilter::VehicleAll;
        Ok(list_vehicles(&self.table, &filter))
    }

    /// Lists the vehicles of one fee's index whose due date is in the
    /// window measured from `today`: zero days means overdue, strictly
    /// before today; otherwise today through today plus `days`,
    /// inclusive. An unsupported fee name falls back to the tax fee.
    pub fn get_vehicles_by_type_on(&self, token: &str, fee_type: &str, days: u32, today: &Date)
        -> (r: Result<Vec<Vehicle>, Error>)
        requires
            self.wf(),
            today.valid(),
        ensures
            !spec_token_valid(self.table@, token@) <==> r == Err::<Vec<Vehicle>, Error>(
                Error::Unauthorized,
            ),
            spec_token_valid(self.table@, token@) ==> r is Ok,
            r matches Ok(vs) ==> {
                let listed = spec_listed_vehicles(
                    self.table.rows@,
                    RowFilter::FeeDue(spec_fee_kind_or_tax(fee_type@), *today, days),
                );
                vs@.len() == listed.len() && forall|idx: int|
                    0 <= idx < vs@.len() ==> (#[trigger] vs@[idx])@ == listed[idx]
            },
    {
        if !self.is_session_valid(token) {
            return Err(Error::Unauthorized);
        }
        let kind = fee_kind_or_tax(fee_type);
        let filter = RowFilter::FeeDue(kind, *today, days);
        Ok(list_vehicles(&self.table, &filter))
    }

    /// Lists due vehicles measured from the clock's local date.
    pub fn get_vehicles_by_type(&self, token: &str, fee_type: &str, days: u32) -> (r: Result<
        Vec<Vehicle>,
        Error,
    >)
        requires
            self.wf(),
        ensures
            !spec_token_valid(self.table@, token@) <==> r == Err::<Vec<Vehicle>, Error>(
                Error::Unauthorized,
            ),
            spec_token_valid(self.table@, token@) ==> r is Ok || r == Err::<Vec<Vehicle>, Error>(
                Error::StoreFailure,
            ),
            r matches Ok(vs) ==> exists|today: Date|
                #![trigger spec_listed_vehicles(self.table.rows@, RowFilter::FeeDue(spec_fee_kind_or_tax(fee_type@), today, days))]
                {
                    let listed = spec_listed_vehicles(
                        self.table.rows@,
                        RowFilter::FeeDue(spec_fee_kind_or_tax(fee_type@), today, days),
                    );
                    today.valid() && vs@.len() == listed.len() && forall|idx: int|
                        0 <= idx < vs@.len() ==> (#[trigger] vs@[idx])@ == listed[idx]
                },
    {
        if !self.is_session_valid(token) {
            return Err(Error::Unauthorized);
        }
        let today = match current_date() {
            Some(d) => d,
            None => {
                return Err(Error::StoreFailure);
            },
        };
        self.get_vehicles_by_type_on(token, fee_type, days, &today)
    }
}

/// What each filter selects, spelled out.
pub proof fn lemma_filter_semantics(f: RowFilter, m: Map<AttrName, AttrV>)
    ensures
        filter_matches(f, m) == match f {
            RowFilter::VehicleAll => is_vehicle_marked(m),
            RowFilter::FeeDue(k, today, days) => in_fee_window(m, k, today, days),
        },
{
    reveal(filter_matches);
}

/// Collects and decodes the vehicles a filter selects.
fn list_vehicles(t: &Table, f: &RowFilter) -> (vs: Vec<Vehicle>)
    requires
        t.wf(),
        filter_wf(*f),
    ensures
        vs@.len() == spec_listed_vehicles(t.rows@, *f).len(),
        forall|idx: int|
            0 <= idx < vs@.len() ==> (#[trigger] vs@[idx])@ == spec_listed_vehicles(
                t.rows@,
                *f,
            )[idx],
{
    let found = collect_rows(t, f);
    let ghost foundv = found@;
    let vs = vehicle_repo(found);
    proof {
        lemma_vehicles_of_congruent(foundv, spec_filter_rows(t.rows@, *f));
    }
    vs
}

/// The table after a successful undo: the vehicle's fee date restored
/// to the canonical form of the recorded date, the update timestamp
/// set, and the audit row gone.
pub open spec fn spec_undo_result(
    oldt: Map<(Seq<char>, Seq<char>), Map<AttrName, AttrV>>,
    vid: Seq<char>,
    fee: Seq<char>,
    date: Seq<char>,
    nowv: Seq<char>,
) -> Map<(Seq<char>, Seq<char>), Map<AttrName, AttrV>> {
    oldt.insert(
        (spec_vehicle_key(vid), spec_vehicle_key(vid)),
        oldt[(spec_vehicle_key(vid), spec_vehicle_key(vid))].insert(
            fee_date_name(spec_fee_kind_exact(fee).unwrap()),
            AttrV::S(spec_canon(date)),
        ).insert(AttrName::UpdatedAt, AttrV::S(nowv)),
    ).remove((spec_vehicle_key(vid), spec_history_sk(date, fee)))
}

/// Inserts a dated row into a list sorted by day number, newest
/// first, keeping it sorted.
fn insert_sorted(out: &mut Vec<(u32, TransactionHistory)>, dn: u32, h: TransactionHistory) -> (pos:
    usize)
    requires
        forall|a: int, b: int|
            0 <= a < b < old(out)@.len() ==> (#[trigger] old(out)@[a]).0 >= (#[trigger] old(out)@[b]).0,
    ensures
        pos <= old(out)@.len(),
        final(out)@ == old(out)@.insert(pos as int, (dn, h)),
        forall|a: int, b: int|
            0 <= a < b < final(out)@.len() ==> (#[trigger] final(out)@[a]).0 >= (#[trigger] final(out)@[b]).0,
{
    let len = out.len();
    let mut pos: usize = 0;
    while pos < len && out[pos].0 >= dn
        invariant
            pos <= len,
            len == out@.len(),
            out@ == old(out)@,
            forall|q: int| 0 <= q < pos ==> (#[trigger] out@[q]).0 >= dn,
        decreases len - pos,
    {
        pos = pos + 1;
    }
    let ghost prev = out@;
    let ghost pr: (u32, TransactionHistory) = (dn, h);
    out.insert(pos, (dn, h));
    proof {
        assert(out@ =~= prev.insert(pos as int, pr));
        assert forall|a: int, b: int| 0 <= a < b < out@.len() implies (#[trigger] out@[a]).0 >= (
        #[trigger] out@[b]).0 by {
            if b < pos {
                assert(out@[a] == prev[a]);
                assert(out@[b] == prev[b]);
            } else if b == pos {
                assert(out@[b] == pr);
                assert(out@[a] == prev[a]);
            } else {
                assert(out@[b] == prev[b - 1]);
                if a < pos {
                    assert(out@[a] == prev[a]);
                    assert(prev[pos as int].0 < dn || pos == prev.len());
                    if (pos as int) < b - 1 {
                        assert(prev[pos as int].0 >= prev[b - 1].0);
                    }
                } else if a == pos {
                    assert(out@[a] == pr);
                    assert(prev[b - 1].0 <= prev[pos as int].0);
                    assert(prev[pos as int].0 < dn);
                } else {
                    assert(out@[a] == prev[a - 1]);
                }
            }
        }
    }
    pos
}

/// A row of the audit window: carries the chronological marker,
/// decodes to a history row, and its recorded date parses and falls
/// within `days` days back from `today`, inclusive.
#[verifier::opaque]
pub open spec fn history_in_window(m: Map<AttrName, AttrV>, today: Date, days: u32) -> bool {
    &&& m.contains_key(AttrName::Gsi3Pk)
    &&& m[AttrName::Gsi3Pk] == AttrV::S("HISTORY"@)
    &&& spec_history_of_item(m) is Some
    &&& match spec_parse_date(spec_history_of_item(m).unwrap().date) {
        Some(d) => spec_day_number(today) - days <= spec_day_number(d) <= spec_day_number(today),
        None => false,
    }
}

/// The day number of a history row's recorded date; meaningful when
/// the date parses.
#[verifier::opaque]
pub open spec fn history_day(h: TransactionHistoryV) -> int {
    spec_day_number(spec_parse_date(h.date).unwrap())
}

/// A dated entry: the row's recorded date parses, and the carried day
/// number is that date's.
#[verifier::opaque]
pub open spec fn dated_entry(p: (u32, TransactionHistory)) -> bool {
    spec_parse_date(p.1@.date) is Some && p.0 == history_day(p.1@)
}

/// Decodes a row of the audit window, with the day number of its
/// recorded date; `None` exactly when the row is not in the window.
fn window_entry(row: &Item, today: &Date, days: u32) -> (r: Option<(u32, TransactionHistory)>)
    requires
        row.wf(),
        today.valid(),
    ensures
        r is Some <==> history_in_window(row@, *today, days),
        r matches Some(p) ==> spec_history_of_item(row@) == Some(p.1@) && dated_entry(p),
{
    proof {
        reveal(history_in_window);
        reveal(history_day);
        reveal(dated_entry);
    }
    let marked = match row.get_s(AttrName::Gsi3Pk) {
        Some(s) => str_eq(s.as_str(), "HISTORY"),
        None => false,
    };
    if !marked {
        return None;
    }
    let h = match history_from_item(row) {
        Some(h) => h,
        None => {
            return None;
        },
    };
    let d = match parse_date(h.date.as_str()) {
        Some(d) => d,
        None => {
            return None;
        },
    };
    let dn = day_number(&d);
    let dt = day_number(today);
    let lo: i64 = (dt as i64) - (days as i64);
    if lo <= (dn as i64) && dn <= dt {
        Some((dn, h))
    } else {
        None
    }
}

/// The row at `j` is in the audit window; the form the completeness
/// quantifiers trigger on.
pub open spec fn in_window_at(rows: Seq<Item>, j: int, today: Date, days: u32) -> bool {
    history_in_window(rows[j]@, today, days)
}

/// The value decodes from some row of the audit window.
pub open spec fn from_window_row(
    rows: Seq<Item>,
    today: Date,
    days: u32,
    v: TransactionHistoryV,
) -> bool {
    exists|j: int|
        #![trigger rows[j]]
        0 <= j < rows.len() && history_in_window(rows[j]@, today, days) && spec_history_of_item(
            rows[j]@,
        ) == Some(v)
}

/// What the audit view returns for window `[today - days, today]`:
/// every returned row decodes from a window row, every window row is
/// returned, every returned date parses, and the rows come newest
/// first.
pub open spec fn history_view_ok(
    rows: Seq<Item>,
    today: Date,
    days: u32,
    vs: Seq<TransactionHistory>,
) -> bool {
    &&& forall|idx: int|
        #![trigger vs[idx]]
        0 <= idx < vs.len() ==> from_window_row(rows, today, days, vs[idx]@)
    &&& forall|j: int|
        0 <= j < rows.len() && #[trigger] in_window_at(rows, j, today, days) ==> exists|idx: int|
            #![trigger vs[idx]]
            0 <= idx < vs.len() && Some(vs[idx]@) == spec_history_of_item(rows[j]@)
    &&& forall|idx: int|
        #![trigger vs[idx]]
        0 <= idx < vs.len() ==> spec_parse_date(vs[idx]@.date) is Some
    &&& forall|a: int, b: int|
        0 <= a < b < vs.len() ==> history_day((#[trigger] vs[a])@) >= history_day((#[trigger] vs[b])@)
}

/// The audit-scan invariant: every collected entry is dated and comes
/// from a window row before `i`, named by its witness index, and every
/// window row before `i` is collected.
pub open spec fn window_inv(
    rows: Seq<Item>,
    i: int,
    out: Seq<(u32, TransactionHistory)>,
    wit: Seq<int>,
    today: Date,
    days: u32,
) -> bool {
    &&& wit.len() == out.len()
    &&& forall|idx: int|
        #![trigger out[idx]]
        0 <= idx < out.len() ==> dated_entry(out[idx]) && 0 <= wit[idx] < i && history_in_window(
            rows[wit[idx]]@,
            today,
            days,
        ) && spec_history_of_item(rows[wit[idx]]@) == Some(out[idx].1@)
    &&& forall|j: int|
        0 <= j < i && #[trigger] in_window_at(rows, j, today, days) ==> exists|idx: int|
            #![trigger out[idx]]
            0 <= idx < out.len() && Some(out[idx].1@) == spec_history_of_item(rows[j]@)
}

proof fn lemma_window_inv_skip(
    rows: Seq<Item>,
    i: int,
    out: Seq<(u32, TransactionHistory)>,
    wit: Seq<int>,
    today: Date,
    days: u32,
)
    requires
        window_inv(rows, i, out, wit, today, days),
        0 <= i < rows.len(),
        !history_in_window(rows[i]@, today, days),
    ensures
        window_inv(rows, i + 1, out, wit, today, days),
{
    assert forall|idx: int| #![trigger out[idx]] 0 <= idx < out.len() implies dated_entry(out[idx])
        && 0 <= wit[idx] < i + 1 && history_in_window(rows[wit[idx]]@, today, days)
        && spec_history_of_item(rows[wit[idx]]@) == Some(out[idx].1@) by {
        assert(wit.len() == out.len());
        assert(dated_entry(out[idx]));
        assert(0 <= wit[idx] < i);
        assert(history_in_window(rows[wit[idx]]@, today, days));
        assert(spec_history_of_item(rows[wit[idx]]@) == Some(out[idx].1@));
    }
    assert forall|j: int|
        0 <= j < i + 1 && #[trigger] in_window_at(rows, j, today, days) implies exists|idx: int|
        #![trigger out[idx]]
        0 <= idx < out.len() && Some(out[idx].1@) == spec_history_of_item(rows[j]@) by {
        if j == i {
            assert(false);
        }
    }
}

proof fn lemma_window_inv_insert(
    rows: Seq<Item>,
    i: int,
    prev: Seq<(u32, TransactionHistory)>,
    prevwit: Seq<int>,
    posi: int,
    pr: (u32, TransactionHistory),
    today: Date,
    days: u32,
)
    requires
        window_inv(rows, i, prev, prevwit, today, days),
        0 <= i < rows.len(),
        0 <= posi <= prev.len(),
        history_in_window(rows[i]@, today, days),
        spec_history_of_item(rows[i]@) == Some(pr.1@),
        dated_entry(pr),
    ensures
        window_inv(rows, i + 1, prev.insert(posi, pr), prevwit.insert(posi, i), today, days),
{
    let newv = prev.insert(posi, pr);
    let newwit = prevwit.insert(posi, i);
    assert forall|idx: int| #![trigger newv[idx]] 0 <= idx < newv.len() implies dated_entry(
        newv[idx],
    ) && 0 <= newwit[idx] < i + 1 && history_in_window(rows[newwit[idx]]@, today, days)
        && spec_history_of_item(rows[newwit[idx]]@) == Some(newv[idx].1@) by {
        if idx < posi {
            assert(newv[idx] == prev[idx]);
            assert(newwit[idx] == prevwit[idx]);
        } else if idx == posi {
            assert(newv[idx] == pr);
            assert(newwit[idx] == i);
        } else {
            assert(newv[idx] == prev[idx - 1]);
            assert(newwit[idx] == prevwit[idx - 1]);
        }
    }
    assert forall|j: int|
        0 <= j < i + 1 && #[trigger] in_window_at(rows, j, today, days) implies exists|idx: int|
        #![trigger newv[idx]]
        0 <= idx < newv.len() && Some(newv[idx].1@) == spec_history_of_item(rows[j]@) by {
        if j < i {
            let idx0 = choose|idx0: int|
                #![trigger prev[idx0]]
                0 <= idx0 < prev.len() && Some(prev[idx0].1@) == spec_history_of_item(rows[j]@);
            if idx0 < posi {
                assert(newv[idx0] == prev[idx0]);
            } else {
                assert(newv[idx0 + 1] == prev[idx0]);
            }
        } else {
            assert(newv[posi] == pr);
        }
    }
}

impl MemDataAccess {
    /// Reads the audit window `[today - days, today]`, newest first:
    /// every decodable marked row whose recorded date is in the window,
    /// sorted by that date, newest first.
    #[verifier::rlimit(100)]
    pub fn view_history_on(&self, token: &str, days: u32, today: &Date) -> (r: Result<
        Vec<TransactionHistory>,
        Error,
    >)
        requires
            self.wf(),
            today.valid(),
        ensures
            !spec_token_valid(self.table@, token@) <==> r == Err::<Vec<TransactionHistory>, Error>(
                Error::Unauthorized,
            ),
            spec_token_valid(self.table@, token@) ==> r is Ok,
            r matches Ok(vs) ==> history_view_ok(self.table.rows@, *today, days, vs@),
    {
        if !self.is_session_valid(token) {
            return Err(Error::Unauthorized);
        }
        let rows_len = self.table.rows.len();
        let mut out: Vec<(u32, TransactionHistory)> = Vec::new();
        let ghost mut wit: Seq<int> = Seq::empty();
        let mut i: usize = 0;
        while i < rows_len
            invariant
                i <= rows_len,
                rows_len == self.table.rows@.len(),
                self.wf(),
                today.valid(),
                forall|a: int, b: int|
                    0 <= a < b < out@.len() ==> (#[trigger] out@[a]).0 >= (#[trigger] out@[b]).0,
                window_inv(self.table.rows@, i as int, out@, wit, *today, days),
            decreases rows_len - i,
        {
            let row = &self.table.rows[i];
            match window_entry(row, today, days) {
                Some(p) => {
                    let ghost prev = out@;
                    let ghost prevwit = wit;
                    let ghost pr: (u32, TransactionHistory) = p;
                    let (dn, h) = p;
                    let pos = insert_sorted(&mut out, dn, h);
                    proof {
                        wit = prevwit.insert(pos as int, i as int);
                        assert(out@ == prev.insert(pos as int, pr));
                        lemma_window_inv_insert(
                            self.table.rows@,
                            i as int,
                            prev,
                            prevwit,
                            pos as int,
                            pr,
                            *today,
                            days,
                        );
                    }
                },
                None => {
                    proof {
                        lemma_window_inv_skip(
                            self.table.rows@,
                            i as int,
                            out@,
                            wit,
                            *today,
                            days,
                        );
                    }
                },
            }
            i = i + 1;
        }
        let out_len = out.len();
        let mut vs: Vec<TransactionHistory> = Vec::new();
        let mut q: usize = 0;
        while q < out_len
            invariant
                q <= out_len,
                out_len == out@.len(),
                vs@.len() == q,
                forall|idx: int| 0 <= idx < q ==> (#[trigger] vs@[idx]) == out@[idx].1,
            decreases out_len - q,
        {
            vs.push(out[q].1.clone());
            q = q + 1;
        }
        proof {
            reveal(dated_entry);
            assert forall|idx: int| #![trigger vs@[idx]] 0 <= idx < vs@.len() implies
                spec_parse_date(vs@[idx]@.date) is Some by {
                assert(dated_entry(out@[idx]));
            }
            assert forall|a: int, b: int| 0 <= a < b < vs@.len() implies history_day(
                (#[trigger] vs@[a])@,
            ) >= history_day((#[trigger] vs@[b])@) by {
                assert(dated_entry(out@[a]));
                assert(dated_entry(out@[b]));
                assert(out@[a].0 >= out@[b].0);
            }
            assert forall|idx: int| #![trigger vs@[idx]] 0 <= idx < vs@.len() implies
                from_window_row(self.table.rows@, *today, days, vs@[idx]@) by {
                assert(vs@[idx] == out@[idx].1);
                assert(0 <= wit[idx] < self.table.rows@.len());
                assert(history_in_window(self.table.rows@[wit[idx]]@, *today, days));
                assert(spec_history_of_item(self.table.rows@[wit[idx]]@) == Some(out@[idx].1@));
                assert(spec_history_of_item(self.table.rows@[wit[idx]]@) == Some(vs@[idx]@));
            }
            assert forall|j: int|
                0 <= j < self.table.rows@.len() && #[trigger] in_window_at(
                    self.table.rows@,
                    j,
                    *today,
                    days,
                ) implies exists|idx: int|
                #![trigger vs@[idx]]
                0 <= idx < vs@.len() && Some(vs@[idx]@) == spec_history_of_item(
                    self.table.rows@[j]@,
                ) by {
                let idx0 = choose|idx0: int|
                    #![trigger out@[idx0]]
                    0 <= idx0 < out@.len() && Some(out@[idx0].1@) == spec_history_of_item(
                        self.table.rows@[j]@,
                    );
                assert(vs@[idx0] == out@[idx0].1);
            }
            assert(history_view_ok(self.table.rows@, *today, days, vs@));
        }
        Ok(vs)
    }

    /// Reads the audit window measured back from the clock's local
    /// date, newest first.
    pub fn view_history(&self, token: &str, days: u32) -> (r: Result<Vec<TransactionHistory>, Error>)
        requires
            self.wf(),
        ensures
            !spec_token_valid(self.table@, token@) <==> r == Err::<Vec<TransactionHistory>, Error>(
                Error::Unauthorized,
            ),
            spec_token_valid(self.table@, token@) ==> r is Ok || r
                == Err::<Vec<TransactionHistory>, Error>(Error::StoreFailure),
            r matches Ok(vs) ==> exists|today: Date|
                today.valid() && #[trigger] history_view_ok(self.table.rows@, today, days, vs@),
    {
        if !self.is_session_valid(token) {
            return Err(Error::Unauthorized);
        }
        let today = match current_date() {
            Some(d) => d,
            None => {
                return Err(Error::StoreFailure);
            },
        };
        self.view_history_on(token, days, &today)
    }

    /// Undoes a recorded payment: atomically deletes the named audit
    /// row and restores the vehicle's fee date to the date that row
    /// recorded — the value current just before the payment. The undo
    /// restores unconditionally: payments recorded since the one being
    /// undone are not checked for, the row itself is the authority.
    pub fn undo_history_at(&mut self, token: &str, dh: &DeleteHistory, now: &str) -> (r: Result<
        (),
        Error,
    >)
        requires
            old(self).wf(),
        ensures
            final(self).wf(),
            final(self).fail_writes == old(self).fail_writes,
            r is Err ==> final(self).table@ == old(self).table@,
            !spec_token_valid(old(self).table@, token@) <==> r == Err::<(), Error>(
                Error::Unauthorized,
            ),
            spec_token_valid(old(self).table@, token@) && (spec_fee_kind_exact(dh.fee_type@) is None
                || spec_parse_date(dh.date@) is None) ==> r == Err::<(), Error>(Error::Validation),
            spec_token_valid(old(self).table@, token@) && spec_fee_kind_exact(
                dh.fee_type@,
            ) is Some && spec_parse_date(dh.date@) is Some ==> {
                let vkey = (spec_vehicle_key(dh.vehicle_id@), spec_vehicle_key(dh.vehicle_id@));
                let hkey = (spec_vehicle_key(dh.vehicle_id@), spec_history_sk(
                    dh.date@,
                    dh.fee_type@,
                ));
                &&& (!old(self).table@.contains_key(hkey) || !old(self).table@.contains_key(vkey)
                    ==> r == Err::<(), Error>(Error::NotFound))
                &&& (old(self).table@.contains_key(hkey) && old(self).table@.contains_key(vkey)
                    && old(self).fail_writes ==> r == Err::<(), Error>(Error::StoreFailure))
                &&& (old(self).table@.contains_key(hkey) && old(self).table@.contains_key(vkey)
                    && !old(self).fail_writes ==> r is Ok)
                &&& (r is Ok ==> final(self).table@ == spec_undo_result(
                    old(self).table@,
                    dh.vehicle_id@,
                    dh.fee_type@,
                    dh.date@,
                    now@,
                ))
            },
    {
        let ghost orig_rows = self.table.rows@;
        match self.get_user(token) {
            Some(_) => (),
            None => {
                return Err(Error::Unauthorized);
            },
        }
        let kind = match fee_kind_exact(dh.fee_type.as_str()) {
            Some(k) => k,
            None => {
                return Err(Error::Validation);
            },
        };
        let canon = match parse_date(dh.date.as_str()) {
            Some(d) => format_date(&d),
            None => {
                return Err(Error::Validation);
            },
        };
        let vkey = vehicle_key_str(dh.vehicle_id.as_str());
        let mut hsk = prefixed("TRANSACTION#", dh.date.as_str());
        hsk.append("#");
        hsk.append(dh.fee_type.as_str());
        proof {
            assert(hsk@ =~= spec_history_sk(dh.date@, dh.fee_type@));
        }
        if !self.table.contains(vkey.as_str(), hsk.as_str()) {
            return Err(Error::NotFound);
        }
        let mut vitem = match self.table.get_item(vkey.as_str(), vkey.as_str()) {
            Some(it) => it,
            None => {
                return Err(Error::NotFound);
            },
        };
        proof {
            crate::store::lemma_rows_map_key(orig_rows, (vkey@, vkey@));
        }
        if self.fail_writes {
            return Err(Error::StoreFailure);
        }
        vitem.set(fee_date_attr(kind), Attr::S(canon));
        vitem.set(AttrName::UpdatedAt, Attr::S(now.to_owned()));
        self.table.put_any(vitem);
        self.table.delete(vkey.as_str(), hsk.as_str());
        Ok(())
    }

    /// Undoes a recorded payment, stamped with the clock's time.
    pub fn undo_history(&mut self, token: &str, dh: &DeleteHistory) -> (r: Result<(), Error>)
        requires
            old(self).wf(),
        ensures
            final(self).wf(),
            final(self).fail_writes == old(self).fail_writes,
            r is Err ==> final(self).table@ == old(self).table@,
            !spec_token_valid(old(self).table@, token@) <==> r == Err::<(), Error>(
                Error::Unauthorized,
            ),
            spec_token_valid(old(self).table@, token@) && spec_fee_kind_exact(
                dh.fee_type@,
            ) is Some && spec_parse_date(dh.date@) is Some && old(self).table@.contains_key(
                (spec_vehicle_key(dh.vehicle_id@), spec_history_sk(dh.date@, dh.fee_type@)),
            ) && old(self).table@.contains_key(
                (spec_vehicle_key(dh.vehicle_id@), spec_vehicle_key(dh.vehicle_id@)),
            ) && !old(self).fail_writes ==> r is Ok || r == Err::<(), Error>(Error::StoreFailure),
            r is Ok ==> !old(self).fail_writes && spec_fee_kind_exact(dh.fee_type@) is Some
                && spec_parse_date(dh.date@) is Some && exists|nowv: Seq<char>|
                final(self).table@ == #[trigger] spec_undo_result(
                    old(self).table@,
                    dh.vehicle_id@,
                    dh.fee_type@,
                    dh.date@,
                    nowv,
                ),
    {
        if !self.is_session_valid(token) {
            return Err(Error::Unauthorized);
        }
        let now = unix_now();
        if now < 0 || now > RENDERABLE_SECS {
            return Err(Error::StoreFailure);
        }
        let nowstr = match format_rfc3339(now) {
            Some(s) => s,
            None => vstd::pervasive::unreached(),
        };
        let r = self.undo_history_at(token, dh, nowstr.as_str());
        proof {
            if r is Ok {
                assert(self.table@ == spec_undo_result(
                    old(self).table@,
                    dh.vehicle_id@,
                    dh.fee_type@,
                    dh.date@,
                    nowstr@,
                ));
            }
        }
        r
    }
}

/// Bulk revoke invalidates every session of the revoked user: if each
/// reverse-index row matching a token sat under the user's partition
/// key with a `SESSION#` sort key, then after the revocation sweep the
/// token no longer validates.
pub proof fn lemma_bulk_revoke(
    old_t: Map<(Seq<char>, Seq<char>), Map<AttrName, AttrV>>,
    new_t: Map<(Seq<char>, Seq<char>), Map<AttrName, AttrV>>,
    ukey: Seq<char>,
    token: Seq<char>,
)
    requires
        forall|k: (Seq<char>, Seq<char>)|
            new_t.contains_key(k) <==> (old_t.contains_key(k) && !(k.0 == ukey && has_prefix(
                k.1,
                "SESSION#"@,
            ))),
        forall|k: (Seq<char>, Seq<char>)| #[trigger]
            new_t.contains_key(k) ==> new_t[k] == old_t[k],
        forall|k: (Seq<char>, Seq<char>)|
            old_t.contains_key(k) && is_session_row(#[trigger] old_t[k], token) ==> k.0 == ukey
                && has_prefix(k.1, "SESSION#"@),
    ensures
        !spec_token_valid(new_t, token),
{
    if spec_token_valid(new_t, token) {
        let k = choose|k: (Seq<char>, Seq<char>)| #[trigger]
            new_t.contains_key(k) && is_session_row(new_t[k], token);
        assert(old_t.contains_key(k));
        assert(is_session_row(old_t[k], token));
        assert(false);
    }
}

} // verus!
