//! Sessions: bearer tokens with a store-enforced time to live.
//!
//! A session lives under the owning user's partition key with sort key
//! `SESSION#<token>`, carries a TTL of its creation time plus seven
//! days, and projects a reverse index from token to user. Its presence
//! in the table is the sole proof of authentication; the store's TTL
//! reclamation is the sole source of expiry truth.

use vstd::prelude::*;

use crate::attr::{Attr, AttrName, AttrV, Item};
use crate::keys::prefixed;
use crate::store::{item_key, keyed};
use crate::user::spec_user_key;

verus! {

/// Seconds in the seven-day session lifetime.
pub const SESSION_TTL_SECS: i64 = 604800;

/// Timestamps this far into the future are guaranteed renderable; the
/// backing crate accepts far more.
pub const RENDERABLE_SECS: i64 = 4_000_000_000_000;

/// The RFC 3339 rendering (second precision, `Z` offset) of a unix
/// timestamp; a function of the seconds alone.
pub uninterp spec fn rfc3339_of(secs: int) -> Seq<char>;

/// Relies on uuid's `Uuid::new_v4` and its `Display`: a freshly
/// generated random UUID rendered in the 36-character hyphenated form.
#[verifier::external_body]
pub(crate) fn fresh_token() -> (r: String)
    ensures
        r@.len() == 36,
{
    uuid::Uuid::new_v4().to_string()
}

/// Relies on chrono's `Utc::now` and `timestamp`: the clock reading as
/// unix seconds. Chrono's documented datetime range of about ±262,000
/// years from the common era bounds the value.
#[verifier::external_body]
pub(crate) fn unix_now() -> (r: i64)
    ensures
        -9_000_000_000_000 <= r <= 9_000_000_000_000,
{
    chrono::Utc::now().timestamp()
}

/// Relies on chrono's `DateTime::from_timestamp` and `to_rfc3339_opts`:
/// renders a unix timestamp in RFC 3339 with second precision and `Z`.
/// The rendering is a function of the seconds alone, and timestamps up
/// to [`RENDERABLE_SECS`] (about year 128,000) are far inside the range
/// chrono documents, so they always render.
#[verifier::external_body]
pub(crate) fn format_rfc3339(secs: i64) -> (r: Option<String>)
    ensures
        r matches Some(s) ==> s@ == rfc3339_of(secs as int),
        0 <= secs <= RENDERABLE_SECS ==> r is Some,
{
    match chrono::DateTime::<chrono::Utc>::from_timestamp(secs, 0) {
        Some(t) => Some(t.to_rfc3339_opts(chrono::SecondsFormat::Secs, true)),
        None => None,
    }
}

/// A session as returned to the caller; `session_id` is the bearer
/// token.
#[derive(Debug)]
pub struct Session {
    pub session_id: String,
    pub created_at: String,
    pub expired_at: String,
}

/// The reverse-index key of a session: `SESSION#<token>`.
pub open spec fn spec_session_key(token: Seq<char>) -> Seq<char> {
    "SESSION#"@ + token
}

pub fn session_key(session_id: &str) -> (r: Attr)
    ensures
        r@ == AttrV::S(spec_session_key(session_id@)),
{
    Attr::S(prefixed("SESSION#", session_id))
}

impl Session {
    /// Builds the session values for a creation at time `now`: a seven
    /// day lifetime, both timestamps rendered. `None` only when a
    /// timestamp falls outside the renderable window.
    pub fn new(session_id: String, now: i64) -> (r: Option<Session>)
        ensures
            0 <= now <= RENDERABLE_SECS - SESSION_TTL_SECS ==> r is Some,
            r matches Some(s) ==> {
                &&& s.session_id == session_id
                &&& s.created_at@ == rfc3339_of(now as int)
                &&& s.expired_at@ == rfc3339_of(now + SESSION_TTL_SECS)
            },
    {
        if now < 0 || now > RENDERABLE_SECS - SESSION_TTL_SECS {
            return None;
        }
        let created_at = match format_rfc3339(now) {
            Some(s) => s,
            None => {
                return None;
            },
        };
        let expired_at = match format_rfc3339(now + SESSION_TTL_SECS) {
            Some(s) => s,
            None => {
                return None;
            },
        };
        Some(Session { session_id, created_at, expired_at })
    }

    /// The stored form of a session owned by `username`, created at
    /// `now`: primary key under the user, TTL attribute, and the
    /// reverse-index projection from token to user.
    pub open spec fn spec_item(self, username: Seq<char>, now: int) -> Map<AttrName, AttrV> {
        Map::<AttrName, AttrV>::empty().insert(
            AttrName::Pk,
            AttrV::S(spec_user_key(username)),
        ).insert(AttrName::Sk, AttrV::S(spec_session_key(self.session_id@))).insert(
            AttrName::Ttl,
            AttrV::N(now + SESSION_TTL_SECS),
        ).insert(AttrName::CreatedAt, AttrV::S(self.created_at@)).insert(
            AttrName::ExpiredAt,
            AttrV::S(self.expired_at@),
        ).insert(AttrName::Gsi1Pk, AttrV::S(spec_session_key(self.session_id@))).insert(
            AttrName::Gsi1Sk,
            AttrV::S(spec_user_key(username)),
        )
    }

    /// Encodes the session for storage under its owning user; `now` is
    /// the creation time whose seven-day extension becomes the TTL.
    pub fn to_item(&self, username: &str, now: i64) -> (r: Item)
        requires
            now + SESSION_TTL_SECS <= i64::MAX,
        ensures
            r.wf(),
            keyed(r@),
            item_key(r@) == (spec_user_key(username@), spec_session_key(self.session_id@)),
            r@ == self.spec_item(username@, now as int),
    {
        let mut item = Item::new();
        item.set(AttrName::Pk, crate::user::user_key(username));
        item.set(AttrName::Sk, session_key(self.session_id.as_str()));
        item.set(AttrName::Ttl, Attr::N(now + SESSION_TTL_SECS));
        item.set(AttrName::CreatedAt, Attr::S(self.created_at.clone()));
        item.set(AttrName::ExpiredAt, Attr::S(self.expired_at.clone()));
        item.set(AttrName::Gsi1Pk, session_key(self.session_id.as_str()));
        item.set(AttrName::Gsi1Sk, crate::user::user_key(username));
        item
    }
}

} // verus!
