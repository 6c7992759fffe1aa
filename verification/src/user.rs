//! The user entity and its storage codec.
//!
//! A user is stored under `USER#<username>` as both partition and sort
//! key, with the password kept only as a bcrypt digest.

use vstd::prelude::*;

use crate::attr::{attr_str, Attr, AttrName, AttrV, Item};
use crate::keys::prefixed;
use crate::store::{item_key, keyed};
use crate::Error;

verus! {

/// Whether bcrypt's check accepts a password against a digest; the
/// check is a function of the two strings alone.
pub uninterp spec fn bcrypt_verifies(pass: Seq<char>, digest: Seq<char>) -> bool;

/// Relies on pwhash's `bcrypt::verify`: it re-derives the digest from
/// the password and the parameters and salt embedded in `digest`, and
/// compares; deterministic in its two arguments.
#[verifier::external_body]
fn bcrypt_verify(pass: &str, digest: &str) -> (r: bool)
    ensures
        r == bcrypt_verifies(pass@, digest@),
{
    pwhash::bcrypt::verify(pass, digest)
}

/// Relies on pwhash's `bcrypt::hash`: it hashes with a fresh random
/// salt and default cost, and per the crate's documentation the output
/// is a string that `verify` accepts against the same password. It
/// fails only when the system random number generator cannot be opened.
#[verifier::external_body]
pub(crate) fn bcrypt_hash(pass: &str) -> (r: Result<String, Error>)
    ensures
        r matches Ok(d) ==> bcrypt_verifies(pass@, d@),
        r matches Err(e) ==> e == Error::StoreFailure,
{
    match pwhash::bcrypt::hash(pass) {
        Ok(d) => Ok(d),
        Err(_) => Err(Error::StoreFailure),
    }
}

/// A user account. Outside the store, `password` holds the plaintext
/// the caller supplied; the codec stores a digest in its place.
#[derive(Debug)]
pub struct User {
    pub username: String,
    pub password: String,
    pub phone: Option<String>,
}

/// The storage key of a user: `USER#<username>`.
pub open spec fn spec_user_key(username: Seq<char>) -> Seq<char> {
    "USER#"@ + username
}

/// The username encoded in a user key: the key without its prefix.
pub open spec fn spec_username_of_key(k: Seq<char>) -> Seq<char> {
    if k.len() >= 5 {
        k.subrange(5, k.len() as int)
    } else {
        k
    }
}

pub fn user_key(username: &str) -> (r: Attr)
    ensures
        r@ == AttrV::S(spec_user_key(username@)),
{
    Attr::S(prefixed("USER#", username))
}

/// The stored form of a user: keys, creation time, digest, and the
/// phone number when there is one.
pub open spec fn spec_user_item(u: User, digest: Seq<char>, now: Seq<char>) -> Map<
    AttrName,
    AttrV,
> {
    let base = Map::<AttrName, AttrV>::empty().insert(
        AttrName::Pk,
        AttrV::S(spec_user_key(u.username@)),
    ).insert(AttrName::Sk, AttrV::S(spec_user_key(u.username@))).insert(
        AttrName::CreatedAt,
        AttrV::S(now),
    ).insert(AttrName::Password, AttrV::S(digest));
    match u.phone {
        Some(p) => base.insert(AttrName::Phone, AttrV::S(p@)),
        None => base,
    }
}

impl User {
    pub fn new(username: String, password: String, phone: Option<String>) -> (r: User)
        ensures
            r.username == username,
            r.password == password,
            r.phone == phone,
    {
        User { username, password, phone }
    }

    /// Checks a password against this user's stored digest.
    pub fn varify(&self, password: &str) -> (r: bool)
        ensures
            r == bcrypt_verifies(password@, self.password@),
    {
        bcrypt_verify(password, self.password.as_str())
    }

    /// Encodes the user for storage; the password digest and the
    /// creation timestamp are supplied by the caller.
    pub fn to_item(&self, digest: &str, now: &str) -> (r: Item)
        ensures
            r.wf(),
            keyed(r@),
            item_key(r@) == (spec_user_key(self.username@), spec_user_key(self.username@)),
            r@ == spec_user_item(*self, digest@, now@),
    {
        let key = user_key(self.username.as_str());
        let mut item = Item::new();
        item.set(AttrName::Pk, key.clone());
        item.set(AttrName::Sk, key);
        item.set(AttrName::CreatedAt, Attr::S(now.to_owned()));
        item.set(AttrName::Password, Attr::S(digest.to_owned()));
        match &self.phone {
            Some(p) => item.set(AttrName::Phone, Attr::S(p.clone())),
            None => (),
        }
        item
    }
}

/// Decodes a stored item back to a user; the username is the partition
/// key without its `USER#` prefix, and the decoded `password` field
/// carries the stored digest.
pub fn from_item(item: &Item) -> (r: Option<User>)
    requires
        item.wf(),
    ensures
        match r {
            Some(u) => {
                &&& item@.contains_key(AttrName::Pk)
                &&& item@[AttrName::Pk] is S
                &&& u.username@ == spec_username_of_key(attr_str(item@[AttrName::Pk]))
                &&& item@.contains_key(AttrName::Password)
                &&& item@[AttrName::Password] is S
                &&& u.password@ == attr_str(item@[AttrName::Password])
                &&& match u.phone {
                    Some(p) => item@.contains_key(AttrName::Phone) && item@[AttrName::Phone]
                        == AttrV::S(p@),
                    None => !(item@.contains_key(AttrName::Phone) && item@[AttrName::Phone] is S),
                }
            },
            None => !(item@.contains_key(AttrName::Pk) && item@[AttrName::Pk] is S
                && item@.contains_key(AttrName::Password) && item@[AttrName::Password] is S),
        },
{
    let pk = match item.get_s(AttrName::Pk) {
        Some(s) => s,
        None => {
            return None;
        },
    };
    let password = match item.get_s(AttrName::Password) {
        Some(s) => s.clone(),
        None => {
            return None;
        },
    };
    let username = if pk.as_str().unicode_len() >= 5 {
        crate::keys::str_after(pk.as_str(), 5)
    } else {
        pk.clone()
    };
    let phone = match item.get_s(AttrName::Phone) {
        Some(p) => Some(p.clone()),
        None => None,
    };
    Some(User { username, password, phone })
}

} // verus!
