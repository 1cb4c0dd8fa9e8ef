//! Users and the tokens they are given.

use crate::error::Error;
use vstd::prelude::*;

verus! {

/// What `bcrypt::verify` answers for a password and a stored hash: whether
/// the password is the one that was hashed, or `None` where the hash is
/// malformed or the password cannot be hashed.
pub uninterp spec fn bcrypt_verdict(password: Seq<char>, hash: Seq<char>) -> Option<bool>;

/// Calls `bcrypt::hash` with the default cost. The salt is random, so the
/// contract promises nothing of the result; `None` stands for the failure
/// of the call.
#[verifier::external_body]
fn bcrypt_hash(password: &str) -> (hash: Option<String>) {
    match bcrypt::hash(password, bcrypt::DEFAULT_COST) {
        Ok(hash) => Some(hash),
        Err(_) => None,
    }
}

/// Calls `bcrypt::verify`. The contract only names the answer, which
/// depends on the password and the hash alone.
#[verifier::external_body]
fn bcrypt_verify(password: &str, hash: &str) -> (verdict: Option<bool>)
    ensures
        verdict == bcrypt_verdict(password@, hash@),
{
    match bcrypt::verify(password, hash) {
        Ok(verdict) => Some(verdict),
        Err(_) => None,
    }
}

/// A user: the number and address by which the user is known, the hash of
/// the password, and the name.
#[derive(Debug, Clone, PartialEq, Eq)]
pub struct User {
    pub id: i64,
    pub email: String,
    pub password: String,
    pub name: String,
}

/// A token handed to a user who has logged in.
#[derive(Debug, Clone, PartialEq, Eq)]
pub struct Jwt {
    pub jwt: String,
}

/// What a password check comes to, given what `bcrypt` answered.
pub open spec fn verdict_result(verdict: Option<bool>) -> Result<bool, Error> {
    match verdict {
        Some(b) => Ok(b),
        None => Err(Error::InvalidPassword),
    }
}

impl User {
    /// The user with this hash for a password; where hashing failed
    /// (`None`), no user.
    pub fn with_hash(id: i64, email: String, hash: Option<String>, name: String) -> (user: Result<
        User,
        Error,
    >)
        ensures
            match hash {
                Some(h) => user == Ok::<User, Error>(User { id, email, password: h, name }),
                None => user == Err::<User, Error>(Error::InvalidPassword),
            },
    {
        match hash {
            Some(password) => Ok(User { id, email, password, name }),
            None => Err(Error::InvalidPassword),
        }
    }

    /// A user with this password, which is stored as its `bcrypt` hash.
    pub fn new(id: i64, email: String, password: String, name: String) -> (user: Result<User, Error>)
        ensures
            match user {
                Ok(u) => u.id == id && u.email == email && u.name == name,
                Err(e) => e == Error::InvalidPassword,
            },
    {
        let hash = bcrypt_hash(password.as_str());
        User::with_hash(id, email, hash, name)
    }

    /// Replaces the user's password; where hashing fails, the user keeps the
    /// old one.
    pub fn set_password(&mut self, password: String) -> (result: Result<(), Error>)
        ensures
            final(self).id == old(self).id,
            final(self).email == old(self).email,
            final(self).name == old(self).name,
            match result {
                Ok(_) => true,
                Err(e) => e == Error::InvalidPassword && *final(self) == *old(self),
            },
    {
        let hash = bcrypt_hash(password.as_str());
        self.set_hash(hash)
    }

    /// Takes what hashing a new password gave: a hash replaces the stored
    /// one, and where hashing failed (`None`) the user keeps the old one.
    pub fn set_hash(&mut self, hash: Option<String>) -> (result: Result<(), Error>)
        ensures
            match hash {
                Some(h) => result == Ok::<(), Error>(()) && *final(self) == (User {
                    password: h,
                    ..*old(self)
                }),
                None => result == Err::<(), Error>(Error::InvalidPassword) && *final(self) == *old(
                    self,
                ),
            },
    {
        match hash {
            Some(hash) => {
                self.password = hash;
                Ok(())
            },
            None => Err(Error::InvalidPassword),
        }
    }

    /// Whether `password` is the user's password.
    pub fn verify_password(&self, password: &str) -> (result: Result<bool, Error>)
        ensures
            result == verdict_result(bcrypt_verdict(password@, self.password@)),
    {
        match bcrypt_verify(password, self.password.as_str()) {
            Some(verdict) => Ok(verdict),
            None => Err(Error::InvalidPassword),
        }
    }

    /// A copy of the user.
    pub fn duplicate(&self) -> (copy: User)
        ensures
            copy == *self,
    {
        User {
            id: self.id,
            email: self.email.clone(),
            password: self.password.clone(),
            name: self.name.clone(),
        }
    }
}

} // verus!
