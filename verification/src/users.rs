//! Account handling of the password-based sign-in: registering a user and
//! checking a user's password.
use vstd::prelude::*;
use crate::database::{
    added_password_user, first_named, name_taken, store_password_user, user_row_named, Database,
    DbError,
};
use crate::password::{bcrypt_verdict, bcrypt_verify};

verus! {

/// The answer of the password check for `username`: `Ok(b)` with `b` the
/// bcrypt verdict on the first user of that name; a missing user, and a
/// stored hash bcrypt cannot read, both give `InvalidLogin`.
pub open spec fn validate_outcome(db: Database, username: Seq<char>, password: Seq<char>) -> Result<bool, DbError> {
    match first_named(db.users@, username) {
        None => Err(DbError::InvalidLogin),
        Some(i) => match db.users@[i].password_hash {
            None => Err(DbError::NullColumn(2)),
            Some(h) => match bcrypt_verdict(password, h@) {
                Ok(b) => Ok(b),
                Err(_) => Err(DbError::InvalidLogin),
            },
        },
    }
}

/// Registers user `name` with `password` (stored as its bcrypt hash). Fails
/// with `UserExists` when the name is taken.
pub fn create_user(db: &mut Database, name: &String, password: &String) -> (r: Result<(), DbError>)
    requires
        old(db).wf(),
    ensures
        final(db).wf(),
        final(db).same_flags(*old(db)),
        final(db).same_cleared(*old(db)),
        name_taken(old(db).users@, name@) ==> r == Err::<(), DbError>(DbError::UserExists)
            && final(db).unchanged(*old(db)),
        !name_taken(old(db).users@, name@) ==> match r {
            Err(DbError::Hash(_)) => final(db).unchanged(*old(db)),
            Err(DbError::Full) => old(db).user_seq == i64::MAX && final(db).unchanged(*old(db)),
            Ok(()) => old(db).user_seq < i64::MAX && added_password_user(*old(db), *final(db), name@, password@),
            _ => false,
        },
{
    store_password_user(db, name, password)
}

/// Whether `password` is the password of user `username`.
pub fn validate_login(db: &Database, username: &str, password: &str) -> (r: Result<bool, DbError>)
    requires
        db.wf(),
    ensures
        r == validate_outcome(*db, username@, password@),
{
    let i = match user_row_named(db, username) {
        Some(i) => i,
        None => return Err(DbError::InvalidLogin),
    };
    let hash = match &db.users[i].password_hash {
        Some(h) => h,
        None => return Err(DbError::NullColumn(2)),
    };
    match bcrypt_verify(password, hash.as_str()) {
        Ok(b) => Ok(b),
        Err(_) => Err(DbError::InvalidLogin),
    }
}

} // verus!
