//! Password hashing with bcrypt. The hashing itself is done by the `bcrypt`
//! crate; this module states what the platform relies on of it.
use vstd::prelude::*;
use crate::text::digit_char;

verus! {

/// What `bcrypt::verify(password, hash)` answers: `Ok(b)` for `Ok(b)`, and
/// for an error (a hash that does not parse, or a cost outside 4..=31) the
/// text the error displays. It is a function of the two strings alone.
pub uninterp spec fn bcrypt_verdict(password: Seq<char>, hash: Seq<char>) -> Result<bool, Seq<char>>;

/// `bcrypt::verify` accepts `password` against `hash`.
pub open spec fn verifies(password: Seq<char>, hash: Seq<char>) -> bool {
    bcrypt_verdict(password, hash) == Ok::<bool, Seq<char>>(true)
}

/// The first seven characters of a bcrypt hash string made at `cost`: the
/// version `2b` and the cost in two digits, each ended by `$`.
pub open spec fn hash_header(cost: u32) -> Seq<char> {
    "$2b$"@ + seq![digit_char((cost / 10) as nat), digit_char((cost % 10) as nat)] + "$"@
}

/// Calls `bcrypt::hash(password, cost)`.
///
/// The salt is drawn from the operating system's randomness, so the hash is
/// not a function of the arguments and gets no name. What holds of every
/// outcome (from the crate's source: the hash string is the cost and salt
/// followed by the digest that `verify` recomputes from the same salt) is that
/// a hash handed back verifies against the password it was made from, and
/// that it is the 60-character `$2b$` string that records the cost.
/// An error (handed back as the text it displays) comes back only when the
/// randomness source fails; neither that nor its text is stated, so callers
/// must handle `Err` on every input.
#[verifier::external_body]
pub(crate) fn bcrypt_hash(password: &str, cost: u32) -> (r: Result<String, String>)
    requires
        4 <= cost <= 31,
    ensures
        r matches Ok(h) ==> verifies(password@, h@),
        r matches Ok(h) ==> h@.len() == 60 && h@.subrange(0, 7) == hash_header(cost),
{
    bcrypt::hash(password, cost).map_err(|e| e.to_string())
}

/// Calls `bcrypt::verify(password, hash)`: whether `password` hashes, with the
/// salt and cost read from `hash`, to the digest stored in `hash`.
#[verifier::external_body]
pub(crate) fn bcrypt_verify(password: &str, hash: &str) -> (r: Result<bool, String>)
    ensures
        match r {
            Ok(b) => bcrypt_verdict(password@, hash@) == Ok::<bool, Seq<char>>(b),
            Err(t) => bcrypt_verdict(password@, hash@) == Err::<bool, Seq<char>>(t@),
        },
{
    bcrypt::verify(password, hash).map_err(|e| e.to_string())
}

} // verus!
