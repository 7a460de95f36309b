use rand::distributions::Alphanumeric;
use rand::Rng;
use vstd::prelude::*;

verus! {

/// Length of every connection token and ping token.
pub const TOKEN_LENGTH: usize = 64;

/// A letter of the English alphabet, either case, or a decimal digit.
pub open spec fn is_alphanumeric(c: char) -> bool {
    ('A' <= c && c <= 'Z') || ('a' <= c && c <= 'z') || ('0' <= c && c <= '9')
}

/// The shape of a generated token: 64 alphanumeric characters.
pub open spec fn is_token(s: Seq<char>) -> bool {
    &&& s.len() == TOKEN_LENGTH
    &&& forall|i: int| 0 <= i < s.len() ==> is_alphanumeric(#[trigger] s[i])
}

/// Draws a fresh token from `rand::thread_rng()` by sampling
/// `rand::distributions::Alphanumeric` 64 times. Trusted: every sample is one
/// of the 62 characters `A-Z`, `a-z`, `0-9`, so the result has the shape of a
/// token. Nothing is claimed about which token comes out.
#[verifier::external_body]
pub(crate) fn random_token() -> (token: String)
    ensures
        is_token(token@),
{
    rand::thread_rng().sample_iter(&Alphanumeric).take(64).map(char::from).collect()
}

} // verus!
