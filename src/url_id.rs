//! Public slugs for new plans.

use vstd::prelude::*;
use rand::Rng;
use rand::distributions::Alphanumeric;

verus! {

pub const URL_ID_LEN: usize = 8;

pub open spec fn is_ascii_alphanumeric(c: char) -> bool {
    ('a' <= c <= 'z') || ('A' <= c <= 'Z') || ('0' <= c <= '9')
}

/// Relies on `rand::thread_rng` sampled with `Alphanumeric`, which draws an
/// ASCII letter or digit; the character is returned as a one-character string.
#[verifier::external_body]
fn random_alphanumeric() -> (r: String)
    ensures
        r@.len() == 1,
        is_ascii_alphanumeric(r@[0]),
{
    char::from(rand::thread_rng().sample(Alphanumeric)).to_string()
}

/// A fresh random slug of eight ASCII letters and digits.
pub fn new_url_id() -> (r: String)
    ensures
        r@.len() == URL_ID_LEN,
        forall|i: int| 0 <= i < r@.len() ==> is_ascii_alphanumeric(#[trigger] r@[i]),
{
    let mut out = String::new();
    let mut i: usize = 0;
    while i < URL_ID_LEN
        invariant
            i <= URL_ID_LEN,
            out@.len() == i,
            forall|k: int| 0 <= k < out@.len() ==> is_ascii_alphanumeric(#[trigger] out@[k]),
        decreases URL_ID_LEN - i,
    {
        let c = random_alphanumeric();
        let ghost before = out@;
        out.append(c.as_str());
        assert(out@ == before + c@);
        assert(out@[i as int] == c@[0]);
        i = i + 1;
    }
    out
}

} // verus!
