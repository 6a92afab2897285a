//! The random token generator: fixed-length strings over the 62-symbol
//! alphanumeric alphabet, used both for short keys and for secret stats
//! tokens.

use vstd::prelude::*;

verus! {

/// One of the 62 ASCII alphanumeric symbols, `[A-Za-z0-9]`, as a code point.
pub open spec fn is_alnum_code(n: int) -> bool {
    ('0' as int) <= n <= ('9' as int)
    || ('A' as int) <= n <= ('Z' as int)
    || ('a' as int) <= n <= ('z' as int)
}

/// One of the 62 ASCII alphanumeric characters.
pub open spec fn is_alnum_char(c: char) -> bool {
    is_alnum_code(c as int)
}

/// A string made only of ASCII alphanumeric characters.
pub open spec fn is_alnum_string(s: Seq<char>) -> bool {
    forall|i: int| 0 <= i < s.len() ==> is_alnum_char(#[trigger] s[i])
}

/// Relies on `rand::distr::Alphanumeric`: sampling it from the thread-local
/// generator yields one byte drawn from the 62 ASCII alphanumeric symbols.
#[verifier::external_body]
fn sample_alnum_byte() -> (b: u8)
    ensures
        is_alnum_code(b as int),
{
    rand::Rng::sample(&mut rand::rng(), rand::distr::Alphanumeric)
}

/// Relies on `String::from_utf8`: a vector of ASCII bytes decodes to the
/// string whose characters are exactly those bytes, in order.
#[verifier::external_body]
fn ascii_bytes_to_string(v: Vec<u8>) -> (r: String)
    requires
        forall|i: int| 0 <= i < v@.len() ==> #[trigger] v@[i] < 128,
    ensures
        r@.len() == v@.len(),
        forall|i: int| 0 <= i < v@.len() ==> #[trigger] r@[i] == v@[i] as char,
{
    String::from_utf8(v).unwrap_or_default()
}

/// Produce a string of exactly `n` characters drawn from the alphanumeric
/// alphabet, using a statistically uniform (not cryptographically secure)
/// source.
pub fn rand_string(n: usize) -> (r: String)
    ensures
        r@.len() == n,
        is_alnum_string(r@),
{
    let mut bytes: Vec<u8> = Vec::new();
    let mut i: usize = 0;
    while i < n
        invariant
            i <= n,
            bytes@.len() == i,
            forall|j: int| 0 <= j < i ==> is_alnum_code(#[trigger] bytes@[j] as int),
        decreases n - i,
    {
        let b = sample_alnum_byte();
        bytes.push(b);
        i = i + 1;
    }
    let r = ascii_bytes_to_string(bytes);
    assert forall|i: int| 0 <= i < r@.len() implies is_alnum_char(#[trigger] r@[i]) by {
        assert(is_alnum_code(bytes@[i] as int));
    }
    r
}

} // verus!
