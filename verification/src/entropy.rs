//! Randomness and wall-clock readings that the handshake consumes: the
//! connect timestamp, the `random0` nonce, the `alpha` share and the
//! round-trip clock.  Nothing is assumed of the values; every function
//! that takes them is verified for all of them.

use vstd::prelude::*;

verus! {

/// Relies on rand::thread_rng and rand::Rng::fill: `n` random bytes;
/// nothing is assumed of their values.
#[verifier::external_body]
pub fn random_bytes(n: usize) -> (r: Vec<u8>)
    ensures
        r@.len() == n,
{
    let mut v = vec![0u8; n];
    rand::Rng::fill(&mut rand::thread_rng(), &mut v[..]);
    v
}

/// Relies on chrono::Utc::now: the Unix time in seconds, truncated to
/// the 32 bits that the init packets carry.
#[verifier::external_body]
pub fn now_unix_secs() -> (r: u32) {
    chrono::Utc::now().timestamp() as u32
}

/// Relies on chrono::Utc::now: the Unix time in milliseconds as an
/// unsigned count; nothing is assumed of the value.
#[verifier::external_body]
pub fn now_unix_millis() -> (r: u64) {
    chrono::Utc::now().timestamp_millis() as u64
}

} // verus!
