//! What the surroundings decide: the time, and chance.
//!
//! Nothing is promised of which time or number comes. `chrono::Utc::now` panics
//! where the clock of the machine stands before 1970.

use crate::words::time_text;
use vstd::prelude::*;

verus! {

/// `chrono::Utc::now` as the text that `to_rfc3339` writes: digits and signs in
/// one line, with no three dashes in a row.
#[verifier::external_body]
pub(crate) fn now_text() -> (now: String)
    ensures
        time_text(now@),
{
    chrono::Utc::now().to_rfc3339()
}

/// `SystemTime::elapsed` of the epoch, in nanoseconds; `None` stands for its
/// error, which comes where the clock of the machine stands before 1970.
#[verifier::external_body]
fn since_epoch() -> (nanos: Option<u128>) {
    std::time::UNIX_EPOCH.elapsed().ok().map(|since| since.as_nanos())
}

/// The nanoseconds since the epoch, and none before it.
pub(crate) fn now_nanos() -> (nanos: u128) {
    match since_epoch() {
        Some(nanos) => nanos,
        None => 0,
    }
}

/// `rand::random` on numbers of 16 bits.
#[verifier::external_body]
pub(crate) fn random_u16() -> (n: u16) {
    rand::random::<u16>()
}

/// `rand::random` on numbers of 32 bits.
#[verifier::external_body]
pub(crate) fn random_u32() -> (n: u32) {
    rand::random::<u32>()
}

/// `rand::random` on numbers of 64 bits.
#[verifier::external_body]
pub(crate) fn random_u64() -> (n: u64) {
    rand::random::<u64>()
}

/// `rand::random` on numbers of 128 bits.
#[verifier::external_body]
pub(crate) fn random_u128() -> (n: u128) {
    rand::random::<u128>()
}

} // verus!
