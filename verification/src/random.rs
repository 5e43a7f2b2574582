//! The library's source of chance: the thread-local generator of `rand`.
//!
//! Nothing is known of a drawn value but the range that it lies in, so
//! every function that draws states what holds of every outcome.

use rand::Rng;
use vstd::prelude::*;

verus! {

/// Whether `b` is an ASCII letter or digit.
pub open spec fn is_alphanumeric(b: u8) -> bool {
    ||| 48 <= b <= 57
    ||| 65 <= b <= 90
    ||| 97 <= b <= 122
}

/// Calls `rand::Rng::gen_range` on `rand::thread_rng()` with the half-open
/// range from `low` to `high`. Trusted: the value drawn lies in that range.
/// The call panics on an empty range, which the precondition leaves out.
#[verifier::external_body]
pub(crate) fn draw_between(low: i64, high: i64) -> (r: i64)
    requires
        low < high,
    ensures
        low <= r < high,
{
    rand::thread_rng().gen_range(low..high)
}

/// Calls `rand::Rng::sample` on `rand::thread_rng()` with the distribution
/// `rand::distributions::Alphanumeric`. Trusted: the byte drawn is one of
/// the 62 ASCII letters and digits.
#[verifier::external_body]
pub(crate) fn draw_alphanumeric() -> (b: u8)
    ensures
        is_alphanumeric(b),
{
    rand::thread_rng().sample(rand::distributions::Alphanumeric)
}

} // verus!
