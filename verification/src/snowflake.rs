//! Platform ids. An id is a 64-bit number whose upper 42 bits count the
//! milliseconds since the platform's epoch, so ids order by creation time
//! and a time can be turned into a bound on ids.

use vstd::prelude::*;
use crate::columns::{spec_unsigned, unsigned};

verus! {

/// The platform's epoch, in milliseconds since the Unix epoch.
pub const PLATFORM_EPOCH_MS: u64 = 1_420_070_400_000;

/// How many low bits of an id do not belong to its timestamp.
pub const TIMESTAMP_SHIFT: u64 = 22;

/// Milliseconds between the platform's epoch and the creation of `id`.
pub open spec fn spec_age_millis(id: u64) -> int {
    id as int / 0x40_0000
}

/// The creation time of `id`, in milliseconds since the Unix epoch.
pub open spec fn spec_created_at_millis(id: u64) -> int {
    spec_age_millis(id) + PLATFORM_EPOCH_MS as int
}

/// The bound that stands for "now" in a search for older messages: the
/// millisecond count moved into the timestamp bits, all lower bits zero.
/// A negative count or one that does not fit in 42 bits loses its upper bits,
/// as a shift of the 64-bit value does.
pub open spec fn spec_upper_bound_id(now_millis: i64) -> int {
    (spec_unsigned(now_millis) % 0x400_0000_0000) * 0x40_0000
}

/// The creation time of `id`, in milliseconds since the Unix epoch.
pub fn created_at_millis(id: u64) -> (millis: i64)
    ensures
        millis == spec_created_at_millis(id),
{
    let age: u64 = id >> 22;
    assert(age == id / 0x40_0000 && age < 0x400_0000_0000) by (bit_vector)
        requires
            age == id >> 22,
    ;
    (age + PLATFORM_EPOCH_MS) as i64
}

/// The id that stands for the moment `now_millis` as an upper bound: no
/// message created before that moment has a greater id.
pub fn upper_bound_id(now_millis: i64) -> (id: u64)
    ensures
        id == spec_upper_bound_id(now_millis),
{
    let bits: u64 = unsigned(now_millis);
    let shifted: u64 = bits << 22;
    assert(shifted == (bits % 0x400_0000_0000) * 0x40_0000) by (bit_vector)
        requires
            shifted == bits << 22,
    ;
    shifted
}

/// An id made from a moment as an upper bound carries that moment as its
/// timestamp, for every moment that fits in the timestamp bits.
pub proof fn lemma_upper_bound_keeps_time(now_millis: i64)
    requires
        0 <= now_millis < 0x400_0000_0000,
    ensures
        spec_upper_bound_id(now_millis) <= u64::MAX,
        spec_age_millis(spec_upper_bound_id(now_millis) as u64) == now_millis,
{
    assert((now_millis as int * 0x40_0000) / 0x40_0000 == now_millis as int) by (nonlinear_arith);
    assert(now_millis as int * 0x40_0000 <= u64::MAX) by (nonlinear_arith)
        requires
            0 <= now_millis < 0x400_0000_0000,
    ;
}

/// An older id is never created later: ids order as their timestamps do.
pub proof fn lemma_ids_order_by_time(a: u64, b: u64)
    requires
        a <= b,
    ensures
        spec_created_at_millis(a) <= spec_created_at_millis(b),
{
}

} // verus!
