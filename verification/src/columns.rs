//! Conversions into the integer types of the store's columns. The store keeps
//! signed integers; the platform sends unsigned ones. Each conversion keeps
//! the low bits and reads them as a signed number, which is what a plain
//! integer cast does.

use vstd::prelude::*;

verus! {

/// The 64 bits of `id` read as a signed number.
pub open spec fn spec_sql_id(id: u64) -> int {
    if id <= i64::MAX as u64 {
        id as int
    } else {
        id as int - 0x1_0000_0000_0000_0000
    }
}

/// The 64 bits of `v` read as an unsigned number.
pub open spec fn spec_unsigned(v: i64) -> int {
    if v >= 0 {
        v as int
    } else {
        v as int + 0x1_0000_0000_0000_0000
    }
}

/// The low 32 bits of `v` read as a signed number.
pub open spec fn spec_low_i32(v: u64) -> int {
    let low = v as int % 0x1_0000_0000;
    if low < 0x8000_0000 {
        low
    } else {
        low - 0x1_0000_0000
    }
}

/// `spec_sql_id` under an optional id.
pub open spec fn spec_sql_id_opt(id: Option<u64>) -> Option<i64> {
    match id {
        Some(v) => Some(spec_sql_id(v) as i64),
        None => None,
    }
}

/// `spec_low_i32` under an optional value.
pub open spec fn spec_low_i32_opt(v: Option<u64>) -> Option<i32> {
    match v {
        Some(x) => Some(spec_low_i32(x) as i32),
        None => None,
    }
}

/// The signed number that an id column holds for `id`.
pub fn sql_id(id: u64) -> (stored: i64)
    ensures
        stored == spec_sql_id(id),
{
    if id <= 0x7fff_ffff_ffff_ffff {
        id as i64
    } else {
        let low: u64 = id - 0x8000_0000_0000_0000;
        (low as i64) + i64::MIN
    }
}

/// `sql_id` of an id that may be absent.
pub fn sql_id_opt(id: Option<u64>) -> (stored: Option<i64>)
    ensures
        stored == spec_sql_id_opt(id),
{
    match id {
        Some(v) => Some(sql_id(v)),
        None => None,
    }
}

/// The unsigned number with the same 64 bits as `v`.
pub fn unsigned(v: i64) -> (bits: u64)
    ensures
        bits == spec_unsigned(v),
{
    if v >= 0 {
        v as u64
    } else {
        let above_min: u64 = (v - i64::MIN) as u64;
        above_min + 0x8000_0000_0000_0000
    }
}

/// The value that a 32-bit column holds for `v`: its low 32 bits, signed.
pub fn low_i32(v: u64) -> (stored: i32)
    ensures
        stored == spec_low_i32(v),
{
    let low: u64 = v % 0x1_0000_0000;
    if low < 0x8000_0000 {
        low as i32
    } else {
        ((low - 0x8000_0000) as i32) + i32::MIN
    }
}

/// `low_i32` of a value that may be absent.
pub fn low_i32_opt(v: Option<u64>) -> (stored: Option<i32>)
    ensures
        stored == spec_low_i32_opt(v),
{
    match v {
        Some(x) => Some(low_i32(x)),
        None => None,
    }
}

/// Two ids are stored under the same number only if they are the same id.
pub proof fn lemma_sql_id_injective(a: u64, b: u64)
    requires
        spec_sql_id(a) == spec_sql_id(b),
    ensures
        a == b,
{
}

/// An id that fits the signed range is stored as itself.
pub proof fn lemma_sql_id_of_small(id: u64)
    requires
        id <= i64::MAX,
    ensures
        spec_sql_id(id) == id,
{
}

/// A value that fits the signed 32-bit range is stored as itself.
pub proof fn lemma_low_i32_of_small(v: u64)
    requires
        v <= i32::MAX,
    ensures
        spec_low_i32(v) == v,
{
}

} // verus!
