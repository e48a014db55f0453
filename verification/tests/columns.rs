use slurpslurp::columns::{low_i32, low_i32_opt, sql_id, sql_id_opt, unsigned};
use slurpslurp::snowflake::{created_at_millis, upper_bound_id, PLATFORM_EPOCH_MS};

#[test]
fn sql_id_keeps_small_ids_and_wraps_large_ones() {
    assert_eq!(sql_id(0), 0);
    assert_eq!(sql_id(175928847299117063), 175928847299117063);
    assert_eq!(sql_id(i64::MAX as u64), i64::MAX);
    assert_eq!(sql_id(i64::MAX as u64 + 1), i64::MIN);
    assert_eq!(sql_id(u64::MAX), -1);
    assert_eq!(sql_id_opt(None), None);
    assert_eq!(sql_id_opt(Some(7)), Some(7));
}

#[test]
fn low_i32_keeps_the_low_bits() {
    assert_eq!(low_i32(0), 0);
    assert_eq!(low_i32(16_711_935), 16_711_935);
    assert_eq!(low_i32(0x7fff_ffff), i32::MAX);
    assert_eq!(low_i32(0x8000_0000), i32::MIN);
    assert_eq!(low_i32(0xffff_ffff), -1);
    assert_eq!(low_i32(0x1_0000_0005), 5);
    assert_eq!(low_i32_opt(Some(0x1_0000_0005)), Some(5));
    assert_eq!(low_i32_opt(None), None);
}

#[test]
fn unsigned_reads_the_same_bits() {
    assert_eq!(unsigned(0), 0);
    assert_eq!(unsigned(5), 5);
    assert_eq!(unsigned(-1), u64::MAX);
    assert_eq!(unsigned(i64::MIN), 1u64 << 63);
}

#[test]
fn created_at_is_read_off_the_id() {
    assert_eq!(created_at_millis(0), PLATFORM_EPOCH_MS as i64);
    assert_eq!(created_at_millis(175928847299117063), 1_462_015_105_796);
    assert_eq!(created_at_millis((1u64 << 22) - 1), PLATFORM_EPOCH_MS as i64);
    assert_eq!(created_at_millis(1u64 << 22), PLATFORM_EPOCH_MS as i64 + 1);
}

#[test]
fn upper_bound_id_moves_the_time_into_the_high_bits() {
    assert_eq!(upper_bound_id(0), 0);
    assert_eq!(upper_bound_id(1), 1 << 22);
    assert_eq!(upper_bound_id(1_700_000_000_000), 1_700_000_000_000u64 << 22);
    assert_eq!(upper_bound_id(1_700_000_000_000) >> 22, 1_700_000_000_000);
    assert_eq!(upper_bound_id(-1), ((-1i64) << 22) as u64);
}
