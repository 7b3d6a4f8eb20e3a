use std::time::{Duration, UNIX_EPOCH};

use orion_sdr_view::replay::sha256::sha256_hex;
use orion_sdr_view::utils::format::{
    epoch_parts, format_iso8601, format_stamp, format_stamp_parts, format_time, format_time_parts,
    EpochInstant,
};
use orion_sdr_view::utils::time::{offset_min_from_secs, utc_offset_from_clocks, SCRIPT_EPOCH_SECS};

#[test]
fn sha256_of_empty_input() {
    assert_eq!(
        sha256_hex(b""),
        "e3b0c44298fc1c149afbf4c8996fb92427ae41e4649b934ca495991b7852b855"
    );
}

#[test]
fn sha256_of_abc() {
    assert_eq!(
        sha256_hex(b"abc"),
        "ba7816bf8f01cfea414140de5dae2223b00361a396177a9cb410ff61f20015ad"
    );
}

#[test]
fn sha256_of_two_block_message() {
    assert_eq!(
        sha256_hex(b"abcdbcdecdefdefgefghfghighijhijkijkljklmklmnlmnomnopnopq"),
        "248d6a61d20638b8e5c026930c3e6039a33ce45964ff2167f6ecedd419db06c1"
    );
}

#[test]
fn sha256_distinguishes_scripts() {
    assert_ne!(sha256_hex(b"0.0 key L\n"), sha256_hex(b"0.0 key R\n"));
    assert_eq!(sha256_hex(b"0.0 key L\n").len(), 64);
}

#[test]
fn clock_at_the_epoch() {
    assert_eq!(format_time(epoch_parts(&UNIX_EPOCH), 0), "00:00:00.000");
}

#[test]
fn clock_with_offsets() {
    let t = UNIX_EPOCH + Duration::from_millis(1_786_792_953_456);
    assert_eq!(format_time(epoch_parts(&t), 0), "11:22:33.456");
    assert_eq!(format_time(epoch_parts(&t), -300), "06:22:33.456");
    assert_eq!(format_time(epoch_parts(&t), 330), "16:52:33.456");
    assert_eq!(format_time_parts(1_786_792_953, 7, 0), "11:22:33.007");
}

#[test]
fn clock_before_the_epoch_reads_as_the_epoch() {
    let t = UNIX_EPOCH - Duration::from_secs(5);
    assert_eq!(format_time(epoch_parts(&t), 0), "00:00:00.000");
}

#[test]
fn clock_west_of_utc_reads_the_previous_day() {
    assert_eq!(format_time_parts(59, 0, -1), "23:59:59.000");
    assert_eq!(format_time(EpochInstant { secs: 59, millis: 0 }, -1), "23:59:59.000");
    assert_eq!(format_time(EpochInstant { secs: 0, millis: 250 }, -90), "22:30:00.250");
}

#[test]
fn epoch_parts_splits_seconds_and_millis() {
    let t = UNIX_EPOCH + Duration::from_millis(1_786_792_953_456);
    assert_eq!(epoch_parts(&t), EpochInstant { secs: 1_786_792_953, millis: 456 });
    assert_eq!(epoch_parts(&(UNIX_EPOCH - Duration::from_secs(5))), EpochInstant { secs: 0, millis: 0 });
}

#[test]
fn stamp_basic_format() {
    let t = UNIX_EPOCH + Duration::from_millis(1_786_792_953_456);
    assert_eq!(format_stamp(epoch_parts(&t), 0), "20260815T112233.456Z");
    assert_eq!(format_stamp(epoch_parts(&t), -300), "20260815T062233.456-0500");
    assert_eq!(format_stamp(epoch_parts(&t), 330), "20260815T165233.456+0530");
}

#[test]
fn stamp_extended_format() {
    let t = UNIX_EPOCH + Duration::from_millis(1_786_792_953_456);
    assert_eq!(format_iso8601(epoch_parts(&t), 0), "2026-08-15T11:22:33.456Z");
    assert_eq!(format_iso8601(epoch_parts(&t), -210), "2026-08-15T07:52:33.456-03:30");
}

#[test]
fn stamp_crosses_midnight_backwards() {
    assert_eq!(format_stamp_parts(0, 0, -60, true), "1969-12-31T23:00:00.000-01:00");
}

#[test]
fn stamp_on_a_leap_day() {
    assert_eq!(format_stamp_parts(951_782_400, 1, 0, false), "20000229T000000.001Z");
    assert_eq!(format_stamp_parts(951_782_400 + 86_400, 0, 0, true), "2000-03-01T00:00:00.000Z");
}

#[test]
fn stamps_are_fixed_width_and_sort() {
    let a = format_stamp_parts(1_786_792_953, 456, 60, false);
    let b = format_stamp_parts(1_786_792_953, 457, 60, false);
    let c = format_stamp_parts(1_786_792_954, 0, 60, false);
    assert_eq!(a.len(), 24);
    assert_eq!(b.len(), 24);
    assert!(a < b && b < c);
}

#[test]
fn scripted_epoch_is_new_year_2026() {
    assert_eq!(format_stamp_parts(SCRIPT_EPOCH_SECS, 0, 0, true), "2026-01-01T00:00:00.000Z");
}

#[test]
fn utc_offset_from_clock_readings() {
    assert_eq!(utc_offset_from_clocks(3600, 0), 3600);
    assert_eq!(utc_offset_from_clocks(0, 3600), -3600);
    assert_eq!(utc_offset_from_clocks(23 * 3600, 3600), -2 * 3600);
    assert_eq!(utc_offset_from_clocks(3600, 23 * 3600), 2 * 3600);
}

#[test]
fn offset_minutes_are_clamped() {
    assert_eq!(offset_min_from_secs(-18_000), -300);
    assert_eq!(offset_min_from_secs(19_800), 330);
    assert_eq!(offset_min_from_secs(90_000), 840);
    assert_eq!(offset_min_from_secs(-90_000), -720);
    assert_eq!(offset_min_from_secs(-59), 0);
}
