use ccsds_codec::PacketError;
use ccsds_codec::Telemetry;

#[test]
fn telemetry_new_builds_expected_header() {
    let t = Telemetry::<u8>::new(0x0812, 7).unwrap();
    assert_eq!(t.msg_id(), 0x0812);
    assert_eq!(t.sequence_number(), 0);
    assert_eq!(t.timestamp(), (0, 0));
    assert_eq!(t.payload, 7);
    let bytes = t.as_bytes();
    // 16 header bytes (len field = 1 + 9 = 10), then the single payload byte.
    assert_eq!(
        bytes,
        vec![0x08, 0x12, 0xC0, 0x00, 0x00, 0x0A, 0, 0, 0, 0, 0, 0, 0, 0, 0, 0, 7]
    );
}

#[test]
fn telemetry_msg_id_out_of_range_rejected() {
    assert_eq!(
        Telemetry::<u8>::new(0x07FF, 0).unwrap_err(),
        PacketError::InvalidField
    );
    assert_eq!(
        Telemetry::<u8>::new(0x1000, 0).unwrap_err(),
        PacketError::InvalidField
    );
    assert_eq!(
        Telemetry::<u8>::new(0x1800, 0).unwrap_err(),
        PacketError::InvalidField
    );
}

#[test]
fn telemetry_round_trip_recovers_all_fields() {
    let mut t = Telemetry::<u32>::new(0x0FFF, 0xDEADBEEF).unwrap();
    t.set_timestamp(1234, 500_000_000);
    t.increment_sequence_num();
    t.increment_sequence_num();
    let bytes = t.as_bytes();
    let d = Telemetry::<u32>::from_bytes(bytes.as_slice()).unwrap();
    assert_eq!(d.msg_id(), 0x0FFF);
    assert_eq!(d.sequence_number(), 2);
    assert_eq!(d.timestamp(), (1234, 32768));
    assert_eq!(d.payload, 0xDEADBEEF);
    assert_eq!(d.as_bytes(), bytes);
}

#[test]
fn telemetry_from_bytes_wrong_length_rejected() {
    let t = Telemetry::<u8>::new(0x0812, 7).unwrap();
    let bytes = t.as_bytes();
    let mut short = bytes.clone();
    short.pop();
    assert_eq!(
        Telemetry::<u8>::from_bytes(short.as_slice()).unwrap_err(),
        PacketError::BufferSizeMismatch
    );
    let mut long = bytes.clone();
    long.push(0);
    assert_eq!(
        Telemetry::<u8>::from_bytes(long.as_slice()).unwrap_err(),
        PacketError::BufferSizeMismatch
    );
}

#[test]
fn telemetry_from_bytes_bad_sequence_flags_rejected() {
    let t = Telemetry::<u8>::new(0x0812, 7).unwrap();
    let bytes = t.as_bytes();
    for flags in [0x00u8, 0x40, 0x80] {
        let mut bad = bytes.clone();
        bad[2] = flags;
        assert_eq!(
            Telemetry::<u8>::from_bytes(bad.as_slice()).unwrap_err(),
            PacketError::MalformedHeader
        );
    }
}

#[test]
fn telemetry_from_bytes_bad_msg_id_rejected() {
    let t = Telemetry::<u8>::new(0x0812, 7).unwrap();
    let mut bad = t.as_bytes();
    bad[0] = 0x18;
    assert_eq!(
        Telemetry::<u8>::from_bytes(bad.as_slice()).unwrap_err(),
        PacketError::InvalidField
    );
}

#[test]
fn telemetry_from_bytes_bad_length_field_rejected() {
    let t = Telemetry::<u8>::new(0x0812, 7).unwrap();
    let mut bad = t.as_bytes();
    bad[4] = 0x01;
    assert_eq!(
        Telemetry::<u8>::from_bytes(bad.as_slice()).unwrap_err(),
        PacketError::InvalidField
    );
}

#[test]
fn sequence_number_wraps_and_flags_stay_set() {
    let mut t = Telemetry::<u8>::new(0x0812, 7).unwrap();
    t.increment_sequence_num();
    assert_eq!(t.sequence_number(), 1);
    // 0x3FFF more increments bring the 14-bit counter back to 1, and the
    // sequence flags stay `11` at every step.
    for _ in 0..0x4000 {
        t.increment_sequence_num();
        assert_eq!(t.as_bytes()[2] & 0xC0, 0xC0);
    }
    assert_eq!(t.sequence_number(), 1);
}

#[test]
fn sequence_number_wrap_boundary() {
    let mut t = Telemetry::<u8>::new(0x0812, 7).unwrap();
    for _ in 0..0x3FFF {
        t.increment_sequence_num();
    }
    assert_eq!(t.sequence_number(), 0x3FFF);
    t.increment_sequence_num();
    assert_eq!(t.sequence_number(), 0);
}

#[test]
fn set_timestamp_exact_half_second() {
    let mut t = Telemetry::<u8>::new(0x0812, 7).unwrap();
    t.set_timestamp(100, 500_000_000);
    // 500 ms is exactly 0.5 * 65536 = 32768 subsecond units.
    assert_eq!(t.timestamp(), (100, 32768));
}

#[test]
fn set_timestamp_truncates_subseconds() {
    let mut t = Telemetry::<u8>::new(0x0812, 7).unwrap();
    t.set_timestamp(0, 999_999_999);
    // Truncated toward zero: 65535, never rounded up to 65536.
    assert_eq!(t.timestamp(), (0, 65535));
}

#[test]
fn set_timestamp_keeps_low_32_bits_of_seconds() {
    let mut t = Telemetry::<u8>::new(0x0812, 7).unwrap();
    t.set_timestamp(0x1_0000_0005, 0);
    assert_eq!(t.timestamp(), (5, 0));
    t.set_timestamp(0xFFFF_FFFF, 250_000_000);
    assert_eq!(t.timestamp(), (0xFFFF_FFFF, 16384));
}

#[test]
fn set_timestamp_leaves_other_fields_alone() {
    let mut t = Telemetry::<u8>::new(0x0812, 7).unwrap();
    t.increment_sequence_num();
    t.set_timestamp(42, 0);
    assert_eq!(t.msg_id(), 0x0812);
    assert_eq!(t.sequence_number(), 1);
    assert_eq!(t.payload, 7);
    let bytes = t.as_bytes();
    assert_eq!(&bytes[12..16], &[0, 0, 0, 0]);
}

#[test]
fn telemetry_set_msg_id_validates_and_updates() {
    let mut t = Telemetry::<u8>::new(0x0812, 7).unwrap();
    assert!(t.set_msg_id(0x0800).is_ok());
    assert_eq!(t.msg_id(), 0x0800);
    assert_eq!(t.set_msg_id(0x1900).unwrap_err(), PacketError::InvalidField);
    assert_eq!(t.msg_id(), 0x0800);
}

#[test]
fn telemetry_new_default_zero_payload() {
    let t = Telemetry::<u32>::new_default(0x0900).unwrap();
    assert_eq!(t.payload, 0);
    assert_eq!(t.msg_id(), 0x0900);
}

#[test]
fn set_timestamp_from_unix_rebases_to_flight_epoch() {
    let mut t = Telemetry::<u8>::new(0x0812, 7).unwrap();
    // 315532800 s is 1980-01-01T00:00:00 UTC on the Unix clock.
    assert!(t.set_timestamp_from_unix(315532800 + 100, 500_000_000).is_ok());
    assert_eq!(t.timestamp(), (100, 32768));
    assert!(t.set_timestamp_from_unix(315532800, 0).is_ok());
    assert_eq!(t.timestamp(), (0, 0));
}

#[test]
fn set_timestamp_from_unix_before_epoch_is_clock_error() {
    let mut t = Telemetry::<u8>::new(0x0812, 7).unwrap();
    t.set_timestamp(42, 250_000_000);
    let before = t.as_bytes();
    assert_eq!(
        t.set_timestamp_from_unix(315532799, 999_999_999).unwrap_err(),
        PacketError::ClockError
    );
    // A refused reading leaves the packet untouched.
    assert_eq!(t.as_bytes(), before);
    assert_eq!(t.timestamp(), (42, 16384));
}

#[test]
fn timestamp_with_now_is_past_the_epoch() {
    let mut t = Telemetry::<u8>::new(0x0812, 7).unwrap();
    assert!(t.timestamp_with_now().is_ok());
    let (seconds, _) = t.timestamp();
    // The host clock stands well past 1980-01-01.
    assert!(seconds > 0);
}
