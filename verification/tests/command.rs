use ccsds_codec::Command;
use ccsds_codec::NoPayload;
use ccsds_codec::PacketError;

#[test]
fn command_new_builds_expected_header() {
    let c = Command::<u32>::new(0x1812, 0x42, 0xAABBCCDD).unwrap();
    assert_eq!(c.msg_id(), 0x1812);
    assert_eq!(c.function_code(), 0x42);
    assert_eq!(c.payload, 0xAABBCCDD);
    let bytes = c.as_bytes();
    // 8 header bytes (len field = 4 + 1 = 5), then the little-endian payload.
    assert_eq!(
        bytes,
        vec![0x18, 0x12, 0xC0, 0x00, 0x00, 0x05, 0x42, 0x00, 0xDD, 0xCC, 0xBB, 0xAA]
    );
}

#[test]
fn command_round_trip_recovers_all_fields() {
    let c = Command::<u32>::new(0x1FFF, 0x7F, 0x01020304).unwrap();
    let bytes = c.as_bytes();
    let d = Command::<u32>::from_bytes(bytes.as_slice()).unwrap();
    assert_eq!(d.msg_id(), 0x1FFF);
    assert_eq!(d.function_code(), 0x7F);
    assert_eq!(d.payload, 0x01020304);
    assert_eq!(d.as_bytes(), bytes);
}

#[test]
fn command_round_trip_no_payload() {
    let c = Command::<NoPayload>::new(0x1800, 0, NoPayload).unwrap();
    let bytes = c.as_bytes();
    assert_eq!(bytes.len(), 8);
    let d = Command::<NoPayload>::from_bytes(bytes.as_slice()).unwrap();
    assert_eq!(d.msg_id(), 0x1800);
}

#[test]
fn command_msg_id_out_of_range_rejected() {
    assert_eq!(
        Command::<u32>::new(0x17FF, 0, 0).unwrap_err(),
        PacketError::InvalidField
    );
    assert_eq!(
        Command::<u32>::new(0x2000, 0, 0).unwrap_err(),
        PacketError::InvalidField
    );
    assert_eq!(
        Command::<u32>::new(0, 0, 0).unwrap_err(),
        PacketError::InvalidField
    );
}

#[test]
fn function_code_boundary() {
    // 0x7F is the largest accepted function code; 0x80 and above are refused.
    assert!(Command::<u32>::new(0x1800, 0x7F, 0).is_ok());
    assert_eq!(
        Command::<u32>::new(0x1800, 0x80, 0).unwrap_err(),
        PacketError::InvalidField
    );
    assert_eq!(
        Command::<u32>::new(0x1800, 0xFFFF, 0).unwrap_err(),
        PacketError::InvalidField
    );
}

#[test]
fn command_new_default_zero_payload() {
    let c = Command::<u32>::new_default(0x1801, 3).unwrap();
    assert_eq!(c.payload, 0);
    assert_eq!(c.msg_id(), 0x1801);
    assert_eq!(c.function_code(), 3);
}

#[test]
fn command_from_bytes_wrong_length_rejected() {
    let c = Command::<u32>::new(0x1812, 1, 5).unwrap();
    let bytes = c.as_bytes();
    let mut short = bytes.clone();
    short.pop();
    assert_eq!(
        Command::<u32>::from_bytes(short.as_slice()).unwrap_err(),
        PacketError::BufferSizeMismatch
    );
    let mut long = bytes.clone();
    long.push(0);
    assert_eq!(
        Command::<u32>::from_bytes(long.as_slice()).unwrap_err(),
        PacketError::BufferSizeMismatch
    );
    assert_eq!(
        Command::<u32>::from_bytes(&[]).unwrap_err(),
        PacketError::BufferSizeMismatch
    );
}

#[test]
fn command_from_bytes_bad_sequence_flags_rejected() {
    let c = Command::<u32>::new(0x1812, 1, 5).unwrap();
    let bytes = c.as_bytes();
    for flags in [0x00u8, 0x40, 0x80] {
        let mut bad = bytes.clone();
        bad[2] = flags;
        assert_eq!(
            Command::<u32>::from_bytes(bad.as_slice()).unwrap_err(),
            PacketError::MalformedHeader
        );
    }
    // Low bits of byte 2 may vary as long as the top two bits stay `11`.
    let mut ok = bytes.clone();
    ok[2] = 0xC5;
    assert!(Command::<u32>::from_bytes(ok.as_slice()).is_ok());
}

#[test]
fn command_from_bytes_bad_msg_id_rejected() {
    let c = Command::<u32>::new(0x1812, 1, 5).unwrap();
    let mut bad = c.as_bytes();
    bad[0] = 0x08;
    assert_eq!(
        Command::<u32>::from_bytes(bad.as_slice()).unwrap_err(),
        PacketError::InvalidField
    );
}

#[test]
fn command_from_bytes_bad_length_field_rejected() {
    let c = Command::<u32>::new(0x1812, 1, 5).unwrap();
    let mut bad = c.as_bytes();
    bad[5] = bad[5].wrapping_add(1);
    assert_eq!(
        Command::<u32>::from_bytes(bad.as_slice()).unwrap_err(),
        PacketError::InvalidField
    );
}

#[test]
fn command_from_bytes_function_code_high_bit_rejected() {
    let c = Command::<u32>::new(0x1812, 1, 5).unwrap();
    let mut bad = c.as_bytes();
    bad[6] = 0x81;
    assert_eq!(
        Command::<u32>::from_bytes(bad.as_slice()).unwrap_err(),
        PacketError::MalformedHeader
    );
}

#[test]
fn command_setters_validate_and_update() {
    let mut c = Command::<u32>::new(0x1812, 1, 5).unwrap();
    assert!(c.set_msg_id(0x1900).is_ok());
    assert_eq!(c.msg_id(), 0x1900);
    assert_eq!(c.set_msg_id(0x0800).unwrap_err(), PacketError::InvalidField);
    assert_eq!(c.msg_id(), 0x1900);
    assert!(c.set_function_code(0x7F).is_ok());
    assert_eq!(c.function_code(), 0x7F);
    assert_eq!(
        c.set_function_code(0x80).unwrap_err(),
        PacketError::InvalidField
    );
    assert_eq!(c.function_code(), 0x7F);
    // The untouched fields keep their values.
    assert_eq!(c.payload, 5);
    let bytes = c.as_bytes();
    assert_eq!(bytes[4], 0x00);
    assert_eq!(bytes[5], 0x05);
}

#[test]
fn command_new_default_no_payload() {
    let c = Command::<NoPayload>::new_default(0x1802, 1).unwrap();
    assert_eq!(c.payload, NoPayload);
    assert_eq!(c.as_bytes().len(), 8);
}

#[test]
fn command_array_payload_round_trip() {
    let c = Command::<[u8; 3]>::new(0x1855, 9, [10, 20, 30]).unwrap();
    let bytes = c.as_bytes();
    assert_eq!(bytes.len(), 11);
    assert_eq!(&bytes[8..], &[10, 20, 30]);
    let d = Command::<[u8; 3]>::from_bytes(bytes.as_slice()).unwrap();
    assert_eq!(d.payload, [10, 20, 30]);
}
