use rymeon_ca::errors::CaError;
use rymeon_ca::serial::{build_serial_number, SerialAllocator, SerialNumber};

#[test]
fn serial_zero_encodes_as_one_zero_byte() {
    let s = SerialNumber { value: 0 };
    assert_eq!(s.to_bytes(), vec![0u8]);
}

#[test]
fn serial_encoding_is_minimal_big_endian() {
    let s = SerialNumber { value: 0x1234 };
    assert_eq!(s.to_bytes(), vec![0x12u8, 0x34]);
}

#[test]
fn serial_encoding_pads_high_top_bit() {
    let s = SerialNumber { value: 0x80 };
    assert_eq!(s.to_bytes(), vec![0x00u8, 0x80]);
    let t = SerialNumber { value: 0xFF };
    assert_eq!(t.to_bytes(), vec![0x00u8, 0xFF]);
}

#[test]
fn build_serial_number_parses_hex() {
    let s = build_serial_number("1234567890abcdef1234567890abcdef").unwrap();
    assert_eq!(s.value, 0x1234567890abcdef1234567890abcdefu128);
    let t = build_serial_number("00FF").unwrap();
    assert_eq!(t.value, 255);
}

#[test]
fn build_serial_number_rejects_bad_input() {
    assert_eq!(build_serial_number(""), Err(CaError::MalformedInput));
    assert_eq!(build_serial_number("xyz"), Err(CaError::MalformedInput));
    assert_eq!(
        build_serial_number("123456789012345678901234567890123"),
        Err(CaError::MalformedInput)
    );
}

#[test]
fn allocator_hands_out_distinct_increasing_serials() {
    let mut allocator = SerialAllocator::new(41, 16);
    let s1 = allocator.next().unwrap();
    let s2 = allocator.next().unwrap();
    assert_eq!(s1.value, 41);
    assert_eq!(s2.value, 42);
    assert_ne!(s1.value, s2.value);
}

#[test]
fn allocator_exhausts_beyond_configured_width() {
    let mut narrow = SerialAllocator::new(255, 1);
    assert_eq!(narrow.next().unwrap().value, 255);
    assert_eq!(narrow.next(), Err(CaError::ExhaustedSerialSpace));
    let mut topped = SerialAllocator::new(u128::MAX, 16);
    assert_eq!(topped.next(), Err(CaError::ExhaustedSerialSpace));
}
