use copernica::constants::BFI_WORD_COUNT;
use copernica::wire_ints::bfi_to_u8;
use copernica::wire_ints::u16_to_u8;
use copernica::wire_ints::u64_to_u8;
use copernica::wire_ints::u8_to_bfi;
use copernica::wire_ints::u8_to_u16;
use copernica::wire_ints::u8_to_u64;
use copernica::wire_ints::BFI;

#[test]
fn test_u16_to_fro_u8() {
    let actual: u16 = u16::MIN;
    let expected: u16 = u8_to_u16(u16_to_u8(actual));
    println!("expected: {:?}, actual: {:?}", expected, actual);
    assert_eq!(expected, actual);

    let actual: u16 = 1;
    let expected: u16 = u8_to_u16(u16_to_u8(actual));
    println!("expected: {:?}, actual: {:?}", expected, actual);
    assert_eq!(expected, actual);

    let actual: u16 = u16::MAX;
    let expected: u16 = u8_to_u16(u16_to_u8(actual));
    println!("expected: {:?}, actual: {:?}", expected, actual);
    assert_eq!(expected, actual);
}

#[test]
fn test_bfi_to_fro_u8() {
    let actual: BFI = [0u16; BFI_WORD_COUNT];
    let expected: BFI = u8_to_bfi(bfi_to_u8(actual));
    println!("expected: {:?}, actual: {:?}", expected, actual);
    assert_eq!(expected, actual);

    let actual: BFI = [0, 1, 2, 3];
    let expected: BFI = u8_to_bfi(bfi_to_u8(actual));
    println!("expected: {:?}, actual: {:?}", expected, actual);
    assert_eq!(expected, actual);

    let actual: BFI = [u16::MAX, u16::MAX, u16::MAX, u16::MAX];
    let expected: BFI = u8_to_bfi(bfi_to_u8(actual));
    println!("expected: {:?}, actual: {:?}", expected, actual);
    assert_eq!(expected, actual);
}

#[test]
fn test_u64_to_fro_u8() {
    let actual: u64 = 0;
    let expected: u64 = u8_to_u64(u64_to_u8(actual));
    println!("expected: {:?}, actual: {:?}", expected, actual);
    assert_eq!(expected, actual);

    let actual: u64 = u64::MAX / 2;
    let expected: u64 = u8_to_u64(u64_to_u8(actual));
    println!("expected: {:?}, actual: {:?}", expected, actual);
    assert_eq!(expected, actual);

    let actual: u64 = u64::MAX;
    let expected: u64 = u8_to_u64(u64_to_u8(actual));
    println!("expected: {:?}, actual: {:?}", expected, actual);
    assert_eq!(expected, actual);
}

#[test]
fn test_u16_exact_bytes() {
    assert_eq!(u16_to_u8(0x1234), [0x12, 0x34]);
    assert_eq!(u8_to_u16([0x12, 0x34]), 0x1234);
}

#[test]
fn test_u64_exact_bytes() {
    assert_eq!(
        u64_to_u8(0x0102030405060708),
        [0x01, 0x02, 0x03, 0x04, 0x05, 0x06, 0x07, 0x08]
    );
    assert_eq!(
        u8_to_u64([0x01, 0x02, 0x03, 0x04, 0x05, 0x06, 0x07, 0x08]),
        0x0102030405060708
    );
}
