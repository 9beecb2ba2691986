use hexagon::math::{digits, int_to_hex, itoa_u16, itoa_u32, itoa_u64, itoa_u8, to_base};

#[test]
fn test_itoa() {
    assert_eq!(&itoa_u64(10345612345612345), b"10345612345612345   ");
    assert_eq!(digits(1023), 4);
    assert_eq!(int_to_hex(0), b'0');
    assert_eq!(int_to_hex(5), b'5');
    assert_eq!(int_to_hex(8), b'8');
    assert_eq!(int_to_hex(9), b'9');
    assert_eq!(&itoa_u32(19), b"19                  ");
    assert_eq!(&itoa_u32(180), b"180                 ");
    assert_eq!(&itoa_u32(1), b"1                   ");
    assert_eq!(&itoa_u32(10), b"10                  ");
    assert_eq!(&itoa_u32(101), b"101                 ");
    assert_eq!(&itoa_u32(1010), b"1010                ");
    assert_eq!(&itoa_u64(10000), b"10000               ");
    assert_eq!(&itoa_u32(3000002), b"3000002             ");
    assert_eq!(&itoa_u32(1028191), b"1028191             ");
    assert_eq!(&itoa_u32(1220221), b"1220221             ");
    assert_eq!(&itoa_u32(1234567890), b"1234567890          ");
    assert_eq!(&itoa_u32(123456789), b"123456789           ");
    assert_eq!(&itoa_u32(12345678), b"12345678            ");
    assert_eq!(&itoa_u32(1234567), b"1234567             ");
    assert_eq!(&to_base(255, 16), b"FF                  ");
    assert_eq!(&to_base(2700230707, 16), b"A0F24033            ");
}

#[test]
fn itoa_edges() {
    assert_eq!(&itoa_u64(0), b"0                   ");
    assert_eq!(&itoa_u64(u64::MAX), b"18446744073709551615");
    assert_eq!(&itoa_u16(65535), b"65535               ");
    assert_eq!(&itoa_u8(255), b"255                 ");
    assert_eq!(&to_base(5, 2), b"101                 ");
    assert_eq!(&to_base(0, 1), b"0                   ");
    assert_eq!(digits(0), 0);
    assert_eq!(digits(9), 1);
    assert_eq!(digits(u32::MAX), 10);
    assert_eq!(int_to_hex(10), b'A');
    assert_eq!(int_to_hex(15), b'F');
}
