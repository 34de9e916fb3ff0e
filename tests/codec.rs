use ferroflex::{
    date_from_bytes, decimal_text_from_bcd_bytes, int_from_bcd_bytes, int_from_packed_bcd,
    int_from_unpacked_bcd, read_i16_le, read_u16_le, string_from_bytes, Date, FerricError,
};

#[test]
fn gets_packed_bcds() {
    assert_eq!(int_from_packed_bcd(0x00, None), 0i64);
    assert_eq!(int_from_packed_bcd(0x01, None), 1i64);
    assert_eq!(int_from_packed_bcd(0x02, None), 2i64);
    assert_eq!(int_from_packed_bcd(0x03, None), 3i64);
    assert_eq!(int_from_packed_bcd(0x04, None), 4i64);
    assert_eq!(int_from_packed_bcd(0x05, None), 5i64);
    assert_eq!(int_from_packed_bcd(0x06, None), 6i64);
    assert_eq!(int_from_packed_bcd(0x07, None), 7i64);
    assert_eq!(int_from_packed_bcd(0x08, None), 8i64);
    assert_eq!(int_from_packed_bcd(0x09, None), 9i64);
    assert_eq!(int_from_packed_bcd(0x10, None), 10i64);

    assert_eq!(int_from_packed_bcd(0x11, None), 11i64);
    assert_eq!(int_from_packed_bcd(0x22, None), 22i64);
    assert_eq!(int_from_packed_bcd(0x33, None), 33i64);
    assert_eq!(int_from_packed_bcd(0x44, None), 44i64);
    assert_eq!(int_from_packed_bcd(0x55, None), 55i64);
    assert_eq!(int_from_packed_bcd(0x66, None), 66i64);
    assert_eq!(int_from_packed_bcd(0x77, None), 77i64);
    assert_eq!(int_from_packed_bcd(0x88, None), 88i64);
    assert_eq!(int_from_packed_bcd(0x99, None), 99i64);
}

#[test]
fn gets_unpacked_bcds() {
    // 0x01 through 0x09 have a zero high nibble, and a zero high nibble marks
    // an unpacked digit negative; reading 0x01 as +1 would break that rule,
    // so these bytes decode to -1 through -9.
    assert_eq!(int_from_unpacked_bcd(0x00), 0i64);
    assert_eq!(int_from_unpacked_bcd(0x01), -1i64);
    assert_eq!(int_from_unpacked_bcd(0x02), -2i64);
    assert_eq!(int_from_unpacked_bcd(0x03), -3i64);
    assert_eq!(int_from_unpacked_bcd(0x04), -4i64);
    assert_eq!(int_from_unpacked_bcd(0x05), -5i64);
    assert_eq!(int_from_unpacked_bcd(0x06), -6i64);
    assert_eq!(int_from_unpacked_bcd(0x07), -7i64);
    assert_eq!(int_from_unpacked_bcd(0x08), -8i64);
    assert_eq!(int_from_unpacked_bcd(0x09), -9i64);
    assert_eq!(int_from_unpacked_bcd(0x10), 0i64);
    assert_eq!(int_from_unpacked_bcd(0x11), 1i64);
    assert_eq!(int_from_unpacked_bcd(0x19), 9i64);
}

#[test]
fn unpacked_bcd_sign_and_cap() {
    // a zero high nibble marks the digit negative; digits cap at 9
    assert_eq!(int_from_unpacked_bcd(0x05), -5i64);
    assert_eq!(int_from_unpacked_bcd(0x15), 5i64);
    assert_eq!(int_from_unpacked_bcd(0x1F), 9i64);
    assert_eq!(int_from_unpacked_bcd(0x0C), -9i64);
}

#[test]
fn packed_bcd_weights_and_overflow() {
    assert_eq!(int_from_packed_bcd(0x12, Some(2)), 1200i64);
    assert_eq!(int_from_packed_bcd(0xFF, None), 99i64);
    assert_eq!(int_from_packed_bcd(0x01, Some(18)), 1_000_000_000_000_000_000i64);
    // 9 * 10^19 does not fit in an i64
    assert_eq!(int_from_packed_bcd(0x90, Some(18)), 0i64);
    assert_eq!(int_from_packed_bcd(0x00, Some(40)), 0i64);
    assert_eq!(int_from_packed_bcd(0x01, Some(40)), 0i64);
}

#[test]
fn gets_ints_from_bcd_bytes() {
    assert_eq!(
        int_from_bcd_bytes(&[0x10, 0x00, 0x00, 0x00, 0x00, 0x02, 0x36], Some(true)),
        Ok(236i64)
    );
    assert_eq!(
        int_from_bcd_bytes(&[0x00, 0x00, 0x00, 0x00, 0x00, 0x58, 0x23], Some(true)),
        Ok(-5823i64)
    );
}

#[test]
fn bcd_ints_of_short_and_bad_buffers() {
    assert_eq!(int_from_bcd_bytes(&[], Some(true)), Err(FerricError::BcdDecoding));
    // one byte: a packed byte, never negated
    assert_eq!(int_from_bcd_bytes(&[0x42], Some(true)), Ok(42));
    assert_eq!(int_from_bcd_bytes(&[0x07], Some(true)), Ok(7));
    assert_eq!(int_from_bcd_bytes(&[0x07], Some(false)), Ok(7));
    // two bytes: a raw little-endian i16, never negated
    assert_eq!(int_from_bcd_bytes(&[0x05, 0x00], Some(true)), Ok(5));
    assert_eq!(int_from_bcd_bytes(&[0x34, 0x12], Some(false)), Ok(0x1234));
    assert_eq!(int_from_bcd_bytes(&[0xFF, 0xFF], Some(false)), Ok(-1));
    // unsigned: no sign byte is skipped
    assert_eq!(int_from_bcd_bytes(&[0x12, 0x34, 0x56], Some(false)), Ok(123456));
    assert_eq!(int_from_bcd_bytes(&[0x12, 0x34, 0x56], None), Ok(3456));
    // eleven packed bytes exceed the i64 range
    let big = [0x99u8; 12];
    assert_eq!(int_from_bcd_bytes(&big, Some(true)), Err(FerricError::BcdDecoding));
}

#[test]
fn reads_little_endian_integers() {
    assert_eq!(read_u16_le(&[0x00, 0x34, 0x12], 1), 0x1234);
    assert_eq!(read_i16_le(&[0x00, 0x80], 0), -32768);
}

#[test]
fn gets_dates_from_bytes() {
    // day number 700003 is the epoch's first day
    assert_eq!(
        date_from_bytes(&[0x70, 0x00, 0x03]),
        Ok(Some(Date { year: 1642, month: 9, day: 17 }))
    );
    assert_eq!(
        date_from_bytes(&[0x70, 0x00, 0x04]),
        Ok(Some(Date { year: 1642, month: 9, day: 18 }))
    );
    assert_eq!(
        date_from_bytes(&[0x83, 0x05, 0x00]),
        Ok(Some(Date { year: 2000, month: 1, day: 1 }))
    );
    assert_eq!(
        date_from_bytes(&[0x83, 0x85, 0x35]),
        Ok(Some(Date { year: 2021, month: 12, day: 31 }))
    );
}

#[test]
fn dates_before_epoch_are_absent() {
    assert_eq!(date_from_bytes(&[0x00, 0x00, 0x00]), Ok(None));
    assert_eq!(date_from_bytes(&[0x70, 0x00, 0x02]), Ok(None));
    assert_eq!(date_from_bytes(&[]), Ok(None));
    // far beyond the supported span
    assert_eq!(
        date_from_bytes(&[0x99, 0x99, 0x99, 0x99, 0x99]),
        Err(FerricError::DateDecoding)
    );
}

#[test]
fn gets_floats_from_bcd_bytes() {
    // integer part [0x10, 0x00, 0x12, 0x34] signed, fraction [0x50] unsigned
    let text = decimal_text_from_bcd_bytes(&[0x10, 0x00, 0x12, 0x34, 0x50], Some(1)).unwrap();
    assert_eq!(text, "1234.50");
    assert_eq!(text.parse::<f64>().unwrap(), 1234.5f64);
    let negative = decimal_text_from_bcd_bytes(&[0x00, 0x00, 0x12, 0x34, 0x05], None).unwrap();
    assert_eq!(negative, "-1234.5");
    assert_eq!(
        decimal_text_from_bcd_bytes(&[0x12], Some(2)),
        Err(FerricError::Internal)
    );
    assert_eq!(
        decimal_text_from_bcd_bytes(&[0x12], Some(1)),
        Err(FerricError::BcdDecoding)
    );
}

#[test]
fn gets_strings_from_bytes() {
    assert_eq!(string_from_bytes(b"  HELLO  ", Some(false)).unwrap(), "HELLO");
    assert_eq!(string_from_bytes(b"AB\x00\x01CD\x00", None).unwrap(), "ABCD");
    assert_eq!(string_from_bytes(b"\x00\x00\x00", None).unwrap(), "");
    assert_eq!(string_from_bytes(b"A\tB", None).unwrap(), "A\tB");
    assert_eq!(string_from_bytes(&[0xA0, b'X', 0xE9], None).unwrap(), "X\u{e9}");
}

#[test]
fn gets_strings_from_df_text_fields() {
    assert_eq!(string_from_bytes(b"\x03\x00abc\x00\x00", Some(true)).unwrap(), "abc");
    assert_eq!(string_from_bytes(b"\x05\x00 abc \x00", Some(true)).unwrap_err(), FerricError::TextDecoding);
}

#[test]
fn text_field_length_mismatch_fails() {
    // declared four characters, three present
    assert_eq!(
        string_from_bytes(b"\x04\x00abc", Some(true)),
        Err(FerricError::TextDecoding)
    );
    // declared two characters, three present
    assert_eq!(
        string_from_bytes(b"\x02\x00abc", Some(true)),
        Err(FerricError::TextDecoding)
    );
    assert_eq!(string_from_bytes(b"\x01\x00a", Some(true)), Err(FerricError::TextDecoding));
}

#[test]
fn dates_reach_the_last_calendar_day() {
    // day number 700003 + 95145776
    assert_eq!(
        date_from_bytes(&[0x95, 0x84, 0x57, 0x79]),
        Ok(Some(Date { year: 262142, month: 12, day: 31 }))
    );
    assert_eq!(date_from_bytes(&[0x95, 0x84, 0x57, 0x80]), Err(FerricError::DateDecoding));
}
