use concordium_rust_sdk::wire::{
    put_bool, put_bytes, put_bytes16, put_bytes32, put_u16, put_u32, put_u64, put_u8, read_array,
    read_bool, read_bytes16, read_bytes32, read_fixed, read_u16, read_u32, read_u64, read_u8,
    ParseError, ParseErrorKind,
};

#[test]
fn integers_are_big_endian() {
    let mut out = vec![0xffu8];
    put_u8(&mut out, 7);
    put_u16(&mut out, 0x0102);
    put_u32(&mut out, 0x0304_0506);
    put_u64(&mut out, 0x0708_090a_0b0c_0d0e);
    assert_eq!(out, vec![0xff, 7, 1, 2, 3, 4, 5, 6, 7, 8, 9, 10, 11, 12, 13, 14]);
    assert_eq!(read_u8(&out, 1), Ok((7, 2)));
    assert_eq!(read_u16(&out, 2), Ok((0x0102, 4)));
    assert_eq!(read_u32(&out, 4), Ok((0x0304_0506, 8)));
    assert_eq!(read_u64(&out, 8), Ok((0x0708_090a_0b0c_0d0e, 16)));
}

#[test]
fn integers_round_trip_at_their_limits() {
    for &x in &[0u64, 1, 255, 256, 65_535, 65_536, u32::MAX as u64, u32::MAX as u64 + 1, u64::MAX] {
        let mut out = Vec::new();
        put_u64(&mut out, x);
        assert_eq!(out.len(), 8);
        assert_eq!(read_u64(&out, 0), Ok((x, 8)));
    }
    for &x in &[0u32, 1, 255, 256, 65_535, 65_536, u32::MAX] {
        let mut out = Vec::new();
        put_u32(&mut out, x);
        assert_eq!(out.len(), 4);
        assert_eq!(read_u32(&out, 0), Ok((x, 4)));
    }
    for &x in &[0u16, 1, 255, 256, u16::MAX] {
        let mut out = Vec::new();
        put_u16(&mut out, x);
        assert_eq!(out.len(), 2);
        assert_eq!(read_u16(&out, 0), Ok((x, 2)));
    }
}

#[test]
fn reading_past_the_end_is_an_error_with_the_offset() {
    let src = [1u8, 2, 3];
    let end = |at: usize, needed: usize| {
        ParseError { kind: ParseErrorKind::UnexpectedEnd { needed }, at }
    };
    assert_eq!(read_u8(&src, 3), Err(end(3, 1)));
    assert_eq!(read_u16(&src, 2), Err(end(2, 2)));
    assert_eq!(read_u32(&src, 0), Err(end(0, 4)));
    assert_eq!(read_u64(&src, 1), Err(end(1, 8)));
    assert_eq!(read_fixed(&src, 1, 3), Err(end(1, 3)));
    assert_eq!(read_array::<4>(&src, 0), Err(end(0, 4)));
    assert_eq!(read_bool(&src, 3), Err(end(3, 1)));
}

#[test]
fn booleans_are_zero_or_one() {
    let mut out = Vec::new();
    put_bool(&mut out, true);
    put_bool(&mut out, false);
    out.push(2);
    assert_eq!(out, vec![1, 0, 2]);
    assert_eq!(read_bool(&out, 0), Ok((true, 1)));
    assert_eq!(read_bool(&out, 1), Ok((false, 2)));
    assert_eq!(
        read_bool(&out, 2),
        Err(ParseError { kind: ParseErrorKind::InvalidBool { value: 2 }, at: 2 })
    );
}

#[test]
fn byte_strings_carry_their_length() {
    let mut out = Vec::new();
    put_bytes16(&mut out, &[9, 8, 7]);
    put_bytes32(&mut out, &[6, 5]);
    put_bytes(&mut out, &[4]);
    assert_eq!(out, vec![0, 3, 9, 8, 7, 0, 0, 0, 2, 6, 5, 4]);
    assert_eq!(read_bytes16(&out, 0, 3), Ok((vec![9, 8, 7], 5)));
    assert_eq!(read_bytes32(&out, 5, 2), Ok((vec![6, 5], 11)));
    assert_eq!(read_fixed(&out, 11, 1), Ok((vec![4], 12)));
    assert_eq!(read_fixed(&out, 12, 0), Ok((vec![], 12)));
    assert_eq!(read_array::<3>(&out, 2), Ok(([9, 8, 7], 5)));
}

#[test]
fn byte_strings_over_the_limit_are_refused() {
    let mut out = Vec::new();
    put_bytes16(&mut out, &[1, 2, 3]);
    assert_eq!(
        read_bytes16(&out, 0, 2),
        Err(ParseError { kind: ParseErrorKind::TooLong { len: 3, max: 2 }, at: 0 })
    );
    let mut out = Vec::new();
    put_bytes32(&mut out, &[1, 2, 3]);
    assert_eq!(
        read_bytes32(&out, 0, 2),
        Err(ParseError { kind: ParseErrorKind::TooLong { len: 3, max: 2 }, at: 0 })
    );
    // The length is there, the bytes are not.
    assert_eq!(
        read_bytes16(&[0, 5, 1], 0, 10),
        Err(ParseError { kind: ParseErrorKind::UnexpectedEnd { needed: 5 }, at: 2 })
    );
}
