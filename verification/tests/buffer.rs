use arma_rs::write_cstr;

#[test]
fn write_size_zero() {
    const BUF_SIZE: libc::size_t = 0;
    let mut buf: [libc::c_char; BUF_SIZE] = [0; BUF_SIZE];
    let result = write_cstr("".to_string(), &mut buf, BUF_SIZE);

    assert_eq!(result, None);
}

#[test]
fn write_one() {
    const BUF_SIZE: libc::size_t = 1;
    let mut buf: [libc::c_char; BUF_SIZE] = [0; BUF_SIZE];
    let result = write_cstr("".to_string(), &mut buf, BUF_SIZE);

    assert_eq!(result, Some(BUF_SIZE - 1));
    assert_eq!(buf, (b"\0").map(|c| c as i8));
}

#[test]
fn write_half() {
    const BUF_SIZE: libc::size_t = 7;
    let mut buf: [libc::c_char; BUF_SIZE] = [0; BUF_SIZE];
    let result = write_cstr("foo".to_string(), &mut buf, BUF_SIZE);

    assert_eq!(result, Some(3));
    assert_eq!(buf, (b"foo\0\0\0\0").map(|c| c as i8));
}

#[test]
fn write_full() {
    const BUF_SIZE: libc::size_t = 7;
    let mut buf: [libc::c_char; BUF_SIZE] = [0; BUF_SIZE];
    let result = write_cstr("foobar".to_string(), &mut buf, BUF_SIZE);

    assert_eq!(result, Some(6));
    assert_eq!(buf, (b"foobar\0").map(|c| c as i8));
}

#[test]
fn write_overflow() {
    const BUF_SIZE: libc::size_t = 4;
    let mut buf: [libc::c_char; BUF_SIZE] = [0; BUF_SIZE];
    let result = write_cstr("overflow".to_string(), &mut buf, BUF_SIZE);

    assert_eq!(result, None);
    assert_eq!(buf, [0; BUF_SIZE]);
}

#[test]
fn write_overwrite() {
    const BUF_SIZE: libc::size_t = 4;
    let mut buf = (b"zzz\0").map(|c| c as i8);
    let result = write_cstr("a".to_string(), &mut buf, BUF_SIZE);

    assert_eq!(result, Some(1));
    assert_eq!(buf, (b"a\0z\0").map(|c| c as i8));
}

#[test]
fn write_exactly_fills_declared_capacity() {
    let mut buf = (b"zzzzzzzz").map(|c| c as i8);
    let result = write_cstr("foobar".to_string(), &mut buf, 7);

    assert_eq!(result, Some(6));
    assert_eq!(buf, (b"foobar\0z").map(|c| c as i8));
}

#[test]
fn write_one_byte_too_long_leaves_buffer() {
    let mut buf = (b"zzzzzzzz").map(|c| c as i8);
    let result = write_cstr("foobar".to_string(), &mut buf, 6);

    assert_eq!(result, None);
    assert_eq!(buf, (b"zzzzzzzz").map(|c| c as i8));
}

#[test]
fn write_counts_bytes_not_characters() {
    let mut buf: [libc::c_char; 4] = [7; 4];
    assert_eq!(write_cstr("äö".to_string(), &mut buf, 4), None);
    assert_eq!(buf, [7; 4]);

    let mut buf: [libc::c_char; 5] = [7; 5];
    assert_eq!(write_cstr("äö".to_string(), &mut buf, 5), Some(4));
    let expected: [u8; 5] = [0xc3, 0xa4, 0xc3, 0xb6, 0];
    assert_eq!(buf, expected.map(|c| c as i8));
}
