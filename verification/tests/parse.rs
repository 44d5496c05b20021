use ipwned::parse::{hex_digit, is_hex, line_ending, parse_file, parse_hash, parse_line, reconstruct_hash, skip_digits};

#[test]
fn first_line_of_shard_zero() {
    let body = b"003D68EB55068C33ACE09247EE4C639306B:1\r\n";
    let (rest, hashes) = parse_file(0, body).unwrap();
    assert_eq!(rest, b"\r\n");
    assert_eq!(hashes.len(), 1);
    assert_eq!(
        hashes[0],
        vec![
            0x00, 0x00, 0x00, 0x03, 0xD6, 0x8E, 0xB5, 0x50, 0x68, 0xC3, 0x3A, 0xCE, 0x09, 0x24,
            0x7E, 0xE4, 0xC6, 0x39, 0x30, 0x6B
        ]
    );
}

#[test]
fn shared_byte_holds_both_nibbles() {
    let body = b"1E4C9EC71E48189E02F1E4D49EE7F7A1234:12";
    let (rest, hashes) = parse_file(0x0ABCD, body).unwrap();
    assert!(rest.is_empty());
    assert_eq!(&hashes[0][..3], &[0x0A, 0xBC, 0xD1]);
    assert_eq!(hashes[0].len(), 20);
    assert_eq!(&hashes[0][3..5], &[0xE4, 0xC9]);
}

#[test]
fn lower_case_digits_are_read() {
    let upper = reconstruct_hash(0xFFFFF, b"ABCDEFABCDEFABCDEFABCDEFABCDEFABCDE");
    let lower = reconstruct_hash(0xFFFFF, b"abcdefabcdefabcdefabcdefabcdefabcde");
    assert_eq!(upper, lower);
    assert_eq!(upper[0], 0xFF);
    assert_eq!(upper[1], 0xFF);
    assert_eq!(upper[2], 0xFA);
    assert_eq!(upper[19], 0xDE);
}

#[test]
fn several_lines_with_both_line_endings() {
    let body = b"0000000000000000000000000000000000A:3\n0000000000000000000000000000000000B:40\r\n0000000000000000000000000000000000C:5\n";
    let (rest, hashes) = parse_file(1, body).unwrap();
    assert_eq!(rest, b"\n");
    assert_eq!(hashes.len(), 3);
    assert_eq!(hashes[0][19], 0x0A);
    assert_eq!(hashes[1][19], 0x0B);
    assert_eq!(hashes[2][19], 0x0C);
    assert_eq!(hashes[2][2], 0x10);
}

#[test]
fn reading_stops_before_a_broken_line() {
    let body = b"0000000000000000000000000000000000A:3\nnot a line\n";
    let (rest, hashes) = parse_file(1, body).unwrap();
    assert_eq!(hashes.len(), 1);
    assert_eq!(rest, b"\nnot a line\n");
}

#[test]
fn body_without_a_line_is_an_error() {
    assert!(parse_file(0, b"").is_err());
    assert!(parse_file(0, b"\r\n").is_err());
    assert!(parse_file(0, b"0000000000000000000000000000000000A:").is_err());
    assert!(parse_file(0, b"0000000000000000000000000000000000G:1").is_err());
    assert!(parse_file(0, b"000000000000000000000000000000000A:1").is_err());
}

#[test]
fn line_pieces() {
    let s = b"0000000000000000000000000000000000A:123\r\nx";
    assert!(parse_hash(s, 0));
    assert!(!parse_hash(s, 1));
    assert_eq!(parse_line(s, 0), Some(39));
    assert_eq!(parse_line(s, 2), None);
    assert_eq!(skip_digits(s, 36), 39);
    assert_eq!(skip_digits(s, 39), 39);
    assert_eq!(line_ending(s, 39), 2);
    assert_eq!(line_ending(s, 40), 1);
    assert_eq!(line_ending(s, 41), 0);
    assert_eq!(line_ending(s, 42), 0);
    assert!(is_hex(b'f') && is_hex(b'F') && is_hex(b'0') && !is_hex(b'g') && !is_hex(b':'));
    assert_eq!(hex_digit(b'a'), 10);
    assert_eq!(hex_digit(b'F'), 15);
    assert_eq!(hex_digit(b'7'), 7);
}
