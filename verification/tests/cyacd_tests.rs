use cybootload::{from_ascii, parse_header, parse_row, ChecksumType, Error, HostError};

#[test]
fn hex_decoding_pairs() {
    assert_eq!(from_ascii("01ab"), vec![0x01, 0xAB]);
    assert_eq!(from_ascii("01AB"), vec![0x01, 0xAB]);
    assert_eq!(from_ascii(""), Vec::<u8>::new());
}

#[test]
fn hex_decoding_trailing_fragment() {
    // a lone trailing hex digit is its own value
    assert_eq!(from_ascii("ABC"), vec![0xAB, 0x0C]);
    // fragments that are not hex digits are dropped
    assert_eq!(from_ascii("zz01"), vec![0x01]);
    assert_eq!(from_ascii("01\n"), vec![0x01]);
}

#[test]
fn header_parse_example() {
    let header = parse_header("01020304AB00").unwrap();
    assert_eq!(header.silicon_id, 0x01020304);
    assert_eq!(header.silicon_rev, 0xAB);
    assert_eq!(header.checksum_type, ChecksumType::Sum);
}

#[test]
fn header_parse_with_line_terminator() {
    let header = parse_header("01020304AB00\n").unwrap();
    assert_eq!(header.silicon_id, 0x01020304);
    assert_eq!(header.checksum_type, ChecksumType::Sum);
}

#[test]
fn header_parse_crc_type() {
    let header = parse_header("01020304AB01").unwrap();
    assert_eq!(header.checksum_type, ChecksumType::Crc);
}

#[test]
fn header_parse_unknown_checksum_type() {
    let r = parse_header("01020304AB02");
    assert_eq!(r.unwrap_err(), Error::Host(HostError::Checksum));
}

#[test]
fn header_parse_wrong_length() {
    assert_eq!(parse_header("0102").unwrap_err(), Error::Host(HostError::Length));
    assert_eq!(parse_header("").unwrap_err(), Error::Host(HostError::Length));
    assert_eq!(
        parse_header("01020304AB0011").unwrap_err(),
        Error::Host(HostError::Length)
    );
}

#[test]
fn row_parse_example() {
    let row = parse_row(":0100050002AABBCC").unwrap();
    assert_eq!(row.array_id, 0x01);
    assert_eq!(row.row_num, 0x0005);
    assert_eq!(row.size, 0x0002);
    assert_eq!(row.data, vec![0xAA, 0xBB]);
    assert_eq!(row.checksum, 0xCC);
}

#[test]
fn row_parse_inconsistent_declared_size() {
    // declares 3 data bytes but carries only 2
    let r = parse_row(":0100050003AABBCC");
    assert_eq!(r.unwrap_err(), Error::Host(HostError::Length));
}

#[test]
fn row_parse_empty_line_is_eof() {
    assert_eq!(parse_row("").unwrap_err(), Error::Host(HostError::Eof));
}

#[test]
fn row_parse_missing_colon() {
    let r = parse_row("0100050002AABBCC");
    assert_eq!(r.unwrap_err(), Error::Host(HostError::Command));
}

#[test]
fn row_parse_too_short() {
    // six decoded bytes are not enough for any data byte
    let r = parse_row(":010005000200");
    assert_eq!(r.unwrap_err(), Error::Host(HostError::Length));
}
