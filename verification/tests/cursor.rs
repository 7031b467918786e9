use minicbor::{Error, Parser};

#[test]
fn take_hands_out_the_front() {
    let input = [1, 2, 3];
    let mut parser = Parser::from_slice(&input);
    assert_eq!(parser.take(2).unwrap(), &[1, 2]);
    assert!(parser.take(2).is_err());
    assert_eq!(parser.take(0).unwrap(), &[] as &[u8]);
    assert_eq!(parser.take(1).unwrap(), &[3]);
    assert_eq!(parser.take(0).unwrap(), &[] as &[u8]);
    assert!(parser.take(1).is_err());
}

#[test]
fn take_more_than_any_buffer_holds() {
    let input = [1, 2, 3];
    let mut parser = Parser::from_slice(&input);
    assert!(parser.take(u64::MAX).is_err());
    assert!(parser.take(4).is_err());
    assert_eq!(parser.take(3).unwrap(), &[1, 2, 3]);
}

#[test]
fn take_text_checks_utf8() {
    let input = [0x68, 0x69, 0xc3, 0xa9, 0xff, 0x21];
    let mut parser = Parser::from_slice(&input);
    assert_eq!(parser.take_text(2).unwrap(), "hi");
    assert_eq!(parser.take_text(2).unwrap(), "\u{e9}");
    assert!(parser.take_text(1).is_err());
    assert_eq!(parser.take_text(1).unwrap(), "!");
    assert_eq!(parser.take_text(0).unwrap(), "");
}

#[test]
fn take_text_cut_short_leaves_the_cursor() {
    let input = [0x68, 0x69];
    let mut parser = Parser::from_slice(&input);
    assert!(parser.take_text(3).is_err());
    assert_eq!(parser.take_text(2).unwrap(), "hi");
}

#[test]
fn take_text_splits_no_character() {
    let input = [0xc3, 0xa9];
    let mut parser = Parser::from_slice(&input);
    assert!(parser.take_text(1).is_err());
    assert!(parser.take_text(1).is_err());
    assert!(parser.take_text(1).is_err());
}

#[test]
fn take_u8_reads_one_byte() {
    let input = [0xab, 0xcd];
    let mut parser = Parser::from_slice(&input);
    assert_eq!(parser.take_u8().unwrap(), 0xab);
    assert_eq!(parser.take_u8().unwrap(), 0xcd);
    assert!(parser.take_u8().is_err());
}

#[test]
fn take_u16_is_big_endian() {
    let input = [0x01, 0x00, 0xab, 0xcd, 0x01];
    let mut parser = Parser::from_slice(&input);
    assert_eq!(parser.take_u16().unwrap(), 256);
    assert_eq!(parser.take_u16().unwrap(), 0xabcd);
    assert!(parser.take_u16().is_err());
    assert_eq!(parser.take_u8().unwrap(), 1);
}

#[test]
fn take_u32_is_big_endian() {
    let input = [0x01, 0x02, 0x03, 0x04, 0xff, 0xff, 0xff, 0xff, 0x00, 0x00, 0x00];
    let mut parser = Parser::from_slice(&input);
    assert_eq!(parser.take_u32().unwrap(), 0x0102_0304);
    assert_eq!(parser.take_u32().unwrap(), u32::MAX);
    assert!(parser.take_u32().is_err());
    assert_eq!(parser.take(3).unwrap(), &[0, 0, 0]);
}

#[test]
fn take_u64_is_big_endian() {
    let input = [
        0x01, 0x02, 0x03, 0x04, 0x05, 0x06, 0x07, 0x08, 0x80, 0, 0, 0, 0, 0, 0, 0, 1, 2, 3, 4, 5,
        6, 7,
    ];
    let mut parser = Parser::from_slice(&input);
    assert_eq!(parser.take_u64().unwrap(), 0x0102_0304_0506_0708);
    assert_eq!(parser.take_u64().unwrap(), 1 << 63);
    assert!(parser.take_u64().is_err());
    assert_eq!(parser.take(7).unwrap(), &[1, 2, 3, 4, 5, 6, 7]);
}

#[test]
fn error_from_utf8_error() {
    let invalid = [0xffu8];
    let cause = std::str::from_utf8(&invalid).unwrap_err();
    let error = Error::from(cause);
    assert_eq!(format!("{:?}", error), "Error");
    let copy = error;
    assert_eq!(format!("{:?}", copy.clone()), format!("{:?}", error));
}
