use minicbor::{Encoding, Parser, Result, Token};

#[test]
fn test_parse() {
    let parser = Parser::from_slice(b"\x83\x01\x02\x03");
    let output: Result<Vec<Token>> = parser.collect();
    let tokens = output.expect("valid");
    assert_eq!(
        tokens,
        vec![
            Token::StartArray(Some((3, Encoding::SameByte))),
            Token::Unsigned(1, Encoding::SameByte),
            Token::Unsigned(2, Encoding::SameByte),
            Token::Unsigned(3, Encoding::SameByte)
        ]
    );
}
