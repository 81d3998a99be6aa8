use tfmt::parser::{parse, Alignment, ParseError, Piece};

#[test]
fn pieces() {
    // string interpolation
    assert_eq!(
        parse("The answer is {}").ok(),
        Some(vec![
            Piece::Str(String::from("The answer is ")),
            Piece::Display
        ]),
    );

    assert_eq!(
        parse("{:.0}").ok(),
        Some(vec![Piece::Float {
            pad_length: 0,
            pad_char: ' ',
            alignment: Alignment::Usual,
            behind: 0
        }]),
    );

    assert_eq!(
        parse("{:.6}").ok(),
        Some(vec![Piece::Float {
            pad_length: 0,
            pad_char: ' ',
            alignment: Alignment::Usual,
            behind: 6
        }]),
    );

    assert_eq!(
        parse("{:17.6}").ok(),
        Some(vec![Piece::Float {
            pad_length: 17,
            pad_char: ' ',
            alignment: Alignment::Usual,
            behind: 6
        }]),
    );

    assert_eq!(
        parse("{:<17.6}").ok(),
        Some(vec![Piece::Float {
            pad_length: 17,
            pad_char: ' ',
            alignment: Alignment::Left,
            behind: 6
        }]),
    );

    assert_eq!(
        parse("{:>17.6}").ok(),
        Some(vec![Piece::Float {
            pad_length: 17,
            pad_char: ' ',
            alignment: Alignment::Right,
            behind: 6
        }]),
    );

    assert_eq!(
        parse("{:^17.6}").ok(),
        Some(vec![Piece::Float {
            pad_length: 17,
            pad_char: ' ',
            alignment: Alignment::Center,
            behind: 6
        }]),
    );

    assert_eq!(
        parse("{:0^17.6}").ok(),
        Some(vec![Piece::Float {
            pad_length: 17,
            pad_char: '0',
            alignment: Alignment::Center,
            behind: 6
        }]),
    );

    assert_eq!(
        parse("{:0^20.2}").ok(),
        Some(vec![Piece::Float {
            pad_length: 20,
            pad_char: '0',
            alignment: Alignment::Center,
            behind: 2
        }]),
    );

    assert_eq!(
        parse("{:<27}").ok(),
        Some(vec![Piece::Padded {
            pad_length: 27,
            pad_char: ' ',
            alignment: Alignment::Left,
        }]),
    );

    assert_eq!(
        parse("{:>27}").ok(),
        Some(vec![Piece::Padded {
            pad_length: 27,
            pad_char: ' ',
            alignment: Alignment::Right,
        }]),
    );

    assert_eq!(
        parse("{:^27}").ok(),
        Some(vec![Piece::Padded {
            pad_length: 27,
            pad_char: ' ',
            alignment: Alignment::Center,
        }]),
    );

    assert_eq!(
        parse("{:27}").ok(),
        Some(vec![Piece::Padded {
            pad_length: 27,
            pad_char: ' ',
            alignment: Alignment::Usual,
        }]),
    );

    assert_eq!(
        parse("{:0<27}").ok(),
        Some(vec![Piece::Padded {
            pad_length: 27,
            pad_char: '0',
            alignment: Alignment::Left,
        }]),
    );

    assert_eq!(
        parse("{:x}").ok(),
        Some(vec![Piece::Hex {
            prefix: false,
            cmd: 'x',
            pad_length: 0,
            pad_char: ' ',
            alignment: Alignment::Usual,
        }]),
    );

    assert_eq!(
        parse("{:17X}").ok(),
        Some(vec![Piece::Hex {
            prefix: false,
            cmd: 'X',
            pad_length: 17,
            pad_char: ' ',
            alignment: Alignment::Usual,
        }]),
    );

    assert_eq!(
        parse("{:<17X}").ok(),
        Some(vec![Piece::Hex {
            prefix: false,
            cmd: 'X',
            pad_length: 17,
            pad_char: ' ',
            alignment: Alignment::Left,
        }]),
    );

    assert_eq!(
        parse("{:>17X}").ok(),
        Some(vec![Piece::Hex {
            prefix: false,
            cmd: 'X',
            pad_length: 17,
            pad_char: ' ',
            alignment: Alignment::Right,
        }]),
    );

    assert_eq!(
        parse("{:^17X}").ok(),
        Some(vec![Piece::Hex {
            prefix: false,
            cmd: 'X',
            pad_length: 17,
            pad_char: ' ',
            alignment: Alignment::Center,
        }]),
    );

    assert_eq!(
        parse("{:0^17X}").ok(),
        Some(vec![Piece::Hex {
            prefix: false,
            cmd: 'X',
            pad_length: 17,
            pad_char: '0',
            alignment: Alignment::Center,
        }]),
    );

    assert_eq!(
        parse("{:0^#17X}").ok(),
        Some(vec![Piece::Hex {
            prefix: true,
            cmd: 'X',
            pad_length: 17,
            pad_char: '0',
            alignment: Alignment::Center,
        }]),
    );

    // escaped braces
    assert_eq!(
        parse("{{}} is not an argument").ok(),
        Some(vec![Piece::Str(String::from("{} is not an argument"))]),
    );

    // left brace & junk
    assert!(parse("{").is_err());
    assert!(parse(" {").is_err());
    assert!(parse("{ ").is_err());
    assert!(parse("{ {").is_err());
}

#[test]
fn unescape() {
    // no right brace
    assert_eq!(tfmt::parser::unescape("").ok(), Some(String::from("")));
    assert_eq!(
        tfmt::parser::unescape("Hello").ok(),
        Some(String::from("Hello"))
    );

    // unmatched right brace
    assert!(tfmt::parser::unescape(" }").is_err());
    assert!(tfmt::parser::unescape("} ").is_err());
    assert!(tfmt::parser::unescape("}").is_err());

    // escaped right brace
    assert_eq!(tfmt::parser::unescape("}}").ok(), Some(String::from("}")));
    assert_eq!(tfmt::parser::unescape("}} ").ok(), Some(String::from("} ")));
}

#[test]
fn errors_name_what_is_wrong() {
    assert_eq!(parse("a } b").err(), Some(ParseError::UnmatchedRightBrace));
    assert_eq!(parse("{"), Err(ParseError::InvalidFormat));
    assert_eq!(parse("{:.7}"), Err(ParseError::InvalidFormat));
    assert_eq!(parse("{:#.2}"), Err(ParseError::InvalidFormat));
    assert_eq!(parse("{:x2}"), Err(ParseError::InvalidFormat));
    assert_eq!(parse("{:#5}"), Err(ParseError::InvalidFormat));
    assert_eq!(parse("{:5"), Err(ParseError::InvalidFormat));
    // the brace is looked at before the text in front of it
    assert_eq!(parse("}{"), Err(ParseError::InvalidFormat));
    assert_eq!(parse("}{}"), Err(ParseError::UnmatchedRightBrace));
    // a width that no machine word holds
    assert_eq!(
        parse("{:99999999999999999999999999999999999999999}"),
        Err(ParseError::InvalidFormat)
    );
}

#[test]
fn literal_text_is_one_piece_between_directives() {
    assert_eq!(
        parse("a{{b}}c{}d{{"),
        Ok(vec![
            Piece::Str(String::from("a{b}c")),
            Piece::Display,
            Piece::Str(String::from("d{")),
        ])
    );
    assert_eq!(parse(""), Ok(vec![]));
    assert_eq!(parse("{}{}"), Ok(vec![Piece::Display, Piece::Display]));
}

#[test]
fn directives_with_a_letter_of_their_own() {
    assert_eq!(
        parse("{:013N6}"),
        Ok(vec![Piece::Formatted {
            prefix: false,
            cmd: 'N',
            pad_length: 13,
            pad_char: '0',
            alignment: Alignment::Usual,
            behind: 6,
        }])
    );
    assert_eq!(
        parse("{:#o}"),
        Ok(vec![Piece::Formatted {
            prefix: true,
            cmd: 'o',
            pad_length: 0,
            pad_char: ' ',
            alignment: Alignment::Usual,
            behind: 0,
        }])
    );
}

#[test]
fn zero_fill_may_follow_the_prefix() {
    let piece = Piece::Hex {
        prefix: true,
        cmd: 'x',
        pad_length: 9,
        pad_char: '0',
        alignment: Alignment::Usual,
    };
    assert_eq!(parse("{:#09x}"), Ok(vec![piece]));
    assert_eq!(
        parse("{:0#9x}"),
        Ok(vec![Piece::Hex {
            prefix: true,
            cmd: 'x',
            pad_length: 9,
            pad_char: '0',
            alignment: Alignment::Usual,
        }])
    );
    assert_eq!(
        parse("{:#9x}"),
        Ok(vec![Piece::Hex {
            prefix: true,
            cmd: 'x',
            pad_length: 9,
            pad_char: ' ',
            alignment: Alignment::Usual,
        }])
    );
}

#[test]
fn debug_directives() {
    assert_eq!(parse("{:?}"), Ok(vec![Piece::Debug(false)]));
    assert_eq!(parse("{:#?}"), Ok(vec![Piece::Debug(true)]));
    assert!(Piece::Str(String::new()).is_str());
    assert!(!Piece::Display.is_str());
}
