use tfmt::parser::{get_alignment, ident_name, parse, ParseError};
use tfmt::render::{check_args, validate};
use tfmt::{
    uDisplay, uDisplayFloat, uDisplayHex, uDisplayPadded, uWrite, uformat, uwrite, uwriteln,
    Alignment, Argument, ArgumentError, BoundedString, CapacityError, Float32, Float64,
    FormatError, Formatter, Padding,
};

#[test]
fn zero_fill_leaves_room_for_the_prefix() {
    assert_eq!(
        uformat("{:#010x}", &[Argument::I32(0x71)]),
        Ok(String::from("0x00000071"))
    );
    let mut out = String::new();
    let mut f = Formatter::new(&mut out);
    0x71_u32
        .fmt_hex(&mut f, true, 'x', Padding::Usual(10), '0')
        .unwrap();
    assert_eq!(out, "0x00000071");
    assert_eq!(
        uformat("{:010x}", &[Argument::I32(0x71)]),
        Ok(String::from("0000000071"))
    );
    assert_eq!(
        uformat("{:#010X}", &[Argument::U8(0xab)]),
        Ok(String::from("0x000000AB"))
    );
}

fn hex(n: u128, prefix: bool, cmd: char, padding: Padding, pad_char: char) -> String {
    let mut out = String::new();
    let mut f = Formatter::new(&mut out);
    n.fmt_hex(&mut f, prefix, cmd, padding, pad_char).unwrap();
    out
}

#[test]
fn other_bases() {
    assert_eq!(hex(8, false, 'o', Padding::Usual(0), ' '), "10");
    assert_eq!(hex(8, true, 'o', Padding::Usual(0), ' '), "0o10");
    assert_eq!(hex(5, false, 'b', Padding::Usual(0), ' '), "101");
    assert_eq!(hex(5, true, 'b', Padding::Usual(8), '0'), "0b000101");
    assert_eq!(hex(5, true, 'b', Padding::LeftAligned(8), ' '), "0b101   ");
    assert_eq!(hex(255, false, 'X', Padding::CenterAligned(6), '*'), "**FF**");
    // any other letter counts as x
    assert_eq!(hex(255, true, 'q', Padding::Usual(0), ' '), "0xff");
    assert_eq!(hex(0, false, 'x', Padding::Usual(0), ' '), "0");
}

#[test]
fn a_numeral_that_is_too_long_gives_the_overflow_text() {
    assert_eq!(
        hex(u128::MAX, false, 'x', Padding::Usual(0), ' '),
        "ffffffffffffffffffffffffffffffff"
    );
    assert_eq!(hex(u128::MAX, false, 'b', Padding::Usual(0), ' '), " ovfl");
    assert_eq!(hex(u128::MAX, true, 'b', Padding::Usual(0), ' '), "0b ovfl");
    assert_eq!(hex(u128::MAX, false, 'o', Padding::Usual(0), ' '), " ovfl");
    assert_eq!(
        hex(u32::MAX as u128, false, 'b', Padding::Usual(0), ' '),
        "11111111111111111111111111111111"
    );
    assert_eq!(
        hex((u32::MAX as u128) + 1, false, 'b', Padding::Usual(0), ' '),
        " ovfl"
    );
    // zero fill beyond thirty-two digits
    assert_eq!(hex(1, false, 'x', Padding::Usual(32), '0').len(), 32);
    assert_eq!(hex(1, false, 'x', Padding::Usual(33), '0'), " ovfl");
    assert_eq!(hex(1, true, 'x', Padding::Usual(34), '0').len(), 34);
    assert_eq!(hex(1, true, 'x', Padding::Usual(35), '0'), "0x ovfl");
    // without zero fill the overflow text is padded like any text
    assert_eq!(
        hex(u128::MAX, false, 'b', Padding::Usual(8), ' '),
        "    ovfl"
    );
}

#[test]
fn signed_numbers_are_written_by_their_bits() {
    assert_eq!(uformat("{:x}", &[Argument::I8(-1)]), Ok(String::from("ff")));
    assert_eq!(
        uformat("{:x}", &[Argument::I16(i16::MIN)]),
        Ok(String::from("8000"))
    );
    assert_eq!(
        uformat("{:X}", &[Argument::I64(-2)]),
        Ok(String::from("FFFFFFFFFFFFFFFE"))
    );
    assert_eq!(
        uformat("{:x}", &[Argument::I128(-1)]),
        Ok(String::from("ffffffffffffffffffffffffffffffff"))
    );
    assert_eq!(
        uformat("{:x}", &[Argument::Isize(-1)]),
        Ok(format!("{:x}", -1_isize))
    );
}

#[test]
fn values_are_counted_before_anything_is_written() {
    assert_eq!(
        uformat("{} and {}", &[Argument::I32(1)]),
        Err(FormatError::Arguments(ArgumentError::TooFew {
            required: 2,
            supplied: 1
        }))
    );
    assert_eq!(
        uformat("{}", &[Argument::I32(1), Argument::I32(2), Argument::I32(3)]),
        Err(FormatError::Arguments(ArgumentError::Unused { index: 1 }))
    );
    assert_eq!(
        uformat("no directive", &[Argument::I32(1)]),
        Err(FormatError::Arguments(ArgumentError::Unused { index: 0 }))
    );
    let mut out = String::from("before");
    assert_eq!(
        uwrite(&mut out, "text {} {}", &[Argument::I32(1)]),
        Err(FormatError::Arguments(ArgumentError::TooFew {
            required: 2,
            supplied: 1
        }))
    );
    assert_eq!(out, "before");

    let pieces = parse("{}{{}}{:x}").unwrap();
    assert_eq!(check_args(&pieces, 2), Ok(()));
    assert_eq!(
        check_args(&pieces, 0),
        Err(ArgumentError::TooFew {
            required: 2,
            supplied: 0
        })
    );
    assert_eq!(
        check_args(&pieces, 3),
        Err(ArgumentError::Unused { index: 2 })
    );
}

#[test]
fn a_value_has_to_fit_its_directive() {
    assert_eq!(
        uformat("{} {:x}", &[Argument::I32(1), Argument::Bool(true)]),
        Err(FormatError::Arguments(ArgumentError::Unsupported {
            index: 1
        }))
    );
    assert_eq!(
        uformat("{:.2}", &[Argument::I32(1)]),
        Err(FormatError::Arguments(ArgumentError::Unsupported {
            index: 0
        }))
    );
    assert_eq!(
        uformat("{:8}", &[Argument::Single(Float32 { bits: 0 })]),
        Err(FormatError::Arguments(ArgumentError::Unsupported {
            index: 0
        }))
    );
    assert_eq!(
        uformat("{}", &[Argument::Pointer(16)]),
        Err(FormatError::Arguments(ArgumentError::Unsupported {
            index: 0
        }))
    );
    // no value here has a formatter of its own
    assert_eq!(
        uformat("{:N3}", &[Argument::I32(1)]),
        Err(FormatError::Arguments(ArgumentError::Unsupported {
            index: 0
        }))
    );
    let pieces = parse("{:?}{:x}").unwrap();
    assert_eq!(
        validate(&pieces, &[Argument::Bool(true), Argument::Str("a")]),
        Err(ArgumentError::Unsupported { index: 1 })
    );
    assert_eq!(
        validate(&pieces, &[Argument::Bool(true), Argument::U8(1)]),
        Ok(())
    );
}

#[test]
fn faults_in_words() {
    assert_eq!(
        ArgumentError::TooFew {
            required: 2,
            supplied: 1
        }
        .message(),
        "format string requires 2 arguments but 1 was supplied"
    );
    assert_eq!(
        ArgumentError::TooFew {
            required: 12,
            supplied: 0
        }
        .message(),
        "format string requires 12 arguments but 0 were supplied"
    );
    assert_eq!(
        ArgumentError::Unused { index: 3 }.message(),
        "argument never used"
    );
    assert_eq!(
        ArgumentError::Unsupported { index: 3 }.message(),
        "argument does not fit its directive"
    );
    assert_eq!(ParseError::InvalidFormat.message(), "invalid format string");
    assert_eq!(
        ParseError::UnmatchedRightBrace.message(),
        "format string contains an unmatched right brace"
    );
}

#[test]
fn a_template_that_is_not_well_formed_writes_nothing() {
    let mut out = String::from("before");
    assert_eq!(
        uwrite(&mut out, "a {", &[]),
        Err(FormatError::Parse(ParseError::InvalidFormat))
    );
    assert_eq!(
        uwrite(&mut out, "a } b", &[]),
        Err(FormatError::Parse(ParseError::UnmatchedRightBrace))
    );
    // the line feed is the end of the template
    assert_eq!(
        uwriteln(&mut out, "a {", &[]),
        Err(FormatError::Parse(ParseError::InvalidFormat))
    );
    assert_eq!(out, "before");
    assert_eq!(
        uformat("{:.7}", &[Argument::Double(Float64 { bits: 0 })]),
        Err(FormatError::Parse(ParseError::InvalidFormat))
    );
}

#[test]
fn a_refused_write_ends_the_work() {
    let mut sink = BoundedString::new(5);
    assert_eq!(
        uwrite(&mut sink, "{:8}", &[Argument::Str("abc")]),
        Err(FormatError::Sink(CapacityError))
    );
    assert_eq!(sink.as_str(), "abc  ");
    assert_eq!(sink.capacity(), 5);

    // a chunk is taken whole or not at all
    let mut sink = BoundedString::new(5);
    assert_eq!(
        uwrite(&mut sink, "ab{}cd", &[Argument::U32(1234)]),
        Err(FormatError::Sink(CapacityError))
    );
    assert_eq!(sink.as_str(), "ab");

    let mut sink = BoundedString::new(5);
    assert_eq!(uwrite(&mut sink, "{:>5}", &[Argument::U8(7)]), Ok(()));
    assert_eq!(sink.as_str(), "    7");
    assert_eq!(sink.write_str(""), Ok(()));
    assert_eq!(sink.write_str("x"), Err(CapacityError));
    assert_eq!(sink.as_str(), "    7");

    // the limit counts bytes
    let mut sink = BoundedString::new(3);
    assert_eq!(sink.write_str("é"), Ok(()));
    assert_eq!(sink.write_str("é"), Err(CapacityError));
    assert_eq!(sink.write_str("e"), Ok(()));
    assert_eq!(sink.as_str(), "ée");
}

#[test]
fn pieces_are_written_in_order() {
    assert_eq!(
        uformat(
            "a{}b{:>4}c{:.1}d{:#x}e{{}}{:?}",
            &[
                Argument::Bool(false),
                Argument::Char('x'),
                Argument::Double(Float64 {
                    bits: 2.25_f64.to_bits()
                }),
                Argument::U16(255),
                Argument::Pointer(0),
            ]
        ),
        Ok(String::from("afalseb   xc2.3d0xffe{}0x0"))
    );
    let mut out = String::new();
    uwriteln(&mut out, "{}-{}", &[Argument::U8(1), Argument::I8(-1)]).unwrap();
    uwrite(&mut out, "{:^5}|", &[Argument::Str("é")]).unwrap();
    assert_eq!(out, "1--1\n é  |");
}

#[test]
fn floats_without_places_have_three() {
    assert_eq!(
        uformat(
            "{}",
            &[Argument::Single(Float32 {
                bits: 321.123456_f32.to_bits()
            })]
        ),
        Ok(String::from("321.123"))
    );
    assert_eq!(
        uformat(
            "{:?}",
            &[Argument::Double(Float64 {
                bits: (-0.0005_f64).to_bits()
            })]
        ),
        Ok(String::from("-0.001"))
    );
}

#[test]
fn values_write_themselves() {
    let mut out = String::new();
    let mut f = Formatter::new(&mut out);
    true.fmt(&mut f).unwrap();
    'é'.fmt(&mut f).unwrap();
    "str".fmt(&mut f).unwrap();
    String::from("ing").fmt(&mut f).unwrap();
    (&&7_u8).fmt(&mut f).unwrap();
    (-7_i64).fmt(&mut f).unwrap();
    u128::MAX.fmt(&mut f).unwrap();
    i128::MIN.fmt(&mut f).unwrap();
    f.write_char('→').unwrap();
    assert_eq!(
        out,
        format!("trueéstring7-7{}{}→", u128::MAX, i128::MIN)
    );

    let mut out = String::new();
    let mut f = Formatter::new(&mut out);
    true.fmt_padded(&mut f, Padding::Usual(6), '.').unwrap();
    'c'.fmt_padded(&mut f, Padding::Usual(3), '.').unwrap();
    "ab".fmt_padded(&mut f, Padding::CenterAligned(5), '.').unwrap();
    String::from("ab")
        .fmt_padded(&mut f, Padding::RightAligned(3), '.')
        .unwrap();
    7_u8.fmt_padded(&mut f, Padding::Usual(3), '.').unwrap();
    (-7_i8).fmt_padded(&mut f, Padding::LeftAligned(3), '.').unwrap();
    assert_eq!(out, "true..c...ab...ab..7-7.");

    let mut out = String::new();
    let mut f = Formatter::new(&mut out);
    Float32 {
        bits: 1.5_f32.to_bits(),
    }
    .fmt_float(&mut f, Padding::Usual(6), ' ', 2)
    .unwrap();
    Float64 {
        bits: 1.5_f64.to_bits(),
    }
    .fmt_float(&mut f, Padding::LeftAligned(6), '_', 0)
    .unwrap();
    // more places than six leave no text
    Float64 {
        bits: 1.5_f64.to_bits(),
    }
    .fmt_float(&mut f, Padding::LeftAligned(6), '_', 7)
    .unwrap();
    assert_eq!(out, "  1.502_____");
}

#[test]
fn the_width_of_a_field_counts_bytes() {
    let mut out = String::new();
    let mut f = Formatter::new(&mut out);
    f.write_padded("é", '*', Padding::RightAligned(4)).unwrap();
    f.write_padded("é", '→', Padding::LeftAligned(3)).unwrap();
    f.write_padded_char('é', '*', Padding::Usual(3)).unwrap();
    assert_eq!(out, "**éé→*é");
}

#[test]
fn long_text_is_never_cut() {
    for padding in [
        Padding::Usual(3),
        Padding::LeftAligned(3),
        Padding::RightAligned(3),
        Padding::CenterAligned(3),
        Padding::CenterAligned(4),
    ] {
        let mut out = String::new();
        let mut f = Formatter::new(&mut out);
        f.write_padded("abcd", '#', padding).unwrap();
        assert_eq!(out, "abcd");
        assert!(padding.min_width() <= 4);
    }
}

#[test]
fn names_and_paddings() {
    assert_eq!(ident_name(0), "__0");
    assert_eq!(ident_name(17), "__17");
    assert_eq!(get_alignment(Alignment::Left, 3), Padding::LeftAligned(3));
    assert_eq!(get_alignment(Alignment::Right, 3), Padding::RightAligned(3));
    assert_eq!(
        get_alignment(Alignment::Center, 3),
        Padding::CenterAligned(3)
    );
    assert_eq!(get_alignment(Alignment::Usual, 3), Padding::Usual(3));
}

// a value with a formatter of its own: degrees and minutes of a coordinate
struct Coord {
    degrees: u32,
    minutes: Float64,
    positive: bool,
}

impl tfmt::uDisplayFormatted for Coord {
    fn fmt_formatted<W>(
        &self,
        fmt: &mut Formatter<'_, W>,
        _prefix: bool,
        cmd: char,
        padding: Padding,
        pad_char: char,
        decimal_places: usize,
    ) -> Result<(), W::Error>
    where
        W: uWrite + ?Sized,
    {
        let sign = match (cmd, self.positive) {
            ('E', true) => "E",
            ('E', false) => "W",
            (_, true) => "N",
            (_, false) => "S",
        };
        let len = if decimal_places > 0 {
            decimal_places + 3
        } else {
            decimal_places + 2
        };
        let mut conv = tfmt::Convert::<9>::new(b'0').unwrap();
        conv.f64_pad(self.minutes, len, decimal_places).unwrap();
        let s = uformat(
            "{}{},{}",
            &[
                Argument::U32(self.degrees),
                Argument::Str(conv.as_str()),
                Argument::Str(sign),
            ],
        )
        .unwrap();
        fmt.write_padded(s.as_str(), pad_char, padding)
    }
}

impl uDisplay for Coord {
    fn fmt<W>(&self, f: &mut Formatter<'_, W>) -> Result<(), W::Error>
    where
        W: uWrite + ?Sized,
    {
        tfmt::uDisplayFormatted::fmt_formatted(self, f, false, 'N', Padding::Usual(0), ' ', 0)
    }
}

#[test]
fn a_value_with_a_formatter_of_its_own() {
    let lat = Coord {
        degrees: 52,
        minutes: Float64 {
            bits: 36.02898_f64.to_bits(),
        },
        positive: true,
    };
    let lon = Coord {
        degrees: 13,
        minutes: Float64 {
            bits: 21.139343_f64.to_bits(),
        },
        positive: true,
    };
    let mut out = String::new();
    let mut f = Formatter::new(&mut out);
    tfmt::uDisplayFormatted::fmt_formatted(&lat, &mut f, false, 'N', Padding::Usual(0), ' ', 0)
        .unwrap();
    f.write_char(',').unwrap();
    tfmt::uDisplayFormatted::fmt_formatted(&lon, &mut f, false, 'E', Padding::Usual(0), ' ', 0)
        .unwrap();
    assert_eq!(out, "5236,N,1321,E");

    let mut out = String::new();
    let mut f = Formatter::new(&mut out);
    tfmt::uDisplayFormatted::fmt_formatted(&lat, &mut f, false, 'N', Padding::Usual(0), ' ', 3)
        .unwrap();
    f.write_char(',').unwrap();
    tfmt::uDisplayFormatted::fmt_formatted(&lon, &mut f, false, 'E', Padding::Usual(0), ' ', 3)
        .unwrap();
    assert_eq!(out, "5236.029,N,1321.139,E");

    let mut out = String::new();
    let mut f = Formatter::new(&mut out);
    tfmt::uDisplayFormatted::fmt_formatted(&lat, &mut f, false, 'N', Padding::Usual(13), '0', 6)
        .unwrap();
    f.write_char(',').unwrap();
    tfmt::uDisplayFormatted::fmt_formatted(&lon, &mut f, false, 'E', Padding::Usual(14), '0', 6)
        .unwrap();
    lat.fmt(&mut f).unwrap();
    assert_eq!(out, "5236.028980,N,01321.139343,E5236,N");
}

#[test]
fn a_formatter_is_a_sink_too() {
    let mut out = String::new();
    let mut f = Formatter::new(&mut out);
    uwrite(&mut f, "{}+{}", &[Argument::U8(1), Argument::U8(2)]).unwrap();
    f.write_str("=3").unwrap();
    uWrite::write_str(&mut f, "!").unwrap();
    assert_eq!(out, "1+2=3!");
}

#[test]
fn plain_values_have_their_plain_form_as_debug_form() {
    assert_eq!(tfmt::debug_string(&true, false), "true");
    assert_eq!(tfmt::debug_string(&'c', true), "c");
    assert_eq!(tfmt::debug_string("text", false), "text");
    assert_eq!(tfmt::debug_string(&String::from("text"), false), "text");
    assert_eq!(tfmt::debug_string(&u64::MAX, false), format!("{:?}", u64::MAX));
    assert_eq!(tfmt::debug_string(&i64::MIN, true), format!("{:?}", i64::MIN));
    assert_eq!(
        tfmt::debug_string(
            &Float32 {
                bits: 1.5_f32.to_bits()
            },
            false
        ),
        "1.500"
    );
    assert_eq!(
        uformat("{:#?} {:?}", &[Argument::I8(-3), Argument::Bool(false)]),
        Ok(String::from("-3 false"))
    );
}
