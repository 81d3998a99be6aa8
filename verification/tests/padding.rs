use tfmt::{Formatter, Padding};

fn pad(s: &str, fill: char, padding: Padding) -> String {
    let mut out = String::new();
    let mut f = Formatter::new(&mut out);
    f.write_padded(s, fill, padding).unwrap();
    out
}

#[test]
fn center_puts_odd_fill_behind() {
    assert_eq!(pad("abcd", '*', Padding::CenterAligned(7)), "*abcd**");
    assert_eq!(pad("abcd", '*', Padding::CenterAligned(8)), "**abcd**");
}

#[test]
fn zero_width_never_pads() {
    assert_eq!(pad("hi", ' ', Padding::Usual(0)), "hi");
    assert_eq!(pad("hi", ' ', Padding::LeftAligned(0)), "hi");
    assert_eq!(pad("hi", ' ', Padding::RightAligned(0)), "hi");
    assert_eq!(pad("hi", ' ', Padding::CenterAligned(0)), "hi");
}
