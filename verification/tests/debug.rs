use tfmt::{debug_string, BoundedString, Formatter, uDebug};

#[test]
fn tuples() {
    assert_eq!(debug_string(&(), false), format!("{:?}", ()));
    assert_eq!(debug_string(&(1,), false), format!("{:?}", (1,)));
    assert_eq!(debug_string(&(1, 2), false), format!("{:?}", (1, 2)));
    assert_eq!(debug_string(&(1, 2, 3), false), format!("{:?}", (1, 2, 3)));
    assert_eq!(debug_string(&(1, 2, 3, 4), false), format!("{:?}", (1, 2, 3, 4)));
    assert_eq!(debug_string(&(1, 2, 3, 4, 5), false), format!("{:?}", (1, 2, 3, 4, 5)));
    assert_eq!(debug_string(&(1, 2, 3, 4, 5, 6), false), format!("{:?}", (1, 2, 3, 4, 5, 6)));
    assert_eq!(debug_string(&(1, 2, 3, 4, 5, 6, 7), false), format!("{:?}", (1, 2, 3, 4, 5, 6, 7)));
    assert_eq!(debug_string(&(1, 2, 3, 4, 5, 6, 7, 8), false), format!("{:?}", (1, 2, 3, 4, 5, 6, 7, 8)));
    assert_eq!(debug_string(&(1, 2, 3, 4, 5, 6, 7, 8, 9), false), format!("{:?}", (1, 2, 3, 4, 5, 6, 7, 8, 9)));
    assert_eq!(debug_string(&(1, 2, 3, 4, 5, 6, 7, 8, 9, 10), false), format!("{:?}", (1, 2, 3, 4, 5, 6, 7, 8, 9, 10)));
    assert_eq!(debug_string(&(1, 2, 3, 4, 5, 6, 7, 8, 9, 10, 11), false), format!("{:?}", (1, 2, 3, 4, 5, 6, 7, 8, 9, 10, 11)));
    assert_eq!(debug_string(&(1, 2, 3, 4, 5, 6, 7, 8, 9, 10, 11, 12), false), format!("{:?}", (1, 2, 3, 4, 5, 6, 7, 8, 9, 10, 11, 12)));

    assert_eq!(debug_string(&(), true), format!("{:#?}", ()));
    assert_eq!(debug_string(&(1,), true), format!("{:#?}", (1,)));
    assert_eq!(debug_string(&(1, 2), true), format!("{:#?}", (1, 2)));
}

#[test]
fn slice() {
    assert_eq!(debug_string(&[0; 0], false), format!("{:?}", [0; 0]));
    assert_eq!(debug_string(&[0], false), format!("{:?}", [0]));
    assert_eq!(debug_string(&[0, 1], false), format!("{:?}", [0, 1]));

    assert_eq!(debug_string(&[0; 0], true), format!("{:#?}", [0; 0]));
    assert_eq!(debug_string(&[0], true), format!("{:#?}", [0]));
    assert_eq!(debug_string(&[0, 1], true), format!("{:#?}", [0, 1]));
}

#[test]
fn groups_within_groups() {
    let value = (Some([1_u8, 2]), Ok::<(i8, bool), ()>((-1, true)), vec![(), ()]);
    assert_eq!(debug_string(&value, false), format!("{:?}", value));
    assert_eq!(debug_string(&value, true), format!("{:#?}", value));
    assert_eq!(
        debug_string(&value, true),
        "(\n    Some(\n        [\n            1,\n            2,\n        ],\n    ),\n    Ok(\n        (\n            -1,\n            true,\n        ),\n    ),\n    [\n        (),\n        (),\n    ],\n)"
    );
    let slice: &[Option<u16>] = &[None, Some(7)];
    assert_eq!(debug_string(slice, false), "[None, Some(7)]");
    assert_eq!(debug_string(slice, true), format!("{:#?}", slice));
    let empty: Vec<(u8,)> = Vec::new();
    assert_eq!(debug_string(&empty, true), "[]");
}

#[test]
fn a_debug_form_stops_at_a_refused_write() {
    let mut sink = BoundedString::new(12);
    let mut f = Formatter::new(&mut sink);
    assert!((1_u8, 2_u8).fmt_debug(&mut f, true, 0).is_err());
    assert_eq!(sink.as_str(), "(\n    1,\n");
}

#[test]
fn a_level_is_four_blanks() {
    let mut out = String::new();
    let mut f = Formatter::new(&mut out);
    Some(1).fmt_debug(&mut f, true, 2).unwrap();
    assert_eq!(out, "Some(\n            1,\n        )");
}
