use tfmt::{debug_string, uformat, uwriteln, Argument};

fn text(template: &str, args: &[Argument]) -> String {
    uformat(template, args).unwrap()
}

#[test]
fn core_aligned() {
    assert_eq!(text("{:10}", &[Argument::Bool(true)]), format!("{:10}", true));
    assert_eq!(text("{:<20}", &[Argument::Bool(true)]), format!("{:<20}", true));
    assert_eq!(text("{:>20}", &[Argument::Bool(true)]), format!("{:>20}", true));
    assert_eq!(text("{:>20}", &[Argument::Bool(false)]), format!("{:>20}", false));
    assert_eq!(text("{:>20}", &[Argument::Bool(false)]), format!("{:>20}", false));

    assert_eq!(text("{:10}", &[Argument::Char('c')]), format!("{:10}", 'c'));
    assert_eq!(text("{:<20}", &[Argument::Char('c')]), format!("{:<20}", 'c'));
    assert_eq!(text("{:>20}", &[Argument::Char('c')]), format!("{:>20}", 'c'));
    assert_eq!(text("{:>20}", &[Argument::Char('c')]), format!("{:>20}", 'c'));

    assert_eq!(text("{:10}", &[Argument::Str("hello")]), format!("{:10}", "hello"));
    assert_eq!(text("{:<20}", &[Argument::Str("hello")]), format!("{:<20}", "hello"));
    assert_eq!(text("{:>20}", &[Argument::Str("hello")]), format!("{:>20}", "hello"));
    assert_eq!(text("{:>20}", &[Argument::Str("hello")]), format!("{:>20}", "hello"));
}

#[test]
fn core_fmt() {
    assert_eq!(text("Hello, world!", &[]), format!("Hello, world!"));
    assert_eq!(
        text("The answer is {}", &[Argument::I32(42)]),
        format!("The answer is {}", 42)
    );
}

#[test]
fn core_uwriteln() {
    let mut s = String::new();
    uwriteln(&mut s, "Hello", &[]).unwrap();
    uwriteln(&mut s, "World", &[]).unwrap();
    assert_eq!(s, "Hello\nWorld\n");
}

#[test]
fn option() {
    assert_eq!(debug_string(&None::<i32>, false), format!("{:?}", None::<i32>));
    assert_eq!(debug_string(&None::<i32>, true), format!("{:#?}", None::<i32>));

    assert_eq!(debug_string(&Some(0), false), format!("{:?}", Some(0)));
    assert_eq!(debug_string(&Some(0), true), format!("{:#?}", Some(0)));
}

#[test]
fn result() {
    assert_eq!(
        debug_string(&Ok::<_, ()>(1), false),
        format!("{:?}", Ok::<_, ()>(1))
    );
    assert_eq!(
        debug_string(&Ok::<_, ()>(1), true),
        format!("{:#?}", Ok::<_, ()>(1))
    );

    assert_eq!(
        debug_string(&Err::<(), _>(2), false),
        format!("{:?}", Err::<(), _>(2))
    );
    assert_eq!(
        debug_string(&Err::<(), _>(2), true),
        format!("{:#?}", Err::<(), _>(2))
    );
}
