use tfmt::{uformat, uwrite, uwriteln, uWrite, Argument};

fn text(template: &str, args: &[Argument]) -> String {
    uformat(template, args).unwrap()
}

#[test]
fn diverse_aligned() {
    assert_eq!(text("{:10}", &[Argument::Bool(true)]), format!("{:10}", true));
    assert_eq!(text("{:<20}", &[Argument::Bool(true)]), format!("{:<20}", true));
    assert_eq!(text("{:>20}", &[Argument::Bool(true)]), format!("{:>20}", true));
    assert_eq!(text("{:>20}", &[Argument::Bool(false)]), format!("{:>20}", false));
    assert_eq!(text("{:0>20}", &[Argument::Bool(false)]), format!("{:0>20}", false));

    assert_eq!(text("{:10}", &[Argument::Char('c')]), format!("{:10}", 'c'));
    assert_eq!(text("{:<20}", &[Argument::Char('c')]), format!("{:<20}", 'c'));
    assert_eq!(text("{:>20}", &[Argument::Char('c')]), format!("{:>20}", 'c'));
    assert_eq!(text("{:0>20}", &[Argument::Char('c')]), format!("{:0>20}", 'c'));

    assert_eq!(text("{:10}", &[Argument::Str("hello")]), format!("{:10}", "hello"));
    assert_eq!(text("{:<20}", &[Argument::Str("hello")]), format!("{:<20}", "hello"));
    assert_eq!(text("{:>20}", &[Argument::Str("hello")]), format!("{:>20}", "hello"));
    assert_eq!(text("{:0>20}", &[Argument::Str("hello")]), format!("{:0>20}", "hello"));
}

#[test]
fn diverse_fmt() {
    assert_eq!(text("Hello, world!", &[]), format!("Hello, world!"));
    assert_eq!(
        text("The answer is {}", &[Argument::I32(42)]),
        format!("The answer is {}", 42)
    );
}

#[test]
fn diverse_uwriteln() {
    let mut s = String::new();
    uwriteln(&mut s, "Hello", &[]).unwrap();
    uwriteln(&mut s, "World", &[]).unwrap();
    assert_eq!(s, "Hello\nWorld\n");
}

// a writer of a dynamically sized type
struct Cursor<B>
where
    B: ?Sized,
{
    pos: usize,
    buffer: B,
}

impl<B> Cursor<B> {
    fn new(buffer: B) -> Self {
        Cursor { pos: 0, buffer }
    }
}

impl uWrite for Cursor<[u8]> {
    type Error = core::convert::Infallible;

    fn write_str(&mut self, s: &str) -> Result<(), core::convert::Infallible> {
        let bytes = s.as_bytes();
        let len = bytes.len();
        let start = self.pos;
        if let Some(buffer) = self.buffer.get_mut(start..start + len) {
            buffer.copy_from_slice(bytes);
            self.pos += len;
        }

        Ok(())
    }
}

#[test]
fn dst() {
    let mut cursor = Cursor::new([0; 256]);
    let cursor: &mut Cursor<[u8]> = &mut cursor;

    uwrite(cursor, "The answer is {}", &[Argument::I32(42)]).ok();

    let msg = b"The answer is 42";
    assert_eq!(&cursor.buffer[..msg.len()], msg);
}
