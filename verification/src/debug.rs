//! Debug forms: a value as its parts show it, on one line or, laid out
//! prettily, on a line for each part with four blanks for each level.

use vstd::prelude::*;
use crate::float::{Float32, Float64};
use crate::formatter::Formatter;
use crate::padding::repeat;
use crate::sink::{lemma_wrote_nothing, lemma_wrote_stop, lemma_wrote_then, uWrite, wrote};
use crate::traits::uDisplay;

verus! {

/// A value with a debug form, written for `{:?}` and, prettily, for `{:#?}`.
#[allow(non_camel_case_types)]
pub trait uDebug {
    /// The debug form of the value `depth` levels deep, if the type says
    /// what it is.
    open spec fn debug_text(&self, pretty: bool, depth: usize) -> Option<Seq<char>> {
        None
    }

    /// Writes the debug form of the value through the formatter.
    fn fmt_debug<W>(&self, f: &mut Formatter<'_, W>, pretty: bool, depth: usize) -> (r: Result<
        (),
        W::Error,
    >) where W: uWrite + ?Sized

        ensures
            self.debug_text(pretty, depth) matches Some(text) ==> wrote(
                old(f).sink(),
                final(f).sink(),
                r is Ok,
                text,
            ),
            &*final(final(f).writer) == &*final(old(f).writer),
    ;
}

/// One level deeper.
pub open spec fn deeper(depth: usize) -> usize {
    if depth < usize::MAX {
        (depth + 1) as usize
    } else {
        depth
    }
}

/// One level deeper.
pub fn step_in(depth: usize) -> (d: usize)
    ensures
        d == deeper(depth),
{
    if depth < usize::MAX {
        depth + 1
    } else {
        depth
    }
}

/// The blanks in front of a line `depth` levels deep.
pub open spec fn indent(depth: usize) -> Seq<char> {
    repeat(' ', 4 * (depth as nat))
}

/// What stands between a group's opening bracket and its first part.
pub open spec fn lead_text(pretty: bool) -> Seq<char> {
    if pretty {
        seq!['\n']
    } else {
        Seq::<char>::empty()
    }
}

/// One part of a group that is `depth` levels deep: prettily, on a line of
/// its own with a comma behind it; else with a comma and a blank in front
/// of it unless it is the first.
pub open spec fn part_text(first: bool, value: Seq<char>, pretty: bool, depth: usize) -> Seq<char> {
    if pretty {
        indent(deeper(depth)) + value + seq![',', '\n']
    } else if first {
        value
    } else {
        seq![',', ' '] + value
    }
}

/// The first `upto` parts of a group, one after the other.
pub open spec fn parts_text(values: Seq<Seq<char>>, pretty: bool, depth: usize, upto: int) -> Seq<
    char,
>
    decreases upto,
{
    if upto <= 0 {
        Seq::<char>::empty()
    } else {
        parts_text(values, pretty, depth, upto - 1) + part_text(
            upto == 1,
            values[upto - 1],
            pretty,
            depth,
        )
    }
}

/// What stands between a group's last part and its closing bracket:
/// prettily, the blanks of the group's own level; else nothing, but for the
/// comma that marks a tuple of one part.
pub open spec fn tail_text(pretty: bool, depth: usize, lone: bool) -> Seq<char> {
    if pretty {
        indent(depth)
    } else if lone {
        seq![',']
    } else {
        Seq::<char>::empty()
    }
}

/// A group of parts between brackets, with a name in front if it has one. A
/// group without parts is its name, or its two brackets if it has none. A
/// tuple of one part has a comma behind that part.
pub open spec fn group_text(
    name: Seq<char>,
    open: char,
    close: char,
    values: Seq<Seq<char>>,
    pretty: bool,
    depth: usize,
    tuple: bool,
) -> Seq<char> {
    if values.len() == 0 {
        if name.len() == 0 {
            seq![open, close]
        } else {
            name
        }
    } else {
        name + seq![open] + lead_text(pretty) + parts_text(
            values,
            pretty,
            depth,
            values.len() as int,
        ) + tail_text(pretty, depth, tuple && name.len() == 0 && values.len() == 1) + seq![close]
    }
}

/// Writes the blanks in front of a line `depth` levels deep.
pub fn write_indent<W: uWrite + ?Sized>(f: &mut Formatter<'_, W>, depth: usize) -> (r: Result<
    (),
    W::Error,
>)
    ensures
        wrote(old(f).sink(), final(f).sink(), r is Ok, indent(depth)),
        &*final(final(f).writer) == &*final(old(f).writer),
{
    let mut i: usize = 0;
    proof {
        lemma_wrote_nothing(f.sink());
        assert(repeat(' ', 0) =~= Seq::<char>::empty());
        reveal_strlit("    ");
    }
    while i < depth
        invariant
            i <= depth,
            "    "@ == seq![' ', ' ', ' ', ' '],
            wrote(old(f).sink(), f.sink(), true, repeat(' ', 4 * (i as nat))),
            &*final(f.writer) == &*final(old(f).writer),
        decreases depth - i,
    {
        let ghost mid = f.sink();
        let ghost done = repeat(' ', 4 * (i as nat));
        let r = f.write_str("    ");
        proof {
            assert(done + "    "@ =~= repeat(' ', 4 * ((i + 1) as nat)));
            lemma_wrote_then(old(f).sink(), mid, f.sink(), r is Ok, done, "    "@);
        }
        match r {
            Ok(()) => {},
            Err(e) => {
                proof {
                    let rest = repeat(' ', 4 * ((depth - i - 1) as nat));
                    assert(indent(depth) =~= repeat(' ', 4 * ((i + 1) as nat)) + rest);
                    lemma_wrote_stop(
                        old(f).sink(),
                        f.sink(),
                        repeat(' ', 4 * ((i + 1) as nat)),
                        rest,
                    );
                }
                return Err(e);
            },
        }
        i = i + 1;
    }
    Ok(())
}

/// A group as it is being written: its name and brackets, the debug forms
/// of its parts, how it is laid out, and whether all of this is known.
pub struct Group {
    pub name: Seq<char>,
    pub open: char,
    pub close: char,
    pub values: Seq<Seq<char>>,
    pub pretty: bool,
    pub depth: usize,
    pub tuple: bool,
    pub known: bool,
}

impl Group {
    /// The whole text of the group.
    pub open spec fn text(self) -> Seq<char> {
        group_text(
            self.name,
            self.open,
            self.close,
            self.values,
            self.pretty,
            self.depth,
            self.tuple,
        )
    }

    /// The text of the group up to its part `upto`.
    pub open spec fn head(self, upto: int) -> Seq<char> {
        self.name + seq![self.open] + lead_text(self.pretty) + parts_text(
            self.values,
            self.pretty,
            self.depth,
            upto,
        )
    }

    /// The text of the group from its part `from` on.
    pub open spec fn rest(self, from: int) -> Seq<char> {
        self.text().subrange(self.head(from).len() as int, self.text().len() as int)
    }

    /// The text of a group with parts is its head up to any part and the
    /// rest from there.
    pub proof fn lemma_split(self, at: int)
        requires
            0 <= at <= self.values.len(),
            self.values.len() > 0,
        ensures
            self.text() == self.head(at) + self.rest(at),
        decreases self.values.len() - at,
    {
        let end = tail_text(
            self.pretty,
            self.depth,
            self.tuple && self.name.len() == 0 && self.values.len() == 1,
        ) + seq![self.close];
        if at == self.values.len() {
            assert(self.text() =~= self.head(at) + end);
            assert(self.rest(at) =~= end);
        } else {
            self.lemma_split(at + 1);
            let part = part_text(at + 1 == 1, self.values[at], self.pretty, self.depth);
            assert(self.head(at + 1) =~= self.head(at) + part);
            assert(self.text() =~= self.head(at) + (part + self.rest(at + 1)));
            assert(self.rest(at) =~= part + self.rest(at + 1));
        }
    }
}

/// Writes the name of a group, its opening bracket and what follows it.
pub(crate) fn group_begin<W: uWrite + ?Sized>(
    f: &mut Formatter<'_, W>,
    name: &str,
    open: &str,
    pretty: bool,
    Ghost(g): Ghost<Group>,
) -> (r: Result<(), W::Error>)
    requires
        g.name == name@,
        open@ == seq![g.open],
        g.pretty == pretty,
        g.values.len() > 0,
    ensures
        g.known && r is Ok ==> wrote(old(f).sink(), final(f).sink(), true, g.head(0)),
        g.known && r is Err ==> wrote(old(f).sink(), final(f).sink(), false, g.text()),
        &*final(final(f).writer) == &*final(old(f).writer),
{
    let ghost start = f.sink();
    proof {
        g.lemma_split(0);
        reveal_strlit("\n");
        assert("\n"@ =~= seq!['\n']);
        assert(g.head(0) =~= name@ + open@ + lead_text(pretty));
    }
    let r1 = f.write_str(name);
    let ghost s1 = f.sink();
    match r1 {
        Ok(()) => {},
        Err(e) => {
            proof {
                lemma_wrote_stop(start, s1, name@, open@ + lead_text(pretty));
                assert(name@ + (open@ + lead_text(pretty)) =~= g.head(0));
                lemma_wrote_stop(start, s1, g.head(0), g.rest(0));
            }
            return Err(e);
        },
    }
    let r2 = f.write_str(open);
    let ghost s2 = f.sink();
    proof {
        lemma_wrote_then(start, s1, s2, r2 is Ok, name@, open@);
    }
    match r2 {
        Ok(()) => {},
        Err(e) => {
            proof {
                lemma_wrote_stop(start, s2, name@ + open@, lead_text(pretty));
                lemma_wrote_stop(start, s2, g.head(0), g.rest(0));
            }
            return Err(e);
        },
    }
    if pretty {
        let r3 = f.write_str("\n");
        proof {
            lemma_wrote_then(start, s2, f.sink(), r3 is Ok, name@ + open@, "\n"@);
            if r3 is Err {
                lemma_wrote_stop(start, f.sink(), g.head(0), g.rest(0));
            }
        }
        r3
    } else {
        proof {
            assert(name@ + open@ + lead_text(pretty) =~= name@ + open@);
        }
        Ok(())
    }
}

/// Writes the part `index` of a group whose parts before it are written.
pub(crate) fn group_part<W: uWrite + ?Sized, T: uDebug + ?Sized>(
    f: &mut Formatter<'_, W>,
    value: &T,
    index: usize,
    pretty: bool,
    depth: usize,
    Ghost(start): Ghost<&W>,
    Ghost(g): Ghost<Group>,
) -> (r: Result<(), W::Error>)
    requires
        g.pretty == pretty,
        g.depth == depth,
        index < g.values.len(),
        g.known ==> value.debug_text(pretty, deeper(depth)) == Some(g.values[index as int]),
        g.known ==> wrote(start, old(f).sink(), true, g.head(index as int)),
    ensures
        g.known && r is Ok ==> wrote(start, final(f).sink(), true, g.head(index + 1)),
        g.known && r is Err ==> wrote(start, final(f).sink(), false, g.text()),
        &*final(final(f).writer) == &*final(old(f).writer),
{
    let ghost value_text = g.values[index as int];
    let ghost part = part_text(index == 0, value_text, pretty, depth);
    let ghost before = g.head(index as int);
    proof {
        g.lemma_split(index + 1);
        assert(g.head(index + 1) =~= before + part);
        reveal_strlit(", ");
        reveal_strlit(",\n");
        assert(", "@ =~= seq![',', ' ']);
        assert(",\n"@ =~= seq![',', '\n']);
    }
    let ghost front = if pretty {
        indent(deeper(depth))
    } else if index == 0 {
        Seq::<char>::empty()
    } else {
        seq![',', ' ']
    };
    let ghost back = if pretty {
        seq![',', '\n']
    } else {
        Seq::<char>::empty()
    };
    proof {
        assert(part =~= front + value_text + back);
        assert(before + part =~= before + front + value_text + back);
    }
    let ghost s0 = f.sink();
    let r1 = if pretty {
        write_indent(f, step_in(depth))
    } else if index == 0 {
        proof {
            lemma_wrote_nothing(f.sink());
        }
        Ok(())
    } else {
        f.write_str(", ")
    };
    let ghost s1 = f.sink();
    proof {
        if g.known {
            lemma_wrote_then(start, s0, s1, r1 is Ok, before, front);
        }
    }
    match r1 {
        Ok(()) => {},
        Err(e) => {
            proof {
                if g.known {
                    lemma_wrote_stop(start, s1, before + front, value_text + back);
                    assert(before + front + (value_text + back) =~= g.head(index + 1));
                    lemma_wrote_stop(start, s1, g.head(index + 1), g.rest(index + 1));
                }
            }
            return Err(e);
        },
    }
    let r2 = value.fmt_debug(f, pretty, step_in(depth));
    let ghost s2 = f.sink();
    proof {
        if g.known {
            lemma_wrote_then(start, s1, s2, r2 is Ok, before + front, value_text);
        }
    }
    match r2 {
        Ok(()) => {},
        Err(e) => {
            proof {
                if g.known {
                    lemma_wrote_stop(start, s2, before + front + value_text, back);
                    lemma_wrote_stop(start, s2, g.head(index + 1), g.rest(index + 1));
                }
            }
            return Err(e);
        },
    }
    if pretty {
        let r3 = f.write_str(",\n");
        proof {
            if g.known {
                lemma_wrote_then(start, s2, f.sink(), r3 is Ok, before + front + value_text, back);
                if r3 is Err {
                    lemma_wrote_stop(start, f.sink(), g.head(index + 1), g.rest(index + 1));
                }
            }
        }
        r3
    } else {
        proof {
            assert(before + front + value_text + back =~= before + front + value_text);
        }
        Ok(())
    }
}

/// Writes the end of a group whose parts are written.
pub(crate) fn group_end<W: uWrite + ?Sized>(
    f: &mut Formatter<'_, W>,
    close: &str,
    pretty: bool,
    depth: usize,
    lone: bool,
    Ghost(start): Ghost<&W>,
    Ghost(g): Ghost<Group>,
) -> (r: Result<(), W::Error>)
    requires
        g.pretty == pretty,
        g.depth == depth,
        close@ == seq![g.close],
        g.values.len() > 0,
        lone == (g.tuple && g.name.len() == 0 && g.values.len() == 1),
        g.known ==> wrote(start, old(f).sink(), true, g.head(g.values.len() as int)),
    ensures
        g.known ==> wrote(start, final(f).sink(), r is Ok, g.text()),
        &*final(final(f).writer) == &*final(old(f).writer),
{
    let ghost before = g.head(g.values.len() as int);
    let ghost tail = tail_text(pretty, depth, lone);
    proof {
        reveal_strlit(",");
        assert(","@ =~= seq![',']);
        assert(g.text() =~= before + tail + close@);
    }
    let ghost s0 = f.sink();
    let r1 = if pretty {
        write_indent(f, depth)
    } else if lone {
        f.write_str(",")
    } else {
        proof {
            lemma_wrote_nothing(f.sink());
        }
        Ok(())
    };
    let ghost s1 = f.sink();
    proof {
        if g.known {
            lemma_wrote_then(start, s0, s1, r1 is Ok, before, tail);
        }
    }
    match r1 {
        Ok(()) => {},
        Err(e) => {
            proof {
                if g.known {
                    lemma_wrote_stop(start, s1, before + tail, close@);
                }
            }
            return Err(e);
        },
    }
    let r2 = f.write_str(close);
    proof {
        if g.known {
            lemma_wrote_then(start, s1, f.sink(), r2 is Ok, before + tail, close@);
        }
    }
    r2
}

/// The debug form of a part if it is known, else nothing.
pub open spec fn known_text(text: Option<Seq<char>>) -> Seq<char> {
    match text {
        Some(t) => t,
        None => Seq::<char>::empty(),
    }
}

/// The debug form of a `bool` is its plain form.
impl uDebug for bool {
    open spec fn debug_text(&self, pretty: bool, depth: usize) -> Option<Seq<char>> {
        self.text()
    }

    fn fmt_debug<W>(&self, f: &mut Formatter<'_, W>, pretty: bool, depth: usize) -> (r: Result<
        (),
        W::Error,
    >) where W: uWrite + ?Sized {
        self.fmt(f)
    }
}

/// The debug form of a `char` is its plain form.
impl uDebug for char {
    open spec fn debug_text(&self, pretty: bool, depth: usize) -> Option<Seq<char>> {
        self.text()
    }

    fn fmt_debug<W>(&self, f: &mut Formatter<'_, W>, pretty: bool, depth: usize) -> (r: Result<
        (),
        W::Error,
    >) where W: uWrite + ?Sized {
        self.fmt(f)
    }
}

/// The debug form of a `str` is its plain form.
impl uDebug for str {
    open spec fn debug_text(&self, pretty: bool, depth: usize) -> Option<Seq<char>> {
        self.text()
    }

    fn fmt_debug<W>(&self, f: &mut Formatter<'_, W>, pretty: bool, depth: usize) -> (r: Result<
        (),
        W::Error,
    >) where W: uWrite + ?Sized {
        self.fmt(f)
    }
}

/// The debug form of a `String` is its plain form.
impl uDebug for String {
    open spec fn debug_text(&self, pretty: bool, depth: usize) -> Option<Seq<char>> {
        self.text()
    }

    fn fmt_debug<W>(&self, f: &mut Formatter<'_, W>, pretty: bool, depth: usize) -> (r: Result<
        (),
        W::Error,
    >) where W: uWrite + ?Sized {
        self.fmt(f)
    }
}

/// The debug form of a `u8` is its plain form.
impl uDebug for u8 {
    open spec fn debug_text(&self, pretty: bool, depth: usize) -> Option<Seq<char>> {
        self.text()
    }

    fn fmt_debug<W>(&self, f: &mut Formatter<'_, W>, pretty: bool, depth: usize) -> (r: Result<
        (),
        W::Error,
    >) where W: uWrite + ?Sized {
        self.fmt(f)
    }
}

/// The debug form of a `u16` is its plain form.
impl uDebug for u16 {
    open spec fn debug_text(&self, pretty: bool, depth: usize) -> Option<Seq<char>> {
        self.text()
    }

    fn fmt_debug<W>(&self, f: &mut Formatter<'_, W>, pretty: bool, depth: usize) -> (r: Result<
        (),
        W::Error,
    >) where W: uWrite + ?Sized {
        self.fmt(f)
    }
}

/// The debug form of a `u32` is its plain form.
impl uDebug for u32 {
    open spec fn debug_text(&self, pretty: bool, depth: usize) -> Option<Seq<char>> {
        self.text()
    }

    fn fmt_debug<W>(&self, f: &mut Formatter<'_, W>, pretty: bool, depth: usize) -> (r: Result<
        (),
        W::Error,
    >) where W: uWrite + ?Sized {
        self.fmt(f)
    }
}

/// The debug form of a `u64` is its plain form.
impl uDebug for u64 {
    open spec fn debug_text(&self, pretty: bool, depth: usize) -> Option<Seq<char>> {
        self.text()
    }

    fn fmt_debug<W>(&self, f: &mut Formatter<'_, W>, pretty: bool, depth: usize) -> (r: Result<
        (),
        W::Error,
    >) where W: uWrite + ?Sized {
        self.fmt(f)
    }
}

/// The debug form of a `u128` is its plain form.
impl uDebug for u128 {
    open spec fn debug_text(&self, pretty: bool, depth: usize) -> Option<Seq<char>> {
        self.text()
    }

    fn fmt_debug<W>(&self, f: &mut Formatter<'_, W>, pretty: bool, depth: usize) -> (r: Result<
        (),
        W::Error,
    >) where W: uWrite + ?Sized {
        self.fmt(f)
    }
}

/// The debug form of a `usize` is its plain form.
impl uDebug for usize {
    open spec fn debug_text(&self, pretty: bool, depth: usize) -> Option<Seq<char>> {
        self.text()
    }

    fn fmt_debug<W>(&self, f: &mut Formatter<'_, W>, pretty: bool, depth: usize) -> (r: Result<
        (),
        W::Error,
    >) where W: uWrite + ?Sized {
        self.fmt(f)
    }
}

/// The debug form of a `i8` is its plain form.
impl uDebug for i8 {
    open spec fn debug_text(&self, pretty: bool, depth: usize) -> Option<Seq<char>> {
        self.text()
    }

    fn fmt_debug<W>(&self, f: &mut Formatter<'_, W>, pretty: bool, depth: usize) -> (r: Result<
        (),
        W::Error,
    >) where W: uWrite + ?Sized {
        self.fmt(f)
    }
}

/// The debug form of a `i16` is its plain form.
impl uDebug for i16 {
    open spec fn debug_text(&self, pretty: bool, depth: usize) -> Option<Seq<char>> {
        self.text()
    }

    fn fmt_debug<W>(&self, f: &mut Formatter<'_, W>, pretty: bool, depth: usize) -> (r: Result<
        (),
        W::Error,
    >) where W: uWrite + ?Sized {
        self.fmt(f)
    }
}

/// The debug form of a `i32` is its plain form.
impl uDebug for i32 {
    open spec fn debug_text(&self, pretty: bool, depth: usize) -> Option<Seq<char>> {
        self.text()
    }

    fn fmt_debug<W>(&self, f: &mut Formatter<'_, W>, pretty: bool, depth: usize) -> (r: Result<
        (),
        W::Error,
    >) where W: uWrite + ?Sized {
        self.fmt(f)
    }
}

/// The debug form of a `i64` is its plain form.
impl uDebug for i64 {
    open spec fn debug_text(&self, pretty: bool, depth: usize) -> Option<Seq<char>> {
        self.text()
    }

    fn fmt_debug<W>(&self, f: &mut Formatter<'_, W>, pretty: bool, depth: usize) -> (r: Result<
        (),
        W::Error,
    >) where W: uWrite + ?Sized {
        self.fmt(f)
    }
}

/// The debug form of a `i128` is its plain form.
impl uDebug for i128 {
    open spec fn debug_text(&self, pretty: bool, depth: usize) -> Option<Seq<char>> {
        self.text()
    }

    fn fmt_debug<W>(&self, f: &mut Formatter<'_, W>, pretty: bool, depth: usize) -> (r: Result<
        (),
        W::Error,
    >) where W: uWrite + ?Sized {
        self.fmt(f)
    }
}

/// The debug form of a `isize` is its plain form.
impl uDebug for isize {
    open spec fn debug_text(&self, pretty: bool, depth: usize) -> Option<Seq<char>> {
        self.text()
    }

    fn fmt_debug<W>(&self, f: &mut Formatter<'_, W>, pretty: bool, depth: usize) -> (r: Result<
        (),
        W::Error,
    >) where W: uWrite + ?Sized {
        self.fmt(f)
    }
}

/// The debug form of a `Float32` is its plain form.
impl uDebug for Float32 {
    open spec fn debug_text(&self, pretty: bool, depth: usize) -> Option<Seq<char>> {
        self.text()
    }

    fn fmt_debug<W>(&self, f: &mut Formatter<'_, W>, pretty: bool, depth: usize) -> (r: Result<
        (),
        W::Error,
    >) where W: uWrite + ?Sized {
        self.fmt(f)
    }
}

/// The debug form of a `Float64` is its plain form.
impl uDebug for Float64 {
    open spec fn debug_text(&self, pretty: bool, depth: usize) -> Option<Seq<char>> {
        self.text()
    }

    fn fmt_debug<W>(&self, f: &mut Formatter<'_, W>, pretty: bool, depth: usize) -> (r: Result<
        (),
        W::Error,
    >) where W: uWrite + ?Sized {
        self.fmt(f)
    }
}

impl<T: uDebug + ?Sized> uDebug for &T {
    open spec fn debug_text(&self, pretty: bool, depth: usize) -> Option<Seq<char>> {
        (**self).debug_text(pretty, depth)
    }

    fn fmt_debug<W>(&self, f: &mut Formatter<'_, W>, pretty: bool, depth: usize) -> (r: Result<
        (),
        W::Error,
    >) where W: uWrite + ?Sized {
        (**self).fmt_debug(f, pretty, depth)
    }
}

impl<T: uDebug + ?Sized> uDebug for &mut T {
    open spec fn debug_text(&self, pretty: bool, depth: usize) -> Option<Seq<char>> {
        (**self).debug_text(pretty, depth)
    }

    fn fmt_debug<W>(&self, f: &mut Formatter<'_, W>, pretty: bool, depth: usize) -> (r: Result<
        (),
        W::Error,
    >) where W: uWrite + ?Sized {
        (**self).fmt_debug(f, pretty, depth)
    }
}

/// Writes a group of one part with a name.
fn named_part<W: uWrite + ?Sized, T: uDebug + ?Sized>(
    f: &mut Formatter<'_, W>,
    name: &str,
    value: &T,
    pretty: bool,
    depth: usize,
) -> (r: Result<(), W::Error>)
    requires
        name@.len() > 0,
    ensures
        value.debug_text(pretty, deeper(depth)) matches Some(text) ==> wrote(
            old(f).sink(),
            final(f).sink(),
            r is Ok,
            group_text(name@, '(', ')', seq![text], pretty, depth, true),
        ),
        &*final(final(f).writer) == &*final(old(f).writer),
{
    let ghost inner = value.debug_text(pretty, deeper(depth));
    let ghost g = Group {
        name: name@,
        open: '(',
        close: ')',
        values: seq![known_text(inner)],
        pretty,
        depth,
        tuple: true,
        known: inner is Some,
    };
    let ghost start = f.sink();
    proof {
        reveal_strlit("(");
        reveal_strlit(")");
        assert("("@ =~= seq!['(']);
        assert(")"@ =~= seq![')']);
    }
    match group_begin(f, name, "(", pretty, Ghost(g)) {
        Ok(()) => {},
        Err(e) => {
            return Err(e);
        },
    }
    match group_part(f, value, 0, pretty, depth, Ghost(start), Ghost(g)) {
        Ok(()) => {},
        Err(e) => {
            return Err(e);
        },
    }
    group_end(f, ")", pretty, depth, false, Ghost(start), Ghost(g))
}

/// `None`, or `Some` with the value in brackets.
impl<T: uDebug> uDebug for Option<T> {
    open spec fn debug_text(&self, pretty: bool, depth: usize) -> Option<Seq<char>> {
        match self {
            None => Some("None"@),
            Some(x) => match x.debug_text(pretty, deeper(depth)) {
                Some(text) => Some(group_text("Some"@, '(', ')', seq![text], pretty, depth, true)),
                None => None,
            },
        }
    }

    fn fmt_debug<W>(&self, f: &mut Formatter<'_, W>, pretty: bool, depth: usize) -> (r: Result<
        (),
        W::Error,
    >) where W: uWrite + ?Sized {
        proof {
            reveal_strlit("Some");
        }
        match self {
            None => f.write_str("None"),
            Some(x) => named_part(f, "Some", x, pretty, depth),
        }
    }
}

/// `Ok` or `Err` with the value in brackets.
impl<T: uDebug, E: uDebug> uDebug for Result<T, E> {
    open spec fn debug_text(&self, pretty: bool, depth: usize) -> Option<Seq<char>> {
        match self {
            Ok(x) => match x.debug_text(pretty, deeper(depth)) {
                Some(text) => Some(group_text("Ok"@, '(', ')', seq![text], pretty, depth, true)),
                None => None,
            },
            Err(e) => match e.debug_text(pretty, deeper(depth)) {
                Some(text) => Some(group_text("Err"@, '(', ')', seq![text], pretty, depth, true)),
                None => None,
            },
        }
    }

    fn fmt_debug<W>(&self, f: &mut Formatter<'_, W>, pretty: bool, depth: usize) -> (r: Result<
        (),
        W::Error,
    >) where W: uWrite + ?Sized {
        proof {
            reveal_strlit("Ok");
            reveal_strlit("Err");
        }
        match self {
            Ok(x) => named_part(f, "Ok", x, pretty, depth),
            Err(e) => named_part(f, "Err", e, pretty, depth),
        }
    }
}

/// Two brackets with nothing between them.
impl uDebug for () {
    open spec fn debug_text(&self, pretty: bool, depth: usize) -> Option<Seq<char>> {
        Some(seq!['(', ')'])
    }

    fn fmt_debug<W>(&self, f: &mut Formatter<'_, W>, pretty: bool, depth: usize) -> (r: Result<
        (),
        W::Error,
    >) where W: uWrite + ?Sized {
        proof {
            reveal_strlit("()");
            assert("()"@ =~= seq!['(', ')']);
        }
        f.write_str("()")
    }
}

/// The parts in round brackets, with a comma behind the one part.
impl<A: uDebug> uDebug for (A,) {
    open spec fn debug_text(&self, pretty: bool, depth: usize) -> Option<Seq<char>> {
        if self.0.debug_text(pretty, deeper(depth)) is Some {
            Some(
                group_text(
                    Seq::<char>::empty(),
                    '(',
                    ')',
                    seq![
                    known_text(self.0.debug_text(pretty, deeper(depth))),
                    ],
                    pretty,
                    depth,
                    true,
                ),
            )
        } else {
            None
        }
    }

    fn fmt_debug<W>(&self, f: &mut Formatter<'_, W>, pretty: bool, depth: usize) -> (r: Result<
        (),
        W::Error,
    >) where W: uWrite + ?Sized {
        let ghost g = Group {
            name: Seq::<char>::empty(),
            open: '(',
            close: ')',
            values: seq![
                known_text(self.0.debug_text(pretty, deeper(depth))),
            ],
            pretty,
            depth,
            tuple: true,
            known: self.0.debug_text(pretty, deeper(depth)) is Some,
        };
        let ghost start = f.sink();
        proof {
            reveal_strlit("");
            reveal_strlit("(");
            reveal_strlit(")");
            assert(""@ =~= Seq::<char>::empty());
            assert("("@ =~= seq!['(']);
            assert(")"@ =~= seq![')']);
        }
        match group_begin(f, "", "(", pretty, Ghost(g)) {
            Ok(()) => {},
            Err(e) => {
                return Err(e);
            },
        }
        match group_part(f, &self.0, 0, pretty, depth, Ghost(start), Ghost(g)) {
            Ok(()) => {},
            Err(e) => {
                return Err(e);
            },
        }
        group_end(f, ")", pretty, depth, true, Ghost(start), Ghost(g))
    }
}

/// The parts in round brackets.
impl<A: uDebug, B: uDebug> uDebug for (A, B) {
    open spec fn debug_text(&self, pretty: bool, depth: usize) -> Option<Seq<char>> {
        if self.0.debug_text(pretty, deeper(depth)) is Some
            && self.1.debug_text(pretty, deeper(depth)) is Some {
            Some(
                group_text(
                    Seq::<char>::empty(),
                    '(',
                    ')',
                    seq![
                    known_text(self.0.debug_text(pretty, deeper(depth))),
                    known_text(self.1.debug_text(pretty, deeper(depth))),
                    ],
                    pretty,
                    depth,
                    true,
                ),
            )
        } else {
            None
        }
    }

    fn fmt_debug<W>(&self, f: &mut Formatter<'_, W>, pretty: bool, depth: usize) -> (r: Result<
        (),
        W::Error,
    >) where W: uWrite + ?Sized {
        let ghost g = Group {
            name: Seq::<char>::empty(),
            open: '(',
            close: ')',
            values: seq![
                known_text(self.0.debug_text(pretty, deeper(depth))),
                known_text(self.1.debug_text(pretty, deeper(depth))),
            ],
            pretty,
            depth,
            tuple: true,
            known: self.0.debug_text(pretty, deeper(depth)) is Some
                && self.1.debug_text(pretty, deeper(depth)) is Some,
        };
        let ghost start = f.sink();
        proof {
            reveal_strlit("");
            reveal_strlit("(");
            reveal_strlit(")");
            assert(""@ =~= Seq::<char>::empty());
            assert("("@ =~= seq!['(']);
            assert(")"@ =~= seq![')']);
        }
        match group_begin(f, "", "(", pretty, Ghost(g)) {
            Ok(()) => {},
            Err(e) => {
                return Err(e);
            },
        }
        match group_part(f, &self.0, 0, pretty, depth, Ghost(start), Ghost(g)) {
            Ok(()) => {},
            Err(e) => {
                return Err(e);
            },
        }
        match group_part(f, &self.1, 1, pretty, depth, Ghost(start), Ghost(g)) {
            Ok(()) => {},
            Err(e) => {
                return Err(e);
            },
        }
        group_end(f, ")", pretty, depth, false, Ghost(start), Ghost(g))
    }
}

/// The parts in round brackets.
impl<A: uDebug, B: uDebug, C: uDebug> uDebug for (A, B, C) {
    open spec fn debug_text(&self, pretty: bool, depth: usize) -> Option<Seq<char>> {
        if self.0.debug_text(pretty, deeper(depth)) is Some
            && self.1.debug_text(pretty, deeper(depth)) is Some
            && self.2.debug_text(pretty, deeper(depth)) is Some {
            Some(
                group_text(
                    Seq::<char>::empty(),
                    '(',
                    ')',
                    seq![
                    known_text(self.0.debug_text(pretty, deeper(depth))),
                    known_text(self.1.debug_text(pretty, deeper(depth))),
                    known_text(self.2.debug_text(pretty, deeper(depth))),
                    ],
                    pretty,
                    depth,
                    true,
                ),
            )
        } else {
            None
        }
    }

    fn fmt_debug<W>(&self, f: &mut Formatter<'_, W>, pretty: bool, depth: usize) -> (r: Result<
        (),
        W::Error,
    >) where W: uWrite + ?Sized {
        let ghost g = Group {
            name: Seq::<char>::empty(),
            open: '(',
            close: ')',
            values: seq![
                known_text(self.0.debug_text(pretty, deeper(depth))),
                known_text(self.1.debug_text(pretty, deeper(depth))),
                known_text(self.2.debug_text(pretty, deeper(depth))),
            ],
            pretty,
            depth,
            tuple: true,
            known: self.0.debug_text(pretty, deeper(depth)) is Some
                && self.1.debug_text(pretty, deeper(depth)) is Some
                && self.2.debug_text(pretty, deeper(depth)) is Some,
        };
        let ghost start = f.sink();
        proof {
            reveal_strlit("");
            reveal_strlit("(");
            reveal_strlit(")");
            assert(""@ =~= Seq::<char>::empty());
            assert("("@ =~= seq!['(']);
            assert(")"@ =~= seq![')']);
        }
        match group_begin(f, "", "(", pretty, Ghost(g)) {
            Ok(()) => {},
            Err(e) => {
                return Err(e);
            },
        }
        match group_part(f, &self.0, 0, pretty, depth, Ghost(start), Ghost(g)) {
            Ok(()) => {},
            Err(e) => {
                return Err(e);
            },
        }
        match group_part(f, &self.1, 1, pretty, depth, Ghost(start), Ghost(g)) {
            Ok(()) => {},
            Err(e) => {
                return Err(e);
            },
        }
        match group_part(f, &self.2, 2, pretty, depth, Ghost(start), Ghost(g)) {
            Ok(()) => {},
            Err(e) => {
                return Err(e);
            },
        }
        group_end(f, ")", pretty, depth, false, Ghost(start), Ghost(g))
    }
}

/// The parts in round brackets.
impl<A: uDebug, B: uDebug, C: uDebug, D: uDebug> uDebug for (A, B, C, D) {
    open spec fn debug_text(&self, pretty: bool, depth: usize) -> Option<Seq<char>> {
        if self.0.debug_text(pretty, deeper(depth)) is Some
            && self.1.debug_text(pretty, deeper(depth)) is Some
            && self.2.debug_text(pretty, deeper(depth)) is Some
            && self.3.debug_text(pretty, deeper(depth)) is Some {
            Some(
                group_text(
                    Seq::<char>::empty(),
                    '(',
                    ')',
                    seq![
                    known_text(self.0.debug_text(pretty, deeper(depth))),
                    known_text(self.1.debug_text(pretty, deeper(depth))),
                    known_text(self.2.debug_text(pretty, deeper(depth))),
                    known_text(self.3.debug_text(pretty, deeper(depth))),
                    ],
                    pretty,
                    depth,
                    true,
                ),
            )
        } else {
            None
        }
    }

    fn fmt_debug<W>(&self, f: &mut Formatter<'_, W>, pretty: bool, depth: usize) -> (r: Result<
        (),
        W::Error,
    >) where W: uWrite + ?Sized {
        let ghost g = Group {
            name: Seq::<char>::empty(),
            open: '(',
            close: ')',
            values: seq![
                known_text(self.0.debug_text(pretty, deeper(depth))),
                known_text(self.1.debug_text(pretty, deeper(depth))),
                known_text(self.2.debug_text(pretty, deeper(depth))),
                known_text(self.3.debug_text(pretty, deeper(depth))),
            ],
            pretty,
            depth,
            tuple: true,
            known: self.0.debug_text(pretty, deeper(depth)) is Some
                && self.1.debug_text(pretty, deeper(depth)) is Some
                && self.2.debug_text(pretty, deeper(depth)) is Some
                && self.3.debug_text(pretty, deeper(depth)) is Some,
        };
        let ghost start = f.sink();
        proof {
            reveal_strlit("");
            reveal_strlit("(");
            reveal_strlit(")");
            assert(""@ =~= Seq::<char>::empty());
            assert("("@ =~= seq!['(']);
            assert(")"@ =~= seq![')']);
        }
        match group_begin(f, "", "(", pretty, Ghost(g)) {
            Ok(()) => {},
            Err(e) => {
                return Err(e);
            },
        }
        match group_part(f, &self.0, 0, pretty, depth, Ghost(start), Ghost(g)) {
            Ok(()) => {},
            Err(e) => {
                return Err(e);
            },
        }
        match group_part(f, &self.1, 1, pretty, depth, Ghost(start), Ghost(g)) {
            Ok(()) => {},
            Err(e) => {
                return Err(e);
            },
        }
        match group_part(f, &self.2, 2, pretty, depth, Ghost(start), Ghost(g)) {
            Ok(()) => {},
            Err(e) => {
                return Err(e);
            },
        }
        match group_part(f, &self.3, 3, pretty, depth, Ghost(start), Ghost(g)) {
            Ok(()) => {},
            Err(e) => {
                return Err(e);
            },
        }
        group_end(f, ")", pretty, depth, false, Ghost(start), Ghost(g))
    }
}

/// The parts in round brackets.
impl<A: uDebug, B: uDebug, C: uDebug, D: uDebug, E: uDebug> uDebug for (A, B, C, D, E) {
    open spec fn debug_text(&self, pretty: bool, depth: usize) -> Option<Seq<char>> {
        if self.0.debug_text(pretty, deeper(depth)) is Some
            && self.1.debug_text(pretty, deeper(depth)) is Some
            && self.2.debug_text(pretty, deeper(depth)) is Some
            && self.3.debug_text(pretty, deeper(depth)) is Some
            && self.4.debug_text(pretty, deeper(depth)) is Some {
            Some(
                group_text(
                    Seq::<char>::empty(),
                    '(',
                    ')',
                    seq![
                    known_text(self.0.debug_text(pretty, deeper(depth))),
                    known_text(self.1.debug_text(pretty, deeper(depth))),
                    known_text(self.2.debug_text(pretty, deeper(depth))),
                    known_text(self.3.debug_text(pretty, deeper(depth))),
                    known_text(self.4.debug_text(pretty, deeper(depth))),
                    ],
                    pretty,
                    depth,
                    true,
                ),
            )
        } else {
            None
        }
    }

    fn fmt_debug<W>(&self, f: &mut Formatter<'_, W>, pretty: bool, depth: usize) -> (r: Result<
        (),
        W::Error,
    >) where W: uWrite + ?Sized {
        let ghost g = Group {
            name: Seq::<char>::empty(),
            open: '(',
            close: ')',
            values: seq![
                known_text(self.0.debug_text(pretty, deeper(depth))),
                known_text(self.1.debug_text(pretty, deeper(depth))),
                known_text(self.2.debug_text(pretty, deeper(depth))),
                known_text(self.3.debug_text(pretty, deeper(depth))),
                known_text(self.4.debug_text(pretty, deeper(depth))),
            ],
            pretty,
            depth,
            tuple: true,
            known: self.0.debug_text(pretty, deeper(depth)) is Some
                && self.1.debug_text(pretty, deeper(depth)) is Some
                && self.2.debug_text(pretty, deeper(depth)) is Some
                && self.3.debug_text(pretty, deeper(depth)) is Some
                && self.4.debug_text(pretty, deeper(depth)) is Some,
        };
        let ghost start = f.sink();
        proof {
            reveal_strlit("");
            reveal_strlit("(");
            reveal_strlit(")");
            assert(""@ =~= Seq::<char>::empty());
            assert("("@ =~= seq!['(']);
            assert(")"@ =~= seq![')']);
        }
        match group_begin(f, "", "(", pretty, Ghost(g)) {
            Ok(()) => {},
            Err(e) => {
                return Err(e);
            },
        }
        match group_part(f, &self.0, 0, pretty, depth, Ghost(start), Ghost(g)) {
            Ok(()) => {},
            Err(e) => {
                return Err(e);
            },
        }
        match group_part(f, &self.1, 1, pretty, depth, Ghost(start), Ghost(g)) {
            Ok(()) => {},
            Err(e) => {
                return Err(e);
            },
        }
        match group_part(f, &self.2, 2, pretty, depth, Ghost(start), Ghost(g)) {
            Ok(()) => {},
            Err(e) => {
                return Err(e);
            },
        }
        match group_part(f, &self.3, 3, pretty, depth, Ghost(start), Ghost(g)) {
            Ok(()) => {},
            Err(e) => {
                return Err(e);
            },
        }
        match group_part(f, &self.4, 4, pretty, depth, Ghost(start), Ghost(g)) {
            Ok(()) => {},
            Err(e) => {
                return Err(e);
            },
        }
        group_end(f, ")", pretty, depth, false, Ghost(start), Ghost(g))
    }
}

/// The parts in round brackets.
impl<A: uDebug, B: uDebug, C: uDebug, D: uDebug, E: uDebug, F: uDebug> uDebug for (A, B, C, D, E, F) {
    open spec fn debug_text(&self, pretty: bool, depth: usize) -> Option<Seq<char>> {
        if self.0.debug_text(pretty, deeper(depth)) is Some
            && self.1.debug_text(pretty, deeper(depth)) is Some
            && self.2.debug_text(pretty, deeper(depth)) is Some
            && self.3.debug_text(pretty, deeper(depth)) is Some
            && self.4.debug_text(pretty, deeper(depth)) is Some
            && self.5.debug_text(pretty, deeper(depth)) is Some {
            Some(
                group_text(
                    Seq::<char>::empty(),
                    '(',
                    ')',
                    seq![
                    known_text(self.0.debug_text(pretty, deeper(depth))),
                    known_text(self.1.debug_text(pretty, deeper(depth))),
                    known_text(self.2.debug_text(pretty, deeper(depth))),
                    known_text(self.3.debug_text(pretty, deeper(depth))),
                    known_text(self.4.debug_text(pretty, deeper(depth))),
                    known_text(self.5.debug_text(pretty, deeper(depth))),
                    ],
                    pretty,
                    depth,
                    true,
                ),
            )
        } else {
            None
        }
    }

    fn fmt_debug<W>(&self, f: &mut Formatter<'_, W>, pretty: bool, depth: usize) -> (r: Result<
        (),
        W::Error,
    >) where W: uWrite + ?Sized {
        let ghost g = Group {
            name: Seq::<char>::empty(),
            open: '(',
            close: ')',
            values: seq![
                known_text(self.0.debug_text(pretty, deeper(depth))),
                known_text(self.1.debug_text(pretty, deeper(depth))),
                known_text(self.2.debug_text(pretty, deeper(depth))),
                known_text(self.3.debug_text(pretty, deeper(depth))),
                known_text(self.4.debug_text(pretty, deeper(depth))),
                known_text(self.5.debug_text(pretty, deeper(depth))),
            ],
            pretty,
            depth,
            tuple: true,
            known: self.0.debug_text(pretty, deeper(depth)) is Some
                && self.1.debug_text(pretty, deeper(depth)) is Some
                && self.2.debug_text(pretty, deeper(depth)) is Some
                && self.3.debug_text(pretty, deeper(depth)) is Some
                && self.4.debug_text(pretty, deeper(depth)) is Some
                && self.5.debug_text(pretty, deeper(depth)) is Some,
        };
        let ghost start = f.sink();
        proof {
            reveal_strlit("");
            reveal_strlit("(");
            reveal_strlit(")");
            assert(""@ =~= Seq::<char>::empty());
            assert("("@ =~= seq!['(']);
            assert(")"@ =~= seq![')']);
        }
        match group_begin(f, "", "(", pretty, Ghost(g)) {
            Ok(()) => {},
            Err(e) => {
                return Err(e);
            },
        }
        match group_part(f, &self.0, 0, pretty, depth, Ghost(start), Ghost(g)) {
            Ok(()) => {},
            Err(e) => {
                return Err(e);
            },
        }
        match group_part(f, &self.1, 1, pretty, depth, Ghost(start), Ghost(g)) {
            Ok(()) => {},
            Err(e) => {
                return Err(e);
            },
        }
        match group_part(f, &self.2, 2, pretty, depth, Ghost(start), Ghost(g)) {
            Ok(()) => {},
            Err(e) => {
                return Err(e);
            },
        }
        match group_part(f, &self.3, 3, pretty, depth, Ghost(start), Ghost(g)) {
            Ok(()) => {},
            Err(e) => {
                return Err(e);
            },
        }
        match group_part(f, &self.4, 4, pretty, depth, Ghost(start), Ghost(g)) {
            Ok(()) => {},
            Err(e) => {
                return Err(e);
            },
        }
        match group_part(f, &self.5, 5, pretty, depth, Ghost(start), Ghost(g)) {
            Ok(()) => {},
            Err(e) => {
                return Err(e);
            },
        }
        group_end(f, ")", pretty, depth, false, Ghost(start), Ghost(g))
    }
}

/// The parts in round brackets.
impl<A: uDebug, B: uDebug, C: uDebug, D: uDebug, E: uDebug, F: uDebug, G: uDebug> uDebug for (A, B, C, D, E, F, G) {
    open spec fn debug_text(&self, pretty: bool, depth: usize) -> Option<Seq<char>> {
        if self.0.debug_text(pretty, deeper(depth)) is Some
            && self.1.debug_text(pretty, deeper(depth)) is Some
            && self.2.debug_text(pretty, deeper(depth)) is Some
            && self.3.debug_text(pretty, deeper(depth)) is Some
            && self.4.debug_text(pretty, deeper(depth)) is Some
            && self.5.debug_text(pretty, deeper(depth)) is Some
            && self.6.debug_text(pretty, deeper(depth)) is Some {
            Some(
                group_text(
                    Seq::<char>::empty(),
                    '(',
                    ')',
                    seq![
                    known_text(self.0.debug_text(pretty, deeper(depth))),
                    known_text(self.1.debug_text(pretty, deeper(depth))),
                    known_text(self.2.debug_text(pretty, deeper(depth))),
                    known_text(self.3.debug_text(pretty, deeper(depth))),
                    known_text(self.4.debug_text(pretty, deeper(depth))),
                    known_text(self.5.debug_text(pretty, deeper(depth))),
                    known_text(self.6.debug_text(pretty, deeper(depth))),
                    ],
                    pretty,
                    depth,
                    true,
                ),
            )
        } else {
            None
        }
    }

    fn fmt_debug<W>(&self, f: &mut Formatter<'_, W>, pretty: bool, depth: usize) -> (r: Result<
        (),
        W::Error,
    >) where W: uWrite + ?Sized {
        let ghost g = Group {
            name: Seq::<char>::empty(),
            open: '(',
            close: ')',
            values: seq![
                known_text(self.0.debug_text(pretty, deeper(depth))),
                known_text(self.1.debug_text(pretty, deeper(depth))),
                known_text(self.2.debug_text(pretty, deeper(depth))),
                known_text(self.3.debug_text(pretty, deeper(depth))),
                known_text(self.4.debug_text(pretty, deeper(depth))),
                known_text(self.5.debug_text(pretty, deeper(depth))),
                known_text(self.6.debug_text(pretty, deeper(depth))),
            ],
            pretty,
            depth,
            tuple: true,
            known: self.0.debug_text(pretty, deeper(depth)) is Some
                && self.1.debug_text(pretty, deeper(depth)) is Some
                && self.2.debug_text(pretty, deeper(depth)) is Some
                && self.3.debug_text(pretty, deeper(depth)) is Some
                && self.4.debug_text(pretty, deeper(depth)) is Some
                && self.5.debug_text(pretty, deeper(depth)) is Some
                && self.6.debug_text(pretty, deeper(depth)) is Some,
        };
        let ghost start = f.sink();
        proof {
            reveal_strlit("");
            reveal_strlit("(");
            reveal_strlit(")");
            assert(""@ =~= Seq::<char>::empty());
            assert("("@ =~= seq!['(']);
            assert(")"@ =~= seq![')']);
        }
        match group_begin(f, "", "(", pretty, Ghost(g)) {
            Ok(()) => {},
            Err(e) => {
                return Err(e);
            },
        }
        match group_part(f, &self.0, 0, pretty, depth, Ghost(start), Ghost(g)) {
            Ok(()) => {},
            Err(e) => {
                return Err(e);
            },
        }
        match group_part(f, &self.1, 1, pretty, depth, Ghost(start), Ghost(g)) {
            Ok(()) => {},
            Err(e) => {
                return Err(e);
            },
        }
        match group_part(f, &self.2, 2, pretty, depth, Ghost(start), Ghost(g)) {
            Ok(()) => {},
            Err(e) => {
                return Err(e);
            },
        }
        match group_part(f, &self.3, 3, pretty, depth, Ghost(start), Ghost(g)) {
            Ok(()) => {},
            Err(e) => {
                return Err(e);
            },
        }
        match group_part(f, &self.4, 4, pretty, depth, Ghost(start), Ghost(g)) {
            Ok(()) => {},
            Err(e) => {
                return Err(e);
            },
        }
        match group_part(f, &self.5, 5, pretty, depth, Ghost(start), Ghost(g)) {
            Ok(()) => {},
            Err(e) => {
                return Err(e);
            },
        }
        match group_part(f, &self.6, 6, pretty, depth, Ghost(start), Ghost(g)) {
            Ok(()) => {},
            Err(e) => {
                return Err(e);
            },
        }
        group_end(f, ")", pretty, depth, false, Ghost(start), Ghost(g))
    }
}

/// The parts in round brackets.
impl<A: uDebug, B: uDebug, C: uDebug, D: uDebug, E: uDebug, F: uDebug, G: uDebug, H: uDebug> uDebug for (A, B, C, D, E, F, G, H) {
    open spec fn debug_text(&self, pretty: bool, depth: usize) -> Option<Seq<char>> {
        if self.0.debug_text(pretty, deeper(depth)) is Some
            && self.1.debug_text(pretty, deeper(depth)) is Some
            && self.2.debug_text(pretty, deeper(depth)) is Some
            && self.3.debug_text(pretty, deeper(depth)) is Some
            && self.4.debug_text(pretty, deeper(depth)) is Some
            && self.5.debug_text(pretty, deeper(depth)) is Some
            && self.6.debug_text(pretty, deeper(depth)) is Some
            && self.7.debug_text(pretty, deeper(depth)) is Some {
            Some(
                group_text(
                    Seq::<char>::empty(),
                    '(',
                    ')',
                    seq![
                    known_text(self.0.debug_text(pretty, deeper(depth))),
                    known_text(self.1.debug_text(pretty, deeper(depth))),
                    known_text(self.2.debug_text(pretty, deeper(depth))),
                    known_text(self.3.debug_text(pretty, deeper(depth))),
                    known_text(self.4.debug_text(pretty, deeper(depth))),
                    known_text(self.5.debug_text(pretty, deeper(depth))),
                    known_text(self.6.debug_text(pretty, deeper(depth))),
                    known_text(self.7.debug_text(pretty, deeper(depth))),
                    ],
                    pretty,
                    depth,
                    true,
                ),
            )
        } else {
            None
        }
    }

    fn fmt_debug<W>(&self, f: &mut Formatter<'_, W>, pretty: bool, depth: usize) -> (r: Result<
        (),
        W::Error,
    >) where W: uWrite + ?Sized {
        let ghost g = Group {
            name: Seq::<char>::empty(),
            open: '(',
            close: ')',
            values: seq![
                known_text(self.0.debug_text(pretty, deeper(depth))),
                known_text(self.1.debug_text(pretty, deeper(depth))),
                known_text(self.2.debug_text(pretty, deeper(depth))),
                known_text(self.3.debug_text(pretty, deeper(depth))),
                known_text(self.4.debug_text(pretty, deeper(depth))),
                known_text(self.5.debug_text(pretty, deeper(depth))),
                known_text(self.6.debug_text(pretty, deeper(depth))),
                known_text(self.7.debug_text(pretty, deeper(depth))),
            ],
            pretty,
            depth,
            tuple: true,
            known: self.0.debug_text(pretty, deeper(depth)) is Some
                && self.1.debug_text(pretty, deeper(depth)) is Some
                && self.2.debug_text(pretty, deeper(depth)) is Some
                && self.3.debug_text(pretty, deeper(depth)) is Some
                && self.4.debug_text(pretty, deeper(depth)) is Some
                && self.5.debug_text(pretty, deeper(depth)) is Some
                && self.6.debug_text(pretty, deeper(depth)) is Some
                && self.7.debug_text(pretty, deeper(depth)) is Some,
        };
        let ghost start = f.sink();
        proof {
            reveal_strlit("");
            reveal_strlit("(");
            reveal_strlit(")");
            assert(""@ =~= Seq::<char>::empty());
            assert("("@ =~= seq!['(']);
            assert(")"@ =~= seq![')']);
        }
        match group_begin(f, "", "(", pretty, Ghost(g)) {
            Ok(()) => {},
            Err(e) => {
                return Err(e);
            },
        }
        match group_part(f, &self.0, 0, pretty, depth, Ghost(start), Ghost(g)) {
            Ok(()) => {},
            Err(e) => {
                return Err(e);
            },
        }
        match group_part(f, &self.1, 1, pretty, depth, Ghost(start), Ghost(g)) {
            Ok(()) => {},
            Err(e) => {
                return Err(e);
            },
        }
        match group_part(f, &self.2, 2, pretty, depth, Ghost(start), Ghost(g)) {
            Ok(()) => {},
            Err(e) => {
                return Err(e);
            },
        }
        match group_part(f, &self.3, 3, pretty, depth, Ghost(start), Ghost(g)) {
            Ok(()) => {},
            Err(e) => {
                return Err(e);
            },
        }
        match group_part(f, &self.4, 4, pretty, depth, Ghost(start), Ghost(g)) {
            Ok(()) => {},
            Err(e) => {
                return Err(e);
            },
        }
        match group_part(f, &self.5, 5, pretty, depth, Ghost(start), Ghost(g)) {
            Ok(()) => {},
            Err(e) => {
                return Err(e);
            },
        }
        match group_part(f, &self.6, 6, pretty, depth, Ghost(start), Ghost(g)) {
            Ok(()) => {},
            Err(e) => {
                return Err(e);
            },
        }
        match group_part(f, &self.7, 7, pretty, depth, Ghost(start), Ghost(g)) {
            Ok(()) => {},
            Err(e) => {
                return Err(e);
            },
        }
        group_end(f, ")", pretty, depth, false, Ghost(start), Ghost(g))
    }
}

/// The parts in round brackets.
impl<A: uDebug, B: uDebug, C: uDebug, D: uDebug, E: uDebug, F: uDebug, G: uDebug, H: uDebug, I: uDebug> uDebug for (A, B, C, D, E, F, G, H, I) {
    open spec fn debug_text(&self, pretty: bool, depth: usize) -> Option<Seq<char>> {
        if self.0.debug_text(pretty, deeper(depth)) is Some
            && self.1.debug_text(pretty, deeper(depth)) is Some
            && self.2.debug_text(pretty, deeper(depth)) is Some
            && self.3.debug_text(pretty, deeper(depth)) is Some
            && self.4.debug_text(pretty, deeper(depth)) is Some
            && self.5.debug_text(pretty, deeper(depth)) is Some
            && self.6.debug_text(pretty, deeper(depth)) is Some
            && self.7.debug_text(pretty, deeper(depth)) is Some
            && self.8.debug_text(pretty, deeper(depth)) is Some {
            Some(
                group_text(
                    Seq::<char>::empty(),
                    '(',
                    ')',
                    seq![
                    known_text(self.0.debug_text(pretty, deeper(depth))),
                    known_text(self.1.debug_text(pretty, deeper(depth))),
                    known_text(self.2.debug_text(pretty, deeper(depth))),
                    known_text(self.3.debug_text(pretty, deeper(depth))),
                    known_text(self.4.debug_text(pretty, deeper(depth))),
                    known_text(self.5.debug_text(pretty, deeper(depth))),
                    known_text(self.6.debug_text(pretty, deeper(depth))),
                    known_text(self.7.debug_text(pretty, deeper(depth))),
                    known_text(self.8.debug_text(pretty, deeper(depth))),
                    ],
                    pretty,
                    depth,
                    true,
                ),
            )
        } else {
            None
        }
    }

    fn fmt_debug<W>(&self, f: &mut Formatter<'_, W>, pretty: bool, depth: usize) -> (r: Result<
        (),
        W::Error,
    >) where W: uWrite + ?Sized {
        let ghost g = Group {
            name: Seq::<char>::empty(),
            open: '(',
            close: ')',
            values: seq![
                known_text(self.0.debug_text(pretty, deeper(depth))),
                known_text(self.1.debug_text(pretty, deeper(depth))),
                known_text(self.2.debug_text(pretty, deeper(depth))),
                known_text(self.3.debug_text(pretty, deeper(depth))),
                known_text(self.4.debug_text(pretty, deeper(depth))),
                known_text(self.5.debug_text(pretty, deeper(depth))),
                known_text(self.6.debug_text(pretty, deeper(depth))),
                known_text(self.7.debug_text(pretty, deeper(depth))),
                known_text(self.8.debug_text(pretty, deeper(depth))),
            ],
            pretty,
            depth,
            tuple: true,
            known: self.0.debug_text(pretty, deeper(depth)) is Some
                && self.1.debug_text(pretty, deeper(depth)) is Some
                && self.2.debug_text(pretty, deeper(depth)) is Some
                && self.3.debug_text(pretty, deeper(depth)) is Some
                && self.4.debug_text(pretty, deeper(depth)) is Some
                && self.5.debug_text(pretty, deeper(depth)) is Some
                && self.6.debug_text(pretty, deeper(depth)) is Some
                && self.7.debug_text(pretty, deeper(depth)) is Some
                && self.8.debug_text(pretty, deeper(depth)) is Some,
        };
        let ghost start = f.sink();
        proof {
            reveal_strlit("");
            reveal_strlit("(");
            reveal_strlit(")");
            assert(""@ =~= Seq::<char>::empty());
            assert("("@ =~= seq!['(']);
            assert(")"@ =~= seq![')']);
        }
        match group_begin(f, "", "(", pretty, Ghost(g)) {
            Ok(()) => {},
            Err(e) => {
                return Err(e);
            },
        }
        match group_part(f, &self.0, 0, pretty, depth, Ghost(start), Ghost(g)) {
            Ok(()) => {},
            Err(e) => {
                return Err(e);
            },
        }
        match group_part(f, &self.1, 1, pretty, depth, Ghost(start), Ghost(g)) {
            Ok(()) => {},
            Err(e) => {
                return Err(e);
            },
        }
        match group_part(f, &self.2, 2, pretty, depth, Ghost(start), Ghost(g)) {
            Ok(()) => {},
            Err(e) => {
                return Err(e);
            },
        }
        match group_part(f, &self.3, 3, pretty, depth, Ghost(start), Ghost(g)) {
            Ok(()) => {},
            Err(e) => {
                return Err(e);
            },
        }
        match group_part(f, &self.4, 4, pretty, depth, Ghost(start), Ghost(g)) {
            Ok(()) => {},
            Err(e) => {
                return Err(e);
            },
        }
        match group_part(f, &self.5, 5, pretty, depth, Ghost(start), Ghost(g)) {
            Ok(()) => {},
            Err(e) => {
                return Err(e);
            },
        }
        match group_part(f, &self.6, 6, pretty, depth, Ghost(start), Ghost(g)) {
            Ok(()) => {},
            Err(e) => {
                return Err(e);
            },
        }
        match group_part(f, &self.7, 7, pretty, depth, Ghost(start), Ghost(g)) {
            Ok(()) => {},
            Err(e) => {
                return Err(e);
            },
        }
        match group_part(f, &self.8, 8, pretty, depth, Ghost(start), Ghost(g)) {
            Ok(()) => {},
            Err(e) => {
                return Err(e);
            },
        }
        group_end(f, ")", pretty, depth, false, Ghost(start), Ghost(g))
    }
}

/// The parts in round brackets.
impl<A: uDebug, B: uDebug, C: uDebug, D: uDebug, E: uDebug, F: uDebug, G: uDebug, H: uDebug, I: uDebug, J: uDebug> uDebug for (A, B, C, D, E, F, G, H, I, J) {
    open spec fn debug_text(&self, pretty: bool, depth: usize) -> Option<Seq<char>> {
        if self.0.debug_text(pretty, deeper(depth)) is Some
            && self.1.debug_text(pretty, deeper(depth)) is Some
            && self.2.debug_text(pretty, deeper(depth)) is Some
            && self.3.debug_text(pretty, deeper(depth)) is Some
            && self.4.debug_text(pretty, deeper(depth)) is Some
            && self.5.debug_text(pretty, deeper(depth)) is Some
            && self.6.debug_text(pretty, deeper(depth)) is Some
            && self.7.debug_text(pretty, deeper(depth)) is Some
            && self.8.debug_text(pretty, deeper(depth)) is Some
            && self.9.debug_text(pretty, deeper(depth)) is Some {
            Some(
                group_text(
                    Seq::<char>::empty(),
                    '(',
                    ')',
                    seq![
                    known_text(self.0.debug_text(pretty, deeper(depth))),
                    known_text(self.1.debug_text(pretty, deeper(depth))),
                    known_text(self.2.debug_text(pretty, deeper(depth))),
                    known_text(self.3.debug_text(pretty, deeper(depth))),
                    known_text(self.4.debug_text(pretty, deeper(depth))),
                    known_text(self.5.debug_text(pretty, deeper(depth))),
                    known_text(self.6.debug_text(pretty, deeper(depth))),
                    known_text(self.7.debug_text(pretty, deeper(depth))),
                    known_text(self.8.debug_text(pretty, deeper(depth))),
                    known_text(self.9.debug_text(pretty, deeper(depth))),
                    ],
                    pretty,
                    depth,
                    true,
                ),
            )
        } else {
            None
        }
    }

    fn fmt_debug<W>(&self, f: &mut Formatter<'_, W>, pretty: bool, depth: usize) -> (r: Result<
        (),
        W::Error,
    >) where W: uWrite + ?Sized {
        let ghost g = Group {
            name: Seq::<char>::empty(),
            open: '(',
            close: ')',
            values: seq![
                known_text(self.0.debug_text(pretty, deeper(depth))),
                known_text(self.1.debug_text(pretty, deeper(depth))),
                known_text(self.2.debug_text(pretty, deeper(depth))),
                known_text(self.3.debug_text(pretty, deeper(depth))),
                known_text(self.4.debug_text(pretty, deeper(depth))),
                known_text(self.5.debug_text(pretty, deeper(depth))),
                known_text(self.6.debug_text(pretty, deeper(depth))),
                known_text(self.7.debug_text(pretty, deeper(depth))),
                known_text(self.8.debug_text(pretty, deeper(depth))),
                known_text(self.9.debug_text(pretty, deeper(depth))),
            ],
            pretty,
            depth,
            tuple: true,
            known: self.0.debug_text(pretty, deeper(depth)) is Some
                && self.1.debug_text(pretty, deeper(depth)) is Some
                && self.2.debug_text(pretty, deeper(depth)) is Some
                && self.3.debug_text(pretty, deeper(depth)) is Some
                && self.4.debug_text(pretty, deeper(depth)) is Some
                && self.5.debug_text(pretty, deeper(depth)) is Some
                && self.6.debug_text(pretty, deeper(depth)) is Some
                && self.7.debug_text(pretty, deeper(depth)) is Some
                && self.8.debug_text(pretty, deeper(depth)) is Some
                && self.9.debug_text(pretty, deeper(depth)) is Some,
        };
        let ghost start = f.sink();
        proof {
            reveal_strlit("");
            reveal_strlit("(");
            reveal_strlit(")");
            assert(""@ =~= Seq::<char>::empty());
            assert("("@ =~= seq!['(']);
            assert(")"@ =~= seq![')']);
        }
        match group_begin(f, "", "(", pretty, Ghost(g)) {
            Ok(()) => {},
            Err(e) => {
                return Err(e);
            },
        }
        match group_part(f, &self.0, 0, pretty, depth, Ghost(start), Ghost(g)) {
            Ok(()) => {},
            Err(e) => {
                return Err(e);
            },
        }
        match group_part(f, &self.1, 1, pretty, depth, Ghost(start), Ghost(g)) {
            Ok(()) => {},
            Err(e) => {
                return Err(e);
            },
        }
        match group_part(f, &self.2, 2, pretty, depth, Ghost(start), Ghost(g)) {
            Ok(()) => {},
            Err(e) => {
                return Err(e);
            },
        }
        match group_part(f, &self.3, 3, pretty, depth, Ghost(start), Ghost(g)) {
            Ok(()) => {},
            Err(e) => {
                return Err(e);
            },
        }
        match group_part(f, &self.4, 4, pretty, depth, Ghost(start), Ghost(g)) {
            Ok(()) => {},
            Err(e) => {
                return Err(e);
            },
        }
        match group_part(f, &self.5, 5, pretty, depth, Ghost(start), Ghost(g)) {
            Ok(()) => {},
            Err(e) => {
                return Err(e);
            },
        }
        match group_part(f, &self.6, 6, pretty, depth, Ghost(start), Ghost(g)) {
            Ok(()) => {},
            Err(e) => {
                return Err(e);
            },
        }
        match group_part(f, &self.7, 7, pretty, depth, Ghost(start), Ghost(g)) {
            Ok(()) => {},
            Err(e) => {
                return Err(e);
            },
        }
        match group_part(f, &self.8, 8, pretty, depth, Ghost(start), Ghost(g)) {
            Ok(()) => {},
            Err(e) => {
                return Err(e);
            },
        }
        match group_part(f, &self.9, 9, pretty, depth, Ghost(start), Ghost(g)) {
            Ok(()) => {},
            Err(e) => {
                return Err(e);
            },
        }
        group_end(f, ")", pretty, depth, false, Ghost(start), Ghost(g))
    }
}

/// The parts in round brackets.
impl<A: uDebug, B: uDebug, C: uDebug, D: uDebug, E: uDebug, F: uDebug, G: uDebug, H: uDebug, I: uDebug, J: uDebug, K: uDebug> uDebug for (A, B, C, D, E, F, G, H, I, J, K) {
    open spec fn debug_text(&self, pretty: bool, depth: usize) -> Option<Seq<char>> {
        if self.0.debug_text(pretty, deeper(depth)) is Some
            && self.1.debug_text(pretty, deeper(depth)) is Some
            && self.2.debug_text(pretty, deeper(depth)) is Some
            && self.3.debug_text(pretty, deeper(depth)) is Some
            && self.4.debug_text(pretty, deeper(depth)) is Some
            && self.5.debug_text(pretty, deeper(depth)) is Some
            && self.6.debug_text(pretty, deeper(depth)) is Some
            && self.7.debug_text(pretty, deeper(depth)) is Some
            && self.8.debug_text(pretty, deeper(depth)) is Some
            && self.9.debug_text(pretty, deeper(depth)) is Some
            && self.10.debug_text(pretty, deeper(depth)) is Some {
            Some(
                group_text(
                    Seq::<char>::empty(),
                    '(',
                    ')',
                    seq![
                    known_text(self.0.debug_text(pretty, deeper(depth))),
                    known_text(self.1.debug_text(pretty, deeper(depth))),
                    known_text(self.2.debug_text(pretty, deeper(depth))),
                    known_text(self.3.debug_text(pretty, deeper(depth))),
                    known_text(self.4.debug_text(pretty, deeper(depth))),
                    known_text(self.5.debug_text(pretty, deeper(depth))),
                    known_text(self.6.debug_text(pretty, deeper(depth))),
                    known_text(self.7.debug_text(pretty, deeper(depth))),
                    known_text(self.8.debug_text(pretty, deeper(depth))),
                    known_text(self.9.debug_text(pretty, deeper(depth))),
                    known_text(self.10.debug_text(pretty, deeper(depth))),
                    ],
                    pretty,
                    depth,
                    true,
                ),
            )
        } else {
            None
        }
    }

    fn fmt_debug<W>(&self, f: &mut Formatter<'_, W>, pretty: bool, depth: usize) -> (r: Result<
        (),
        W::Error,
    >) where W: uWrite + ?Sized {
        let ghost g = Group {
            name: Seq::<char>::empty(),
            open: '(',
            close: ')',
            values: seq![
                known_text(self.0.debug_text(pretty, deeper(depth))),
                known_text(self.1.debug_text(pretty, deeper(depth))),
                known_text(self.2.debug_text(pretty, deeper(depth))),
                known_text(self.3.debug_text(pretty, deeper(depth))),
                known_text(self.4.debug_text(pretty, deeper(depth))),
                known_text(self.5.debug_text(pretty, deeper(depth))),
                known_text(self.6.debug_text(pretty, deeper(depth))),
                known_text(self.7.debug_text(pretty, deeper(depth))),
                known_text(self.8.debug_text(pretty, deeper(depth))),
                known_text(self.9.debug_text(pretty, deeper(depth))),
                known_text(self.10.debug_text(pretty, deeper(depth))),
            ],
            pretty,
            depth,
            tuple: true,
            known: self.0.debug_text(pretty, deeper(depth)) is Some
                && self.1.debug_text(pretty, deeper(depth)) is Some
                && self.2.debug_text(pretty, deeper(depth)) is Some
                && self.3.debug_text(pretty, deeper(depth)) is Some
                && self.4.debug_text(pretty, deeper(depth)) is Some
                && self.5.debug_text(pretty, deeper(depth)) is Some
                && self.6.debug_text(pretty, deeper(depth)) is Some
                && self.7.debug_text(pretty, deeper(depth)) is Some
                && self.8.debug_text(pretty, deeper(depth)) is Some
                && self.9.debug_text(pretty, deeper(depth)) is Some
                && self.10.debug_text(pretty, deeper(depth)) is Some,
        };
        let ghost start = f.sink();
        proof {
            reveal_strlit("");
            reveal_strlit("(");
            reveal_strlit(")");
            assert(""@ =~= Seq::<char>::empty());
            assert("("@ =~= seq!['(']);
            assert(")"@ =~= seq![')']);
        }
        match group_begin(f, "", "(", pretty, Ghost(g)) {
            Ok(()) => {},
            Err(e) => {
                return Err(e);
            },
        }
        match group_part(f, &self.0, 0, pretty, depth, Ghost(start), Ghost(g)) {
            Ok(()) => {},
            Err(e) => {
                return Err(e);
            },
        }
        match group_part(f, &self.1, 1, pretty, depth, Ghost(start), Ghost(g)) {
            Ok(()) => {},
            Err(e) => {
                return Err(e);
            },
        }
        match group_part(f, &self.2, 2, pretty, depth, Ghost(start), Ghost(g)) {
            Ok(()) => {},
            Err(e) => {
                return Err(e);
            },
        }
        match group_part(f, &self.3, 3, pretty, depth, Ghost(start), Ghost(g)) {
            Ok(()) => {},
            Err(e) => {
                return Err(e);
            },
        }
        match group_part(f, &self.4, 4, pretty, depth, Ghost(start), Ghost(g)) {
            Ok(()) => {},
            Err(e) => {
                return Err(e);
            },
        }
        match group_part(f, &self.5, 5, pretty, depth, Ghost(start), Ghost(g)) {
            Ok(()) => {},
            Err(e) => {
                return Err(e);
            },
        }
        match group_part(f, &self.6, 6, pretty, depth, Ghost(start), Ghost(g)) {
            Ok(()) => {},
            Err(e) => {
                return Err(e);
            },
        }
        match group_part(f, &self.7, 7, pretty, depth, Ghost(start), Ghost(g)) {
            Ok(()) => {},
            Err(e) => {
                return Err(e);
            },
        }
        match group_part(f, &self.8, 8, pretty, depth, Ghost(start), Ghost(g)) {
            Ok(()) => {},
            Err(e) => {
                return Err(e);
            },
        }
        match group_part(f, &self.9, 9, pretty, depth, Ghost(start), Ghost(g)) {
            Ok(()) => {},
            Err(e) => {
                return Err(e);
            },
        }
        match group_part(f, &self.10, 10, pretty, depth, Ghost(start), Ghost(g)) {
            Ok(()) => {},
            Err(e) => {
                return Err(e);
            },
        }
        group_end(f, ")", pretty, depth, false, Ghost(start), Ghost(g))
    }
}

/// The parts in round brackets.
impl<A: uDebug, B: uDebug, C: uDebug, D: uDebug, E: uDebug, F: uDebug, G: uDebug, H: uDebug, I: uDebug, J: uDebug, K: uDebug, L: uDebug> uDebug for (A, B, C, D, E, F, G, H, I, J, K, L) {
    open spec fn debug_text(&self, pretty: bool, depth: usize) -> Option<Seq<char>> {
        if self.0.debug_text(pretty, deeper(depth)) is Some
            && self.1.debug_text(pretty, deeper(depth)) is Some
            && self.2.debug_text(pretty, deeper(depth)) is Some
            && self.3.debug_text(pretty, deeper(depth)) is Some
            && self.4.debug_text(pretty, deeper(depth)) is Some
            && self.5.debug_text(pretty, deeper(depth)) is Some
            && self.6.debug_text(pretty, deeper(depth)) is Some
            && self.7.debug_text(pretty, deeper(depth)) is Some
            && self.8.debug_text(pretty, deeper(depth)) is Some
            && self.9.debug_text(pretty, deeper(depth)) is Some
            && self.10.debug_text(pretty, deeper(depth)) is Some
            && self.11.debug_text(pretty, deeper(depth)) is Some {
            Some(
                group_text(
                    Seq::<char>::empty(),
                    '(',
                    ')',
                    seq![
                    known_text(self.0.debug_text(pretty, deeper(depth))),
                    known_text(self.1.debug_text(pretty, deeper(depth))),
                    known_text(self.2.debug_text(pretty, deeper(depth))),
                    known_text(self.3.debug_text(pretty, deeper(depth))),
                    known_text(self.4.debug_text(pretty, deeper(depth))),
                    known_text(self.5.debug_text(pretty, deeper(depth))),
                    known_text(self.6.debug_text(pretty, deeper(depth))),
                    known_text(self.7.debug_text(pretty, deeper(depth))),
                    known_text(self.8.debug_text(pretty, deeper(depth))),
                    known_text(self.9.debug_text(pretty, deeper(depth))),
                    known_text(self.10.debug_text(pretty, deeper(depth))),
                    known_text(self.11.debug_text(pretty, deeper(depth))),
                    ],
                    pretty,
                    depth,
                    true,
                ),
            )
        } else {
            None
        }
    }

    fn fmt_debug<W>(&self, f: &mut Formatter<'_, W>, pretty: bool, depth: usize) -> (r: Result<
        (),
        W::Error,
    >) where W: uWrite + ?Sized {
        let ghost g = Group {
            name: Seq::<char>::empty(),
            open: '(',
            close: ')',
            values: seq![
                known_text(self.0.debug_text(pretty, deeper(depth))),
                known_text(self.1.debug_text(pretty, deeper(depth))),
                known_text(self.2.debug_text(pretty, deeper(depth))),
                known_text(self.3.debug_text(pretty, deeper(depth))),
                known_text(self.4.debug_text(pretty, deeper(depth))),
                known_text(self.5.debug_text(pretty, deeper(depth))),
                known_text(self.6.debug_text(pretty, deeper(depth))),
                known_text(self.7.debug_text(pretty, deeper(depth))),
                known_text(self.8.debug_text(pretty, deeper(depth))),
                known_text(self.9.debug_text(pretty, deeper(depth))),
                known_text(self.10.debug_text(pretty, deeper(depth))),
                known_text(self.11.debug_text(pretty, deeper(depth))),
            ],
            pretty,
            depth,
            tuple: true,
            known: self.0.debug_text(pretty, deeper(depth)) is Some
                && self.1.debug_text(pretty, deeper(depth)) is Some
                && self.2.debug_text(pretty, deeper(depth)) is Some
                && self.3.debug_text(pretty, deeper(depth)) is Some
                && self.4.debug_text(pretty, deeper(depth)) is Some
                && self.5.debug_text(pretty, deeper(depth)) is Some
                && self.6.debug_text(pretty, deeper(depth)) is Some
                && self.7.debug_text(pretty, deeper(depth)) is Some
                && self.8.debug_text(pretty, deeper(depth)) is Some
                && self.9.debug_text(pretty, deeper(depth)) is Some
                && self.10.debug_text(pretty, deeper(depth)) is Some
                && self.11.debug_text(pretty, deeper(depth)) is Some,
        };
        let ghost start = f.sink();
        proof {
            reveal_strlit("");
            reveal_strlit("(");
            reveal_strlit(")");
            assert(""@ =~= Seq::<char>::empty());
            assert("("@ =~= seq!['(']);
            assert(")"@ =~= seq![')']);
        }
        match group_begin(f, "", "(", pretty, Ghost(g)) {
            Ok(()) => {},
            Err(e) => {
                return Err(e);
            },
        }
        match group_part(f, &self.0, 0, pretty, depth, Ghost(start), Ghost(g)) {
            Ok(()) => {},
            Err(e) => {
                return Err(e);
            },
        }
        match group_part(f, &self.1, 1, pretty, depth, Ghost(start), Ghost(g)) {
            Ok(()) => {},
            Err(e) => {
                return Err(e);
            },
        }
        match group_part(f, &self.2, 2, pretty, depth, Ghost(start), Ghost(g)) {
            Ok(()) => {},
            Err(e) => {
                return Err(e);
            },
        }
        match group_part(f, &self.3, 3, pretty, depth, Ghost(start), Ghost(g)) {
            Ok(()) => {},
            Err(e) => {
                return Err(e);
            },
        }
        match group_part(f, &self.4, 4, pretty, depth, Ghost(start), Ghost(g)) {
            Ok(()) => {},
            Err(e) => {
                return Err(e);
            },
        }
        match group_part(f, &self.5, 5, pretty, depth, Ghost(start), Ghost(g)) {
            Ok(()) => {},
            Err(e) => {
                return Err(e);
            },
        }
        match group_part(f, &self.6, 6, pretty, depth, Ghost(start), Ghost(g)) {
            Ok(()) => {},
            Err(e) => {
                return Err(e);
            },
        }
        match group_part(f, &self.7, 7, pretty, depth, Ghost(start), Ghost(g)) {
            Ok(()) => {},
            Err(e) => {
                return Err(e);
            },
        }
        match group_part(f, &self.8, 8, pretty, depth, Ghost(start), Ghost(g)) {
            Ok(()) => {},
            Err(e) => {
                return Err(e);
            },
        }
        match group_part(f, &self.9, 9, pretty, depth, Ghost(start), Ghost(g)) {
            Ok(()) => {},
            Err(e) => {
                return Err(e);
            },
        }
        match group_part(f, &self.10, 10, pretty, depth, Ghost(start), Ghost(g)) {
            Ok(()) => {},
            Err(e) => {
                return Err(e);
            },
        }
        match group_part(f, &self.11, 11, pretty, depth, Ghost(start), Ghost(g)) {
            Ok(()) => {},
            Err(e) => {
                return Err(e);
            },
        }
        group_end(f, ")", pretty, depth, false, Ghost(start), Ghost(g))
    }
}

/// The debug form of a row of values: the parts in square brackets, if the
/// debug form of every part is known.
pub open spec fn list_text(parts: Seq<Option<Seq<char>>>, pretty: bool, depth: usize) -> Option<
    Seq<char>,
> {
    if forall|i: int| 0 <= i < parts.len() ==> (#[trigger] parts[i]) is Some {
        Some(
            group_text(
                Seq::<char>::empty(),
                '[',
                ']',
                Seq::new(parts.len(), |i: int| known_text(parts[i])),
                pretty,
                depth,
                false,
            ),
        )
    } else {
        None
    }
}

/// The parts in square brackets.
impl<T: uDebug> uDebug for [T] {
    open spec fn debug_text(&self, pretty: bool, depth: usize) -> Option<Seq<char>> {
        list_text(
            Seq::new(self@.len(), |i: int| self@[i].debug_text(pretty, deeper(depth))),
            pretty,
            depth,
        )
    }

    fn fmt_debug<W>(&self, f: &mut Formatter<'_, W>, pretty: bool, depth: usize) -> (r: Result<
        (),
        W::Error,
    >) where W: uWrite + ?Sized {
        let n = self.len();
        let ghost parts = Seq::new(self@.len(), |i: int| self@[i].debug_text(pretty, deeper(depth)));
        let ghost g = Group {
            name: Seq::<char>::empty(),
            open: '[',
            close: ']',
            values: Seq::new(parts.len(), |i: int| known_text(parts[i])),
            pretty,
            depth,
            tuple: false,
            known: forall|i: int| 0 <= i < parts.len() ==> (#[trigger] parts[i]) is Some,
        };
        proof {
            reveal_strlit("");
            reveal_strlit("[");
            reveal_strlit("]");
            reveal_strlit("[]");
            assert(""@ =~= Seq::<char>::empty());
            assert("["@ =~= seq!['[']);
            assert("]"@ =~= seq![']']);
            assert("[]"@ =~= seq!['[', ']']);
        }
        if n == 0 {
            return f.write_str("[]");
        }
        let ghost start = f.sink();
        match group_begin(f, "", "[", pretty, Ghost(g)) {
            Ok(()) => {},
            Err(e) => {
                return Err(e);
            },
        }
        let mut i: usize = 0;
        while i < n
            invariant
                i <= n,
                n == self@.len(),
                n == g.values.len(),
                g.pretty == pretty,
                g.depth == depth,
                parts == Seq::new(self@.len(), |i: int| self@[i].debug_text(pretty, deeper(depth))),
                g.values == Seq::new(parts.len(), |i: int| known_text(parts[i])),
                g.known == (forall|i: int| 0 <= i < parts.len() ==> (#[trigger] parts[i]) is Some),
                g.known ==> wrote(start, f.sink(), true, g.head(i as int)),
                start == old(f).sink(),
                self.debug_text(pretty, depth) matches Some(text) ==> g.known && text == g.text(),
                &*final(f.writer) == &*final(old(f).writer),
            decreases n - i,
        {
            proof {
                if g.known {
                    assert(parts[i as int] is Some);
                }
            }
            match group_part(f, &self[i], i, pretty, depth, Ghost(start), Ghost(g)) {
                Ok(()) => {},
                Err(e) => {
                    return Err(e);
                },
            }
            i = i + 1;
        }
        group_end(f, "]", pretty, depth, false, Ghost(start), Ghost(g))
    }
}

/// The parts in square brackets.
impl<T: uDebug, const N: usize> uDebug for [T; N] {
    open spec fn debug_text(&self, pretty: bool, depth: usize) -> Option<Seq<char>> {
        list_text(
            Seq::new(self@.len(), |i: int| self@[i].debug_text(pretty, deeper(depth))),
            pretty,
            depth,
        )
    }

    fn fmt_debug<W>(&self, f: &mut Formatter<'_, W>, pretty: bool, depth: usize) -> (r: Result<
        (),
        W::Error,
    >) where W: uWrite + ?Sized {
        self.as_slice().fmt_debug(f, pretty, depth)
    }
}

/// The parts in square brackets.
impl<T: uDebug> uDebug for Vec<T> {
    open spec fn debug_text(&self, pretty: bool, depth: usize) -> Option<Seq<char>> {
        list_text(
            Seq::new(self@.len(), |i: int| self@[i].debug_text(pretty, deeper(depth))),
            pretty,
            depth,
        )
    }

    fn fmt_debug<W>(&self, f: &mut Formatter<'_, W>, pretty: bool, depth: usize) -> (r: Result<
        (),
        W::Error,
    >) where W: uWrite + ?Sized {
        self.as_slice().fmt_debug(f, pretty, depth)
    }
}

/// The debug form of a value on its own, prettily if `pretty` is set.
pub fn debug_string<T: uDebug + ?Sized>(value: &T, pretty: bool) -> (text: String)
    ensures
        value.debug_text(pretty, 0) matches Some(t) ==> text@ == t,
{
    let mut text = String::new();
    let mut f = Formatter::new(&mut text);
    let r = value.fmt_debug(&mut f, pretty, 0);
    proof {
        if value.debug_text(pretty, 0) is Some {
            let t = value.debug_text(pretty, 0)->0;
            assert(Seq::<char>::empty() + t =~= t);
        }
    }
    text
}

} // verus!
