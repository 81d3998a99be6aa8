//! Output sinks: anything that accepts finished text one chunk at a time.

use vstd::prelude::*;
use crate::padding::{lemma_text_len_adds, text_len};

verus! {

/// A sink for finished text.
///
/// A sink takes each chunk whole or not at all. A sink may keep account of
/// the text it has taken, and may promise never to refuse a chunk; one that
/// says nothing of itself does neither.
#[allow(non_camel_case_types)]
pub trait uWrite {
    /// The error a sink reports when it refuses a chunk.
    type Error;

    /// The text that the sink has accepted so far, if it keeps account of it.
    open spec fn written(&self) -> Option<Seq<char>> {
        None
    }

    /// Whether the sink is bound to accept every chunk from now on.
    open spec fn unfailing(&self) -> bool {
        false
    }

    /// Hands one chunk to the sink.
    fn write_str(&mut self, s: &str) -> (r: Result<(), Self::Error>)
        ensures
            old(self).written() matches Some(before) ==> final(self).written() == Some(
                if r is Ok {
                    before + s@
                } else {
                    before
                },
            ),
            old(self).unfailing() ==> r is Ok && final(self).unfailing(),
    ;
}

impl uWrite for String {
    type Error = ();

    open spec fn written(&self) -> Option<Seq<char>> {
        Some(self@)
    }

    open spec fn unfailing(&self) -> bool {
        true
    }

    fn write_str(&mut self, s: &str) -> (r: Result<(), ()>) {
        self.append(s);
        Ok(())
    }
}

/// What one formatting step did to a sink that was `before` and is `after`:
/// if the step succeeded, all of `text` was appended; if a write was refused,
/// the step stopped there and only a leading part of `text` arrived. A sink
/// that is bound to accept lets every step succeed.
pub open spec fn wrote<W: uWrite + ?Sized>(before: &W, after: &W, ok: bool, text: Seq<char>) -> bool {
    &&& before.written() matches Some(had) ==> {
        &&& after.written() matches Some(has)
        &&& ok ==> has == had + text
        &&& !ok ==> exists|k: int|
            0 <= k <= text.len() && has == had + #[trigger] text.subrange(0, k)
    }
    &&& before.unfailing() ==> ok && after.unfailing()
}

/// A step that wrote nothing.
pub proof fn lemma_wrote_nothing<W: uWrite + ?Sized>(w: &W)
    ensures
        wrote(w, w, true, Seq::<char>::empty()),
{
    if w.written() is Some {
        assert(w.written()->0 + Seq::<char>::empty() =~= w.written()->0);
    }
}

/// A successful step followed by a second step is one step on the joined text.
pub proof fn lemma_wrote_then<W: uWrite + ?Sized>(
    a: &W,
    b: &W,
    c: &W,
    ok: bool,
    t1: Seq<char>,
    t2: Seq<char>,
)
    requires
        wrote(a, b, true, t1),
        wrote(b, c, ok, t2),
    ensures
        wrote(a, c, ok, t1 + t2),
{
    if a.written() is Some {
        let had = a.written()->0;
        let mid = b.written()->0;
        let has = c.written()->0;
        if ok {
            assert(had + t1 + t2 =~= had + (t1 + t2));
        } else {
            let k = choose|k: int| 0 <= k <= t2.len() && has == mid + #[trigger] t2.subrange(0, k);
            let k2 = t1.len() + k;
            assert((t1 + t2).subrange(0, k2) =~= t1 + t2.subrange(0, k));
            assert(had + t1 + t2.subrange(0, k) =~= had + (t1 + t2).subrange(0, k2));
        }
    }
}

/// A step that stopped at a refused write stays stopped, whatever text was
/// still to come.
pub proof fn lemma_wrote_stop<W: uWrite + ?Sized>(a: &W, b: &W, t1: Seq<char>, t2: Seq<char>)
    requires
        wrote(a, b, false, t1),
    ensures
        wrote(a, b, false, t1 + t2),
{
    if a.written() is Some {
        let had = a.written()->0;
        let has = b.written()->0;
        let k = choose|k: int| 0 <= k <= t1.len() && has == had + #[trigger] t1.subrange(0, k);
        assert((t1 + t2).subrange(0, k) =~= t1.subrange(0, k));
    }
}

/// The error of a sink that has no room for a chunk.
#[derive(Debug, PartialEq, Eq, Structural, Clone, Copy)]
pub struct CapacityError;

/// A sink that takes text up to a fixed number of bytes and refuses the
/// chunk that would go beyond it.
pub struct BoundedString {
    text: String,
    capacity: usize,
}

impl View for BoundedString {
    type V = Seq<char>;

    /// The text that the sink holds.
    closed spec fn view(&self) -> Seq<char> {
        self.text@
    }
}

impl BoundedString {
    /// The greatest number of bytes that the sink holds.
    pub closed spec fn limit(&self) -> nat {
        self.capacity as nat
    }

    /// An empty sink for at most `capacity` bytes.
    pub fn new(capacity: usize) -> (r: Self)
        ensures
            r@ == Seq::<char>::empty(),
            r.limit() == capacity,
    {
        BoundedString { text: String::new(), capacity }
    }

    /// The greatest number of bytes that the sink holds.
    pub fn capacity(&self) -> (n: usize)
        ensures
            n == self.limit(),
    {
        self.capacity
    }

    /// The text that the sink holds.
    pub fn as_str(&self) -> (r: &str)
        ensures
            r@ == self@,
    {
        self.text.as_str()
    }
}

impl uWrite for BoundedString {
    type Error = CapacityError;

    open spec fn written(&self) -> Option<Seq<char>> {
        Some(self@)
    }

    /// A chunk is accepted exactly if there is room for all of it.
    fn write_str(&mut self, s: &str) -> (r: Result<(), CapacityError>)
        ensures
            r is Ok <==> text_len(old(self)@) + text_len(s@) <= old(self).limit(),
            final(self).limit() == old(self).limit(),
            text_len(old(self)@) <= old(self).limit() ==> text_len(final(self)@)
                <= final(self).limit(),
    {
        proof {
            lemma_text_len_adds(self.text@, s@);
        }
        let held = self.text.as_str().as_bytes().len();
        if held > self.capacity || s.as_bytes().len() > self.capacity - held {
            Err(CapacityError)
        } else {
            self.text.append(s);
            Ok(())
        }
    }
}

} // verus!
