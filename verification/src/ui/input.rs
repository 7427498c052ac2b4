//! The numeric input buffer of a tool field: digits, one decimal point,
//! a leading minus sign, at most 15 bytes.

use vstd::prelude::*;
use vstd::utf8::{valid_utf8, decode_utf8};

verus! {

/// Capacity of a field: a byte is only added while the text is shorter.
pub const MAX_LEN: usize = 15;

/// The text that a byte sequence reads as: its UTF-8 decoding, or `0` when it is
/// not valid UTF-8.
pub open spec fn shown_text(bytes: Seq<u8>) -> Seq<char> {
    if valid_utf8(bytes) {
        decode_utf8(bytes)
    } else {
        "0"@
    }
}

/// `c` appended when there is room.
pub open spec fn appended(t: Seq<u8>, c: u8) -> Seq<u8> {
    if t.len() < 15 {
        t.push(c)
    } else {
        t
    }
}

/// Whether the text already holds a decimal point.
pub open spec fn has_dot(t: Seq<u8>) -> bool {
    valid_utf8(t) && t.contains(46u8)
}

/// The text after a decimal point is entered.
pub open spec fn dotted(t: Seq<u8>) -> Seq<u8> {
    if has_dot(t) {
        t
    } else {
        appended(t, 46u8)
    }
}

/// The text after the sign is toggled: a leading `-` is removed, otherwise one is
/// put in front when there is room.
pub open spec fn toggled(t: Seq<u8>) -> Seq<u8> {
    if t.len() == 0 {
        seq![45u8]
    } else if t[0] == 45u8 {
        t.drop_first()
    } else if t.len() < 15 {
        seq![45u8] + t
    } else {
        t
    }
}

/// The text after one byte is erased from its end.
pub open spec fn backspaced(t: Seq<u8>) -> Seq<u8> {
    if t.len() > 0 {
        t.drop_last()
    } else {
        t
    }
}

/// `new` is `old` with the byte `c` appended when there is room.
pub open spec fn pushed(old: InputBuffer, new: InputBuffer, c: u8) -> bool {
    &&& old.len < 15 ==> new.len == old.len + 1 && new.buf@ == old.buf@.update(old.len as int, c)
    &&& old.len >= 15 ==> new == old
}

/// Decodes bytes as UTF-8 with `core::str::from_utf8`, which the standard
/// library documents as succeeding exactly on valid UTF-8, giving the string
/// those bytes encode; its error is turned into `None`.
#[verifier::external_body]
fn str_from_utf8(v: &[u8]) -> (r: Option<&str>)
    ensures
        r is Some <==> valid_utf8(v@),
        r matches Some(s) ==> s@ == decode_utf8(v@),
{
    core::str::from_utf8(v).ok()
}

#[derive(Clone, Copy)]
pub struct InputBuffer {
    pub buf: [u8; 16],
    pub len: usize,
}

impl View for InputBuffer {
    type V = Seq<u8>;

    /// The bytes entered so far.
    open spec fn view(&self) -> Seq<u8> {
        self.buf@.subrange(0, self.len as int)
    }
}

impl InputBuffer {
    /// The length never exceeds the capacity.
    pub open spec fn wf(&self) -> bool {
        self.len <= 15
    }

    /// An empty buffer whose storage is all zero bytes.
    pub fn new() -> (r: Self)
        ensures
            r.wf(),
            r@ == Seq::<u8>::empty(),
            r.len == 0,
            forall|i: int| 0 <= i < 16 ==> r.buf@[i] == 0u8,
    {
        InputBuffer { buf: [0u8; 16], len: 0 }
    }

    /// Appends the byte `c` when there is room.
    pub fn push_char(&mut self, c: u8)
        ensures
            pushed(*old(self), *final(self), c),
            old(self).len <= 16 ==> final(self)@ == appended(old(self)@, c),
            old(self).wf() ==> final(self).wf(),
    {
        if self.len < 15 {
            self.buf[self.len] = c;
            self.len = self.len + 1;
            proof {
                assert(final(self)@ =~= old(self)@.push(c));
            }
        }
    }

    /// Appends the digit `d` when there is room.
    pub fn push_digit(&mut self, d: u8)
        requires
            d <= 207,
        ensures
            pushed(*old(self), *final(self), (48 + d) as u8),
            old(self).len <= 16 ==> final(self)@ == appended(old(self)@, (48 + d) as u8),
            old(self).wf() ==> final(self).wf(),
    {
        self.push_char(48 + d);
    }

    /// Appends a decimal point, unless the text already holds one or is full.
    pub fn push_dot(&mut self)
        requires
            old(self).len <= 16,
        ensures
            final(self).len <= 16,
            final(self)@ == dotted(old(self)@),
            old(self).wf() ==> final(self).wf(),
    {
        let text = vstd::slice::slice_subrange(self.buf.as_slice(), 0, self.len);
        let found = match str_from_utf8(text) {
            Some(_) => {
                let mut i: usize = 0;
                let mut seen = false;
                while i < self.len
                    invariant
                        i <= self.len <= 16,
                        text@ == old(self)@,
                        *self == *old(self),
                        seen == text@.subrange(0, i as int).contains(46u8),
                    decreases self.len - i,
                {
                    if self.buf[i] == 46u8 {
                        seen = true;
                        proof {
                            assert(text@.subrange(0, i + 1)[i as int] == 46u8);
                        }
                    } else {
                        proof {
                            assert(text@.subrange(0, i + 1) =~= text@.subrange(0, i as int).push(self.buf@[i as int]));
                        }
                    }
                    i = i + 1;
                }
                proof {
                    assert(text@.subrange(0, self.len as int) =~= text@);
                }
                seen
            },
            None => false,
        };
        if !found {
            self.push_char(46u8);
        }
    }

    /// Removes a leading minus sign, or puts one in front when there is room.
    pub fn toggle_sign(&mut self)
        requires
            old(self).len <= 16 || old(self).buf@[0] != 45u8,
        ensures
            old(self).len <= 16 ==> final(self).len <= 16 && final(self)@ == toggled(old(self)@),
            old(self).len > 16 ==> *final(self) == *old(self),
            old(self).wf() ==> final(self).wf(),
    {
        if self.len == 0 {
            self.buf[0] = 45u8;
            self.len = 1;
            proof {
                assert(final(self)@ =~= seq![45u8]);
            }
        } else if self.buf[0] == 45u8 {
            let n = self.len;
            let mut i: usize = 0;
            while i < n - 1
                invariant
                    1 <= n <= 16,
                    self.len == n,
                    i <= n - 1,
                    forall|j: int| 0 <= j < i ==> self.buf@[j] == old(self).buf@[j + 1],
                    forall|j: int| i <= j < 16 ==> self.buf@[j] == old(self).buf@[j],
                decreases n - 1 - i,
            {
                self.buf[i] = self.buf[i + 1];
                i = i + 1;
            }
            self.len = n - 1;
            proof {
                assert(final(self)@ =~= old(self)@.drop_first());
            }
        } else if self.len < 15 {
            let n = self.len;
            let mut i: usize = n;
            while i > 0
                invariant
                    1 <= n < 15,
                    self.len == n,
                    i <= n,
                    forall|j: int| 0 <= j <= i ==> self.buf@[j] == old(self).buf@[j],
                    forall|j: int| i < j <= n ==> self.buf@[j] == old(self).buf@[j - 1],
                decreases i,
            {
                self.buf[i] = self.buf[i - 1];
                i = i - 1;
            }
            self.buf[0] = 45u8;
            self.len = n + 1;
            proof {
                assert(final(self)@ =~= seq![45u8] + old(self)@);
            }
        }
    }

    /// Erases the last byte, if any.
    pub fn backspace(&mut self)
        ensures
            final(self).buf == old(self).buf,
            final(self).len == if old(self).len > 0 { old(self).len - 1 } else { 0 },
            old(self).len <= 16 ==> final(self)@ == backspaced(old(self)@),
            old(self).wf() ==> final(self).wf(),
    {
        if self.len > 0 {
            self.len = self.len - 1;
            proof {
                if old(self).len <= 16 {
                    assert(final(self)@ =~= old(self)@.drop_last());
                }
            }
        }
    }

    /// Erases the whole text.
    pub fn clear(&mut self)
        ensures
            final(self).buf == old(self).buf,
            final(self).len == 0,
            final(self).wf(),
            final(self)@ == Seq::<u8>::empty(),
    {
        self.len = 0;
        proof {
            assert(final(self)@ =~= Seq::<u8>::empty());
        }
    }

    /// The text as a string: the bytes read as UTF-8, or `0` when they are not
    /// valid UTF-8.
    pub fn as_str(&self) -> (s: &str)
        requires
            self.len <= 16,
        ensures
            s@ == shown_text(self@),
    {
        let text = vstd::slice::slice_subrange(self.buf.as_slice(), 0, self.len);
        str_from_utf8(text).unwrap_or("0")
    }
}

impl Default for InputBuffer {
    /// An empty buffer.
    fn default() -> (r: Self)
        ensures
            r.wf(),
            r@ == Seq::<u8>::empty(),
    {
        InputBuffer::new()
    }
}

/// Entering a byte and erasing it gives back the text, while there is room.
pub proof fn lemma_backspace_undoes_append(t: Seq<u8>, c: u8)
    requires
        t.len() < 15,
    ensures
        backspaced(appended(t, c)) == t,
{
    assert(t.push(c).drop_last() =~= t);
}

/// Toggling the sign twice gives back the text, unless it starts with `--`.
pub proof fn lemma_toggle_twice(t: Seq<u8>)
    requires
        t.len() <= 15,
        !(t.len() >= 2 && t[0] == 45u8 && t[1] == 45u8),
    ensures
        toggled(toggled(t)) == t,
{
    if t.len() == 0 {
        assert(seq![45u8].drop_first() =~= t);
    } else if t[0] == 45u8 {
        let r = t.drop_first();
        if r.len() == 0 {
            assert(seq![45u8] =~= t);
        } else {
            assert(seq![45u8] + r =~= t);
        }
    } else if t.len() < 15 {
        assert((seq![45u8] + t).drop_first() =~= t);
    }
}

/// A second decimal point changes nothing, on text that is valid UTF-8.
pub proof fn lemma_dot_idempotent(t: Seq<u8>)
    requires
        t.len() <= 15,
        valid_utf8(t),
    ensures
        dotted(dotted(t)) == dotted(t),
{
    if !has_dot(t) && t.len() < 15 {
        let dot = seq![46u8];
        assert(vstd::utf8::valid_first_scalar(dot));
        assert(vstd::utf8::pop_first_scalar(dot) =~= Seq::<u8>::empty());
        assert(valid_utf8(Seq::<u8>::empty()));
        assert(valid_utf8(dot));
        vstd::utf8::valid_utf8_concat(t, dot);
        let u = t.push(46u8);
        assert(t + dot =~= u);
        assert(u[t.len() as int] == 46u8);
        assert(u.contains(46u8));
    }
}

} // verus!
