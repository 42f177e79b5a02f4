//! The formatter's output buffer.
//!
//! `Buf` accumulates formatted text in an arena-allocated string and
//! normalizes whitespace as it goes: indentation and runs of spaces or
//! newlines are held pending and written out only when visible text
//! follows, so the buffer never ends a line in trailing spaces and
//! never emits indentation on a line that stays empty.

use vstd::prelude::*;

verus! {

/// The arena the buffer allocates its text in. Relied on as
/// bumpalo's `Bump` allocator type; the buffer only passes it through
/// to the string constructor.
#[verifier::external_type_specification]
#[verifier::external_body]
pub struct ExBump<const MIN_ALIGN: usize>(bumpalo::Bump<MIN_ALIGN>);

/// The arena-allocated string holding the flushed text. Relied on as
/// bumpalo's `String` collection, a growable UTF-8 string that mirrors
/// the standard one.
#[verifier::external_type_specification]
#[verifier::external_body]
pub struct ExBumpString<'bump>(bumpalo::collections::String<'bump>);

/// The characters an arena string holds, in order.
pub uninterp spec fn text_chars(s: bumpalo::collections::String) -> Seq<char>;

/// Relies on bumpalo::collections::String::new_in: a fresh string in
/// the given arena holds no characters.
#[verifier::external_body]
fn text_new_in<'a>(arena: &'a bumpalo::Bump) -> (s: bumpalo::collections::String<'a>)
    ensures
        text_chars(s) == Seq::<char>::empty(),
{
    bumpalo::collections::String::new_in(arena)
}

/// Relies on bumpalo::collections::String::push: appends one character.
#[verifier::external_body]
fn text_push(s: &mut bumpalo::collections::String, ch: char)
    ensures
        text_chars(*final(s)) == text_chars(*old(s)).push(ch),
{
    s.push(ch)
}

/// Relies on bumpalo::collections::String::push_str: appends a string
/// slice's characters.
#[verifier::external_body]
fn text_push_str(s: &mut bumpalo::collections::String, piece: &str)
    ensures
        text_chars(*final(s)) == text_chars(*old(s)) + piece@,
{
    s.push_str(piece)
}

/// Relies on bumpalo::collections::String::is_empty: whether the
/// string holds no characters.
#[verifier::external_body]
fn text_is_empty(s: &bumpalo::collections::String) -> (r: bool)
    ensures
        r == (text_chars(*s).len() == 0),
{
    s.is_empty()
}

/// Relies on str::ends_with through bumpalo's string, which derefs to
/// a string slice: whether the text ends in the given character.
#[verifier::external_body]
fn text_ends_with(s: &bumpalo::collections::String, ch: char) -> (r: bool)
    ensures
        r == (text_chars(*s).len() > 0 && text_chars(*s).last() == ch),
{
    s.as_str().ends_with(ch)
}

/// Relies on bumpalo::collections::String::as_str: a view of the held
/// characters.
#[verifier::external_body]
fn text_as_str<'s>(s: &'s bumpalo::collections::String) -> (r: &'s str)
    ensures
        r@ == text_chars(*s),
{
    s.as_str()
}

/// Relies on bumpalo::collections::String::into_bump_str: the held
/// characters as a slice living in the arena.
#[verifier::external_body]
fn text_into_bump_str<'a>(s: bumpalo::collections::String<'a>) -> (r: &'a str)
    ensures
        r@ == text_chars(s),
{
    s.into_bump_str()
}

/// `n` copies of one character.
pub open spec fn char_repeat(ch: char, n: nat) -> Seq<char> {
    Seq::new(n, |i: int| ch)
}

/// The abstract state of the buffer: the flushed text, the pending
/// spaces and newlines, and whether the cursor sits at the beginning
/// of a line (where indentation may still be set).
#[verifier::ext_equal]
pub ghost struct BufModel {
    pub text: Seq<char>,
    pub spaces_to_flush: nat,
    pub newlines_to_flush: nat,
    pub beginning_of_line: bool,
}

impl BufModel {
    /// The state after writing out all pending whitespace: first the
    /// pending newlines, then the pending spaces.
    pub open spec fn flushed(self) -> BufModel {
        BufModel {
            text: self.text + char_repeat('\n', self.newlines_to_flush) + char_repeat(
                ' ',
                self.spaces_to_flush,
            ),
            spaces_to_flush: 0,
            newlines_to_flush: 0,
            beginning_of_line: self.beginning_of_line,
        }
    }

    /// The state after making sure the text will end in a newline: one
    /// pending newline is added when the text is nonempty and none is
    /// pending, dropping any pending spaces.
    pub open spec fn with_newline(self) -> BufModel {
        if self.text.len() > 0 && self.newlines_to_flush == 0 {
            BufModel {
                text: self.text,
                spaces_to_flush: 0,
                newlines_to_flush: 1,
                beginning_of_line: true,
            }
        } else {
            self
        }
    }

    /// The state after making sure the text will end in a blank line:
    /// the pending newlines are topped up to two when the text is
    /// nonempty, dropping any pending spaces.
    pub open spec fn with_blank_line(self) -> BufModel {
        if self.text.len() > 0 && self.newlines_to_flush < 2 {
            BufModel {
                text: self.text,
                spaces_to_flush: 0,
                newlines_to_flush: 2,
                beginning_of_line: true,
            }
        } else {
            self
        }
    }
}

/// The formatter's output buffer.
pub struct Buf<'a> {
    text: bumpalo::collections::String<'a>,
    spaces_to_flush: usize,
    newlines_to_flush: usize,
    beginning_of_line: bool,
}

impl<'a> View for Buf<'a> {
    type V = BufModel;

    closed spec fn view(&self) -> BufModel {
        BufModel {
            text: text_chars(self.text),
            spaces_to_flush: self.spaces_to_flush as nat,
            newlines_to_flush: self.newlines_to_flush as nat,
            beginning_of_line: self.beginning_of_line,
        }
    }
}

impl<'a> Buf<'a> {
    /// An empty buffer allocating in the given arena, positioned at
    /// the beginning of the first line.
    pub fn new_in(arena: &'a bumpalo::Bump) -> (r: Buf<'a>)
        ensures
            r@ == (BufModel {
                text: Seq::<char>::empty(),
                spaces_to_flush: 0,
                newlines_to_flush: 0,
                beginning_of_line: true,
            }),
    {
        Buf {
            text: text_new_in(arena),
            spaces_to_flush: 0,
            newlines_to_flush: 0,
            beginning_of_line: true,
        }
    }

    /// The flushed text; pending whitespace is not visible here.
    pub fn as_str<'s>(&'s self) -> (r: &'s str)
        ensures
            r@ == self@.text,
    {
        text_as_str(&self.text)
    }

    /// The flushed text as a slice living in the arena.
    pub fn into_bump_str(self) -> (r: &'a str)
        ensures
            r@ == self@.text,
    {
        text_into_bump_str(self.text)
    }

    /// Sets the line's indentation, if the cursor still sits at the
    /// beginning of the line; either way the line has now begun.
    pub fn indent(&mut self, indent: u16)
        ensures
            final(self)@.text == old(self)@.text,
            final(self)@.newlines_to_flush == old(self)@.newlines_to_flush,
            final(self)@.spaces_to_flush == if old(self)@.beginning_of_line {
                indent as nat
            } else {
                old(self)@.spaces_to_flush
            },
            final(self)@.beginning_of_line == false,
    {
        if self.beginning_of_line {
            self.spaces_to_flush = indent as usize;
        }
        self.beginning_of_line = false;
    }

    /// Writes out the pending newlines, then the pending spaces.
    fn flush_spaces(&mut self)
        ensures
            final(self)@ == old(self)@.flushed(),
    {
        let ghost start = self@;
        let n_newlines = self.newlines_to_flush;
        let mut i: usize = 0;
        while i < n_newlines
            invariant
                0 <= i <= n_newlines,
                text_chars(self.text) == start.text + char_repeat('\n', i as nat),
                self.spaces_to_flush == start.spaces_to_flush,
                self.newlines_to_flush == n_newlines,
                n_newlines == start.newlines_to_flush,
                self.beginning_of_line == start.beginning_of_line,
            decreases n_newlines - i,
        {
            text_push(&mut self.text, '\n');
            proof {
                assert(start.text + char_repeat('\n', i as nat + 1) =~= (start.text + char_repeat(
                    '\n',
                    i as nat,
                )).push('\n'));
            }
            i += 1;
        }
        self.newlines_to_flush = 0;

        let n_spaces = self.spaces_to_flush;
        let ghost mid = text_chars(self.text);
        let mut j: usize = 0;
        while j < n_spaces
            invariant
                0 <= j <= n_spaces,
                text_chars(self.text) == mid + char_repeat(' ', j as nat),
                mid == start.text + char_repeat('\n', start.newlines_to_flush),
                self.spaces_to_flush == n_spaces,
                n_spaces == start.spaces_to_flush,
                self.newlines_to_flush == 0,
                self.beginning_of_line == start.beginning_of_line,
            decreases n_spaces - j,
        {
            text_push(&mut self.text, ' ');
            proof {
                assert(mid + char_repeat(' ', j as nat + 1) =~= (mid + char_repeat(
                    ' ',
                    j as nat,
                )).push(' '));
            }
            j += 1;
        }
        self.spaces_to_flush = 0;
        proof {
            assert(mid + char_repeat(' ', 0) =~= mid);
            assert(start.text + char_repeat('\n', 0) =~= start.text);
            assert(self@ =~= start.flushed());
        }
    }

    /// Appends one visible character after flushing the pending
    /// whitespace. Newlines and spaces go through their own entry
    /// points, and a line must have begun.
    pub fn push(&mut self, ch: char)
        requires
            !old(self)@.beginning_of_line,
            ch != '\n',
            ch != ' ',
        ensures
            final(self)@.text == old(self)@.flushed().text.push(ch),
            final(self)@.spaces_to_flush == 0,
            final(self)@.newlines_to_flush == 0,
            final(self)@.beginning_of_line == old(self)@.beginning_of_line,
    {
        self.flush_spaces();
        text_push(&mut self.text, ch);
    }

    /// Appends a slice that may carry meaningful spaces, after
    /// flushing the pending whitespace.
    pub fn push_str_allow_spaces(&mut self, s: &str)
        requires
            !old(self)@.beginning_of_line,
        ensures
            final(self)@.text == old(self)@.flushed().text + s@,
            final(self)@.spaces_to_flush == 0,
            final(self)@.newlines_to_flush == 0,
            final(self)@.beginning_of_line == old(self)@.beginning_of_line,
    {
        self.flush_spaces();
        text_push_str(&mut self.text, s);
    }

    /// Appends a slice holding no newline and no trailing space. An
    /// empty slice changes nothing — not even the pending whitespace.
    pub fn push_str(&mut self, s: &str)
        requires
            !old(self)@.beginning_of_line,
            forall|i: int| 0 <= i < s@.len() ==> s@[i] != '\n',
            s@.len() > 0 ==> s@.last() != ' ',
        ensures
            s@.len() == 0 ==> final(self)@ == old(self)@,
            s@.len() > 0 ==> final(self)@.text == old(self)@.flushed().text + s@
                && final(self)@.spaces_to_flush == 0 && final(self)@.newlines_to_flush == 0,
            final(self)@.beginning_of_line == old(self)@.beginning_of_line,
    {
        if !s.is_empty() {
            self.flush_spaces();
        }
        text_push_str(&mut self.text, s);
        proof {
            if s@.len() == 0 {
                assert(text_chars(self.text) =~= old(self)@.text);
                assert(self@ =~= old(self)@);
            }
        }
    }

    /// Appends one character of a character literal verbatim, after
    /// flushing the pending whitespace.
    pub fn push_char_literal(&mut self, c: char)
        ensures
            final(self)@.text == old(self)@.flushed().text.push(c),
            final(self)@.spaces_to_flush == 0,
            final(self)@.newlines_to_flush == 0,
            final(self)@.beginning_of_line == old(self)@.beginning_of_line,
    {
        self.flush_spaces();
        text_push(&mut self.text, c);
    }

    /// Adds pending spaces; nothing is written until visible text
    /// follows.
    pub fn spaces(&mut self, count: usize)
        requires
            old(self)@.spaces_to_flush + count <= usize::MAX,
        ensures
            final(self)@.text == old(self)@.text,
            final(self)@.spaces_to_flush == old(self)@.spaces_to_flush + count,
            final(self)@.newlines_to_flush == old(self)@.newlines_to_flush,
            final(self)@.beginning_of_line == old(self)@.beginning_of_line,
    {
        self.spaces_to_flush = self.spaces_to_flush + count;
    }

    /// Ends the line: drops its pending spaces, adds one pending
    /// newline, and returns the cursor to the beginning of a line.
    pub fn newline(&mut self)
        requires
            old(self)@.newlines_to_flush < usize::MAX,
        ensures
            final(self)@.text == old(self)@.text,
            final(self)@.spaces_to_flush == 0,
            final(self)@.newlines_to_flush == old(self)@.newlines_to_flush + 1,
            final(self)@.beginning_of_line == true,
    {
        self.spaces_to_flush = 0;
        self.newlines_to_flush = self.newlines_to_flush + 1;
        self.beginning_of_line = true;
    }

    /// Ensures the buffer ends in a newline, if it didn't already.
    /// Doesn't add a newline if one is already pending or the buffer
    /// is empty.
    pub fn ensure_ends_with_newline(&mut self)
        ensures
            final(self)@ == old(self)@.with_newline(),
    {
        if !text_is_empty(&self.text) && self.newlines_to_flush == 0 {
            self.newline()
        }
        proof {
            assert(self@ =~= old(self)@.with_newline());
        }
    }

    /// Ensures the buffer ends in a blank line, topping the pending
    /// newlines up to two unless the buffer is empty.
    pub fn ensure_ends_with_blank_line(&mut self)
        ensures
            final(self)@ == old(self)@.with_blank_line(),
    {
        if !text_is_empty(&self.text) && self.newlines_to_flush < 2 {
            self.spaces_to_flush = 0;
            self.newlines_to_flush = 2;
            self.beginning_of_line = true;
        }
        proof {
            assert(self@ =~= old(self)@.with_blank_line());
        }
    }

    /// Ensures the text ends in a newline with no whitespace preceding
    /// it, and writes everything out.
    pub fn fmt_end_of_file(&mut self)
        ensures
            final(self)@ == old(self)@.with_newline().flushed(),
    {
        self.ensure_ends_with_newline();
        self.flush_spaces();
    }

    /// Whether what has been written so far ends in a space: pending
    /// spaces count, pending newlines do not.
    pub fn ends_with_space(&self) -> (r: bool)
        ensures
            r == (self@.spaces_to_flush > 0 || (self@.text.len() > 0 && self@.text.last() == ' ')),
    {
        self.spaces_to_flush > 0 || text_ends_with(&self.text, ' ')
    }

    /// Whether what has been written so far ends in a newline, pending
    /// ones included.
    pub fn ends_with_newline(&self) -> (r: bool)
        ensures
            r == (self@.newlines_to_flush > 0 || (self@.text.len() > 0 && self@.text.last()
                == '\n')),
    {
        self.newlines_to_flush > 0 || text_ends_with(&self.text, '\n')
    }
}

} // verus!
