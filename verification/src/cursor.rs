//! A restartable, peekable view over a path's character sequence.
//!
//! The cursor is an integer offset into a borrowed string, so duplicating one
//! (it is `Copy`) is cheap: the dispatcher snapshots the cursor before trying
//! an alternative and simply discards the copy when the attempt fails.

use vstd::prelude::*;

verus! {

/// A position within a borrowed path string.  Cloning yields an independent
/// cursor over the same character sequence at the same position.
#[derive(Clone, Copy)]
pub struct Cursor<'a> {
    text: &'a str,
    at: usize,
    len: usize,
}

impl<'a> Cursor<'a> {
    /// The character sequence the cursor ranges over.
    pub closed spec fn chars(self) -> Seq<char> {
        self.text@
    }

    /// The current position, in characters from the start of the path.
    pub closed spec fn pos(self) -> int {
        self.at as int
    }

    /// The cached character count agrees with the text.
    pub closed spec fn len_cached(self) -> bool {
        self.len == self.text@.len()
    }

    /// Well-formed: the position has not run past the end of the text, whose
    /// character count fits a machine word.
    pub open spec fn wf(self) -> bool {
        &&& self.len_cached()
        &&& 0 <= self.pos() <= self.chars().len()
        &&& self.chars().len() <= usize::MAX
    }

    /// A fresh cursor at the start of `text`.
    pub fn new(text: &'a str) -> (c: Cursor<'a>)
        ensures
            c.wf(),
            c.chars() == text@,
            c.pos() == 0,
    {
        let len = text.unicode_len();
        Cursor { text, at: 0, len }
    }

    /// The next character, if any, without consuming it.
    pub fn peek(&self) -> (r: Option<char>)
        requires
            self.wf(),
        ensures
            r == (if self.pos() < self.chars().len() {
                Some(self.chars()[self.pos()])
            } else {
                None::<char>
            }),
    {
        if self.at < self.len {
            Some(self.text.get_char(self.at))
        } else {
            None
        }
    }

    /// Consumes one character.
    pub fn advance(&mut self)
        requires
            old(self).wf(),
            old(self).pos() < old(self).chars().len(),
        ensures
            final(self).wf(),
            final(self).chars() == old(self).chars(),
            final(self).pos() == old(self).pos() + 1,
    {
        self.at = self.at + 1;
    }

    /// True exactly when every character has been consumed.
    pub fn is_exhausted(&self) -> (r: bool)
        requires
            self.wf(),
        ensures
            r == (self.pos() == self.chars().len()),
    {
        self.at == self.len
    }

    /// The current position as a count of consumed characters.
    pub fn position(&self) -> (r: usize)
        ensures
            r as int == self.pos(),
    {
        self.at
    }

    /// The total number of characters in the path.
    pub fn char_len(&self) -> (r: usize)
        requires
            self.wf(),
        ensures
            r as int == self.chars().len(),
    {
        self.len
    }

    /// Consumes everything remaining.
    pub fn seek_end(&mut self)
        requires
            old(self).wf(),
        ensures
            final(self).wf(),
            final(self).chars() == old(self).chars(),
            final(self).pos() == old(self).chars().len(),
    {
        self.at = self.len;
    }

    /// A copy of the characters between two positions, for captured segments.
    pub fn extract(&self, from: usize, to: usize) -> (r: String)
        requires
            self.wf(),
            from <= to <= self.chars().len(),
        ensures
            r@ == self.chars().subrange(from as int, to as int),
    {
        let piece = self.text.substring_char(from, to);
        piece.to_owned()
    }
}

} // verus!
