//! Counts the lines of one source and parses each.

use vstd::prelude::*;

use crate::directive::{parsed_line, Directive, DirectiveModel};

verus! {

/// The number of the line that follows line `position`: one more, as far as
/// the machine counts.
pub open spec fn next_position(position: usize) -> usize {
    if position < usize::MAX {
        (position + 1) as usize
    } else {
        position
    }
}

/// What comes of one read of a source of lines: the directive of `line`, or
/// the end of the source where no line is left.
pub open spec fn directive_read(line: Option<Seq<char>>) -> DirectiveModel {
    match line {
        Some(text) => parsed_line(text),
        None => DirectiveModel::Close,
    }
}

/// A reader of lines, with the number of the line that was read last. The
/// first line of a source is line 1.
#[derive(Debug)]
pub struct DirectiveReader<R>(R, usize);

impl<R> DirectiveReader<R> {
    /// The number of the line that was read last; 0 before the first.
    pub closed spec fn position(&self) -> usize {
        self.1
    }

    /// The reader that the lines come from.
    pub closed spec fn inner(&self) -> R {
        self.0
    }

    pub fn new(read: R) -> (reader: Self)
        ensures
            reader.position() == 0,
            reader.inner() == read,
    {
        Self(read, 0)
    }

    /// Takes what was just read from the reader, a line or nothing at its
    /// end, and gives the number of the line and its directive; the end of
    /// the reader gives `Close`.
    pub fn read(&mut self, line: Option<&str>) -> (read: (usize, Directive))
        ensures
            final(self).position() == next_position(old(self).position()),
            final(self).inner() == old(self).inner(),
            read.0 == final(self).position(),
            read.1@ == directive_read(
                match line {
                    Some(text) => Some(text@),
                    None => None,
                },
            ),
    {
        if self.1 < usize::MAX {
            self.1 = self.1 + 1;
        }
        match line {
            Some(text) => (self.1, Directive::parse_line(text)),
            None => (self.1, Directive::Close),
        }
    }

    /// Counts a line that could not be read, and gives its number.
    pub fn skip(&mut self) -> (position: usize)
        ensures
            final(self).position() == next_position(old(self).position()),
            final(self).inner() == old(self).inner(),
            position == final(self).position(),
    {
        if self.1 < usize::MAX {
            self.1 = self.1 + 1;
        }
        self.1
    }

    /// The reader that the lines come from, for the next line to be read.
    pub fn reader(&mut self) -> (read: &mut R)
        ensures
            *read == old(self).inner(),
            final(self).inner() == *final(read),
            final(self).position() == old(self).position(),
    {
        &mut self.0
    }
}

} // verus!
