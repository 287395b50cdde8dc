//! The stream of directives of one source: what is read from its lines and
//! what was put back to be read first.

use vstd::prelude::*;

use crate::directive::{Directive, DirectiveModel};
use crate::line_view::directive_reader::{directive_read, next_position, DirectiveReader};

verus! {

/// Anything that gives the directives of a source one by one.
pub trait DirectiveSource {
    /// Whether the next read takes a line from outside.
    fn needs_line(&self) -> bool;

    /// The number of the line and the directive that come next. `line` is
    /// what was just read from outside, a line or nothing at the end.
    fn read(&mut self, line: Option<&str>) -> (usize, Directive);
}

impl<R> DirectiveSource for DirectiveReader<R> {
    fn needs_line(&self) -> (needs: bool)
        ensures
            needs,
    {
        true
    }

    fn read(&mut self, line: Option<&str>) -> (read: (usize, Directive))
        ensures
            final(self).position() == next_position(old(self).position()),
            read.0 == final(self).position(),
            read.1@ == directive_read(line_model(line)),
    {
        DirectiveReader::read(self, line)
    }
}

impl<R> DirectiveSource for DirectiveStream<R> {
    fn needs_line(&self) -> (needs: bool)
        ensures
            needs == self@.wants_line(),
    {
        DirectiveStream::needs_line(self)
    }

    fn read(&mut self, line: Option<&str>) -> (read: (usize, Directive))
        ensures
            final(self)@ == old(self)@.read(line_model(line)).stream,
            read.0 == old(self)@.read(line_model(line)).position,
            read.1@ == old(self)@.read(line_model(line)).directive,
    {
        DirectiveStream::read(self, line)
    }
}

/// How far a stream is from its end.
#[derive(Debug, Clone, Copy, PartialEq, Eq, Structural)]
pub enum Ending {
    /// The reader has lines left, as far as is known.
    Open,
    /// The reader came to its end at this line and the empty line that
    /// closes every source was given out; `Close` comes next.
    Closing(usize),
    /// `Close` was given out, at this line.
    Closed(usize),
}

/// What a [`DirectiveStream`] stands for.
#[verifier::ext_equal]
pub struct StreamModel {
    /// What was put back, the directive to be read next at the end.
    pub stack: Seq<(usize, DirectiveModel)>,
    /// The number of the line that the reader read last; `None` for a stream
    /// without a reader.
    pub reader: Option<usize>,
    pub ending: Ending,
}

/// What one read gives: the stream as it is left, the number of the line, and
/// the directive.
#[verifier::ext_equal]
pub struct ReadModel {
    pub stream: StreamModel,
    pub position: usize,
    pub directive: DirectiveModel,
}

impl StreamModel {
    /// The stream over a reader that has read nothing yet.
    pub open spec fn fresh() -> StreamModel {
        StreamModel { stack: Seq::empty(), reader: Some(0), ending: Ending::Open }
    }

    /// The stream without a reader.
    pub open spec fn null() -> StreamModel {
        StreamModel { stack: Seq::empty(), reader: None, ending: Ending::Open }
    }

    /// Whether the next read takes a line from the reader.
    pub open spec fn wants_line(self) -> bool {
        self.stack.len() == 0 && self.ending == Ending::Open && self.reader is Some
    }

    /// The stream with `directive` put back for line `position`.
    pub open spec fn pushed(self, position: usize, directive: DirectiveModel) -> StreamModel {
        StreamModel {
            stack: self.stack.push((position, directive)),
            reader: self.reader,
            ending: self.ending,
        }
    }

    /// The stream of a reader that failed on its next line, where the stream
    /// wanted that line: the warning `error` comes next, then the empty line
    /// that closes every source, then `Close`, all at the line that could not
    /// be read. A stream that wanted no line stays as it is.
    pub open spec fn failed(self, error: Seq<char>) -> StreamModel {
        if self.wants_line() {
            let position = next_position(self.reader->0);
            StreamModel {
                stack: seq![
                    (position, DirectiveModel::Empty),
                    (position, DirectiveModel::Warning(error)),
                ],
                reader: Some(position),
                ending: Ending::Closing(position),
            }
        } else {
            self
        }
    }

    /// One read. What was put back comes first, last in first out. Then come
    /// the lines of the reader, `line` being the one just read from it. Where
    /// the reader ends, by running out of lines or by a line that closes the
    /// source, the stream gives one empty line and then `Close`, both at the
    /// line of the end, and `Close` from then on. A stream without a reader
    /// gives nothing, at line 0.
    pub open spec fn read(self, line: Option<Seq<char>>) -> ReadModel {
        if self.stack.len() > 0 {
            ReadModel {
                stream: StreamModel {
                    stack: self.stack.drop_last(),
                    reader: self.reader,
                    ending: self.ending,
                },
                position: self.stack.last().0,
                directive: self.stack.last().1,
            }
        } else {
            match self.ending {
                Ending::Closing(position) => ReadModel {
                    stream: StreamModel {
                        stack: self.stack,
                        reader: self.reader,
                        ending: Ending::Closed(position),
                    },
                    position,
                    directive: DirectiveModel::Close,
                },
                Ending::Closed(position) => ReadModel {
                    stream: self,
                    position,
                    directive: DirectiveModel::Close,
                },
                Ending::Open => match self.reader {
                    None => ReadModel {
                        stream: self,
                        position: 0,
                        directive: DirectiveModel::Noop,
                    },
                    Some(last) => {
                        let position = next_position(last);
                        let directive = directive_read(line);
                        if directive is Close {
                            ReadModel {
                                stream: StreamModel {
                                    stack: self.stack,
                                    reader: Some(position),
                                    ending: Ending::Closing(position),
                                },
                                position,
                                directive: DirectiveModel::Empty,
                            }
                        } else {
                            ReadModel {
                                stream: StreamModel {
                                    stack: self.stack,
                                    reader: Some(position),
                                    ending: self.ending,
                                },
                                position,
                                directive,
                            }
                        }
                    },
                },
            }
        }
    }
}

/// What a list of numbered directives stands for.
pub open spec fn numbered_models(stack: Seq<(usize, Directive)>) -> Seq<(usize, DirectiveModel)> {
    Seq::new(stack.len(), |i: int| (stack[i].0, stack[i].1@))
}

/// What a line just read stands for.
pub open spec fn line_model(line: Option<&str>) -> Option<Seq<char>> {
    match line {
        Some(text) => Some(text@),
        None => None,
    }
}

/// The directives of one source, in the order in which they are carried out.
#[derive(Debug)]
pub struct DirectiveStream<R> {
    stack: Vec<(usize, Directive)>,
    line_read: Option<DirectiveReader<R>>,
    ending: Ending,
}

impl<R> View for DirectiveStream<R> {
    type V = StreamModel;

    closed spec fn view(&self) -> StreamModel {
        StreamModel {
            stack: numbered_models(self.stack@),
            reader: match self.line_read {
                Some(reader) => Some(reader.position()),
                None => None,
            },
            ending: self.ending,
        }
    }
}

impl<R> DirectiveStream<R> {
    /// The reader of the lines, if the stream has one.
    pub closed spec fn inner(&self) -> Option<R> {
        match self.line_read {
            Some(reader) => Some(reader.inner()),
            None => None,
        }
    }

    /// The stream of the directives that `line_read` reads.
    pub fn new(line_read: DirectiveReader<R>) -> (stream: Self)
        ensures
            stream@ == (StreamModel {
                stack: Seq::empty(),
                reader: Some(line_read.position()),
                ending: Ending::Open,
            }),
            stream.inner() == Some(line_read.inner()),
    {
        let stream = Self { stack: Vec::new(), line_read: Some(line_read), ending: Ending::Open };
        proof {
            assert(numbered_models(stream.stack@) =~= Seq::empty());
        }
        stream
    }

    /// A stream without a reader, which gives nothing.
    pub fn null() -> (stream: Self)
        ensures
            stream@ == StreamModel::null(),
            stream.inner() is None,
    {
        let stream = Self { stack: Vec::new(), line_read: None, ending: Ending::Open };
        proof {
            assert(numbered_models(stream.stack@) =~= Seq::empty());
        }
        stream
    }

    /// Puts `directive` back, to be read next, as of line `line_nr`.
    pub fn push(&mut self, line_nr: usize, directive: Directive) -> (this: &mut Self)
        ensures
            this@ == old(self)@.pushed(line_nr, directive@),
            this.inner() == old(self).inner(),
            *final(self) == *final(this),
    {
        self.stack.push((line_nr, directive));
        proof {
            assert(numbered_models(self.stack@) =~= numbered_models(old(self).stack@).push(
                (line_nr, directive@),
            ));
        }
        self
    }

    /// Whether the next read takes a line from the reader.
    pub fn needs_line(&self) -> (needs: bool)
        ensures
            needs == self@.wants_line(),
    {
        proof {
            assert(numbered_models(self.stack@).len() == self.stack@.len());
        }
        self.stack.len() == 0 && self.line_read.is_some() && match self.ending {
            Ending::Open => true,
            _ => false,
        }
    }

    /// The number of the line and the directive that come next. `line` is
    /// what was just read from the reader, a line or nothing at its end; it
    /// counts only where the stream needs a line.
    pub fn read(&mut self, line: Option<&str>) -> (read: (usize, Directive))
        ensures
            final(self)@ == old(self)@.read(line_model(line)).stream,
            read.0 == old(self)@.read(line_model(line)).position,
            read.1@ == old(self)@.read(line_model(line)).directive,
            final(self).inner() == old(self).inner(),
    {
        proof {
            assert(numbered_models(self.stack@).len() == self.stack@.len());
        }
        if self.stack.len() > 0 {
            let ghost before = self.stack@;
            let read = self.stack.pop().unwrap();
            proof {
                assert(numbered_models(self.stack@) =~= numbered_models(before).drop_last());
            }
            return read;
        }
        match self.ending {
            Ending::Closing(position) => {
                self.ending = Ending::Closed(position);
                (position, Directive::Close)
            },
            Ending::Closed(position) => (position, Directive::Close),
            Ending::Open => match &mut self.line_read {
                None => (0, Directive::Noop),
                Some(reader) => {
                    let (position, directive) = reader.read(line);
                    match directive {
                        Directive::Close => {
                            self.ending = Ending::Closing(position);
                            (position, Directive::Empty)
                        },
                        directive => (position, directive),
                    }
                },
            },
        }
    }

    /// Takes word that the reader failed on the line that the stream wanted:
    /// the warning `error` takes the place of the line, and the source ends
    /// behind it.
    pub fn fail(&mut self, error: &str)
        ensures
            final(self)@ == old(self)@.failed(error@),
            final(self).inner() == old(self).inner(),
    {
        if !self.needs_line() {
            return ;
        }
        match &mut self.line_read {
            None => {},
            Some(reader) => {
                let position = reader.skip();
                self.ending = Ending::Closing(position);
                self.stack.push((position, Directive::Empty));
                self.stack.push((position, Directive::Warning(error.to_owned())));
                proof {
                    assert(numbered_models(self.stack@) =~= seq![
                        (position, DirectiveModel::Empty),
                        (position, DirectiveModel::Warning(error@)),
                    ]);
                }
            },
        }
    }

    /// The reader of the lines, for the next line to be read, if the stream
    /// has a reader.
    pub fn reader(&mut self) -> (read: Option<&mut R>)
        ensures
            match read {
                Some(read) => old(self).inner() == Some(*read) && final(self).inner() == Some(
                    *final(read),
                ),
                None => old(self).inner() is None && final(self).inner() is None,
            },
            final(self)@ == old(self)@,
    {
        match &mut self.line_read {
            Some(reader) => Some(reader.reader()),
            None => None,
        }
    }
}

} // verus!
