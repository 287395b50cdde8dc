//! The lines of a document and the builder that makes one.

use std::sync::Arc;
use vstd::prelude::*;

use crate::cmd::{with_scope, Cmd, CmdModel, Directory, Handle, Invocation};

verus! {

/// How a line is shown.
#[derive(Debug, Clone, Copy, PartialEq, Eq, Structural)]
pub enum Kind {
    Default,
    Title,
    Warning,
}

impl Default for Kind {
    fn default() -> (kind: Self)
        ensures
            kind == Kind::Default,
    {
        Kind::Default
    }
}

/// Where a line comes from.
#[derive(Debug, Clone, PartialEq, Eq)]
pub enum Source {
    File(String),
}

/// What a [`Source`] stands for.
#[verifier::ext_equal]
pub enum LineSourceModel {
    File(Seq<char>),
}

impl View for Source {
    type V = LineSourceModel;

    open spec fn view(&self) -> LineSourceModel {
        match self {
            Source::File(path) => LineSourceModel::File(path@),
        }
    }
}

impl LineSourceModel {
    /// The source as a command is told of it: `FILE:` and the path.
    pub open spec fn shown(self) -> Seq<char> {
        match self {
            LineSourceModel::File(path) => "FILE:"@ + path,
        }
    }
}

impl Source {
    /// The source as a command is told of it: `FILE:` and the path.
    pub fn to_string(&self) -> (shown: String)
        ensures
            shown@ == self@.shown(),
    {
        match self {
            Source::File(path) => String::from_str("FILE:").concat(path.as_str()),
        }
    }

    /// A copy of the source.
    pub fn copy(&self) -> (copy: Self)
        ensures
            copy@ == self@,
    {
        match self {
            Source::File(path) => Source::File(path.clone()),
        }
    }
}

/// Builds a line step by step. A line can be built once the builder has a
/// source and a position.
#[derive(Debug, Clone)]
pub struct Builder<T, P> {
    source: T,
    position: P,
    text: String,
    cmd: Option<Handle>,
    kind: Kind,
}

impl Builder<(), ()> {
    /// A builder of a line without text, of the default kind and with no
    /// command chosen.
    pub fn new() -> (builder: Self)
        ensures
            builder.text_of() == Seq::<char>::empty(),
            builder.cmd_of() == None::<Handle>,
            builder.kind_of() == Kind::Default,
    {
        Builder { source: (), position: (), text: String::new(), cmd: None, kind: Kind::Default }
    }
}

impl<T, P> Builder<T, P> {
    /// The source chosen.
    pub closed spec fn source_of(&self) -> T {
        self.source
    }

    /// The position chosen.
    pub closed spec fn position_of(&self) -> P {
        self.position
    }

    /// The text chosen.
    pub closed spec fn text_of(&self) -> Seq<char> {
        self.text@
    }

    /// The command chosen, if one was.
    pub closed spec fn cmd_of(&self) -> Option<Handle> {
        self.cmd
    }

    /// The kind chosen.
    pub closed spec fn kind_of(&self) -> Kind {
        self.kind
    }

    /// Chooses where the line comes from.
    pub fn source(self, source: Source) -> (builder: Builder<Source, P>)
        ensures
            builder.source_of() == source,
            builder.position_of() == self.position_of(),
            builder.text_of() == self.text_of(),
            builder.cmd_of() == self.cmd_of(),
            builder.kind_of() == self.kind_of(),
    {
        let Self { position, text, cmd, kind, .. } = self;
        Builder { source, position, text, cmd, kind }
    }

    /// Chooses the number of the line in its source.
    pub fn position(self, position: usize) -> (builder: Builder<T, usize>)
        ensures
            builder.source_of() == self.source_of(),
            builder.position_of() == position,
            builder.text_of() == self.text_of(),
            builder.cmd_of() == self.cmd_of(),
            builder.kind_of() == self.kind_of(),
    {
        let Self { source, text, cmd, kind, .. } = self;
        Builder { source, position, text, cmd, kind }
    }

    /// Chooses the text.
    pub fn text(self, text: String) -> (builder: Self)
        ensures
            builder.source_of() == self.source_of(),
            builder.position_of() == self.position_of(),
            builder.text_of() == text@,
            builder.cmd_of() == self.cmd_of(),
            builder.kind_of() == self.kind_of(),
    {
        let Self { source, position, cmd, kind, .. } = self;
        Builder { source, position, text, cmd, kind }
    }

    /// Makes the line a title.
    pub fn title(self) -> (builder: Self)
        ensures
            builder.source_of() == self.source_of(),
            builder.position_of() == self.position_of(),
            builder.text_of() == self.text_of(),
            builder.cmd_of() == self.cmd_of(),
            builder.kind_of() == Kind::Title,
    {
        let Self { source, position, text, cmd, .. } = self;
        Builder { source, position, text, cmd, kind: Kind::Title }
    }

    /// Makes the line a warning.
    pub fn warning(self) -> (builder: Self)
        ensures
            builder.source_of() == self.source_of(),
            builder.position_of() == self.position_of(),
            builder.text_of() == self.text_of(),
            builder.cmd_of() == self.cmd_of(),
            builder.kind_of() == Kind::Warning,
    {
        let Self { source, position, text, cmd, .. } = self;
        Builder { source, position, text, cmd, kind: Kind::Warning }
    }

    /// Chooses the command that the line runs.
    pub fn cmd(self, cmd: Handle) -> (builder: Self)
        ensures
            builder.source_of() == self.source_of(),
            builder.position_of() == self.position_of(),
            builder.text_of() == self.text_of(),
            builder.cmd_of() == Some(cmd),
            builder.kind_of() == self.kind_of(),
    {
        let Self { source, position, text, kind, .. } = self;
        Builder { source, position, text, cmd: Some(cmd), kind }
    }
}

impl Builder<Source, usize> {
    /// The line. Where no command was chosen, the line gets an empty one of
    /// its own, in a new scope of `cmd_directory`.
    pub fn build(self, cmd_directory: &mut Directory<Cmd>) -> (line: Line<Handle>)
        ensures
            line@.text == self.text_of(),
            line@.source == self.source_of()@,
            line@.position == self.position_of(),
            line@.kind == self.kind_of(),
            match self.cmd_of() {
                Some(cmd) => line@.cmd == cmd && final(cmd_directory)@ == old(cmd_directory)@,
                None => {
                    &&& line@.cmd == Handle::at(old(cmd_directory)@.len() as usize, 0)
                    &&& old(cmd_directory)@.len() <= usize::MAX
                    &&& final(cmd_directory)@ == with_scope(
                        old(cmd_directory)@,
                        CmdModel::empty(),
                    )
                },
            },
    {
        let Self { source, position, text, cmd, kind } = self;
        let cmd = match cmd {
            Some(cmd) => cmd,
            None => {
                let handle = cmd_directory.new_handle();
                proof {
                    handle.lemma_is_at();
                }
                handle
            },
        };
        Line { text, source, position, cmd, kind }
    }
}

/// One line of a document: its text, where it comes from, the command that it
/// runs, and how it is shown.
#[derive(Debug, Clone)]
pub struct Line<C> {
    text: String,
    source: Source,
    position: usize,
    cmd: C,
    kind: Kind,
}

/// What a [`Line`] stands for.
#[verifier::ext_equal]
pub struct LineModel<C> {
    pub text: Seq<char>,
    pub source: LineSourceModel,
    pub position: usize,
    pub cmd: C,
    pub kind: Kind,
}

impl<C: View> View for Line<C> {
    type V = LineModel<C::V>;

    closed spec fn view(&self) -> LineModel<C::V> {
        LineModel {
            text: self.text@,
            source: self.source@,
            position: self.position,
            cmd: self.cmd@,
            kind: self.kind,
        }
    }
}

impl<C> LineModel<C> {
    /// The line as it is printed: a title behind `-- `, a warning behind
    /// `[warning] `, other text as it is.
    pub open spec fn printed(self) -> Seq<char> {
        match self.kind {
            Kind::Title => "-- "@ + self.text,
            Kind::Warning => "[warning] "@ + self.text,
            Kind::Default => self.text,
        }
    }

    /// The line with `cmd` for its command.
    pub open spec fn with_cmd<D>(self, cmd: D) -> LineModel<D> {
        LineModel {
            text: self.text,
            source: self.source,
            position: self.position,
            cmd,
            kind: self.kind,
        }
    }
}

impl<C: View> Line<C> {
    /// Where the line comes from.
    pub fn source(&self) -> (source: &Source)
        ensures
            source@ == self@.source,
    {
        &self.source
    }

    /// The number of the line in its source.
    pub fn line(&self) -> (position: usize)
        ensures
            position == self@.position,
    {
        self.position
    }

    /// The text of the line.
    pub fn text(&self) -> (text: &str)
        ensures
            text@ == self@.text,
    {
        self.text.as_str()
    }

    /// Whether the line is a title.
    pub fn is_title(&self) -> (title: bool)
        ensures
            title == (self@.kind == Kind::Title),
    {
        match self.kind {
            Kind::Title => true,
            _ => false,
        }
    }

    /// Whether the line is a warning.
    pub fn is_warning(&self) -> (warning: bool)
        ensures
            warning == (self@.kind == Kind::Warning),
    {
        match self.kind {
            Kind::Warning => true,
            _ => false,
        }
    }

    /// The command of the line.
    pub fn cmd(&self) -> (cmd: &C)
        ensures
            cmd@ == self@.cmd,
    {
        &self.cmd
    }

    /// The line as it is printed: a title behind `-- `, a warning behind
    /// `[warning] `, other text as it is.
    pub fn printed(&self) -> (printed: String)
        ensures
            printed@ == self@.printed(),
    {
        match self.kind {
            Kind::Title => String::from_str("-- ").concat(self.text.as_str()),
            Kind::Warning => String::from_str("[warning] ").concat(self.text.as_str()),
            Kind::Default => self.text.clone(),
        }
    }
}

impl Line<Handle> {
    /// The line with its command itself in place of the handle, which is one
    /// of `cmd_directory`.
    pub fn map_to_arc_cmd(self, cmd_directory: &Directory<Arc<Cmd>>) -> (line: Line<Arc<Cmd>>)
        requires
            cmd_directory.contains(self@.cmd),
        ensures
            line@ == self@.with_cmd(crate::cmd::item_at(cmd_directory@, self@.cmd)),
    {
        let Self { text, source, position, cmd, kind } = self;
        let shared = share(cmd_directory.index(cmd));
        Line { text, source, position, kind, cmd: shared }
    }
}

impl Line<Arc<Cmd>> {
    /// Whether the line runs a command.
    pub fn has_command(&self) -> (has: bool)
        ensures
            has == (self@.cmd.exe is Some),
    {
        !self.cmd.is_empty()
    }

    /// What it takes to run the command of the line: the command is handed
    /// the text of the line as its last argument, and is told the number of
    /// the line and where it comes from. Nothing for a line without a
    /// command.
    pub fn invocation(&self) -> (invocation: Option<Invocation>)
        ensures
            match invocation {
                Some(invocation) => self@.cmd.invocation(
                    self@.position,
                    self@.source,
                    seq![self@.text],
                ) == Some(invocation@),
                None => self@.cmd.invocation(self@.position, self@.source, seq![self@.text])
                    is None,
            },
    {
        let mut params: Vec<String> = Vec::new();
        params.push(self.text.clone());
        proof {
            assert(params.deep_view() =~= seq![self@.text]);
        }
        self.cmd.invocation(self.position, &self.source, params)
    }
}

/// `Arc::clone` of the standard library, which makes another pointer to the
/// same allocation: the result is claimed to point to what the argument
/// points to.
#[verifier::external_body]
fn share(cmd: &Arc<Cmd>) -> (shared: Arc<Cmd>)
    ensures
        shared == cmd,
{
    Arc::clone(cmd)
}

} // verus!
