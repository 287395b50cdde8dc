//! The document: the machine that reads it and what comes out.

pub mod directive_reader;
pub mod directive_source;
pub mod line;
pub mod line_map;
pub mod runs;
pub mod source;
pub mod source_action;
pub mod theorems;

use std::sync::Arc;
use vstd::prelude::*;

use crate::cmd::{holds, item_at, Cmd, CmdModel, Directory, Handle};
use crate::directive::{directive_models, Directive, DirectiveModel};
use crate::error::{Error, ErrorModel};
use crate::import::{
    not_included, tables_of, Import, ImportModel, Opened, OpenedModel, Tables,
};
use crate::line_view::directive_source::StreamModel;
use crate::line_view::line::{Line, LineModel};
use crate::line_view::source::{Source, SourceModel};
use crate::line_view::source_action::{
    keeps, line_models, lines_hold, title_model, ActionModel, SourceAction, State,
};
use crate::path_set::{path_sets, PathSet};
use crate::text::copy_string;

verus! {

/// What a document starts from.
#[derive(Debug)]
pub enum RootLines<R> {
    /// Lines that are at hand, behind a reader.
    Buffer(R),
    /// The file of this path.
    Path(String),
}

/// What the machine waits for before it reads on.
#[derive(Debug)]
pub enum Pending {
    /// The file that the document starts from.
    Root(String),
    /// The file that the directive of this line asks for.
    Import(usize, Import),
}

/// What a [`Pending`] stands for.
#[verifier::ext_equal]
pub enum PendingModel {
    Root(Seq<char>),
    Import(usize, ImportModel),
}

impl View for Pending {
    type V = PendingModel;

    open spec fn view(&self) -> PendingModel {
        match self {
            Pending::Root(path) => PendingModel::Root(path@),
            Pending::Import(position, import) => PendingModel::Import(*position, import@),
        }
    }
}

/// What the machine needs from outside to go on.
#[derive(Debug, PartialEq, Eq)]
pub enum Request {
    /// Nothing: every source was read to its end.
    Finished,
    /// The next line of the source on top, or word that it has none left.
    Line,
    /// Nothing: the next directive is at hand.
    Step,
    /// The file that the document starts from, opened.
    Root { path: String },
    /// The file that a directive names, looked for from directory `dir` and
    /// opened.
    Open { file: String, dir: String },
}

/// What a [`Request`] stands for.
#[verifier::ext_equal]
pub enum RequestModel {
    Finished,
    Line,
    Step,
    Root { path: Seq<char> },
    Open { file: Seq<char>, dir: Seq<char> },
}

impl View for Request {
    type V = RequestModel;

    open spec fn view(&self) -> RequestModel {
        match self {
            Request::Finished => RequestModel::Finished,
            Request::Line => RequestModel::Line,
            Request::Step => RequestModel::Step,
            Request::Root { path } => RequestModel::Root { path: path@ },
            Request::Open { file, dir } => RequestModel::Open { file: file@, dir: dir@ },
        }
    }
}

/// What a finished document stands for: its title and its lines, each with
/// the command that it runs.
#[verifier::ext_equal]
pub struct LineViewModel {
    pub title: Seq<char>,
    pub lines: Seq<LineModel<CmdModel>>,
}

/// The title of a document that names none and starts from no file.
pub open spec fn no_title() -> Seq<char> {
    "No Title"@
}

/// What the machine that reads a document stands for.
#[verifier::ext_equal]
pub struct InterpreterModel {
    /// The sources that are open, the one that is read at the end.
    pub sources: Seq<SourceModel>,
    /// The lines of the document so far.
    pub lines: Seq<LineModel<Handle>>,
    /// The title, once a directive gave one.
    pub title: Option<Seq<char>>,
    pub tables: Tables,
    /// The path that the document starts from, if it starts from a file.
    pub root_path: Option<Seq<char>>,
    pub pending: Option<PendingModel>,
    /// What went wrong, if the source that the document starts from could
    /// not be opened or read: no document comes of such a machine.
    pub failure: Option<Seq<char>>,
}

/// What the answer to a request for a file stands for: the file that was
/// found and opened, or what went wrong.
pub open spec fn answer_model<R>(opened: Result<Opened<R>, String>) -> Result<
    OpenedModel,
    Seq<char>,
> {
    match opened {
        Ok(opened) => Ok(opened@),
        Err(error) => Err(error@),
    }
}

/// The file of an answer, if it holds one.
pub open spec fn found(opened: Result<OpenedModel, Seq<char>>) -> Option<OpenedModel> {
    match opened {
        Ok(opened) => Some(opened),
        Err(_) => None,
    }
}

/// What a result that may be an error stands for.
pub open spec fn outcome_model(outcome: Result<(), Error>) -> Result<(), ErrorModel> {
    match outcome {
        Ok(_) => Ok(()),
        Err(error) => Err(error@),
    }
}

/// What a document that may have failed stands for.
pub open spec fn document_model(document: Result<LineView, Error>) -> Result<
    LineViewModel,
    ErrorModel,
> {
    match document {
        Ok(view) => Ok(view@),
        Err(error) => Err(error@),
    }
}

impl InterpreterModel {
    /// The machine before anything is read, for a document that starts from
    /// lines at hand, looked at from directory `dir`.
    pub open spec fn buffer(dir: Seq<char>) -> InterpreterModel {
        InterpreterModel {
            sources: seq![
                SourceModel::opened(
                    Seq::empty(),
                    dir,
                    0,
                    Seq::empty(),
                    StreamModel::fresh(),
                ),
            ],
            lines: Seq::empty(),
            title: None,
            tables: Tables {
                commands: crate::cmd::with_scope(Seq::empty(), CmdModel::empty()),
                imported: Set::empty(),
                sourced: seq![Set::empty()],
            },
            root_path: None,
            pending: None,
            failure: None,
        }
    }

    /// The machine before anything is read, for a document that starts from
    /// the file `path`.
    pub open spec fn path(path: Seq<char>) -> InterpreterModel {
        InterpreterModel {
            sources: Seq::empty(),
            lines: Seq::empty(),
            title: None,
            tables: Tables { commands: Seq::empty(), imported: Set::empty(), sourced: Seq::empty() },
            root_path: Some(path),
            pending: Some(PendingModel::Root(path)),
            failure: None,
        }
    }

    /// Whether the parts of the machine fit together: every source and every
    /// line has a command, every source has its set of paths, and the machine
    /// waits for a file only as long as something has asked for it.
    pub open spec fn wf(self) -> bool {
        &&& forall|i: int|
            0 <= i < self.sources.len() ==> holds(
                self.tables.commands,
                (#[trigger] self.sources[i]).cmd,
            )
        &&& forall|i: int|
            0 <= i < self.sources.len() ==> (#[trigger] self.sources[i]).sourced
                < self.tables.sourced.len()
        &&& lines_hold(self.lines, self.tables.commands)
        &&& self.pending matches Some(PendingModel::Import(_, _)) ==> self.sources.len() > 0
        &&& self.pending matches Some(PendingModel::Root(_)) ==> self.sources.len() == 0
    }

    /// Whether every source was read to its end.
    pub open spec fn finished(self) -> bool {
        self.sources.len() == 0 && self.pending is None
    }

    /// What the machine needs to go on.
    pub open spec fn request(self) -> RequestModel {
        match self.pending {
            Some(PendingModel::Root(path)) => RequestModel::Root { path },
            Some(PendingModel::Import(_, import)) => if self.sources.len() > 0 {
                RequestModel::Open { file: import.file, dir: self.sources.last().dir }
            } else {
                RequestModel::Finished
            },
            None => if self.sources.len() == 0 {
                RequestModel::Finished
            } else if self.sources.last().read.wants_line() {
                RequestModel::Line
            } else {
                RequestModel::Step
            },
        }
    }

    /// The state that a step of the source on top starts from.
    pub open spec fn state(self) -> State
        recommends
            self.sources.len() > 0,
    {
        State {
            source: self.sources.last(),
            lines: self.lines,
            title: self.title,
            commands: self.tables.commands,
        }
    }

    /// One step: the source on top carries out its next directive, `line`
    /// being what was just read from its reader, a line or nothing at its
    /// end. The source leaves the stack where it closes, and the machine
    /// waits where the directive asks for a file. A machine that waits for a
    /// file, or has no source left, stays as it is.
    pub open spec fn advance(self, line: Option<Seq<char>>) -> InterpreterModel {
        if self.pending is Some || self.sources.len() == 0 {
            self
        } else {
            let performed = self.state().perform(line);
            let sources = self.sources.update(self.sources.len() - 1, performed.state.source);
            InterpreterModel {
                sources: match performed.action {
                    ActionModel::Pop => self.sources.drop_last(),
                    _ => sources,
                },
                lines: performed.state.lines,
                title: performed.state.title,
                tables: Tables { commands: performed.state.commands, ..self.tables },
                root_path: self.root_path,
                pending: match performed.action {
                    ActionModel::Import { position, import } => Some(
                        PendingModel::Import(position, import),
                    ),
                    _ => None,
                },
                failure: self.failure,
            }
        }
    }

    /// What the frames that trace show of the directive of one step: the
    /// directive as it comes to each of them, from the top of the chain down.
    pub open spec fn traced(self, line: Option<Seq<char>>) -> Seq<DirectiveModel> {
        if self.pending is Some || self.sources.len() == 0 {
            Seq::empty()
        } else {
            self.state().traced(line)
        }
    }

    /// Whether a failure of the reader ends the document: whether the
    /// machine waits for a line of the source that the document starts from.
    pub open spec fn fatal(self) -> bool {
        self.request() == RequestModel::Line && self.sources.len() <= 1
    }

    /// The machine once the reader of the source on top failed, where the
    /// machine waited for a line. The document cannot go on without the
    /// source that it starts from: the machine has failed, and every source
    /// is closed. Of any other source, the warning `error` takes the place
    /// of the line that could not be read, and the source ends behind it. A
    /// machine that waits for no line stays as it is.
    pub open spec fn fail(self, error: Seq<char>) -> InterpreterModel {
        if self.request() != RequestModel::Line {
            self
        } else if self.sources.len() <= 1 {
            InterpreterModel { sources: Seq::empty(), failure: Some(error), ..self }
        } else {
            InterpreterModel {
                sources: self.sources.update(
                    self.sources.len() - 1,
                    SourceModel {
                        read: self.sources.last().read.failed(error),
                        ..self.sources.last()
                    },
                ),
                ..self
            }
        }
    }

    /// Whether the machine asks for the file that the document starts from.
    pub open spec fn wants_root(self) -> bool {
        self.pending matches Some(PendingModel::Root(_))
    }

    /// What comes of the machine: the document as far as it was read, or the
    /// error of a machine that has failed.
    pub open spec fn outcome(self) -> Result<LineViewModel, ErrorModel> {
        match self.failure {
            Some(error) => Err(ErrorModel::Io(error)),
            None => Ok(self.document()),
        }
    }

    /// The answer to a request for a file: `opened` is the file that was
    /// found and opened, or what went wrong.
    ///
    /// The file that the document starts from becomes the first source, and
    /// its path counts as imported; without it the machine has failed, and no
    /// document comes of it. A file that a directive asked for becomes the
    /// source on top if its kind of inclusion lets it; where it does not, or
    /// no file was found, a warning takes the place of the directive, and
    /// what went wrong is not told in the document. A machine that waits for
    /// no file stays as it is.
    pub open spec fn resolve(self, opened: Result<OpenedModel, Seq<char>>) -> InterpreterModel {
        match self.pending {
            None => self,
            Some(PendingModel::Root(_)) => match opened {
                Err(error) => InterpreterModel { pending: None, failure: Some(error), ..self },
                Ok(opened) => InterpreterModel {
                    sources: self.sources.push(
                        SourceModel::opened(
                            opened.path,
                            opened.dir,
                            self.tables.sourced.len() as usize,
                            self.tables.commands,
                            StreamModel::fresh(),
                        ),
                    ),
                    tables: Tables {
                        commands: crate::cmd::with_scope(self.tables.commands, CmdModel::empty()),
                        imported: self.tables.imported.insert(opened.path),
                        sourced: self.tables.sourced.push(Set::empty()),
                    },
                    pending: None,
                    ..self
                },
            },
            Some(PendingModel::Import(position, import)) => if self.sources.len() == 0 {
                InterpreterModel { pending: None, ..self }
            } else {
                let parent = self.sources.last();
                let included = self.tables.inclusion(
                    import.kind,
                    found(opened),
                    parent.shallow(),
                );
                InterpreterModel {
                    sources: match included.source {
                        Some(source) => self.sources.push(source),
                        None => self.sources.update(
                            self.sources.len() - 1,
                            SourceModel {
                                read: parent.read.pushed(
                                    position,
                                    DirectiveModel::Warning(not_included(import.file)),
                                ),
                                ..parent
                            },
                        ),
                    },
                    tables: included.tables,
                    pending: None,
                    ..self
                }
            },
        }
    }

    /// The document as far as it was read: the title that a directive gave,
    /// or else the path that the document starts from, or else "No Title";
    /// and the lines, each with its command.
    pub open spec fn document(self) -> LineViewModel {
        LineViewModel {
            title: match self.title {
                Some(title) => title,
                None => match self.root_path {
                    Some(path) => path,
                    None => no_title(),
                },
            },
            lines: Seq::new(
                self.lines.len(),
                |i: int| self.lines[i].with_cmd(item_at(self.tables.commands, self.lines[i].cmd)),
            ),
        }
    }

    /// A step leaves the parts of the machine fitting together.
    pub proof fn lemma_advance_wf(self, line: Option<Seq<char>>)
        requires
            self.wf(),
            self.tables.commands.len() <= usize::MAX,
        ensures
            self.advance(line).wf(),
    {
        if self.pending is None && self.sources.len() > 0 {
            let state = self.state();
            let after = self.advance(line);
            assert(holds(self.tables.commands, self.sources[self.sources.len() - 1].cmd));
            state.lemma_perform_keeps(line);
            let performed = state.perform(line);
            assert(keeps(self.tables.commands, after.tables.commands));
            assert forall|i: int| 0 <= i < after.sources.len() implies holds(
                after.tables.commands,
                (#[trigger] after.sources[i]).cmd,
            ) && after.sources[i].sourced < after.tables.sourced.len() by {
                if i < self.sources.len() - 1 {
                    assert(after.sources[i] == self.sources[i]);
                    assert(holds(self.tables.commands, self.sources[i].cmd));
                } else {
                    assert(after.sources[i] == performed.state.source);
                    assert(self.sources[i].sourced < self.tables.sourced.len());
                }
            }
        }
    }
}

impl InterpreterModel {
    /// The answer to a request leaves the parts of the machine fitting
    /// together.
    pub proof fn lemma_resolve_wf(self, opened: Result<OpenedModel, Seq<char>>)
        requires
            self.wf(),
            self.tables.commands.len() <= usize::MAX,
            self.tables.sourced.len() <= usize::MAX,
        ensures
            self.resolve(opened).wf(),
    {
        let after = self.resolve(opened);
        Handle::lemma_at(self.tables.commands.len() as usize, 0);
        assert(keeps(self.tables.commands, after.tables.commands)) by {
            assert forall|handle: Handle| #[trigger]
                holds(self.tables.commands, handle) implies holds(
                after.tables.commands,
                handle,
            ) by {}
        }
        assert forall|i: int| 0 <= i < after.lines.len() implies holds(
            after.tables.commands,
            (#[trigger] after.lines[i]).cmd,
        ) by {
            assert(holds(self.tables.commands, self.lines[i].cmd));
        }
        assert forall|i: int| 0 <= i < after.sources.len() implies holds(
            after.tables.commands,
            (#[trigger] after.sources[i]).cmd,
        ) && after.sources[i].sourced < after.tables.sourced.len() by {
            if i < self.sources.len() {
                assert(holds(self.tables.commands, self.sources[i].cmd));
                assert(self.sources[i].sourced < self.tables.sourced.len());
                if self.sources.len() > 0 {
                    assert(holds(
                        self.tables.commands,
                        self.sources[self.sources.len() - 1].cmd,
                    ));
                }
            } else {
                if self.sources.len() > 0 {
                    let parent = self.sources[self.sources.len() - 1];
                    assert(holds(self.tables.commands, parent.cmd));
                    assert(parent.sourced < self.tables.sourced.len());
                }
            }
        }
    }
}

impl InterpreterModel {
    /// A failure of a reader leaves the parts of the machine fitting
    /// together.
    pub proof fn lemma_fail_wf(self, error: Seq<char>)
        requires
            self.wf(),
        ensures
            self.fail(error).wf(),
    {
        let after = self.fail(error);
        assert forall|i: int| 0 <= i < after.sources.len() implies holds(
            after.tables.commands,
            (#[trigger] after.sources[i]).cmd,
        ) && after.sources[i].sourced < after.tables.sourced.len() by {
            assert(holds(self.tables.commands, self.sources[i].cmd));
            assert(self.sources[i].sourced < self.tables.sourced.len());
        }
    }
}

/// What a list of finished lines stands for.
pub open spec fn shared_line_models(lines: Seq<Line<Arc<Cmd>>>) -> Seq<LineModel<CmdModel>> {
    Seq::new(lines.len(), |i: int| lines[i]@)
}

/// A finished document: a title and lines, each with the command that it
/// runs. Nothing in it changes any more.
#[derive(Debug, Clone)]
pub struct LineView {
    title: String,
    lines: Vec<Line<Arc<Cmd>>>,
}

impl View for LineView {
    type V = LineViewModel;

    closed spec fn view(&self) -> LineViewModel {
        LineViewModel { title: self.title@, lines: shared_line_models(self.lines@) }
    }
}

impl Default for LineView {
    fn default() -> (view: Self)
        ensures
            view@ == (LineViewModel { title: Seq::empty(), lines: Seq::empty() }),
    {
        let view = LineView { title: String::new(), lines: Vec::new() };
        proof {
            assert(shared_line_models(view.lines@) =~= Seq::empty());
        }
        view
    }
}

impl LineView {
    /// The title of the document.
    pub fn title(&self) -> (title: &str)
        ensures
            title@ == self@.title,
    {
        self.title.as_str()
    }

    /// The number of lines.
    pub fn len(&self) -> (len: usize)
        ensures
            len == self@.lines.len(),
    {
        self.lines.len()
    }

    /// The line at `index`, counted from 0, if the document has that many.
    pub fn get(&self, index: usize) -> (line: Option<&Line<Arc<Cmd>>>)
        ensures
            match line {
                Some(line) => index < self@.lines.len() && line@ == self@.lines[index as int],
                None => index >= self@.lines.len(),
            },
    {
        if index < self.lines.len() {
            Some(&self.lines[index])
        } else {
            None
        }
    }

    /// The line at `index`, counted from 0, of a document that has that many.
    pub fn index(&self, index: usize) -> (line: &Line<Arc<Cmd>>)
        requires
            index < self@.lines.len(),
        ensures
            line@ == self@.lines[index as int],
    {
        &self.lines[index]
    }

    /// The lines of the document, in their order.
    pub fn lines(&self) -> (lines: &Vec<Line<Arc<Cmd>>>)
        ensures
            shared_line_models(lines@) == self@.lines,
    {
        &self.lines
    }
}

/// What a list of sources stands for.
pub open spec fn source_models<R>(sources: Seq<Source<R>>) -> Seq<SourceModel> {
    Seq::new(sources.len(), |i: int| sources[i]@)
}

/// What a request that may be pending stands for.
pub open spec fn pending_model(pending: Option<Pending>) -> Option<PendingModel> {
    match pending {
        Some(pending) => Some(pending@),
        None => None,
    }
}

/// The machine that reads a document: a stack of sources, the lines that
/// their directives have made so far, and what the sources share.
///
/// The machine reads no file itself. It says by [`Interpreter::request`]
/// what it needs next, a line of the source on top or a file, and takes the
/// answer by [`Interpreter::advance`] or [`Interpreter::resolve`], or word
/// that the line could not be read by [`Interpreter::fail`]. Without the
/// source that the document starts from there is no document:
/// [`Interpreter::finish`] gives the error then.
#[derive(Debug)]
pub struct Interpreter<R> {
    sources: Vec<Source<R>>,
    lines: Vec<Line<Handle>>,
    title: Option<String>,
    cmd_directory: Directory<Cmd>,
    imported: PathSet,
    sourced: Vec<PathSet>,
    root_path: Option<String>,
    pending: Option<Pending>,
    failure: Option<String>,
}

impl<R> View for Interpreter<R> {
    type V = InterpreterModel;

    closed spec fn view(&self) -> InterpreterModel {
        InterpreterModel {
            sources: source_models(self.sources@),
            lines: line_models(self.lines@),
            title: title_model(self.title),
            tables: tables_of(self.cmd_directory, self.imported, self.sourced),
            root_path: title_model(self.root_path),
            pending: pending_model(self.pending),
            failure: title_model(self.failure),
        }
    }
}

impl<R> Interpreter<R> {
    /// The readers of the sources that are open, that of the source on top at
    /// the end.
    pub closed spec fn readers(&self) -> Seq<Option<R>> {
        Seq::new(self.sources@.len(), |i: int| self.sources@[i].read.inner())
    }

    /// The machine before anything is read. Lines at hand are looked at from
    /// directory `dir`: from there the files that they name are found.
    pub fn new(root: RootLines<R>, dir: String) -> (machine: Self)
        ensures
            machine@ == match root {
                RootLines::Buffer(_) => InterpreterModel::buffer(dir@),
                RootLines::Path(path) => InterpreterModel::path(path@),
            },
            machine@.wf(),
            machine.readers() == match root {
                RootLines::Buffer(read) => seq![Some(read)],
                RootLines::Path(_) => Seq::empty(),
            },
    {
        let mut cmd_directory = Directory::new();
        let imported = PathSet::new();
        let mut sourced: Vec<PathSet> = Vec::new();
        let lines: Vec<Line<Handle>> = Vec::new();
        let mut sources: Vec<Source<R>> = Vec::new();
        match root {
            RootLines::Buffer(read) => {
                let source = Source::open(String::new(), dir, read, 0, &mut cmd_directory);
                sources.push(source);
                sourced.push(PathSet::new());
                let machine = Self {
                    sources,
                    lines,
                    title: None,
                    cmd_directory,
                    imported,
                    sourced,
                    root_path: None,
                    pending: None,
                    failure: None,
                };
                proof {
                    Handle::lemma_at(0, 0);
                    assert(machine@.sources =~= InterpreterModel::buffer(dir@).sources);
                    assert(machine@.lines =~= Seq::empty());
                    assert(machine@.tables.sourced =~= seq![Set::empty()]);
                    assert(machine@ == InterpreterModel::buffer(dir@));
                    assert(machine.readers() =~= seq![Some(read)]);
                }
                machine
            },
            RootLines::Path(path) => {
                let machine = Self {
                    sources,
                    lines,
                    title: None,
                    cmd_directory,
                    imported,
                    sourced,
                    root_path: Some(copy_string(&path)),
                    pending: Some(Pending::Root(path)),
                    failure: None,
                };
                proof {
                    assert(machine@.sources =~= Seq::empty());
                    assert(machine@.lines =~= Seq::empty());
                    assert(machine@.tables.sourced =~= Seq::empty());
                    assert(machine@ == InterpreterModel::path(path@));
                    assert(machine.readers() =~= Seq::empty());
                }
                machine
            },
        }
    }

    /// What the machine needs to go on.
    pub fn request(&self) -> (request: Request)
        ensures
            request@ == self@.request(),
    {
        let n = self.sources.len();
        match &self.pending {
            Some(Pending::Root(path)) => Request::Root { path: copy_string(path) },
            Some(Pending::Import(_, import)) => if n > 0 {
                Request::Open {
                    file: copy_string(import.file()),
                    dir: copy_string(&self.sources[n - 1].dir),
                }
            } else {
                Request::Finished
            },
            None => if n == 0 {
                Request::Finished
            } else if self.sources[n - 1].read.needs_line() {
                Request::Line
            } else {
                Request::Step
            },
        }
    }

    /// The number of sources that are open. The source that the document
    /// starts from is the first.
    pub fn depth(&self) -> (depth: usize)
        ensures
            depth == self@.sources.len(),
    {
        self.sources.len()
    }

    /// Whether every source was read to its end.
    pub fn is_finished(&self) -> (finished: bool)
        ensures
            finished == self@.finished(),
    {
        self.sources.len() == 0 && self.pending.is_none()
    }

    /// The reader of the source on top, for its next line to be read. But
    /// for what is done to that reader, the machine stays as it is.
    pub fn reader(&mut self) -> (read: Option<&mut R>)
        ensures
            match read {
                Some(read) => {
                    &&& old(self).readers().len() > 0
                    &&& old(self).readers().last() == Some(*read)
                    &&& final(self).readers() == old(self).readers().update(
                        old(self).readers().len() - 1,
                        Some(*final(read)),
                    )
                },
                None => {
                    &&& old(self).readers().len() == 0 || old(self).readers().last() is None
                    &&& final(self).readers() == old(self).readers()
                },
            },
            final(self)@ == old(self)@,
    {
        let n = self.sources.len();
        if n == 0 {
            return None;
        }
        self.sources[n - 1].read.reader()
    }

    /// One step: the source on top carries out its next directive. `line` is
    /// what was just read from its reader, a line or nothing at its end; it
    /// counts only where the machine asked for a line. What comes back is
    /// what the frames that trace show of the directive, for the caller to
    /// print.
    pub fn advance(&mut self, line: Option<&str>) -> (seen: Vec<Directive>)
        requires
            old(self)@.wf(),
        ensures
            final(self)@ == old(self)@.advance(crate::line_view::directive_source::line_model(line)),
            final(self)@.wf(),
            directive_models(seen@) == old(self)@.traced(
                crate::line_view::directive_source::line_model(line),
            ),
            final(self).readers() == if final(self)@.sources.len() < old(self)@.sources.len() {
                old(self).readers().drop_last()
            } else {
                old(self).readers()
            },
    {
        let mut seen: Vec<Directive> = Vec::new();
        proof {
            assert(directive_models(seen@) =~= Seq::empty());
        }
        let n = self.sources.len();
        if self.pending.is_some() || n == 0 {
            return seen;
        }
        let _ = self.cmd_directory.len();
        proof {
            old(self)@.lemma_advance_wf(crate::line_view::directive_source::line_model(line));
            assert(holds(self.cmd_directory@, source_models(self.sources@)[n - 1].cmd));
        }
        let action = SourceAction::perform(
            &mut self.sources[n - 1],
            line,
            &mut self.lines,
            &mut self.title,
            &mut self.cmd_directory,
            &mut seen,
        );
        proof {
            assert(directive_models(seen@) =~= old(self)@.traced(
                crate::line_view::directive_source::line_model(line),
            ));
            assert(source_models(self.sources@) =~= source_models(old(self).sources@).update(
                n - 1,
                self.sources@[n - 1]@,
            ));
            assert(self.readers() =~= old(self).readers());
        }
        match action {
            SourceAction::Noop => {},
            SourceAction::Pop => {
                let ghost before = self.sources@;
                self.sources.pop();
                proof {
                    assert(source_models(self.sources@) =~= source_models(
                        old(self).sources@,
                    ).drop_last());
                    assert(self.readers() =~= old(self).readers().drop_last());
                }
            },
            SourceAction::Import { position, import } => {
                self.pending = Some(Pending::Import(position, import));
            },
        }
        seen
    }

    /// Takes word that the reader of the source on top failed with `error`
    /// on the line that the machine asked for. The failure is an error where
    /// the source is the one that the document starts from: the machine has
    /// failed then, and gives no document. For any other source it is a
    /// warning in the document, and the end of that source.
    pub fn fail(&mut self, error: &str) -> (outcome: Result<(), Error>)
        requires
            old(self)@.wf(),
        ensures
            final(self)@ == old(self)@.fail(error@),
            final(self)@.wf(),
            outcome_model(outcome) == if old(self)@.fatal() {
                Err::<(), ErrorModel>(ErrorModel::Io(error@))
            } else {
                Ok(())
            },
            final(self).readers() == if old(self)@.fatal() {
                Seq::<Option<R>>::empty()
            } else {
                old(self).readers()
            },
    {
        proof {
            old(self)@.lemma_fail_wf(error@);
        }
        let n = self.sources.len();
        if self.pending.is_some() || n == 0 || !self.sources[n - 1].read.needs_line() {
            return Ok(());
        }
        if n <= 1 {
            self.sources.clear();
            self.failure = Some(error.to_owned());
            proof {
                assert(source_models(self.sources@) =~= Seq::empty());
                assert(self.readers() =~= Seq::empty());
            }
            Err(Error::Io(error.to_owned()))
        } else {
            self.sources[n - 1].read.fail(error);
            proof {
                assert(source_models(self.sources@) =~= source_models(old(self).sources@).update(
                    n - 1,
                    self.sources@[n - 1]@,
                ));
                assert(self.readers() =~= old(self).readers());
            }
            Ok(())
        }
    }

    /// The document as far as it was read; the error of a machine that has
    /// failed.
    pub fn finish(self) -> (document: Result<LineView, Error>)
        requires
            self@.wf(),
        ensures
            document_model(document) == self@.outcome(),
    {
        let ghost model = self@;
        let Self { lines, title, cmd_directory, root_path, failure, .. } = self;
        if let Some(error) = failure {
            return Err(Error::Io(error));
        }
        let title = match title {
            Some(title) => title,
            None => match root_path {
                Some(path) => path,
                None => String::from_str("No Title"),
            },
        };
        let cmd_directory = cmd_directory.map_to_arc();
        let ghost all = lines@;
        let mut rest = crate::list::reversed(lines);
        let mut shared: Vec<Line<Arc<Cmd>>> = Vec::new();
        while rest.len() > 0
            invariant
                rest@.len() <= all.len(),
                shared@.len() == all.len() - rest@.len(),
                forall|i: int| 0 <= i < rest@.len() ==> rest@[i] == all[all.len() - 1 - i],
                cmd_directory@ == model.tables.commands,
                lines_hold(line_models(all), model.tables.commands),
                forall|i: int|
                    0 <= i < shared@.len() ==> (#[trigger] shared@[i])@ == all[i]@.with_cmd(
                        item_at(model.tables.commands, all[i]@.cmd),
                    ),
            decreases rest.len(),
        {
            let ghost at = all.len() - rest@.len();
            let line = rest.pop().unwrap();
            proof {
                assert(line == all[at]);
                assert(line_models(all)[at] == all[at]@);
                assert(holds(model.tables.commands, line_models(all)[at].cmd));
            }
            shared.push(line.map_to_arc_cmd(&cmd_directory));
        }
        let view = LineView { title, lines: shared };
        proof {
            assert(view@.lines =~= model.document().lines);
        }
        Ok(view)
    }

    /// The answer to a request for a file: `opened` is the file that was
    /// found and opened, or what went wrong. It counts only where the
    /// machine asked for a file. Without the file that the document starts
    /// from there is no document: the answer is an error then, and the
    /// machine has failed.
    pub fn resolve(&mut self, opened: Result<Opened<R>, String>) -> (outcome: Result<(), Error>)
        requires
            old(self)@.wf(),
        ensures
            final(self)@ == old(self)@.resolve(answer_model(opened)),
            final(self)@.wf(),
            outcome_model(outcome) == match opened {
                Err(error) if old(self)@.wants_root() => Err::<(), ErrorModel>(
                    ErrorModel::Io(error@),
                ),
                _ => Ok(()),
            },
            final(self).readers() == if final(self)@.sources.len() > old(self)@.sources.len() {
                old(self).readers().push(Some(opened->Ok_0.read))
            } else {
                old(self).readers()
            },
    {
        let _ = self.cmd_directory.len();
        let _ = self.sourced.len();
        proof {
            assert(path_sets(self.sourced@).len() == self.sourced@.len());
            old(self)@.lemma_resolve_wf(answer_model(opened));
        }
        let n = self.sources.len();
        match self.pending.take() {
            None => {},
            Some(Pending::Root(_)) => {
                match opened {
                    Err(error) => {
                        self.failure = Some(copy_string(&error));
                        return Err(Error::Io(error));
                    },
                    Ok(opened) => {
                    let Opened { path, dir, read } = opened;
                    let source = Source::open(
                        copy_string(&path),
                        dir,
                        read,
                        self.sourced.len(),
                        &mut self.cmd_directory,
                    );
                    self.imported.insert(path);
                    let ghost sets = self.sourced@;
                    self.sourced.push(PathSet::new());
                    let ghost before = self.sources@;
                    self.sources.push(source);
                    proof {
                        assert(path_sets(self.sourced@) =~= path_sets(sets).push(Set::empty()));
                        assert(source_models(self.sources@) =~= source_models(before).push(
                            source@,
                        ));
                        assert(self.readers() =~= old(self).readers().push(Some(read)));
                    }
                    },
                }
            },
            Some(Pending::Import(position, import)) => {
                if n > 0 {
                    let parent = self.sources[n - 1].shallow();
                    proof {
                        assert(source_models(self.sources@)[n - 1].sourced < path_sets(
                            self.sourced@,
                        ).len());
                    }
                    let ghost before = self.sources@;
                    let file = match opened {
                        Ok(opened) => Some(opened),
                        Err(_) => None,
                    };
                    match import.perform_import(
                        parent,
                        &mut self.imported,
                        &mut self.sourced,
                        &mut self.cmd_directory,
                        file,
                    ) {
                        Ok(source) => {
                            self.sources.push(source);
                            proof {
                                assert(source_models(self.sources@) =~= source_models(
                                    before,
                                ).push(source@));
                                assert(self.readers() =~= old(self).readers().push(
                                    Some(opened->Ok_0.read),
                                ));
                            }
                        },
                        Err(directive) => {
                            self.sources[n - 1].read.push(position, directive);
                            proof {
                                assert(source_models(self.sources@) =~= source_models(
                                    before,
                                ).update(n - 1, self.sources@[n - 1]@));
                                assert(self.readers() =~= old(self).readers());
                            }
                        },
                    }
                }
            },
        }
        Ok(())
    }
}

} // verus!
