//! What one directive does to a document.

use vstd::prelude::*;

use crate::cmd::{
    cleaned, holds, item_at, with_item, with_scope, Cmd, CmdModel, Directory, Handle, Scopes,
};
use crate::directive::{directive_models, lemma_multiple_model, Directive, DirectiveModel};
use crate::import::{Import, ImportModel};
use crate::line_view::directive_source::{line_model, DirectiveStream, StreamModel};
use crate::line_view::line::{Builder, Kind, Line, LineModel, LineSourceModel, Source as LineSource};
use crate::line_view::line_map::{
    applied, DirectiveMapperChain, Else, FrameModel, Mapper, MapperModel, Then,
};
use crate::line_view::source::{Source, SourceModel, Watch, WatchModel};
use crate::text::copy_string;

verus! {

/// What the machine does with its stack of sources after a directive.
#[derive(Debug)]
pub enum SourceAction {
    /// The source stays on top.
    Noop,
    /// The source is done and leaves the stack.
    Pop,
    /// The directive of line `position` asks for a file to be read. Once the
    /// file was looked for, [`Import::perform_import`] decides.
    Import { position: usize, import: Import },
}

/// What a [`SourceAction`] stands for.
#[verifier::ext_equal]
pub enum ActionModel {
    Noop,
    Pop,
    Import { position: usize, import: ImportModel },
}

impl View for SourceAction {
    type V = ActionModel;

    open spec fn view(&self) -> ActionModel {
        match self {
            SourceAction::Noop => ActionModel::Noop,
            SourceAction::Pop => ActionModel::Pop,
            SourceAction::Import { position, import } => ActionModel::Import {
                position: *position,
                import: import@,
            },
        }
    }
}

/// What a list of lines stands for.
pub open spec fn line_models(lines: Seq<Line<Handle>>) -> Seq<LineModel<Handle>> {
    Seq::new(lines.len(), |i: int| lines[i]@)
}

/// What a title that may be missing stands for.
pub open spec fn title_model(title: Option<String>) -> Option<Seq<char>> {
    match title {
        Some(title) => Some(title@),
        None => None,
    }
}

/// `lines` and `commands` with one more line, which has a command of its
/// own: an empty one, in a new scope.
pub open spec fn with_own_line(
    lines: Seq<LineModel<Handle>>,
    commands: Scopes<CmdModel>,
    path: Seq<char>,
    position: usize,
    text: Seq<char>,
    kind: Kind,
) -> (Seq<LineModel<Handle>>, Scopes<CmdModel>) {
    (
        lines.push(
            LineModel {
                text,
                source: LineSourceModel::File(path),
                position,
                cmd: Handle::at(commands.len() as usize, 0),
                kind,
            },
        ),
        with_scope(commands, CmdModel::empty()),
    )
}

/// `lines` and `commands` once the warning `text` was raised: a watch that
/// is on collects it, and else it becomes a line.
pub open spec fn with_warning(
    lines: Seq<LineModel<Handle>>,
    commands: Scopes<CmdModel>,
    source: SourceModel,
    position: usize,
    text: Seq<char>,
) -> (Seq<LineModel<Handle>>, Scopes<CmdModel>) {
    if source.warning_watcher is Watching {
        (lines, commands)
    } else {
        with_own_line(lines, commands, source.path, position, text, Kind::Warning)
    }
}

/// `stack` with the directives of `list` put back for line `position`, the
/// first of them to be read first.
pub open spec fn put_back(
    stack: Seq<(usize, DirectiveModel)>,
    position: usize,
    list: Seq<DirectiveModel>,
) -> Seq<(usize, DirectiveModel)> {
    stack + Seq::new(list.len(), |i: int| (position, list[list.len() - 1 - i]))
}

/// The warnings that the machine itself raises.
pub open spec fn watch_twice() -> Seq<char> {
    "watch called multiple times before else or then block"@
}

pub open spec fn then_without_watch() -> Seq<char> {
    "then blocks need to be placed somewhere after a watch directive"@
}

pub open spec fn else_without_watch() -> Seq<char> {
    "else blocks need to be placed somewhere after a watch directive"@
}

pub open spec fn display_outside_else() -> Seq<char> {
    "warnings can only be displayed in else blocks"@
}

pub open spec fn automatic_end_of_manual() -> Seq<char> {
    "EndMap directive was issued automatically whilst a manual end directive was required"@
}

pub open spec fn manual_end_of_automatic() -> Seq<char> {
    "end directive was given when an automatic EndMap directive was required"@
}

pub open spec fn automatic_end_of_nothing() -> Seq<char> {
    "EndMap directive was issued automatically with no LineMap in use"@
}

pub open spec fn manual_end_of_nothing() -> Seq<char> {
    "end directive used with nothing to end"@
}

/// The source on top of the stack and what its directives change beside it:
/// the lines of the document, its title, and the commands.
#[verifier::ext_equal]
pub struct State {
    pub source: SourceModel,
    pub lines: Seq<LineModel<Handle>>,
    pub title: Option<Seq<char>>,
    pub commands: Scopes<CmdModel>,
}

/// The state that one directive leaves, and what happens to the stack.
#[verifier::ext_equal]
pub struct Performed {
    pub state: State,
    pub action: ActionModel,
}

impl State {
    /// The state with the source `source`.
    pub open spec fn with_source(self, source: SourceModel) -> State {
        State { source, lines: self.lines, title: self.title, commands: self.commands }
    }

    /// The state once the warning `text` was raised at line `position`.
    pub open spec fn warning(self, position: usize, text: Seq<char>) -> State {
        let (lines, commands) = with_warning(
            self.lines,
            self.commands,
            self.source,
            position,
            text,
        );
        State {
            source: SourceModel {
                warning_watcher: self.source.warning_watcher.noted(text),
                ..self.source
            },
            lines,
            title: self.title,
            commands,
        }
    }

    /// The state with one more line of kind `kind`, which has a command of
    /// its own.
    pub open spec fn own_line(self, position: usize, text: Seq<char>, kind: Kind) -> State {
        let (lines, commands) = with_own_line(
            self.lines,
            self.commands,
            self.source.path,
            position,
            text,
            kind,
        );
        State { source: self.source, lines, title: self.title, commands }
    }

    /// The state with one more line of text, which runs the command of the
    /// source.
    pub open spec fn text_line(self, position: usize, text: Seq<char>) -> State {
        State {
            source: self.source,
            lines: self.lines.push(
                LineModel {
                    text,
                    source: LineSourceModel::File(self.source.path),
                    position,
                    cmd: self.source.cmd,
                    kind: Kind::Default,
                },
            ),
            title: self.title,
            commands: self.commands,
        }
    }

    /// The state with the frame of `mapper` on top of the chain of the
    /// source; the frame is one that a directive asked for.
    pub open spec fn framed(self, mapper: MapperModel) -> State {
        let frame = FrameModel { mapper, automatic: false };
        self.with_source(
            SourceModel {
                line_map: Some(
                    match self.source.line_map {
                        Some(frames) => frames.push(frame),
                        None => seq![frame],
                    },
                ),
                ..self.source
            },
        )
    }

    /// The state with the watch of the source off.
    pub open spec fn unwatched(self) -> State {
        self.with_source(
            SourceModel { warning_watcher: WatchModel::Sleeping, ..self.source },
        )
    }

    /// What an end does: it closes the top frame of the chain if that frame
    /// came as the end did, by itself or by a directive; and else it is a
    /// warning.
    pub open spec fn end(self, position: usize, automatic: bool) -> State {
        match self.source.line_map {
            Some(frames) => if frames.last().automatic == automatic {
                self.with_source(
                    SourceModel {
                        line_map: if frames.len() > 1 {
                            Some(frames.drop_last())
                        } else {
                            None
                        },
                        ..self.source
                    },
                )
            } else if automatic {
                self.warning(position, automatic_end_of_manual())
            } else {
                self.warning(position, manual_end_of_automatic())
            },
            None => if automatic {
                self.warning(position, automatic_end_of_nothing())
            } else {
                self.warning(position, manual_end_of_nothing())
            },
        }
    }

    /// What the directive `directive` of line `position` does, once it has
    /// passed the chain of the source.
    pub open spec fn carry_out(self, position: usize, directive: DirectiveModel) -> Performed {
        match directive {
            DirectiveModel::Noop | DirectiveModel::Comment(_) => Performed {
                state: self,
                action: ActionModel::Noop,
            },
            DirectiveModel::Close => Performed { state: self, action: ActionModel::Pop },
            DirectiveModel::Clean => {
                let clean = cleaned(self.commands, self.source.cmd);
                Performed {
                    state: State {
                        source: SourceModel { cmd: clean, ..self.source },
                        lines: self.lines,
                        title: self.title,
                        commands: with_item(self.commands, clean, CmdModel::empty()),
                    },
                    action: ActionModel::Noop,
                }
            },
            DirectiveModel::Exe(exe) => Performed {
                state: State {
                    source: self.source,
                    lines: self.lines,
                    title: self.title,
                    commands: with_item(
                        self.commands,
                        self.source.cmd,
                        item_at(self.commands, self.source.cmd).with_exe(exe),
                    ),
                },
                action: ActionModel::Noop,
            },
            DirectiveModel::Arg(arg) => Performed {
                state: State {
                    source: self.source,
                    lines: self.lines,
                    title: self.title,
                    commands: with_item(
                        self.commands,
                        self.source.cmd,
                        item_at(self.commands, self.source.cmd).with_arg(arg),
                    ),
                },
                action: ActionModel::Noop,
            },
            DirectiveModel::Watch => Performed {
                state: if self.source.warning_watcher is Sleeping {
                    self.with_source(
                        SourceModel {
                            warning_watcher: self.source.warning_watcher.watched(),
                            ..self.source
                        },
                    )
                } else {
                    self.warning(position, watch_twice())
                },
                action: ActionModel::Noop,
            },
            DirectiveModel::Then => Performed {
                state: match self.source.warning_watcher {
                    WatchModel::Watching { occured } => self.unwatched().framed(
                        MapperModel::Then(occured),
                    ),
                    WatchModel::Sleeping => self.warning(position, then_without_watch()),
                },
                action: ActionModel::Noop,
            },
            DirectiveModel::Else => Performed {
                state: match self.source.warning_watcher {
                    WatchModel::Watching { occured } => self.unwatched().framed(
                        MapperModel::Else(occured),
                    ),
                    WatchModel::Sleeping => self.warning(position, else_without_watch()),
                },
                action: ActionModel::Noop,
            },
            DirectiveModel::DisplayWarnings => Performed {
                state: self.warning(position, display_outside_else()),
                action: ActionModel::Noop,
            },
            DirectiveModel::IgnoreWarnings => Performed {
                state: self.framed(MapperModel::IgnoreWarnings),
                action: ActionModel::Noop,
            },
            DirectiveModel::IgnoreText => Performed {
                state: self.framed(MapperModel::IgnoreText),
                action: ActionModel::Noop,
            },
            DirectiveModel::Debug => Performed {
                state: self.framed(MapperModel::Debug),
                action: ActionModel::Noop,
            },
            DirectiveModel::EndMap { automatic } => Performed {
                state: self.end(position, automatic),
                action: ActionModel::Noop,
            },
            DirectiveModel::Warning(text) => Performed {
                state: self.warning(position, text),
                action: ActionModel::Noop,
            },
            DirectiveModel::Title(text) => Performed {
                state: State {
                    source: self.source,
                    lines: self.lines,
                    title: if self.title is None {
                        Some(text)
                    } else {
                        self.title
                    },
                    commands: self.commands,
                },
                action: ActionModel::Noop,
            },
            DirectiveModel::Subtitle(text) => Performed {
                state: self.own_line(position, text, Kind::Title),
                action: ActionModel::Noop,
            },
            DirectiveModel::Import(import) => Performed {
                state: self,
                action: ActionModel::Import { position, import },
            },
            DirectiveModel::Empty => Performed {
                state: self.own_line(position, Seq::empty(), Kind::Default),
                action: ActionModel::Noop,
            },
            DirectiveModel::Text(text) => Performed {
                state: self.text_line(position, text),
                action: ActionModel::Noop,
            },
            DirectiveModel::Multiple(list) => Performed {
                state: self.with_source(
                    SourceModel {
                        read: StreamModel {
                            stack: put_back(self.source.read.stack, position, list),
                            ..self.source.read
                        },
                        ..self.source
                    },
                ),
                action: ActionModel::Noop,
            },
        }
    }

    /// What the chain of the source makes of `directive`.
    pub open spec fn filtered(self, directive: DirectiveModel) -> DirectiveModel {
        match self.source.line_map {
            Some(frames) => applied(frames, directive, 0),
            None => directive,
        }
    }

    /// What the frames that trace show of the next directive of the source,
    /// `line` being what its reader just read: the directive as it comes to
    /// each of them, from the top of the chain down.
    pub open spec fn traced(self, line: Option<Seq<char>>) -> Seq<DirectiveModel> {
        self.source.traced_by(line)
    }

    /// One step of the source: the next directive of its stream is read,
    /// `line` being what its reader just read; it passes the chain of the
    /// source; and what comes out is carried out.
    pub open spec fn perform(self, line: Option<Seq<char>>) -> Performed {
        let read = self.source.read.read(line);
        let state = self.with_source(SourceModel { read: read.stream, ..self.source });
        state.carry_out(read.position, state.filtered(read.directive))
    }
}

/// Whether every handle of `before` is one of `after`.
pub open spec fn keeps(before: Scopes<CmdModel>, after: Scopes<CmdModel>) -> bool {
    forall|handle: Handle| #[trigger] holds(before, handle) ==> holds(after, handle)
}

/// Whether the command of every line of `lines` is one of `commands`.
pub open spec fn lines_hold(lines: Seq<LineModel<Handle>>, commands: Scopes<CmdModel>) -> bool {
    forall|i: int| 0 <= i < lines.len() ==> holds(commands, (#[trigger] lines[i]).cmd)
}

impl State {
    /// Whether the command of the source and that of every line are commands
    /// of the state.
    pub open spec fn wf(self) -> bool {
        &&& holds(self.commands, self.source.cmd)
        &&& lines_hold(self.lines, self.commands)
    }

    /// A warning leaves every handle its command, and the line that it may
    /// become has a command.
    pub proof fn lemma_warning_keeps(self, position: usize, text: Seq<char>)
        requires
            self.wf(),
            self.commands.len() <= usize::MAX,
        ensures
            keeps(self.commands, self.warning(position, text).commands),
            holds(self.warning(position, text).commands, self.source.cmd),
            lines_hold(self.warning(position, text).lines, self.warning(position, text).commands),
            self.warning(position, text).source.cmd == self.source.cmd,
            self.warning(position, text).source.sourced == self.source.sourced,
            self.warning(position, text).title == self.title,
    {
        Handle::lemma_at(self.commands.len() as usize, 0);
        let after = self.warning(position, text);
        assert forall|handle: Handle| #[trigger]
            holds(self.commands, handle) implies holds(after.commands, handle) by {}
        assert forall|i: int| 0 <= i < after.lines.len() implies holds(
            after.commands,
            (#[trigger] after.lines[i]).cmd,
        ) by {
            if i < self.lines.len() {
                assert(after.lines[i] == self.lines[i]);
                assert(holds(self.commands, self.lines[i].cmd));
            }
        }
    }

    /// A line with a command of its own leaves every handle its command, and
    /// the line has one.
    pub proof fn lemma_own_line_keeps(self, position: usize, text: Seq<char>, kind: Kind)
        requires
            self.wf(),
            self.commands.len() <= usize::MAX,
        ensures
            keeps(self.commands, self.own_line(position, text, kind).commands),
            lines_hold(
                self.own_line(position, text, kind).lines,
                self.own_line(position, text, kind).commands,
            ),
    {
        Handle::lemma_at(self.commands.len() as usize, 0);
        let after = self.own_line(position, text, kind);
        assert forall|handle: Handle| #[trigger]
            holds(self.commands, handle) implies holds(after.commands, handle) by {}
        assert forall|i: int| 0 <= i < after.lines.len() implies holds(
            after.commands,
            (#[trigger] after.lines[i]).cmd,
        ) by {
            if i < self.lines.len() {
                assert(after.lines[i] == self.lines[i]);
                assert(holds(self.commands, self.lines[i].cmd));
            }
        }
    }

    /// Whatever a directive does, every handle keeps a command, the source
    /// and every line have one, and the source stays in its context.
    pub proof fn lemma_carry_out_keeps(self, position: usize, directive: DirectiveModel)
        requires
            self.wf(),
            self.commands.len() <= usize::MAX,
        ensures
            keeps(self.commands, self.carry_out(position, directive).state.commands),
            holds(
                self.carry_out(position, directive).state.commands,
                self.carry_out(position, directive).state.source.cmd,
            ),
            lines_hold(
                self.carry_out(position, directive).state.lines,
                self.carry_out(position, directive).state.commands,
            ),
            self.carry_out(position, directive).state.source.sourced == self.source.sourced,
    {
        let after = self.carry_out(position, directive).state;
        match directive {
            DirectiveModel::Clean => {
                Handle::lemma_at(
                    self.source.cmd.scope(),
                    crate::cmd::first_free(self.commands[self.source.cmd.scope() as int], 0),
                );
                assert forall|handle: Handle| #[trigger]
                    holds(self.commands, handle) implies holds(after.commands, handle) by {}
                assert forall|i: int| 0 <= i < after.lines.len() implies holds(
                    after.commands,
                    (#[trigger] after.lines[i]).cmd,
                ) by {
                    assert(holds(self.commands, self.lines[i].cmd));
                }
            },
            DirectiveModel::Exe(_) | DirectiveModel::Arg(_) => {
                assert forall|handle: Handle| #[trigger]
                    holds(self.commands, handle) implies holds(after.commands, handle) by {}
                assert forall|i: int| 0 <= i < after.lines.len() implies holds(
                    after.commands,
                    (#[trigger] after.lines[i]).cmd,
                ) by {
                    assert(holds(self.commands, self.lines[i].cmd));
                }
            },
            DirectiveModel::Watch => {
                self.lemma_warning_keeps(position, watch_twice());
            },
            DirectiveModel::Then => {
                self.lemma_warning_keeps(position, then_without_watch());
            },
            DirectiveModel::Else => {
                self.lemma_warning_keeps(position, else_without_watch());
            },
            DirectiveModel::DisplayWarnings => {
                self.lemma_warning_keeps(position, display_outside_else());
            },
            DirectiveModel::EndMap { automatic } => {
                self.lemma_warning_keeps(position, automatic_end_of_manual());
                self.lemma_warning_keeps(position, manual_end_of_automatic());
                self.lemma_warning_keeps(position, automatic_end_of_nothing());
                self.lemma_warning_keeps(position, manual_end_of_nothing());
            },
            DirectiveModel::Warning(text) => {
                self.lemma_warning_keeps(position, text);
            },
            DirectiveModel::Subtitle(text) => {
                self.lemma_own_line_keeps(position, text, Kind::Title);
            },
            DirectiveModel::Empty => {
                self.lemma_own_line_keeps(position, Seq::empty(), Kind::Default);
            },
            DirectiveModel::Text(text) => {
                assert forall|i: int| 0 <= i < after.lines.len() implies holds(
                    after.commands,
                    (#[trigger] after.lines[i]).cmd,
                ) by {
                    if i < self.lines.len() {
                        assert(after.lines[i] == self.lines[i]);
                        assert(holds(self.commands, self.lines[i].cmd));
                    }
                }
            },
            _ => {},
        }
    }

    /// Whatever a step does, every handle keeps a command, the source and
    /// every line have one, and the source stays in its context.
    pub proof fn lemma_perform_keeps(self, line: Option<Seq<char>>)
        requires
            self.wf(),
            self.commands.len() <= usize::MAX,
        ensures
            keeps(self.commands, self.perform(line).state.commands),
            holds(self.perform(line).state.commands, self.perform(line).state.source.cmd),
            lines_hold(self.perform(line).state.lines, self.perform(line).state.commands),
            self.perform(line).state.source.sourced == self.source.sourced,
    {
        let read = self.source.read.read(line);
        let state = self.with_source(SourceModel { read: read.stream, ..self.source });
        state.lemma_carry_out_keeps(read.position, state.filtered(read.directive));
    }
}

/// The state that the parts of a document make up.
pub open spec fn state_of<R>(
    source: Source<R>,
    lines: Vec<Line<Handle>>,
    title: Option<String>,
    cmd_directory: Directory<Cmd>,
) -> State {
    State {
        source: source@,
        lines: line_models(lines@),
        title: title_model(title),
        commands: cmd_directory@,
    }
}

/// A builder for a line of `source` at line `position`.
fn builder<R>(source: &Source<R>, position: usize) -> (builder: Builder<LineSource, usize>)
    ensures
        builder.source_of()@ == LineSourceModel::File(source@.path),
        builder.position_of() == position,
        builder.text_of() == Seq::<char>::empty(),
        builder.cmd_of() == None::<Handle>,
        builder.kind_of() == Kind::Default,
{
    Builder::new().source(LineSource::File(copy_string(&source.path))).position(position)
}

/// Puts `line` behind `lines`.
fn push(lines: &mut Vec<Line<Handle>>, line: Line<Handle>)
    ensures
        line_models(final(lines)@) == line_models(old(lines)@).push(line@),
{
    lines.push(line);
    proof {
        assert(line_models(lines@) =~= line_models(old(lines)@).push(line@));
    }
}

/// Raises the warning `text` at line `position`: a watch that is on collects
/// it, and else it becomes a line.
fn push_warning<R>(
    source: &mut Source<R>,
    lines: &mut Vec<Line<Handle>>,
    cmd_directory: &mut Directory<Cmd>,
    position: usize,
    text: String,
)
    ensures
        final(source)@ == (SourceModel {
            warning_watcher: old(source)@.warning_watcher.noted(text@),
            ..old(source)@
        }),
        final(source).read.inner() == old(source).read.inner(),
        (line_models(final(lines)@), final(cmd_directory)@) == with_warning(
            line_models(old(lines)@),
            old(cmd_directory)@,
            old(source)@,
            position,
            text@,
        ),
{
    if source.warning_watcher.is_watching() {
        source.warning_watcher.note(text);
    } else {
        let line = builder(source, position).warning().text(text).build(cmd_directory);
        push(lines, line);
    }
}

/// Puts a subtitle behind the lines.
fn push_subtitle<R>(
    source: &Source<R>,
    lines: &mut Vec<Line<Handle>>,
    cmd_directory: &mut Directory<Cmd>,
    position: usize,
    text: String,
)
    ensures
        (line_models(final(lines)@), final(cmd_directory)@) == with_own_line(
            line_models(old(lines)@),
            old(cmd_directory)@,
            source@.path,
            position,
            text@,
            Kind::Title,
        ),
{
    let line = builder(source, position).title().text(text).build(cmd_directory);
    push(lines, line);
}

/// Puts a line of text behind the lines; it runs the command of the source.
fn push_line<R>(
    source: &Source<R>,
    lines: &mut Vec<Line<Handle>>,
    cmd_directory: &mut Directory<Cmd>,
    position: usize,
    text: String,
)
    ensures
        line_models(final(lines)@) == line_models(old(lines)@).push(
            LineModel {
                text: text@,
                source: LineSourceModel::File(source@.path),
                position,
                cmd: source@.cmd,
                kind: Kind::Default,
            },
        ),
        final(cmd_directory)@ == old(cmd_directory)@,
{
    let line = builder(source, position).text(text).cmd(source.cmd).build(cmd_directory);
    push(lines, line);
}

/// Puts an empty line behind the lines.
fn push_empty<R>(
    source: &Source<R>,
    lines: &mut Vec<Line<Handle>>,
    cmd_directory: &mut Directory<Cmd>,
    position: usize,
)
    ensures
        (line_models(final(lines)@), final(cmd_directory)@) == with_own_line(
            line_models(old(lines)@),
            old(cmd_directory)@,
            source@.path,
            position,
            Seq::empty(),
            Kind::Default,
        ),
{
    let line = builder(source, position).build(cmd_directory);
    push(lines, line);
}

/// Puts a frame on top of the chain of the source; the frame is one that a
/// directive asked for.
fn push_frame<R>(source: &mut Source<R>, mapper: Mapper)
    ensures
        final(source)@ == (SourceModel {
            line_map: Some(
                match old(source)@.line_map {
                    Some(frames) => frames.push(FrameModel { mapper: mapper@, automatic: false }),
                    None => seq![FrameModel { mapper: mapper@, automatic: false }],
                },
            ),
            ..old(source)@
        }),
        final(source).read.inner() == old(source).read.inner(),
{
    let prev = source.line_map.take();
    let chain = DirectiveMapperChain::new(mapper, prev, false);
    proof {
        if prev is None {
            assert(chain@ =~= seq![FrameModel { mapper: mapper@, automatic: false }]);
        }
    }
    source.line_map = Some(chain);
}

/// Puts the directives of `parses` back on the stream for line `position`,
/// the first of them to be read first.
fn push_back<R>(read: &mut DirectiveStream<R>, position: usize, parses: Vec<Directive>)
    ensures
        final(read)@ == (StreamModel {
            stack: put_back(old(read)@.stack, position, directive_models(parses@)),
            ..old(read)@
        }),
        final(read).inner() == old(read).inner(),
{
    let mut parses = parses;
    let ghost all = directive_models(parses@);
    proof {
        assert(put_back(read@.stack, position, all).take(read@.stack.len() as int) =~= read@.stack);
    }
    while parses.len() > 0
        invariant
            parses@.len() <= all.len(),
            directive_models(parses@) == all.take(parses@.len() as int),
            read@.reader == old(read)@.reader,
            read@.ending == old(read)@.ending,
            read.inner() == old(read).inner(),
            read@.stack == put_back(old(read)@.stack, position, all).take(
                old(read)@.stack.len() + all.len() - parses@.len(),
            ),
        decreases parses.len(),
    {
        let ghost before = parses@;
        let ghost stack = read@.stack;
        let directive = parses.pop().unwrap();
        read.push(position, directive);
        proof {
            let whole = put_back(old(read)@.stack, position, all);
            let at = old(read)@.stack.len() + all.len() - before.len();
            assert(directive_models(parses@) =~= all.take(parses@.len() as int));
            assert(directive@ == directive_models(before)[before.len() - 1]);
            assert(whole[at] == (position, directive@));
            assert(read@.stack =~= whole.take(at + 1));
        }
    }
    proof {
        let whole = put_back(old(read)@.stack, position, all);
        assert(whole.take(whole.len() as int) =~= whole);
    }
}

impl SourceAction {
    /// One step of `source`: its next directive is read, `line` being what
    /// its reader just read, a line or nothing at its end; it passes the
    /// chain of the source; and what comes out is carried out. The command of
    /// the source is one of `cmd_directory`. Behind `seen` stands what the
    /// frames that trace show of the directive, for the caller to print.
    pub fn perform<R>(
        source: &mut Source<R>,
        line: Option<&str>,
        lines: &mut Vec<Line<Handle>>,
        title: &mut Option<String>,
        cmd_directory: &mut Directory<Cmd>,
        seen: &mut Vec<Directive>,
    ) -> (action: SourceAction)
        requires
            old(cmd_directory).contains(old(source).cmd),
        ensures
            ({
                let performed = state_of(
                    *old(source),
                    *old(lines),
                    *old(title),
                    *old(cmd_directory),
                ).perform(line_model(line));
                &&& state_of(*final(source), *final(lines), *final(title), *final(cmd_directory))
                    == performed.state
                &&& action@ == performed.action
            }),
            final(source).read.inner() == old(source).read.inner(),
            directive_models(final(seen)@) == directive_models(old(seen)@) + old(source)@.traced_by(
                line_model(line),
            ),
    {
        let (position, directive) = source.read.read(line);
        let directive = match &source.line_map {
            Some(chain) => chain.apply_traced(directive, seen),
            None => {
                proof {
                    assert(directive_models(seen@) =~= directive_models(old(seen)@)
                        + Seq::<DirectiveModel>::empty());
                }
                directive
            },
        };
        match directive {
            Directive::Noop | Directive::Comment(_) => {},
            Directive::Close => {
                return SourceAction::Pop;
            },
            Directive::Clean => {
                source.cmd = cmd_directory.clean_command(source.cmd);
            },
            Directive::Exe(exe) => {
                cmd_directory.index_mut(source.cmd).exe(exe);
            },
            Directive::Arg(arg) => {
                cmd_directory.index_mut(source.cmd).arg(arg);
            },
            Directive::Watch => {
                if source.warning_watcher.is_sleeping() {
                    source.warning_watcher.watch();
                } else {
                    push_warning(
                        source,
                        lines,
                        cmd_directory,
                        position,
                        String::from_str("watch called multiple times before else or then block"),
                    );
                }
            },
            Directive::Then => {
                match source.warning_watcher.take() {
                    Watch::Watching { occured } => {
                        push_frame(source, Mapper::Then(Then::from(occured)));
                    },
                    Watch::Sleeping => {
                        push_warning(
                            source,
                            lines,
                            cmd_directory,
                            position,
                            String::from_str(
                                "then blocks need to be placed somewhere after a watch directive",
                            ),
                        );
                    },
                }
            },
            Directive::Else => {
                match source.warning_watcher.take() {
                    Watch::Watching { occured } => {
                        push_frame(source, Mapper::Else(Else::from(occured)));
                    },
                    Watch::Sleeping => {
                        push_warning(
                            source,
                            lines,
                            cmd_directory,
                            position,
                            String::from_str(
                                "else blocks need to be placed somewhere after a watch directive",
                            ),
                        );
                    },
                }
            },
            Directive::DisplayWarnings => {
                push_warning(
                    source,
                    lines,
                    cmd_directory,
                    position,
                    String::from_str("warnings can only be displayed in else blocks"),
                );
            },
            Directive::IgnoreWarnings => {
                push_frame(source, Mapper::IgnoreWarnings);
            },
            Directive::IgnoreText => {
                push_frame(source, Mapper::IgnoreText);
            },
            Directive::Debug => {
                push_frame(source, Mapper::Debug);
            },
            Directive::EndMap { automatic } => {
                let top = match &source.line_map {
                    Some(chain) => Some((chain.automatic(), chain.prev())),
                    None => None,
                };
                match top {
                    Some((top_automatic, prev)) => {
                        if top_automatic == automatic {
                            source.line_map = prev;
                        } else if automatic {
                            push_warning(
                                source,
                                lines,
                                cmd_directory,
                                position,
                                String::from_str(
                                    "EndMap directive was issued automatically whilst a manual end directive was required",
                                ),
                            );
                        } else {
                            push_warning(
                                source,
                                lines,
                                cmd_directory,
                                position,
                                String::from_str(
                                    "end directive was given when an automatic EndMap directive was required",
                                ),
                            );
                        }
                    },
                    None => {
                        if automatic {
                            push_warning(
                                source,
                                lines,
                                cmd_directory,
                                position,
                                String::from_str(
                                    "EndMap directive was issued automatically with no LineMap in use",
                                ),
                            );
                        } else {
                            push_warning(
                                source,
                                lines,
                                cmd_directory,
                                position,
                                String::from_str("end directive used with nothing to end"),
                            );
                        }
                    },
                }
            },
            Directive::Warning(warn) => {
                push_warning(source, lines, cmd_directory, position, warn);
            },
            Directive::Title(text) => {
                if title.is_none() {
                    *title = Some(text);
                }
            },
            Directive::Subtitle(text) => {
                push_subtitle(source, lines, cmd_directory, position, text);
            },
            Directive::Import(import) => {
                return SourceAction::Import { position, import };
            },
            Directive::Empty => {
                push_empty(source, lines, cmd_directory, position);
            },
            Directive::Text(text) => {
                push_line(source, lines, cmd_directory, position, text);
            },
            Directive::Multiple(parses) => {
                proof {
                    lemma_multiple_model(parses);
                }
                push_back(&mut source.read, position, parses);
            },
        }
        SourceAction::Noop
    }
}

} // verus!
