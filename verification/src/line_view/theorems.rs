//! What holds of every document, whatever its lines and files.

use vstd::prelude::*;

use crate::cmd::{cleaned, counted, holds, item_at, lemma_cleaned_is_new, CmdModel, Handle};
use crate::directive::DirectiveModel;
use crate::error::ErrorModel;
use crate::line_view::directive_reader::next_position;
use crate::import::{not_included, skipped, ImportKind, ImportModel, OpenedModel};
use crate::line_view::line::{Kind, LineModel, LineSourceModel};
use crate::line_view::line_map::{applied, handed_over, replayed, FrameModel, MapperModel};
use crate::line_view::source::WatchModel;
use crate::line_view::source_action::{keeps, put_back, State};
use crate::line_view::{InterpreterModel, PendingModel, RequestModel};

verus! {

/// What the machine is handed from outside: a line of the source on top, or
/// nothing at its end; or a file, or nothing where none was found.
#[verifier::ext_equal]
pub enum AnswerModel {
    Line(Option<Seq<char>>),
    File(Result<OpenedModel, Seq<char>>),
    /// Word that the reader of the source on top failed.
    Failure(Seq<char>),
}

impl InterpreterModel {
    /// The machine once it was handed `answer`.
    pub open spec fn answered(self, answer: AnswerModel) -> InterpreterModel {
        match answer {
            AnswerModel::Line(line) => self.advance(line),
            AnswerModel::File(opened) => self.resolve(opened),
            AnswerModel::Failure(error) => self.fail(error),
        }
    }

    /// The machine once it was handed `answers`, one after the other.
    pub open spec fn run(self, answers: Seq<AnswerModel>) -> InterpreterModel
        decreases answers.len(),
    {
        if answers.len() == 0 {
            self
        } else {
            self.answered(answers[0]).run(answers.drop_first())
        }
    }
}

/// The chain of a file that is read for its lines alone.
pub open spec fn lines_chain() -> Seq<FrameModel> {
    seq![FrameModel { mapper: MapperModel::Lines, automatic: true }]
}

/// The first title wins: a directive gives the title only to a document that
/// has none.
pub proof fn theorem_title_is_given_once(
    state: State,
    position: usize,
    first: Seq<char>,
    second: Seq<char>,
)
    requires
        state.title is None,
    ensures
        state.carry_out(position, DirectiveModel::Title(first)).state.title == Some(first),
        state.carry_out(position, DirectiveModel::Title(first)).state.carry_out(
            position,
            DirectiveModel::Title(second),
        ).state.title == Some(first),
{
}

/// A document that has a title keeps it, whatever is read afterwards, and it
/// is the title of the finished document.
pub proof fn theorem_title_stays(machine: InterpreterModel, answers: Seq<AnswerModel>)
    requires
        machine.title is Some,
    ensures
        machine.run(answers).title == machine.title,
        machine.run(answers).document().title == machine.title->0,
    decreases answers.len(),
{
    if answers.len() > 0 {
        let next = machine.answered(answers[0]);
        match answers[0] {
            AnswerModel::Line(line) => {
                if machine.pending is None && machine.sources.len() > 0 {
                    lemma_step_keeps_title(machine.state(), line);
                }
            },
            AnswerModel::File(_) => {},
            AnswerModel::Failure(_) => {},
        }
        assert(next.title == machine.title);
        theorem_title_stays(next, answers.drop_first());
    }
}

/// One step of a source leaves a title that is there.
proof fn lemma_step_keeps_title(state: State, line: Option<Seq<char>>)
    requires
        state.title is Some,
    ensures
        state.perform(line).state.title == state.title,
{
}

/// Nothing comes of nothing, whatever the chain.
pub proof fn lemma_nothing_passes(frames: Seq<FrameModel>, depth: nat)
    ensures
        applied(frames, DirectiveModel::Noop, depth) == DirectiveModel::Noop,
    decreases frames.len(),
{
    if frames.len() > 0 {
        lemma_nothing_passes(frames.drop_last(), depth + 1);
    }
}

/// A watch that is on collects a warning: the warning becomes no line.
pub proof fn theorem_watch_collects(
    state: State,
    position: usize,
    occured: Seq<Seq<char>>,
    text: Seq<char>,
)
    requires
        state.source.warning_watcher == (WatchModel::Watching { occured }),
    ensures
        state.carry_out(position, DirectiveModel::Warning(text)).state.lines == state.lines,
        state.carry_out(position, DirectiveModel::Warning(text)).state.source.warning_watcher == (
        WatchModel::Watching { occured: occured.push(text) }),
{
}

/// `then` and `else` end a watch and open a block with what was watched.
pub proof fn theorem_block_takes_what_was_watched(
    state: State,
    position: usize,
    occured: Seq<Seq<char>>,
)
    requires
        state.source.warning_watcher == (WatchModel::Watching { occured }),
    ensures
        ({
            let after = state.carry_out(position, DirectiveModel::Then).state;
            &&& after.source.warning_watcher is Sleeping
            &&& after.source.line_map is Some
            &&& after.source.line_map->0.last() == (FrameModel {
                mapper: MapperModel::Then(occured),
                automatic: false,
            })
            &&& after.lines == state.lines
        }),
        ({
            let after = state.carry_out(position, DirectiveModel::Else).state;
            &&& after.source.warning_watcher is Sleeping
            &&& after.source.line_map is Some
            &&& after.source.line_map->0.last() == (FrameModel {
                mapper: MapperModel::Else(occured),
                automatic: false,
            })
            &&& after.lines == state.lines
        }),
{
}

/// Whether `directive` gets through a block that shows nothing: the end of
/// the source does, and so does an end.
pub open spec fn ends_something(directive: DirectiveModel) -> bool {
    directive is Close || directive is EndMap
}

/// A `then` block after warnings, and an `else` block after none, show
/// nothing: of what stands in the block only an end, the end of the source,
/// and in a `then` block `else`, get through the chain at all.
pub proof fn theorem_block_that_shows_nothing(
    frames: Seq<FrameModel>,
    directive: DirectiveModel,
)
    requires
        frames.len() > 0,
        !ends_something(directive),
        match frames.last().mapper {
            MapperModel::Then(warnings) => warnings.len() > 0 && !(directive is Else),
            MapperModel::Else(warnings) => warnings.len() == 0,
            _ => false,
        },
    ensures
        applied(frames, directive, 0) == DirectiveModel::Noop,
{
    lemma_nothing_passes(frames.drop_last(), 1);
}

/// What stands in a block that shows nothing changes nothing: no line, no
/// title, no command, no filter, and no file is asked for.
pub proof fn theorem_block_that_shows_nothing_is_silent(state: State, line: Option<Seq<char>>)
    requires
        state.source.line_map is Some,
        state.source.line_map->0.len() > 0,
        !ends_something(state.source.read.read(line).directive),
        match state.source.line_map->0.last().mapper {
            MapperModel::Then(warnings) => warnings.len() > 0 && !(state.source.read.read(
                line,
            ).directive is Else),
            MapperModel::Else(warnings) => warnings.len() == 0,
            _ => false,
        },
    ensures
        state.perform(line).action is Noop,
        state.perform(line).state.lines == state.lines,
        state.perform(line).state.title == state.title,
        state.perform(line).state.commands == state.commands,
        state.perform(line).state.source.line_map == state.source.line_map,
        state.perform(line).state.source.warning_watcher == state.source.warning_watcher,
        state.perform(line).state.source.cmd == state.source.cmd,
{
    theorem_block_that_shows_nothing(
        state.source.line_map->0,
        state.source.read.read(line).directive,
    );
}

/// A `then` block after no warnings, and an `else` block after some, show
/// what stands in them: but for `else` in the one and `display-warnings` in
/// the other, every directive goes on to the chain below as it is.
pub proof fn theorem_block_that_shows(frames: Seq<FrameModel>, directive: DirectiveModel)
    requires
        frames.len() > 0,
        match frames.last().mapper {
            MapperModel::Then(warnings) => warnings.len() == 0 && !(directive is Else),
            MapperModel::Else(warnings) => warnings.len() > 0 && !(directive is DisplayWarnings),
            _ => false,
        },
    ensures
        applied(frames, directive, 0) == applied(frames.drop_last(), directive, 1),
{
}

/// In an `else` block after warnings, `display-warnings` puts the warnings
/// that were watched back on the stream, the first to be read first, where
/// no filter lies below the block.
pub proof fn theorem_else_displays_what_was_watched(
    state: State,
    position: usize,
    warnings: Seq<Seq<char>>,
    automatic: bool,
)
    requires
        warnings.len() > 0,
        state.source.line_map == Some(
            seq![FrameModel { mapper: MapperModel::Else(warnings), automatic }],
        ),
    ensures
        state.filtered(DirectiveModel::DisplayWarnings) == DirectiveModel::Multiple(
            replayed(warnings),
        ),
        state.carry_out(
            position,
            state.filtered(DirectiveModel::DisplayWarnings),
        ).state.source.read.stack == put_back(
            state.source.read.stack,
            position,
            replayed(warnings),
        ),
        state.carry_out(position, state.filtered(DirectiveModel::DisplayWarnings)).state.lines
            == state.lines,
{
    let frames = state.source.line_map->0;
    assert(frames.drop_last().len() == 0);
    assert(applied(frames, DirectiveModel::DisplayWarnings, 0) == applied(
        frames.drop_last(),
        DirectiveModel::Multiple(replayed(warnings)),
        1,
    ));
}

/// What is put back is read in its order: the first of the list comes
/// first, at the line that the list was put back for.
pub proof fn theorem_put_back_is_read_in_order(
    stack: Seq<(usize, DirectiveModel)>,
    position: usize,
    list: Seq<DirectiveModel>,
)
    requires
        list.len() > 0,
    ensures
        put_back(stack, position, list).last() == (position, list[0]),
        put_back(stack, position, list).drop_last() == put_back(
            stack,
            position,
            list.drop_first(),
        ),
{
    let whole = put_back(stack, position, list);
    assert(whole.drop_last() =~= put_back(stack, position, list.drop_first()));
}

/// `else` in a `then` block ends that block and opens its own with the same
/// warnings: it becomes the end of the block, a new watch, the warnings that
/// were watched, and `else` again.
pub proof fn theorem_then_hands_over_to_else(warnings: Seq<Seq<char>>, depth: nat)
    ensures
        MapperModel::Then(warnings).mapped(DirectiveModel::Else, depth)
            == DirectiveModel::Multiple(handed_over(warnings)),
        handed_over(warnings).len() == warnings.len() + 3,
        handed_over(warnings)[0] == (DirectiveModel::EndMap { automatic: false }),
        handed_over(warnings)[1] == DirectiveModel::Watch,
        forall|i: int|
            0 <= i < warnings.len() ==> #[trigger] handed_over(warnings)[i + 2]
                == DirectiveModel::Warning(warnings[i]),
        handed_over(warnings).last() == DirectiveModel::Else,
{
}

/// Whether `lines` begins with `first`.
pub open spec fn begins_with<T>(lines: Seq<T>, first: Seq<T>) -> bool {
    first.len() <= lines.len() && lines.take(first.len() as int) == first
}

/// One step of a source leaves the lines that are there and puts at most one
/// behind them.
proof fn lemma_step_appends(state: State, line: Option<Seq<char>>)
    ensures
        begins_with(state.perform(line).state.lines, state.lines),
        state.perform(line).state.lines.len() <= state.lines.len() + 1,
{
    let after = state.perform(line).state.lines;
    if after.len() == state.lines.len() + 1 {
        assert(after.take(state.lines.len() as int) =~= state.lines);
    } else {
        assert(after.take(state.lines.len() as int) =~= state.lines);
    }
}

/// The lines of a document are put one behind the other: what is read
/// afterwards leaves every line that is there where and as it is.
pub proof fn theorem_lines_are_appended(machine: InterpreterModel, answers: Seq<AnswerModel>)
    ensures
        begins_with(machine.run(answers).lines, machine.lines),
    decreases answers.len(),
{
    if answers.len() == 0 {
        assert(machine.lines.take(machine.lines.len() as int) =~= machine.lines);
    } else {
        let next = machine.answered(answers[0]);
        match answers[0] {
            AnswerModel::Line(line) => {
                if machine.pending is None && machine.sources.len() > 0 {
                    lemma_step_appends(machine.state(), line);
                } else {
                    assert(next.lines.take(machine.lines.len() as int) =~= machine.lines);
                }
            },
            AnswerModel::File(_) => {
                assert(next.lines.take(machine.lines.len() as int) =~= machine.lines);
            },
            AnswerModel::Failure(_) => {
                assert(next.lines.take(machine.lines.len() as int) =~= machine.lines);
            },
        }
        theorem_lines_are_appended(next, answers.drop_first());
        let last = next.run(answers.drop_first());
        assert(last.lines.take(machine.lines.len() as int) =~= last.lines.take(
            next.lines.len() as int,
        ).take(machine.lines.len() as int));
    }
}

/// A handle keeps its place: whatever the machine is handed, every handle
/// that had a command has one afterwards, and the parts of the machine fit
/// together as before. Only the commands of the sources that are open can
/// have changed.
pub proof fn theorem_handles_keep_their_place(machine: InterpreterModel, answer: AnswerModel)
    requires
        machine.wf(),
        machine.tables.commands.len() <= usize::MAX,
        machine.tables.sourced.len() <= usize::MAX,
        counted(machine.tables.commands),
    ensures
        machine.answered(answer).wf(),
        keeps(machine.tables.commands, machine.answered(answer).tables.commands),
        forall|handle: Handle|
            holds(machine.tables.commands, handle) && (forall|i: int|
                0 <= i < machine.sources.len() ==> (#[trigger] machine.sources[i]).cmd != handle)
                ==> #[trigger] item_at(machine.answered(answer).tables.commands, handle)
                == item_at(machine.tables.commands, handle),
{
    let after = machine.answered(answer);
    match answer {
        AnswerModel::Line(line) => {
            machine.lemma_advance_wf(line);
            if machine.pending is None && machine.sources.len() > 0 {
                let top = machine.sources[machine.sources.len() - 1];
                assert(holds(machine.tables.commands, top.cmd));
                machine.state().lemma_perform_keeps(line);
                assert forall|handle: Handle|
                    holds(machine.tables.commands, handle) && (forall|i: int|
                        0 <= i < machine.sources.len() ==> (#[trigger] machine.sources[i]).cmd
                            != handle) implies #[trigger] item_at(after.tables.commands, handle)
                    == item_at(machine.tables.commands, handle) by {
                    assert(top.cmd != handle);
                    if handle.scope() == top.cmd.scope() {
                        if handle.generation() == top.cmd.generation() {
                            handle.lemma_same(top.cmd);
                        }
                    }
                    lemma_cleaned_is_new(machine.tables.commands, top.cmd);
                }
            }
        },
        AnswerModel::File(opened) => {
            machine.lemma_resolve_wf(opened);
            assert forall|handle: Handle| #[trigger]
                holds(machine.tables.commands, handle) implies holds(
                after.tables.commands,
                handle,
            ) by {}
        },
        AnswerModel::Failure(error) => {
            machine.lemma_fail_wf(error);
        },
    }
}

/// `clean` gives the source a command of its own that is empty, whatever
/// was read in the scope before, also by a file that was read in the context
/// of the source; and every line and every source that had a command keeps
/// it as it is.
pub proof fn theorem_clean_gives_an_empty_command(state: State, position: usize)
    requires
        holds(state.commands, state.source.cmd),
        counted(state.commands),
    ensures
        ({
            let after = state.carry_out(position, DirectiveModel::Clean).state;
            &&& after.source.cmd == cleaned(state.commands, state.source.cmd)
            &&& !holds(state.commands, after.source.cmd)
            &&& item_at(after.commands, after.source.cmd) == CmdModel::empty()
            &&& forall|handle: Handle|
                holds(state.commands, handle) ==> holds(after.commands, handle)
                    && #[trigger] item_at(after.commands, handle) == item_at(
                    state.commands,
                    handle,
                )
            &&& after.lines == state.lines
        }),
{
    lemma_cleaned_is_new(state.commands, state.source.cmd);
}

/// Without the file that the document starts from there is no document:
/// the machine has failed, nothing that it is handed afterwards changes
/// that, and what comes of it is the error.
pub proof fn theorem_root_failure_is_an_error(
    path: Seq<char>,
    error: Seq<char>,
    answers: Seq<AnswerModel>,
)
    ensures
        InterpreterModel::path(path).resolve(Err(error)).outcome() == Err::<
            crate::line_view::LineViewModel,
            ErrorModel,
        >(ErrorModel::Io(error)),
        InterpreterModel::path(path).resolve(Err(error)).run(answers).outcome()
            == InterpreterModel::path(path).resolve(Err(error)).outcome(),
{
    theorem_finished_stays(InterpreterModel::path(path).resolve(Err(error)), answers);
}

/// A file that a directive names and that cannot be found or opened is a
/// warning at the line of the directive, whatever the kind of inclusion and
/// whatever went wrong: what went wrong is not told in the document. No
/// source is opened, nothing counts as read, and the document goes on.
pub proof fn theorem_missing_file_is_a_warning(
    machine: InterpreterModel,
    position: usize,
    import: ImportModel,
    error: Seq<char>,
)
    requires
        machine.sources.len() > 0,
        machine.pending == Some(PendingModel::Import(position, import)),
    ensures
        ({
            let after = machine.resolve(Err(error));
            &&& after.failure == machine.failure
            &&& after.sources.len() == machine.sources.len()
            &&& after.sources.last().read.stack == machine.sources.last().read.stack.push(
                (position, DirectiveModel::Warning(not_included(import.file))),
            )
            &&& after.lines == machine.lines
            &&& after.tables == machine.tables
            &&& after.pending is None
            &&& after.request() == RequestModel::Step
        }),
{
}

/// A line of the source that the document starts from that cannot be read
/// ends the document: the machine has failed, every source is closed,
/// nothing that it is handed afterwards changes that, and what comes of it
/// is the error.
pub proof fn theorem_root_read_failure_is_an_error(
    machine: InterpreterModel,
    error: Seq<char>,
    answers: Seq<AnswerModel>,
)
    requires
        machine.fatal(),
    ensures
        machine.fail(error).finished(),
        machine.fail(error).outcome() == Err::<crate::line_view::LineViewModel, ErrorModel>(
            ErrorModel::Io(error),
        ),
        machine.fail(error).run(answers) == machine.fail(error),
{
    theorem_finished_stays(machine.fail(error), answers);
}

/// A line of any other source that cannot be read is a warning and the end
/// of that source: the warning is at hand, at the line that could not be
/// read; behind it come the empty line that closes a source and its end, and
/// no line of the reader is asked for again. Nothing else changes, and the
/// document goes on.
pub proof fn theorem_read_failure_is_a_warning(machine: InterpreterModel, error: Seq<char>)
    requires
        machine.request() == RequestModel::Line,
        machine.sources.len() > 1,
    ensures
        ({
            let after = machine.fail(error);
            let position = next_position(machine.sources.last().read.reader->0);
            &&& after.failure == machine.failure
            &&& after.sources.len() == machine.sources.len()
            &&& after.lines == machine.lines
            &&& after.request() == RequestModel::Step
            &&& after.sources.last().read.read(None).position == position
            &&& after.sources.last().read.read(None).directive == DirectiveModel::Warning(error)
            &&& after.sources.last().read.read(None).stream.read(None).directive
                == DirectiveModel::Empty
            &&& after.sources.last().read.read(None).stream.read(None).stream.read(
                None,
            ).directive == DirectiveModel::Close
            &&& !after.sources.last().read.read(None).stream.wants_line()
            &&& !after.sources.last().read.read(None).stream.read(None).stream.wants_line()
        }),
{
    let after = machine.fail(error);
    let stream = after.sources.last().read;
    assert(stream.stack.len() == 2);
    assert(stream.read(None).stream.stack =~= seq![
        (next_position(machine.sources.last().read.reader->0), DirectiveModel::Empty),
    ]);
    assert(stream.read(None).stream.read(None).stream.stack.len() == 0);
}

/// A machine that has read every source to its end stays as it is.
pub proof fn theorem_finished_stays(machine: InterpreterModel, answers: Seq<AnswerModel>)
    requires
        machine.finished(),
    ensures
        machine.run(answers) == machine,
        machine.request() == RequestModel::Finished,
    decreases answers.len(),
{
    if answers.len() > 0 {
        assert(machine.answered(answers[0]) == machine);
        theorem_finished_stays(machine, answers.drop_first());
    }
}

/// What was imported stays imported, whatever is read afterwards.
pub proof fn theorem_imported_stays(
    machine: InterpreterModel,
    answers: Seq<AnswerModel>,
    path: Seq<char>,
)
    requires
        machine.tables.imported.contains(path),
    ensures
        machine.run(answers).tables.imported.contains(path),
    decreases answers.len(),
{
    if answers.len() > 0 {
        let next = machine.answered(answers[0]);
        assert(next.tables.imported.contains(path));
        theorem_imported_stays(next, answers.drop_first(), path);
    }
}

/// The file that a document starts from counts as imported.
pub proof fn theorem_root_is_imported(path: Seq<char>, opened: OpenedModel)
    ensures
        InterpreterModel::path(path).request() == (RequestModel::Root { path }),
        InterpreterModel::path(path).resolve(Ok(opened)).tables.imported.contains(opened.path),
        InterpreterModel::path(path).resolve(Ok(opened)).sources.len() == 1,
{
}

/// A path is imported once. The file of a path that was imported before is
/// not read again: no source is opened for it, nothing is added to what was
/// imported, and a warning is put in the place of the directive. So a file
/// that imports a file that imports the first does not go round.
pub proof fn theorem_import_breaks_cycles(
    machine: InterpreterModel,
    position: usize,
    file: Seq<char>,
    opened: OpenedModel,
)
    requires
        machine.sources.len() > 0,
        machine.pending == Some(
            PendingModel::Import(position, ImportModel { file, kind: ImportKind::Import }),
        ),
        machine.tables.imported.contains(opened.path),
    ensures
        machine.resolve(Ok(opened)).sources.len() == machine.sources.len(),
        machine.resolve(Ok(opened)).tables.imported == machine.tables.imported,
        machine.resolve(Ok(opened)).pending is None,
        machine.resolve(Ok(opened)).sources.last().read.stack
            == machine.sources.last().read.stack.push(
            (position, DirectiveModel::Warning(not_included(file))),
        ),
        machine.resolve(Ok(opened)).request() == RequestModel::Step,
{
}

/// The file of a path that was not imported before is read, in a context of
/// its own in which nothing was read yet, and its path counts as imported
/// from then on.
pub proof fn theorem_import_reads_new_path(
    machine: InterpreterModel,
    position: usize,
    file: Seq<char>,
    opened: OpenedModel,
)
    requires
        machine.sources.len() > 0,
        machine.tables.sourced.len() < usize::MAX,
        machine.pending == Some(
            PendingModel::Import(position, ImportModel { file, kind: ImportKind::Import }),
        ),
        !machine.tables.imported.contains(opened.path),
    ensures
        machine.resolve(Ok(opened)).sources.len() == machine.sources.len() + 1,
        machine.resolve(Ok(opened)).sources.last().path == opened.path,
        machine.resolve(Ok(opened)).tables.imported.contains(opened.path),
        machine.resolve(Ok(opened)).tables.sourced[machine.resolve(
            Ok(opened),
        ).sources.last().sourced as int] == Set::<Seq<char>>::empty(),
{
}

/// A warning that was put back becomes one line of the document, at the
/// line that it was put back for, where the source has no filter and does
/// not watch. So does the warning that takes the place of a directive whose
/// file is not read.
pub proof fn theorem_warning_at_hand_is_one_line(
    machine: InterpreterModel,
    position: usize,
    text: Seq<char>,
    line: Option<Seq<char>>,
)
    requires
        machine.sources.len() > 0,
        machine.pending is None,
        machine.sources.last().read.stack.len() > 0,
        machine.sources.last().read.stack.last() == (position, DirectiveModel::Warning(text)),
        machine.sources.last().line_map is None,
        machine.sources.last().warning_watcher is Sleeping,
    ensures
        machine.advance(line).lines == machine.lines.push(
            LineModel {
                text,
                source: LineSourceModel::File(machine.sources.last().path),
                position,
                cmd: Handle::at(machine.tables.commands.len() as usize, 0),
                kind: Kind::Warning,
            },
        ),
        machine.advance(line).sources.last().read.stack
            == machine.sources.last().read.stack.drop_last(),
{
}

/// In one context a path is read once by `source`. The file of a path that
/// was read in the context of the source on top is not read again: no source
/// is opened, and a warning is put in the place of the directive. What was
/// read in other contexts, or imported, does not count.
pub proof fn theorem_source_reads_once(
    machine: InterpreterModel,
    position: usize,
    file: Seq<char>,
    opened: OpenedModel,
)
    requires
        machine.sources.len() > 0,
        machine.pending == Some(
            PendingModel::Import(position, ImportModel { file, kind: ImportKind::Source }),
        ),
    ensures
        ({
            let context = machine.sources.last().sourced as int;
            let after = machine.resolve(Ok(opened));
            if machine.tables.sourced[context].contains(opened.path) {
                &&& after.sources.len() == machine.sources.len()
                &&& after.sources.last().read.stack == machine.sources.last().read.stack.push(
                    (position, DirectiveModel::Warning(not_included(file))),
                )
                &&& after.tables.sourced == machine.tables.sourced
            } else {
                &&& after.sources == machine.sources.push(after.sources.last())
                &&& after.sources.last().path == opened.path
                &&& after.sources.last().sourced == machine.sources.last().sourced
                &&& after.sources.last().cmd == machine.sources.last().cmd
                &&& after.tables.sourced == machine.tables.sourced.update(
                    context,
                    machine.tables.sourced[context].insert(opened.path),
                )
            }
        }),
        machine.resolve(Ok(opened)).tables.imported == machine.tables.imported,
{
    let context = machine.sources.last().sourced as int;
    let after = machine.resolve(Ok(opened));
    if !machine.tables.sourced[context].contains(opened.path) {
        assert(after.sources =~= machine.sources.push(after.sources.last()));
    }
}

/// Two contexts do not share what was read in them: what `source` reads in
/// one leaves the set of paths of every other as it was.
pub proof fn theorem_contexts_are_apart(
    machine: InterpreterModel,
    position: usize,
    file: Seq<char>,
    opened: Result<OpenedModel, Seq<char>>,
    other: int,
)
    requires
        machine.sources.len() > 0,
        machine.pending == Some(
            PendingModel::Import(position, ImportModel { file, kind: ImportKind::Source }),
        ),
        machine.sources.last().sourced < machine.tables.sourced.len(),
        0 <= other < machine.tables.sourced.len(),
        other != machine.sources.last().sourced,
    ensures
        machine.resolve(opened).tables.sourced[other] == machine.tables.sourced[other],
{
}

/// A file is read for its lines however often it was read before, by
/// whatever kind of inclusion: `lines` asks neither what was imported nor
/// what was read in any context. The new source has a context of its own,
/// runs the command of the source that named it, and lets only lines pass.
pub proof fn theorem_lines_always_reads(
    machine: InterpreterModel,
    position: usize,
    file: Seq<char>,
    opened: OpenedModel,
)
    requires
        machine.sources.len() > 0,
        machine.tables.sourced.len() < usize::MAX,
        machine.pending == Some(
            PendingModel::Import(position, ImportModel { file, kind: ImportKind::Lines }),
        ),
    ensures
        machine.resolve(Ok(opened)).sources.len() == machine.sources.len() + 1,
        machine.resolve(Ok(opened)).sources.last().path == opened.path,
        machine.resolve(Ok(opened)).sources.last().cmd == machine.sources.last().cmd,
        machine.resolve(Ok(opened)).sources.last().line_map == Some(lines_chain()),
        machine.resolve(Ok(opened)).tables.imported == machine.tables.imported,
        machine.resolve(Ok(opened)).tables.sourced == machine.tables.sourced.push(Set::empty()),
{
}

/// Under the filter of a file that is read for its lines alone, every
/// directive but an empty line, text and the end of the source comes to
/// nothing, whatever frames lie above that filter.
pub proof fn theorem_lines_pass_alone(
    frames: Seq<FrameModel>,
    directive: DirectiveModel,
    depth: nat,
)
    requires
        frames.len() > 0,
        frames[0].mapper == MapperModel::Lines,
    ensures
        ({
            let mapped = applied(frames, directive, depth);
            mapped is Noop || mapped is Empty || mapped is Close || mapped is Text
        }),
        frames.len() == 1 ==> applied(frames, directive, depth) == skipped(directive),
    decreases frames.len(),
{
    if frames.len() == 1 {
        assert(frames.drop_last().len() == 0);
        assert(applied(frames, directive, depth) == applied(
            frames.drop_last(),
            skipped(directive),
            depth + 1,
        ));
    } else {
        let below = frames.drop_last();
        assert(below[0] == frames[0]);
        theorem_lines_pass_alone(
            below,
            frames.last().mapper.mapped(directive, depth),
            depth + 1,
        );
    }
}

/// A file that is read for its lines alone stays what it is: whatever its
/// lines say, its filter stays, its command and its watch stay, no title is
/// given, no command changes, and no file is asked for. Each of its lines
/// adds at most one line to the document.
pub proof fn theorem_lines_cannot_recurse(state: State, line: Option<Seq<char>>)
    requires
        state.source.line_map == Some(lines_chain()),
    ensures
        state.perform(line).state.source.line_map == Some(lines_chain()),
        state.perform(line).state.source.cmd == state.source.cmd,
        state.perform(line).state.source.warning_watcher == state.source.warning_watcher,
        state.perform(line).state.title == state.title,
        !(state.perform(line).action is Import),
        state.perform(line).state.lines == state.lines || state.perform(line).state.lines.len()
            == state.lines.len() + 1,
{
    let read = state.source.read.read(line);
    theorem_lines_pass_alone(lines_chain(), read.directive, 0);
}

} // verus!
