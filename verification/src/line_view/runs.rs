//! Whole documents: what comes of reading files of plain text that name each
//! other, from the first answer to the last.

use vstd::prelude::*;

use crate::cmd::Handle;
use crate::directive::{parsed_line, DirectiveModel};
use crate::import::{not_included, ImportKind, ImportModel, OpenedModel};
use crate::line_view::directive_source::Ending;
use crate::line_view::line::{Kind, LineModel, LineSourceModel};
use crate::line_view::source::SourceModel;
use crate::line_view::theorems::AnswerModel;
use crate::line_view::InterpreterModel;

verus! {

/// A line of a document as it is shown: its text, the file that it comes
/// from, its number there, and its kind.
#[verifier::ext_equal]
pub struct Shown {
    pub text: Seq<char>,
    pub path: Seq<char>,
    pub position: usize,
    pub kind: Kind,
}

/// A line as it is shown.
pub open spec fn shown_line(line: LineModel<Handle>) -> Shown {
    Shown {
        text: line.text,
        path: match line.source {
            LineSourceModel::File(path) => path,
        },
        position: line.position,
        kind: line.kind,
    }
}

/// Lines as they are shown.
pub open spec fn shown(lines: Seq<LineModel<Handle>>) -> Seq<Shown> {
    Seq::new(lines.len(), |i: int| shown_line(lines[i]))
}

/// A source that is read line by line, with nothing put back, no filter and
/// no watch: its path, the number of the line that was read last, and the
/// index of the set of paths of its context.
#[verifier::ext_equal]
pub struct Level {
    pub path: Seq<char>,
    pub position: usize,
    pub context: usize,
}

/// A machine in outline: the sources that are open, the lines as they are
/// shown, the paths that were imported, and the paths that were read in each
/// context.
#[verifier::ext_equal]
pub struct Outline {
    pub levels: Seq<Level>,
    pub shown: Seq<Shown>,
    pub imported: Set<Seq<char>>,
    pub contexts: Seq<Set<Seq<char>>>,
}

/// Whether `source` is read line by line as `level` says, with nothing put
/// back, no filter and no watch.
pub open spec fn at_level(source: SourceModel, level: Level) -> bool {
    &&& source.line_map is None
    &&& source.warning_watcher is Sleeping
    &&& source.read.stack.len() == 0
    &&& source.read.ending == Ending::Open
    &&& source.read.reader == Some(level.position)
    &&& source.path == level.path
    &&& source.sourced == level.context
}

/// Whether `outline` is the outline of `machine`, a machine that waits for
/// no file and has not failed.
pub open spec fn outlined(machine: InterpreterModel, outline: Outline) -> bool {
    &&& machine.pending is None
    &&& machine.failure is None
    &&& machine.sources.len() == outline.levels.len()
    &&& forall|i: int|
        0 <= i < machine.sources.len() ==> at_level(
            #[trigger] machine.sources[i],
            outline.levels[i],
        )
    &&& shown(machine.lines) == outline.shown
    &&& machine.tables.imported == outline.imported
    &&& machine.tables.sourced == outline.contexts
}

impl Outline {
    /// The source on top.
    pub open spec fn top(self) -> Level
        recommends
            self.levels.len() > 0,
    {
        self.levels.last()
    }

    /// The outline once the source on top has read one more line, which is
    /// shown as a line of kind `kind` with the text `text` if `text` is
    /// given.
    pub open spec fn stepped(self, text: Option<Seq<char>>, kind: Kind) -> Outline {
        let position = (self.top().position + 1) as usize;
        Outline {
            levels: self.levels.update(
                self.levels.len() - 1,
                Level { position, ..self.top() },
            ),
            shown: match text {
                Some(text) => self.shown.push(
                    Shown { text, path: self.top().path, position, kind },
                ),
                None => self.shown,
            },
            imported: self.imported,
            contexts: self.contexts,
        }
    }

    /// The outline once the source on top has named, in its next line, a file
    /// that is imported: the file is read in a context of its own.
    pub open spec fn imported_file(self, opened: OpenedModel) -> Outline {
        let stepped = self.stepped(None, Kind::Default);
        Outline {
            levels: stepped.levels.push(
                Level { path: opened.path, position: 0, context: self.contexts.len() as usize },
            ),
            shown: self.shown,
            imported: self.imported.insert(opened.path),
            contexts: self.contexts.push(Set::empty()),
        }
    }

    /// The outline once the source on top has named, in its next line, a file
    /// that is read in its context.
    pub open spec fn sourced_file(self, opened: OpenedModel) -> Outline {
        let stepped = self.stepped(None, Kind::Default);
        Outline {
            levels: stepped.levels.push(
                Level { path: opened.path, position: 0, context: self.top().context },
            ),
            shown: self.shown,
            imported: self.imported,
            contexts: self.contexts.update(
                self.top().context as int,
                self.contexts[self.top().context as int].insert(opened.path),
            ),
        }
    }

    /// The outline once the source on top has read the lines of `texts`,
    /// which are text.
    pub open spec fn with_texts(self, texts: Seq<Seq<char>>) -> Outline {
        Outline {
            levels: self.levels.update(
                self.levels.len() - 1,
                Level { position: (self.top().position + texts.len()) as usize, ..self.top() },
            ),
            shown: self.shown + text_lines(self.top().path, texts, self.top().position + 1),
            imported: self.imported,
            contexts: self.contexts,
        }
    }

    /// The outline once the source on top has come to its end: it has given
    /// its empty line and has left the stack.
    pub open spec fn ended(self) -> Outline {
        let stepped = self.stepped(Some(Seq::empty()), Kind::Default);
        Outline {
            levels: self.levels.drop_last(),
            shown: stepped.shown,
            imported: self.imported,
            contexts: self.contexts,
        }
    }
}

/// The answer that hands the machine the line `line`.
pub open spec fn line(line: Seq<char>) -> AnswerModel {
    AnswerModel::Line(Some(line))
}

/// The answer that hands the machine no line.
pub open spec fn nothing() -> AnswerModel {
    AnswerModel::Line(None)
}

/// The answer that hands the machine the file `opened`.
pub open spec fn file(opened: OpenedModel) -> AnswerModel {
    AnswerModel::File(Ok(opened))
}

/// The answers that hand the machine the lines of `lines`, one by one.
pub open spec fn lines_of(lines: Seq<Seq<char>>) -> Seq<AnswerModel> {
    Seq::new(lines.len(), |i: int| line(lines[i]))
}

/// The two answers at the end of a source: no line is left, and the end is
/// at hand.
pub open spec fn end() -> Seq<AnswerModel> {
    seq![nothing(), nothing()]
}

/// Whether every line of `lines` is text.
pub open spec fn all_text(lines: Seq<Seq<char>>) -> bool {
    forall|i: int| 0 <= i < lines.len() ==> parsed_line(#[trigger] lines[i]) is Text
}

/// The lines of `lines`, which are text, as they are shown: as lines of the
/// file `path`, the first of them line `from`.
pub open spec fn text_lines(path: Seq<char>, lines: Seq<Seq<char>>, from: int) -> Seq<Shown> {
    Seq::new(
        lines.len(),
        |i: int|
            Shown {
                text: parsed_line(lines[i])->Text_0,
                path,
                position: (from + i) as usize,
                kind: Kind::Default,
            },
    )
}

/// Whether `line` calls for the file `file` to be pulled in as `kind` says.
pub open spec fn names(line: Seq<char>, kind: ImportKind, file: Seq<char>) -> bool {
    parsed_line(line) == DirectiveModel::Import(ImportModel { file, kind })
}

/// To hand a machine answers one after the other is to hand it the first of
/// them and then the rest.
pub proof fn lemma_run_in_parts(
    machine: InterpreterModel,
    first: Seq<AnswerModel>,
    rest: Seq<AnswerModel>,
)
    ensures
        machine.run(first + rest) == machine.run(first).run(rest),
    decreases first.len(),
{
    if first.len() == 0 {
        assert(first + rest =~= rest);
    } else {
        assert((first + rest)[0] == first[0]);
        assert((first + rest).drop_first() =~= first.drop_first() + rest);
        lemma_run_in_parts(machine.answered(first[0]), first.drop_first(), rest);
    }
}

/// To hand a machine one answer.
pub proof fn lemma_run_one(machine: InterpreterModel, answer: AnswerModel)
    ensures
        machine.run(seq![answer]) == machine.answered(answer),
{
    assert(seq![answer].drop_first().len() == 0);
    assert(machine.answered(answer).run(seq![answer].drop_first()) == machine.answered(answer));
}

/// To hand a machine two answers.
pub proof fn lemma_run_two(machine: InterpreterModel, first: AnswerModel, second: AnswerModel)
    ensures
        machine.run(seq![first, second]) == machine.answered(first).answered(second),
{
    assert(seq![first, second] =~= seq![first] + seq![second]);
    lemma_run_in_parts(machine, seq![first], seq![second]);
    lemma_run_one(machine, first);
    lemma_run_one(machine.answered(first), second);
}

/// The file that a document starts from is the first source, and counts as
/// imported.
pub proof fn lemma_root(path: Seq<char>, opened: OpenedModel)
    ensures
        outlined(
            InterpreterModel::path(path).answered(file(opened)),
            Outline {
                levels: seq![Level { path: opened.path, position: 0, context: 0 }],
                shown: Seq::empty(),
                imported: Set::empty().insert(opened.path),
                contexts: seq![Set::empty()],
            },
        ),
        InterpreterModel::path(path).answered(file(opened)).root_path == Some(path),
        InterpreterModel::path(path).answered(file(opened)).title is None,
{
    let machine = InterpreterModel::path(path).answered(file(opened));
    assert(shown(machine.lines) =~= Seq::empty());
    assert(machine.tables.sourced =~= seq![Set::empty()]);
}

/// A line of text is shown as it is.
pub proof fn lemma_text(machine: InterpreterModel, outline: Outline, text: Seq<char>)
    requires
        outlined(machine, outline),
        outline.levels.len() > 0,
        outline.top().position < usize::MAX,
        parsed_line(text) is Text,
    ensures
        outlined(
            machine.answered(line(text)),
            outline.stepped(Some(parsed_line(text)->Text_0), Kind::Default),
        ),
        machine.answered(line(text)).root_path == machine.root_path,
        machine.answered(line(text)).title == machine.title,
{
    let after = machine.answered(line(text));
    let top = machine.sources[machine.sources.len() - 1];
    assert(at_level(top, outline.levels[machine.sources.len() - 1]));
    let expected = outline.stepped(Some(parsed_line(text)->Text_0), Kind::Default);
    assert(shown(after.lines) =~= expected.shown);
    assert forall|i: int| 0 <= i < after.sources.len() implies at_level(
        #[trigger] after.sources[i],
        expected.levels[i],
    ) by {
        if i < machine.sources.len() - 1 {
            assert(at_level(machine.sources[i], outline.levels[i]));
        }
    }
}

/// Lines of text are shown one after the other as they are.
pub proof fn lemma_texts(machine: InterpreterModel, outline: Outline, texts: Seq<Seq<char>>)
    requires
        outlined(machine, outline),
        outline.levels.len() > 0,
        outline.top().position + texts.len() <= usize::MAX,
        all_text(texts),
    ensures
        outlined(
            machine.run(lines_of(texts)),
            Outline {
                levels: outline.levels.update(
                    outline.levels.len() - 1,
                    Level {
                        position: (outline.top().position + texts.len()) as usize,
                        ..outline.top()
                    },
                ),
                shown: outline.shown + text_lines(
                    outline.top().path,
                    texts,
                    outline.top().position + 1,
                ),
                imported: outline.imported,
                contexts: outline.contexts,
            },
        ),
        outlined(machine.run(lines_of(texts)), outline.with_texts(texts)),
        machine.run(lines_of(texts)).root_path == machine.root_path,
        machine.run(lines_of(texts)).title == machine.title,
    decreases texts.len(),
{
    let expected = Outline {
        levels: outline.levels.update(
            outline.levels.len() - 1,
            Level { position: (outline.top().position + texts.len()) as usize, ..outline.top() },
        ),
        shown: outline.shown + text_lines(outline.top().path, texts, outline.top().position + 1),
        imported: outline.imported,
        contexts: outline.contexts,
    };
    if texts.len() == 0 {
        assert(expected.levels =~= outline.levels);
        assert(expected.shown =~= outline.shown);
        assert(lines_of(texts).len() == 0);
    } else {
        let first = texts[0];
        let rest = texts.drop_first();
        assert(parsed_line(first) is Text);
        lemma_text(machine, outline, first);
        let next = machine.answered(line(first));
        let stepped = outline.stepped(Some(parsed_line(first)->Text_0), Kind::Default);
        assert forall|i: int| 0 <= i < rest.len() implies parsed_line(#[trigger] rest[i]) is Text by {
            assert(rest[i] == texts[i + 1]);
        }
        lemma_texts(next, stepped, rest);
        assert(lines_of(texts)[0] == line(first));
        assert(lines_of(texts).drop_first() =~= lines_of(rest));
        let last = Outline {
            levels: stepped.levels.update(
                stepped.levels.len() - 1,
                Level { position: (stepped.top().position + rest.len()) as usize, ..stepped.top() },
            ),
            shown: stepped.shown + text_lines(stepped.top().path, rest, stepped.top().position + 1),
            imported: stepped.imported,
            contexts: stepped.contexts,
        };
        assert(last.levels =~= expected.levels);
        assert(last.shown =~= expected.shown);
    }
}

/// A line that imports a file that was not imported before: the file is
/// read from its first line, in a context of its own, and counts as imported.
pub proof fn lemma_import(
    machine: InterpreterModel,
    outline: Outline,
    text: Seq<char>,
    name: Seq<char>,
    opened: OpenedModel,
)
    requires
        outlined(machine, outline),
        outline.levels.len() > 0,
        outline.top().position < usize::MAX,
        names(text, ImportKind::Import, name),
        !outline.imported.contains(opened.path),
    ensures
        outlined(
            machine.answered(line(text)).answered(file(opened)),
            outline.imported_file(opened),
        ),
        machine.answered(line(text)).answered(file(opened)).root_path == machine.root_path,
        machine.answered(line(text)).answered(file(opened)).title == machine.title,
{
    let asked = machine.answered(line(text));
    let after = asked.answered(file(opened));
    let top = machine.sources[machine.sources.len() - 1];
    assert(at_level(top, outline.levels[machine.sources.len() - 1]));
    let expected = outline.imported_file(opened);
    assert(shown(after.lines) =~= expected.shown);
    assert(after.sources.len() == expected.levels.len());
    assert forall|i: int| 0 <= i < after.sources.len() implies at_level(
        #[trigger] after.sources[i],
        expected.levels[i],
    ) by {
        if i < machine.sources.len() - 1 {
            assert(at_level(machine.sources[i], outline.levels[i]));
        }
    }
}

/// A line that imports a file that was imported before: the file is not
/// read, and a warning stands in the place of the line.
pub proof fn lemma_import_refused(
    machine: InterpreterModel,
    outline: Outline,
    text: Seq<char>,
    name: Seq<char>,
    opened: OpenedModel,
)
    requires
        outlined(machine, outline),
        outline.levels.len() > 0,
        outline.top().position < usize::MAX,
        names(text, ImportKind::Import, name),
        outline.imported.contains(opened.path),
    ensures
        outlined(
            machine.answered(line(text)).answered(file(opened)).answered(nothing()),
            outline.stepped(Some(not_included(name)), Kind::Warning),
        ),
        machine.answered(line(text)).answered(file(opened)).answered(nothing()).root_path
            == machine.root_path,
        machine.answered(line(text)).answered(file(opened)).answered(nothing()).title
            == machine.title,
{
    let asked = machine.answered(line(text));
    let refused = asked.answered(file(opened));
    let after = refused.answered(nothing());
    let top = machine.sources[machine.sources.len() - 1];
    assert(at_level(top, outline.levels[machine.sources.len() - 1]));
    let expected = outline.stepped(Some(not_included(name)), Kind::Warning);
    let waiting = refused.sources[refused.sources.len() - 1];
    assert(waiting.read.stack =~= seq![
        ((top.read.reader->0 + 1) as usize, DirectiveModel::Warning(not_included(name))),
    ]);
    assert(waiting.read.stack.drop_last().len() == 0);
    assert(shown(after.lines) =~= expected.shown);
    assert forall|i: int| 0 <= i < after.sources.len() implies at_level(
        #[trigger] after.sources[i],
        expected.levels[i],
    ) by {
        if i < machine.sources.len() - 1 {
            assert(at_level(machine.sources[i], outline.levels[i]));
        }
    }
}

/// A line that reads a file in the context of its source, where the file was
/// not read in that context before: the file is read from its first line,
/// and counts as read in the context.
pub proof fn lemma_source(
    machine: InterpreterModel,
    outline: Outline,
    text: Seq<char>,
    name: Seq<char>,
    opened: OpenedModel,
)
    requires
        outlined(machine, outline),
        outline.levels.len() > 0,
        outline.top().position < usize::MAX,
        outline.top().context < outline.contexts.len(),
        names(text, ImportKind::Source, name),
        !outline.contexts[outline.top().context as int].contains(opened.path),
    ensures
        outlined(
            machine.answered(line(text)).answered(file(opened)),
            outline.sourced_file(opened),
        ),
        machine.answered(line(text)).answered(file(opened)).root_path == machine.root_path,
        machine.answered(line(text)).answered(file(opened)).title == machine.title,
{
    let asked = machine.answered(line(text));
    let after = asked.answered(file(opened));
    let top = machine.sources[machine.sources.len() - 1];
    assert(at_level(top, outline.levels[machine.sources.len() - 1]));
    let expected = outline.sourced_file(opened);
    assert(shown(after.lines) =~= expected.shown);
    assert(after.sources.len() == expected.levels.len());
    assert forall|i: int| 0 <= i < after.sources.len() implies at_level(
        #[trigger] after.sources[i],
        expected.levels[i],
    ) by {
        if i < machine.sources.len() - 1 {
            assert(at_level(machine.sources[i], outline.levels[i]));
        }
    }
}

/// The end of a source: it gives its empty line and leaves the stack.
pub proof fn lemma_end(machine: InterpreterModel, outline: Outline)
    requires
        outlined(machine, outline),
        outline.levels.len() > 0,
        outline.top().position < usize::MAX,
    ensures
        outlined(machine.run(end()), outline.ended()),
        machine.run(end()).root_path == machine.root_path,
        machine.run(end()).title == machine.title,
{
    lemma_run_two(machine, nothing(), nothing());
    let closing = machine.answered(nothing());
    let after = closing.answered(nothing());
    let top = machine.sources[machine.sources.len() - 1];
    assert(at_level(top, outline.levels[machine.sources.len() - 1]));
    let expected = outline.ended();
    assert(shown(closing.lines) =~= expected.shown);
    assert(after.lines == closing.lines);
    assert(after.sources =~= machine.sources.drop_last());
    assert forall|i: int| 0 <= i < after.sources.len() implies at_level(
        #[trigger] after.sources[i],
        expected.levels[i],
    ) by {
        assert(at_level(machine.sources[i], outline.levels[i]));
    }
}

/// To hand a machine three answers.
pub proof fn lemma_run_three(
    machine: InterpreterModel,
    first: AnswerModel,
    second: AnswerModel,
    third: AnswerModel,
)
    ensures
        machine.run(seq![first, second, third]) == machine.answered(first).answered(
            second,
        ).answered(third),
{
    assert(seq![first, second, third] =~= seq![first, second] + seq![third]);
    lemma_run_in_parts(machine, seq![first, second], seq![third]);
    lemma_run_two(machine, first, second);
    lemma_run_one(machine.answered(first).answered(second), third);
}

/// The outline of a document that has just been started from a file.
pub open spec fn started(opened: OpenedModel) -> Outline {
    Outline {
        levels: seq![Level { path: opened.path, position: 0, context: 0 }],
        shown: Seq::empty(),
        imported: Set::empty().insert(opened.path),
        contexts: seq![Set::empty()],
    }
}

/// The empty line that closes the file `path` behind its line `last`, as it
/// is shown.
pub open spec fn closing_line(path: Seq<char>, last: int) -> Shown {
    Shown { text: Seq::empty(), path, position: (last + 1) as usize, kind: Kind::Default }
}

/// What a driver hands the machine for a file A that imports a file B that
/// imports A again: A; the lines of A before its import; the import and B;
/// the lines of B before its import; that import, A once more, and a step
/// for the warning; the rest of B and its end; the rest of A and its end.
pub open spec fn cycle_answers(
    first: OpenedModel,
    second: OpenedModel,
    before_first: Seq<Seq<char>>,
    import_second: Seq<char>,
    after_first: Seq<Seq<char>>,
    before_second: Seq<Seq<char>>,
    import_first: Seq<char>,
    after_second: Seq<Seq<char>>,
) -> Seq<AnswerModel> {
    seq![file(first)] + lines_of(before_first) + seq![line(import_second), file(second)]
        + lines_of(before_second) + seq![line(import_first), file(first), nothing()] + lines_of(
        after_second,
    ) + end() + lines_of(after_first) + end()
}

/// What the document of that run shows: the lines of A before its import;
/// the lines of B before its import; one warning, at the line of the import
/// in B; the rest of B and its closing line; the rest of A and its closing
/// line.
pub open spec fn cycle_shown(
    first: OpenedModel,
    second: OpenedModel,
    before_first: Seq<Seq<char>>,
    after_first: Seq<Seq<char>>,
    before_second: Seq<Seq<char>>,
    name_of_first: Seq<char>,
    after_second: Seq<Seq<char>>,
) -> Seq<Shown> {
    text_lines(first.path, before_first, 1) + text_lines(second.path, before_second, 1) + seq![
        Shown {
            text: not_included(name_of_first),
            path: second.path,
            position: (before_second.len() + 1) as usize,
            kind: Kind::Warning,
        },
    ] + text_lines(second.path, after_second, before_second.len() as int + 2) + seq![
        closing_line(second.path, before_second.len() as int + 1 + after_second.len()),
    ] + text_lines(first.path, after_first, before_first.len() as int + 2) + seq![
        closing_line(first.path, before_first.len() as int + 1 + after_first.len()),
    ]
}

/// A file that imports a file that imports the first does not go round. The
/// whole document is read with finitely many answers, and never is a file
/// open twice: the second import of the first file is refused. Every line of
/// text of both files is shown once, the lines of the second file between
/// the lines of the first that surround its import; and one warning stands
/// where the second file imports the first, at the line of that import.
pub proof fn theorem_import_cycle_ends(
    path: Seq<char>,
    first: OpenedModel,
    second: OpenedModel,
    before_first: Seq<Seq<char>>,
    import_second: Seq<char>,
    name_of_second: Seq<char>,
    after_first: Seq<Seq<char>>,
    before_second: Seq<Seq<char>>,
    import_first: Seq<char>,
    name_of_first: Seq<char>,
    after_second: Seq<Seq<char>>,
)
    requires
        first.path != second.path,
        all_text(before_first),
        all_text(after_first),
        all_text(before_second),
        all_text(after_second),
        names(import_second, ImportKind::Import, name_of_second),
        names(import_first, ImportKind::Import, name_of_first),
        before_first.len() + after_first.len() + 2 < usize::MAX,
        before_second.len() + after_second.len() + 2 < usize::MAX,
    ensures
        ({
            let done = InterpreterModel::path(path).run(
                cycle_answers(
                    first,
                    second,
                    before_first,
                    import_second,
                    after_first,
                    before_second,
                    import_first,
                    after_second,
                ),
            );
            &&& done.finished()
            &&& done.failure is None
            &&& done.outcome() is Ok
            &&& shown(done.lines) == cycle_shown(
                first,
                second,
                before_first,
                after_first,
                before_second,
                name_of_first,
                after_second,
            )
            &&& done.tables.imported == Set::<Seq<char>>::empty().insert(first.path).insert(
                second.path,
            )
        }),
{
    let start = InterpreterModel::path(path);
    let front = seq![file(first)] + lines_of(before_first) + seq![
        line(import_second),
        file(second),
    ] + lines_of(before_second);
    let refusal = seq![line(import_first), file(first), nothing()];
    let rest = lines_of(after_second) + end() + lines_of(after_first) + end();
    lemma_cycle_front(
        path,
        first,
        second,
        before_first,
        import_second,
        name_of_second,
        before_second,
    );
    let m4 = start.run(front);
    let o4 = cycle_front(first, second, before_first, before_second);
    lemma_run_three(m4, line(import_first), file(first), nothing());
    lemma_import_refused(m4, o4, import_first, name_of_first, first);
    let m5 = m4.run(refusal);
    let o5 = o4.stepped(Some(not_included(name_of_first)), Kind::Warning);
    assert(o5.levels =~= seq![
        Level { path: first.path, position: (before_first.len() + 1) as usize, context: 0 },
        Level { path: second.path, position: (before_second.len() + 1) as usize, context: 1 },
    ]);
    lemma_cycle_rest(
        m5,
        o5,
        first,
        second,
        before_first,
        after_first,
        before_second,
        after_second,
    );
    let done = m5.run(rest);
    lemma_run_in_parts(start, front, refusal);
    lemma_run_in_parts(start, front + refusal, rest);
    assert(cycle_answers(
        first,
        second,
        before_first,
        import_second,
        after_first,
        before_second,
        import_first,
        after_second,
    ) =~= front + refusal + rest);
    assert(shown(done.lines) =~= cycle_shown(
        first,
        second,
        before_first,
        after_first,
        before_second,
        name_of_first,
        after_second,
    ));
}

/// The outline of that run before the second file imports the first: both
/// files are open, and the lines before their imports are shown.
pub open spec fn cycle_front(
    first: OpenedModel,
    second: OpenedModel,
    before_first: Seq<Seq<char>>,
    before_second: Seq<Seq<char>>,
) -> Outline {
    Outline {
        levels: seq![
            Level { path: first.path, position: (before_first.len() + 1) as usize, context: 0 },
            Level { path: second.path, position: before_second.len() as usize, context: 1 },
        ],
        shown: text_lines(first.path, before_first, 1) + text_lines(
            second.path,
            before_second,
            1,
        ),
        imported: Set::empty().insert(first.path).insert(second.path),
        contexts: seq![Set::empty(), Set::empty()],
    }
}

/// That run up to the import in the second file.
proof fn lemma_cycle_front(
    path: Seq<char>,
    first: OpenedModel,
    second: OpenedModel,
    before_first: Seq<Seq<char>>,
    import_second: Seq<char>,
    name_of_second: Seq<char>,
    before_second: Seq<Seq<char>>,
)
    requires
        first.path != second.path,
        all_text(before_first),
        all_text(before_second),
        names(import_second, ImportKind::Import, name_of_second),
        before_first.len() + 2 < usize::MAX,
        before_second.len() + 2 < usize::MAX,
    ensures
        outlined(
            InterpreterModel::path(path).run(
                seq![file(first)] + lines_of(before_first) + seq![
                    line(import_second),
                    file(second),
                ] + lines_of(before_second),
            ),
            cycle_front(first, second, before_first, before_second),
        ),
{
    let start = InterpreterModel::path(path);
    let part0 = seq![file(first)];
    let m1 = start.run(part0);
    lemma_run_one(start, file(first));
    lemma_root(path, first);
    let o1 = started(first);
    let part1 = lines_of(before_first);
    let m2 = m1.run(part1);
    lemma_texts(m1, o1, before_first);
    let o2 = o1.with_texts(before_first);
    assert(o2.levels =~= seq![
        Level { path: first.path, position: before_first.len() as usize, context: 0 },
    ]);
    lemma_cycle_second(m2, o2, first, second, before_first, import_second, name_of_second, before_second);
    let part2 = seq![line(import_second), file(second)];
    let part3 = lines_of(before_second);
    lemma_run_in_parts(start, part0, part1);
    lemma_run_in_parts(start, part0 + part1, part2 + part3);
    assert(part0 + part1 + (part2 + part3) =~= part0 + part1 + part2 + part3);
}

/// That run from the import in the first file to the import in the second.
proof fn lemma_cycle_second(
    machine: InterpreterModel,
    outline: Outline,
    first: OpenedModel,
    second: OpenedModel,
    before_first: Seq<Seq<char>>,
    import_second: Seq<char>,
    name_of_second: Seq<char>,
    before_second: Seq<Seq<char>>,
)
    requires
        outlined(machine, outline),
        outline == (Outline {
            levels: seq![
                Level { path: first.path, position: before_first.len() as usize, context: 0 },
            ],
            shown: text_lines(first.path, before_first, 1),
            imported: Set::empty().insert(first.path),
            contexts: seq![Set::empty()],
        }),
        first.path != second.path,
        all_text(before_second),
        names(import_second, ImportKind::Import, name_of_second),
        before_first.len() + 2 < usize::MAX,
        before_second.len() + 2 < usize::MAX,
    ensures
        outlined(
            machine.run(seq![line(import_second), file(second)] + lines_of(before_second)),
            cycle_front(first, second, before_first, before_second),
        ),
{
    let part2 = seq![line(import_second), file(second)];
    let m3 = machine.run(part2);
    lemma_run_two(machine, line(import_second), file(second));
    lemma_import(machine, outline, import_second, name_of_second, second);
    let o3 = outline.imported_file(second);
    assert(o3.levels =~= seq![
        Level { path: first.path, position: (before_first.len() + 1) as usize, context: 0 },
        Level { path: second.path, position: 0, context: 1 },
    ]);
    let part3 = lines_of(before_second);
    lemma_texts(m3, o3, before_second);
    let o4 = o3.with_texts(before_second);
    let expected = cycle_front(first, second, before_first, before_second);
    assert(o4.levels =~= expected.levels);
    assert(o4.shown =~= expected.shown);
    assert(o4.contexts =~= expected.contexts);
    assert(o4.imported =~= expected.imported);
    lemma_run_in_parts(machine, part2, part3);
}

/// The rest of that run, from the warning on: the rest of the second file
/// and its end, then the rest of the first file and its end.
proof fn lemma_cycle_rest(
    machine: InterpreterModel,
    outline: Outline,
    first: OpenedModel,
    second: OpenedModel,
    before_first: Seq<Seq<char>>,
    after_first: Seq<Seq<char>>,
    before_second: Seq<Seq<char>>,
    after_second: Seq<Seq<char>>,
)
    requires
        outlined(machine, outline),
        outline.levels == seq![
            Level { path: first.path, position: (before_first.len() + 1) as usize, context: 0 },
            Level { path: second.path, position: (before_second.len() + 1) as usize, context: 1 },
        ],
        all_text(after_first),
        all_text(after_second),
        before_first.len() + after_first.len() + 2 < usize::MAX,
        before_second.len() + after_second.len() + 2 < usize::MAX,
    ensures
        ({
            let done = machine.run(
                lines_of(after_second) + end() + lines_of(after_first) + end(),
            );
            &&& done.finished()
            &&& done.failure is None
            &&& done.tables.imported == outline.imported
            &&& shown(done.lines) == outline.shown + text_lines(
                second.path,
                after_second,
                before_second.len() as int + 2,
            ) + seq![closing_line(second.path, before_second.len() as int + 1 + after_second.len())]
                + text_lines(first.path, after_first, before_first.len() as int + 2) + seq![
                closing_line(first.path, before_first.len() as int + 1 + after_first.len()),
            ]
        }),
{
    let part5 = lines_of(after_second);
    let m6 = machine.run(part5);
    lemma_texts(machine, outline, after_second);
    let o6 = outline.with_texts(after_second);
    let m7 = m6.run(end());
    lemma_end(m6, o6);
    let o7 = o6.ended();
    assert(o7.levels =~= seq![
        Level { path: first.path, position: (before_first.len() + 1) as usize, context: 0 },
    ]);
    let part7 = lines_of(after_first);
    let m8 = m7.run(part7);
    lemma_texts(m7, o7, after_first);
    let o8 = o7.with_texts(after_first);
    let done = m8.run(end());
    lemma_end(m8, o8);
    let o9 = o8.ended();
    assert(o9.levels =~= Seq::empty());
    lemma_run_in_parts(machine, part5, end());
    lemma_run_in_parts(machine, part5 + end(), part7);
    lemma_run_in_parts(machine, part5 + end() + part7, end());
    assert(o9.shown =~= outline.shown + text_lines(
        second.path,
        after_second,
        before_second.len() as int + 2,
    ) + seq![closing_line(second.path, before_second.len() as int + 1 + after_second.len())]
        + text_lines(first.path, after_first, before_first.len() as int + 2) + seq![
        closing_line(first.path, before_first.len() as int + 1 + after_first.len()),
    ]);
}

/// What a driver hands the machine for a line that imports a file whose one
/// line reads, in its context, a file of one line of text: the import and the
/// file; its line and the file that it reads; the line of text; and the ends
/// of the two files.
pub open spec fn subtree_answers(
    import: Seq<char>,
    child: OpenedModel,
    source: Seq<char>,
    leaf: OpenedModel,
    text: Seq<char>,
) -> Seq<AnswerModel> {
    seq![line(import), file(child), line(source), file(leaf), line(text)] + end() + end()
}

/// What such a subtree shows: the line of text, and the closing lines of the
/// two files.
pub open spec fn subtree_shown(child: OpenedModel, leaf: OpenedModel, text: Seq<char>) -> Seq<
    Shown,
> {
    seq![
        Shown {
            text: parsed_line(text)->Text_0,
            path: leaf.path,
            position: 1,
            kind: Kind::Default,
        },
        closing_line(leaf.path, 1),
        closing_line(child.path, 1),
    ]
}

/// A file that is imported reads a file in its context, whatever was read in
/// the contexts of other files: its context is its own, and begins empty.
/// The subtree is read to its end; it shows the text of the file that was
/// read; and what was read counts in a new context alone.
pub proof fn lemma_subtree(
    machine: InterpreterModel,
    outline: Outline,
    import: Seq<char>,
    name: Seq<char>,
    child: OpenedModel,
    source: Seq<char>,
    name_of_leaf: Seq<char>,
    leaf: OpenedModel,
    text: Seq<char>,
)
    requires
        outlined(machine, outline),
        outline.levels.len() > 0,
        outline.top().position < usize::MAX,
        outline.contexts.len() < usize::MAX,
        names(import, ImportKind::Import, name),
        names(source, ImportKind::Source, name_of_leaf),
        parsed_line(text) is Text,
        !outline.imported.contains(child.path),
    ensures
        outlined(
            machine.run(subtree_answers(import, child, source, leaf, text)),
            Outline {
                levels: outline.stepped(None, Kind::Default).levels,
                shown: outline.shown + subtree_shown(child, leaf, text),
                imported: outline.imported.insert(child.path),
                contexts: outline.contexts.push(Set::empty().insert(leaf.path)),
            },
        ),
{
    let opening = seq![line(import), file(child), line(source), file(leaf), line(text)];
    lemma_subtree_opens(machine, outline, import, name, child, source, name_of_leaf, leaf, text);
    let m3 = machine.run(opening);
    let o3 = outline.imported_file(child).sourced_file(leaf).stepped(
        Some(parsed_line(text)->Text_0),
        Kind::Default,
    );
    lemma_end(m3, o3);
    let m4 = m3.run(end());
    let o4 = o3.ended();
    lemma_end(m4, o4);
    let o5 = o4.ended();
    let expected = Outline {
        levels: outline.stepped(None, Kind::Default).levels,
        shown: outline.shown + subtree_shown(child, leaf, text),
        imported: outline.imported.insert(child.path),
        contexts: outline.contexts.push(Set::empty().insert(leaf.path)),
    };
    assert(o5.levels =~= expected.levels);
    assert(o5.shown =~= expected.shown);
    assert(o5.contexts =~= expected.contexts);
    lemma_run_in_parts(machine, opening, end());
    lemma_run_in_parts(machine, opening + end(), end());
}

/// The first answers of such a subtree: both files are open, and the line
/// of text is shown.
proof fn lemma_subtree_opens(
    machine: InterpreterModel,
    outline: Outline,
    import: Seq<char>,
    name: Seq<char>,
    child: OpenedModel,
    source: Seq<char>,
    name_of_leaf: Seq<char>,
    leaf: OpenedModel,
    text: Seq<char>,
)
    requires
        outlined(machine, outline),
        outline.levels.len() > 0,
        outline.top().position < usize::MAX,
        outline.contexts.len() < usize::MAX,
        names(import, ImportKind::Import, name),
        names(source, ImportKind::Source, name_of_leaf),
        parsed_line(text) is Text,
        !outline.imported.contains(child.path),
    ensures
        outlined(
            machine.run(seq![line(import), file(child), line(source), file(leaf), line(text)]),
            outline.imported_file(child).sourced_file(leaf).stepped(
                Some(parsed_line(text)->Text_0),
                Kind::Default,
            ),
        ),
        outline.imported_file(child).sourced_file(leaf).stepped(
            Some(parsed_line(text)->Text_0),
            Kind::Default,
        ).levels.len() == outline.levels.len() + 2,
        outline.imported_file(child).sourced_file(leaf).stepped(
            Some(parsed_line(text)->Text_0),
            Kind::Default,
        ).top().position == 1,
        outline.imported_file(child).sourced_file(leaf).stepped(
            Some(parsed_line(text)->Text_0),
            Kind::Default,
        ).ended().top().position == 1,
{
    lemma_import(machine, outline, import, name, child);
    let m1 = machine.answered(line(import)).answered(file(child));
    let o1 = outline.imported_file(child);
    lemma_source(m1, o1, source, name_of_leaf, leaf);
    let m2 = m1.answered(line(source)).answered(file(leaf));
    let o2 = o1.sourced_file(leaf);
    lemma_text(m2, o2, text);
    let first = seq![line(import), file(child)];
    let second = seq![line(source), file(leaf)];
    let third = seq![line(text)];
    lemma_run_two(machine, line(import), file(child));
    lemma_run_two(m1, line(source), file(leaf));
    lemma_run_one(m2, line(text));
    lemma_run_in_parts(machine, first, second);
    lemma_run_in_parts(machine, first + second, third);
    assert(first + second + third =~= seq![
        line(import),
        file(child),
        line(source),
        file(leaf),
        line(text),
    ]);
}

/// What a driver hands the machine for a file that imports two files, each
/// of which reads, in its context, the same file of one line of text.
pub open spec fn two_subtrees_answers(
    root: OpenedModel,
    import_first: Seq<char>,
    first: OpenedModel,
    source_first: Seq<char>,
    import_second: Seq<char>,
    second: OpenedModel,
    source_second: Seq<char>,
    leaf: OpenedModel,
    text: Seq<char>,
) -> Seq<AnswerModel> {
    seq![file(root)] + subtree_answers(import_first, first, source_first, leaf, text)
        + subtree_answers(import_second, second, source_second, leaf, text) + end()
}

/// One path is read once in each of two contexts that are apart. A file
/// that imports two files, each of which reads the same file in its context,
/// shows the text of that file twice, once for each, and no warning: what
/// was read in the context of the first does not count in that of the
/// second.
pub proof fn theorem_two_subtrees_source_one_file(
    path: Seq<char>,
    root: OpenedModel,
    import_first: Seq<char>,
    name_of_first: Seq<char>,
    first: OpenedModel,
    source_first: Seq<char>,
    import_second: Seq<char>,
    name_of_second: Seq<char>,
    second: OpenedModel,
    source_second: Seq<char>,
    name_of_leaf: Seq<char>,
    leaf: OpenedModel,
    text: Seq<char>,
)
    requires
        root.path != first.path,
        root.path != second.path,
        first.path != second.path,
        names(import_first, ImportKind::Import, name_of_first),
        names(import_second, ImportKind::Import, name_of_second),
        names(source_first, ImportKind::Source, name_of_leaf),
        names(source_second, ImportKind::Source, name_of_leaf),
        parsed_line(text) is Text,
    ensures
        ({
            let done = InterpreterModel::path(path).run(
                two_subtrees_answers(
                    root,
                    import_first,
                    first,
                    source_first,
                    import_second,
                    second,
                    source_second,
                    leaf,
                    text,
                ),
            );
            &&& done.finished()
            &&& done.failure is None
            &&& shown(done.lines) == subtree_shown(first, leaf, text) + subtree_shown(
                second,
                leaf,
                text,
            ) + seq![closing_line(root.path, 2)]
            &&& done.tables.sourced == seq![
                Set::<Seq<char>>::empty(),
                Set::<Seq<char>>::empty().insert(leaf.path),
                Set::<Seq<char>>::empty().insert(leaf.path),
            ]
        }),
{
    let start = InterpreterModel::path(path);
    let part0 = seq![file(root)];
    lemma_run_one(start, file(root));
    lemma_root(path, root);
    let m1 = start.run(part0);
    let o1 = started(root);
    let part1 = subtree_answers(import_first, first, source_first, leaf, text);
    lemma_subtree(
        m1,
        o1,
        import_first,
        name_of_first,
        first,
        source_first,
        name_of_leaf,
        leaf,
        text,
    );
    let m2 = m1.run(part1);
    let o2 = Outline {
        levels: o1.stepped(None, Kind::Default).levels,
        shown: o1.shown + subtree_shown(first, leaf, text),
        imported: o1.imported.insert(first.path),
        contexts: o1.contexts.push(Set::empty().insert(leaf.path)),
    };
    let part2 = subtree_answers(import_second, second, source_second, leaf, text);
    lemma_subtree(
        m2,
        o2,
        import_second,
        name_of_second,
        second,
        source_second,
        name_of_leaf,
        leaf,
        text,
    );
    let m3 = m2.run(part2);
    let o3 = Outline {
        levels: o2.stepped(None, Kind::Default).levels,
        shown: o2.shown + subtree_shown(second, leaf, text),
        imported: o2.imported.insert(second.path),
        contexts: o2.contexts.push(Set::empty().insert(leaf.path)),
    };
    lemma_end(m3, o3);
    let done = m3.run(end());
    let o4 = o3.ended();
    assert(o4.levels =~= Seq::empty());
    assert(o4.shown =~= subtree_shown(first, leaf, text) + subtree_shown(second, leaf, text)
        + seq![closing_line(root.path, 2)]);
    assert(o4.contexts =~= seq![
        Set::<Seq<char>>::empty(),
        Set::<Seq<char>>::empty().insert(leaf.path),
        Set::<Seq<char>>::empty().insert(leaf.path),
    ]);
    lemma_run_in_parts(start, part0, part1);
    lemma_run_in_parts(start, part0 + part1, part2);
    lemma_run_in_parts(start, part0 + part1 + part2, end());
}

} // verus!
