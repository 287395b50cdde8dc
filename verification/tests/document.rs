use std::collections::HashMap;

use line_view::cmd::Invocation;
use line_view::directive::Directive;
use line_view::error::Error;
use line_view::escape_path;
use line_view::import::Opened;
use line_view::line_view::{Interpreter, Request, RootLines};
use line_view::LineView;

/// The lines of a file that is held in memory, and how far they were read.
#[derive(Debug)]
struct Memory {
    lines: Vec<String>,
    next: usize,
}

impl Memory {
    fn new(text: &str) -> Self {
        Memory { lines: text.lines().map(str::to_owned).collect(), next: 0 }
    }

    /// The next line; a line that reads `!` stands for a failure of the reader.
    fn read_line(&mut self) -> Result<Option<String>, String> {
        let line = self.lines.get(self.next).cloned();
        self.next += 1;
        match line {
            Some(line) if line == "!" => Err("broken pipe".to_owned()),
            line => Ok(line),
        }
    }
}

/// Files by path. A file lies in the directory that its path names up to the last `/`.
struct Files(HashMap<String, String>);

impl Files {
    fn new(files: &[(&str, &str)]) -> Self {
        Files(files.iter().map(|(path, text)| ((*path).to_owned(), (*text).to_owned())).collect())
    }

    fn open(&self, file: &str, dir: &str) -> Result<Opened<Memory>, String> {
        self.find(file, dir).ok_or_else(|| format!("no file {file}"))
    }

    fn find(&self, file: &str, dir: &str) -> Option<Opened<Memory>> {
        let written = escape_path(file, Some("/home/me")).ok()?;
        let path = if written.starts_with('/') || dir.is_empty() {
            written
        } else if dir.ends_with('/') {
            format!("{dir}{written}")
        } else {
            format!("{dir}/{written}")
        };
        let text = self.0.get(&path)?;
        let dir = match path.rsplit_once('/') {
            Some(("", _)) => "/".to_owned(),
            Some((dir, _)) => dir.to_owned(),
            None => String::new(),
        };
        Some(Opened { path, dir, read: Memory::new(text) })
    }
}

/// Reads a document to its end, or to the error that ends it. `opened` counts how often each
/// file was opened, and behind `seen` stands what was traced.
fn try_run(
    mut machine: Interpreter<Memory>,
    files: &Files,
    opened: &mut Vec<String>,
    seen: &mut Vec<Directive>,
) -> Result<LineView, Error> {
    let mut steps = 0;
    loop {
        steps += 1;
        assert!(steps < 10_000, "the document does not end");
        match machine.request() {
            Request::Finished => break,
            Request::Line => {
                match machine.reader().expect("a source that wants a line").read_line() {
                    Ok(line) => seen.extend(machine.advance(line.as_deref())),
                    Err(error) => {
                        if let Err(error) = machine.fail(&error) {
                            assert!(machine.is_finished());
                            assert_eq!(machine.finish().err(), Some(error.clone()));
                            return Err(error);
                        }
                    }
                }
            }
            Request::Step => seen.extend(machine.advance(None)),
            Request::Root { path } => {
                let file = files.open(&path, "");
                if file.is_ok() {
                    opened.push(path);
                }
                if let Err(error) = machine.resolve(file) {
                    assert!(machine.is_finished());
                    assert_eq!(machine.finish().err(), Some(error.clone()));
                    return Err(error);
                }
            }
            Request::Open { file, dir } => {
                let found = files.open(&file, &dir);
                if let Ok(found) = &found {
                    opened.push(found.path.clone());
                }
                assert_eq!(machine.resolve(found), Ok(()));
            }
        }
    }
    assert!(machine.is_finished());
    machine.finish()
}

fn run_counting(
    machine: Interpreter<Memory>,
    files: &Files,
    opened: &mut Vec<String>,
) -> LineView {
    try_run(machine, files, opened, &mut Vec::new()).expect("a document")
}

fn run(machine: Interpreter<Memory>, files: &Files) -> LineView {
    run_counting(machine, files, &mut Vec::new())
}

fn read_buf(text: &str, files: &Files) -> LineView {
    run(Interpreter::new(RootLines::Buffer(Memory::new(text)), String::new()), files)
}

fn read_path(path: &str, files: &Files) -> LineView {
    run(Interpreter::new(RootLines::Path(path.to_owned()), String::new()), files)
}

/// Each line as `kind position source text`.
fn shown(view: &LineView) -> Vec<String> {
    view.lines()
        .iter()
        .map(|line| {
            let kind = if line.is_title() {
                "title"
            } else if line.is_warning() {
                "warning"
            } else {
                "line"
            };
            format!("{kind} {} {} {}", line.line(), line.source().to_string(), line.text())
        })
        .collect()
}

fn warnings(view: &LineView) -> Vec<String> {
    view.lines().iter().filter(|line| line.is_warning()).map(|line| line.text().to_owned()).collect()
}

fn texts(view: &LineView) -> Vec<String> {
    view.lines().iter().map(|line| line.printed()).collect()
}

fn none() -> Files {
    Files::new(&[])
}

#[test]
fn empty_buffer_is_one_empty_line() {
    let view = read_buf("", &none());
    assert_eq!(view.title(), "No Title");
    assert_eq!(shown(&view), ["line 1 FILE: "]);
    assert_eq!(view.len(), 1);
}

#[test]
fn lines_are_numbered_from_one_and_end_with_an_empty_line() {
    let view = read_buf("a\n\n# note\nb", &none());
    assert_eq!(shown(&view), ["line 1 FILE: a", "line 2 FILE: ", "line 4 FILE: b", "line 5 FILE: "]);
    assert_eq!(view.get(2).unwrap().text(), "b");
    assert_eq!(view.index(0).line(), 1);
    assert!(view.get(4).is_none());
}

#[test]
fn title_of_a_file_is_its_path() {
    let files = Files::new(&[("/docs/a.lv", "x")]);
    let view = read_path("/docs/a.lv", &files);
    assert_eq!(view.title(), "/docs/a.lv");
    assert_eq!(shown(&view), ["line 1 FILE:/docs/a.lv x", "line 2 FILE:/docs/a.lv "]);
}

#[test]
fn first_title_wins() {
    let view = read_buf("#-title \"A\"\n#-title \"B\"\ntext", &none());
    assert_eq!(view.title(), "A");
    assert_eq!(texts(&view), ["text", ""]);
    let files = Files::new(&[("/a", "#-import b\n#-title late"), ("/b", "#-title \"from b\"")]);
    assert_eq!(read_path("/a", &files).title(), "from b");
}

#[test]
fn then_swallows_the_warnings_that_were_watched() {
    let view = read_buf("#-watch\n#-warning \"oops\"\n#-then\n#-end", &none());
    assert_eq!(warnings(&view), Vec::<String>::new());
    assert_eq!(shown(&view), ["line 5 FILE: "]);
}

#[test]
fn else_shows_the_warnings_that_were_watched() {
    let view = read_buf("#-watch\n#-warning \"oops\"\n#-else\n#-display-warnings\n#-end", &none());
    assert_eq!(warnings(&view), ["oops"]);
    assert_eq!(shown(&view), ["warning 4 FILE: oops", "line 6 FILE: "]);
}

#[test]
fn then_block_is_shown_when_nothing_went_wrong() {
    let text = "#-watch\n#-then\nfine\n#-else\nbroken\n#-display-warnings\n#-end\nafter";
    assert_eq!(texts(&read_buf(text, &none())), ["fine", "after", ""]);
}

#[test]
fn else_block_is_shown_when_something_went_wrong() {
    let text = "#-watch\n#-warning one\n#-frobnicate\n#-then\nfine\n#-else\nbroken\n\
                #-display-warnings\n#-end\nafter";
    let view = read_buf(text, &none());
    assert_eq!(
        shown(&view),
        [
            "line 7 FILE: broken",
            "warning 8 FILE: one",
            "warning 8 FILE: frobnicate is not a directive",
            "line 10 FILE: after",
            "line 11 FILE: ",
        ]
    );
}

#[test]
fn warning_outside_a_watch_is_a_line() {
    let view = read_buf("#-warning \"now\"\n#-frobnicate", &none());
    assert_eq!(shown(&view), ["warning 1 FILE: now", "warning 2 FILE: frobnicate is not a directive", "line 3 FILE: "]);
    assert_eq!(texts(&view)[1], "[warning] frobnicate is not a directive");
}

#[test]
fn misplaced_block_directives_are_warnings() {
    let view = read_buf("#-then\n#-else\n#-display-warnings\n#-end\n#-watch\n#-watch", &none());
    assert_eq!(
        warnings(&view),
        [
            "then blocks need to be placed somewhere after a watch directive",
            "else blocks need to be placed somewhere after a watch directive",
            "warnings can only be displayed in else blocks",
            "end directive used with nothing to end",
        ]
    );
    // the second watch was a warning too, and the watch that was on has it
    let view = read_buf("#-watch\n#-watch\n#-else\n#-display-warnings\n#-end", &none());
    assert_eq!(warnings(&view), ["watch called multiple times before else or then block"]);
}

#[test]
fn filters_nest_and_end_one_by_one() {
    let text = "#-ignore-text\nhidden\n#-ignore-warnings\n#-warning hidden\nhidden too\n#-end\n\
                #-warning shown\nstill hidden\n#-end\nshown";
    assert_eq!(texts(&read_buf(text, &none())), ["[warning] shown", "shown", ""]);
}

#[test]
fn subtitle_is_a_title_line() {
    let view = read_buf("#-subtitle Part One\n#-empty\n#-text #-clean", &none());
    assert_eq!(shown(&view), ["title 1 FILE: Part One", "line 2 FILE: ", "line 3 FILE: #-clean", "line 4 FILE: "]);
    assert_eq!(texts(&view)[0], "-- Part One");
}

#[test]
fn close_ends_a_source_early() {
    let files = Files::new(&[("/a", "one\n#-import b\nthree"), ("/b", "b one\n#-close\nb three")]);
    assert_eq!(
        shown(&read_path("/a", &files)),
        [
            "line 1 FILE:/a one",
            "line 1 FILE:/b b one",
            "line 2 FILE:/b ",
            "line 3 FILE:/a three",
            "line 4 FILE:/a ",
        ]
    );
}

#[test]
fn commands_are_bound_to_the_lines_of_their_source() {
    let view = read_buf("#-exe echo\n#-arg -n\nhello\n#-clean\nbye\n#-exe printf\nlast", &none());
    let hello = view.index(0);
    assert!(hello.has_command());
    assert_eq!(
        hello.invocation(),
        Some(Invocation {
            program: "echo".to_owned(),
            args: vec!["-n".to_owned(), "hello".to_owned()],
            line_nr: "3".to_owned(),
            line_src: "FILE:".to_owned(),
        })
    );
    // after clean the lines have a new command, which is set for all of them
    for (index, text) in [(1, "bye"), (2, "last")] {
        let line = view.index(index);
        assert_eq!(line.text(), text);
        assert_eq!(line.cmd().program(), Some(&"printf".to_owned()));
        assert!(line.cmd().arguments().is_empty());
    }
    // the empty line at the end runs nothing
    assert!(!view.index(3).has_command());
    assert_eq!(view.index(3).invocation(), None);
}

#[test]
fn lines_that_are_no_text_run_nothing() {
    let view = read_buf("#-exe echo\n#-subtitle T\n#-warning w\n\ntext", &none());
    let commands: Vec<bool> = view.lines().iter().map(|line| line.has_command()).collect();
    assert_eq!(texts(&view), ["-- T", "[warning] w", "", "text", ""]);
    assert_eq!(commands, [false, false, false, true, false]);
}

#[test]
fn import_has_its_own_command_and_source_keeps_that_of_its_parent() {
    let files = Files::new(&[
        ("/root", "#-exe parent\n#-import imported\n#-source sourced\nparent line"),
        ("/imported", "imported line"),
        ("/sourced", "sourced line\n#-arg added"),
    ]);
    let view = read_path("/root", &files);
    let programs: Vec<(String, Option<String>, usize)> = view
        .lines()
        .iter()
        .filter(|line| !line.text().is_empty())
        .map(|line| {
            (line.text().to_owned(), line.cmd().program().cloned(), line.cmd().arguments().len())
        })
        .collect();
    assert_eq!(
        programs,
        [
            ("imported line".to_owned(), None, 0),
            ("sourced line".to_owned(), Some("parent".to_owned()), 1),
            ("parent line".to_owned(), Some("parent".to_owned()), 1),
        ]
    );
}

#[test]
fn import_cycle_ends_with_one_warning() {
    let files = Files::new(&[("/A", "#-import B\na text"), ("/B", "#-import A\nb text")]);
    let mut opened = Vec::new();
    let machine = Interpreter::new(RootLines::Path("/A".to_owned()), String::new());
    let view = run_counting(machine, &files, &mut opened);
    assert_eq!(
        shown(&view),
        [
            "warning 1 FILE:/B could not source/import/lines A",
            "line 2 FILE:/B b text",
            "line 3 FILE:/B ",
            "line 2 FILE:/A a text",
            "line 3 FILE:/A ",
        ]
    );
    assert_eq!(warnings(&view), ["could not source/import/lines A"]);
    assert_eq!(opened, ["/A", "/B", "/A"]);
}

#[test]
fn import_of_itself_is_dropped() {
    let files = Files::new(&[("/A", "#-import A\n#-import /A\ntext")]);
    assert_eq!(
        texts(&read_path("/A", &files)),
        [
            "[warning] could not source/import/lines A",
            "[warning] could not source/import/lines /A",
            "text",
            "",
        ]
    );
}

#[test]
fn a_path_is_imported_once_in_a_document() {
    let files = Files::new(&[
        ("/root", "#-import a\n#-import b\n#-import a"),
        ("/a", "in a"),
        ("/b", "#-import a\nin b"),
    ]);
    assert_eq!(
        texts(&read_path("/root", &files)),
        [
            "in a",
            "",
            "[warning] could not source/import/lines a",
            "in b",
            "",
            "[warning] could not source/import/lines a",
            "",
        ]
    );
}

#[test]
fn missing_file_is_a_warning() {
    let view = read_buf("#-import nowhere\n#-source nowhere\n#-lines nowhere\nafter", &none());
    assert_eq!(
        shown(&view),
        [
            "warning 1 FILE: could not source/import/lines nowhere",
            "warning 2 FILE: could not source/import/lines nowhere",
            "warning 3 FILE: could not source/import/lines nowhere",
            "line 4 FILE: after",
            "line 5 FILE: ",
        ]
    );
}

#[test]
fn warning_of_a_refused_file_can_be_watched() {
    let text = "#-watch\n#-import nowhere\n#-else\n#-display-warnings\n#-end";
    assert_eq!(texts(&read_buf(text, &none())), ["[warning] could not source/import/lines nowhere", ""]);
    let text = "#-ignore-warnings\n#-import nowhere\n#-end\nshown";
    assert_eq!(texts(&read_buf(text, &none())), ["shown", ""]);
}

#[test]
fn source_is_read_once_in_a_context() {
    let files = Files::new(&[("/root", "#-source s\n#-source s\nend"), ("/s", "in s")]);
    assert_eq!(
        texts(&read_path("/root", &files)),
        ["in s", "", "[warning] could not source/import/lines s", "end", ""]
    );
}

#[test]
fn what_a_sourced_file_sources_counts_for_its_parent() {
    let files = Files::new(&[
        ("/root", "#-source one\n#-source two"),
        ("/one", "#-source two\nin one"),
        ("/two", "in two"),
    ]);
    assert_eq!(
        texts(&read_path("/root", &files)),
        ["in two", "", "in one", "", "[warning] could not source/import/lines two", ""]
    );
}

#[test]
fn source_of_one_path_from_two_contexts_is_read_twice() {
    let files = Files::new(&[
        ("/root", "#-import one\n#-import two\n#-source s"),
        ("/one", "#-source s"),
        ("/two", "#-source s\n#-source s"),
        ("/s", "in s"),
    ]);
    let mut opened = Vec::new();
    let machine = Interpreter::new(RootLines::Path("/root".to_owned()), String::new());
    let view = run_counting(machine, &files, &mut opened);
    assert_eq!(
        texts(&view),
        [
            "in s",
            "",
            "",
            "in s",
            "",
            "[warning] could not source/import/lines s",
            "",
            "in s",
            "",
            "",
        ]
    );
    assert_eq!(warnings(&view).len(), 1);
}

#[test]
fn source_does_not_ask_what_was_imported() {
    let files = Files::new(&[("/root", "#-import s\n#-source s\n#-source /root"), ("/s", "in s")]);
    // the file that was imported is sourced all the same, and so is, once, the file that the
    // document starts from: read again, it can neither import nor source what was read before
    assert_eq!(
        texts(&read_path("/root", &files)),
        [
            "in s",
            "",
            "in s",
            "",
            "[warning] could not source/import/lines s",
            "[warning] could not source/import/lines s",
            "[warning] could not source/import/lines /root",
            "",
            "",
        ]
    );
}

#[test]
fn lines_are_read_as_often_as_they_are_named() {
    let files = Files::new(&[
        ("/root", "#-exe run\n#-lines l\n#-lines l\n#-import l\n#-lines l"),
        (
            "/l",
            "#-title hidden\n#-exe other\ntext\n#-warning hidden\n#-lines l\n#-import root\n\
             #-ignore-text\n#-watch\n#-frobnicate\n\n#-text shown\n#-end",
        ),
    ]);
    let view = read_path("/root", &files);
    let of_lines = ["text", "", "shown", ""];
    let mut expected: Vec<&str> = Vec::new();
    expected.extend(of_lines);
    expected.extend(of_lines);
    // imported, the file is read for all that it says: it has a title, reads itself for its
    // lines, cannot import the file that the document starts from, watches its last warning
    // and hides its last text
    expected.extend(["text", "[warning] hidden"]);
    expected.extend(of_lines);
    expected.extend(["[warning] could not source/import/lines root", "", ""]);
    expected.extend(of_lines);
    expected.push("");
    assert_eq!(texts(&view), expected);
    assert_eq!(view.title(), "hidden");
    // the lines that were read for their text run the command of the file that named them
    assert_eq!(view.index(0).cmd().program(), Some(&"run".to_owned()));
    assert_eq!(view.index(2).cmd().program(), Some(&"run".to_owned()));
}

#[test]
fn lines_of_a_file_that_names_itself_do_not_go_round() {
    let files = Files::new(&[("/l", "#-lines l\nonce")]);
    let mut opened = Vec::new();
    let machine = Interpreter::new(RootLines::Path("/l".to_owned()), String::new());
    let view = run_counting(machine, &files, &mut opened);
    assert_eq!(texts(&view), ["once", "", "once", ""]);
    assert_eq!(opened, ["/l", "/l"]);
}

#[test]
fn files_are_found_from_the_directory_of_the_file_that_names_them() {
    let files = Files::new(&[
        ("/docs/root", "#-import sub/a\n#-import ~/h\n#-import ~/~/odd"),
        ("/docs/sub/a", "#-import b"),
        ("/docs/sub/b", "in b"),
        ("/home/me/h", "in home"),
        ("/docs/~/odd", "in odd"),
    ]);
    let view = read_path("/docs/root", &files);
    assert_eq!(
        shown(&view),
        [
            "line 1 FILE:/docs/sub/b in b",
            "line 2 FILE:/docs/sub/b ",
            "line 2 FILE:/docs/sub/a ",
            "line 1 FILE:/home/me/h in home",
            "line 2 FILE:/home/me/h ",
            "line 1 FILE:/docs/~/odd in odd",
            "line 2 FILE:/docs/~/odd ",
            "line 4 FILE:/docs/root ",
        ]
    );
}

#[test]
fn machine_asks_for_what_it_needs() {
    let mut machine: Interpreter<Memory> =
        Interpreter::new(RootLines::Path("/a".to_owned()), String::new());
    assert_eq!(machine.request(), Request::Root { path: "/a".to_owned() });
    assert!(!machine.is_finished());
    assert!(machine.reader().is_none());
    // a line is not what it waits for
    machine.advance(Some("text"));
    assert_eq!(machine.request(), Request::Root { path: "/a".to_owned() });
    let opened = Opened { path: "/a".to_owned(), dir: "/dir".to_owned(), read: Memory::new("") };
    assert_eq!(machine.resolve(Ok(opened)), Ok(()));
    assert_eq!(machine.request(), Request::Line);
    assert!(machine.reader().is_some());
    // a file is not what it waits for
    assert_eq!(machine.resolve(Err("not asked for".to_owned())), Ok(()));
    assert_eq!(machine.request(), Request::Line);
    machine.advance(Some("#-lines \"x y\""));
    assert_eq!(machine.request(), Request::Open { file: "x y".to_owned(), dir: "/dir".to_owned() });
    machine.advance(Some("ignored"));
    assert_eq!(machine.request(), Request::Open { file: "x y".to_owned(), dir: "/dir".to_owned() });
    // a failure of the reader is not what it waits for
    assert_eq!(machine.fail("not asked for"), Ok(()));
    assert_eq!(machine.request(), Request::Open { file: "x y".to_owned(), dir: "/dir".to_owned() });
    assert_eq!(machine.resolve(Err("permission denied".to_owned())), Ok(()));
    // the warning is at hand
    assert_eq!(machine.request(), Request::Step);
    machine.advance(Some("ignored too"));
    assert_eq!(machine.request(), Request::Line);
    machine.advance(None);
    // the empty line was given; the end of the source is at hand
    assert_eq!(machine.request(), Request::Step);
    machine.advance(None);
    assert_eq!(machine.request(), Request::Finished);
    assert!(machine.is_finished());
    machine.advance(Some("late"));
    assert_eq!(machine.resolve(Err("late".to_owned())), Ok(()));
    assert_eq!(machine.fail("late"), Ok(()));
    let view = machine.finish().unwrap();
    // what went wrong with the file is not told in the document
    assert_eq!(texts(&view), ["[warning] could not source/import/lines x y", ""]);
    assert_eq!(view.title(), "/a");
}

#[test]
fn document_without_its_file_is_an_error() {
    let mut machine: Interpreter<Memory> =
        Interpreter::new(RootLines::Path("/a".to_owned()), String::new());
    let error = Error::Io("no such file".to_owned());
    assert_eq!(machine.resolve(Err("no such file".to_owned())), Err(error.clone()));
    assert!(machine.is_finished());
    assert_eq!(machine.request(), Request::Finished);
    // nothing mends it
    machine.advance(Some("text"));
    assert_eq!(machine.fail("again"), Ok(()));
    let opened = Opened { path: "/a".to_owned(), dir: "/".to_owned(), read: Memory::new("x") };
    assert_eq!(machine.resolve(Ok(opened)), Ok(()));
    assert!(machine.reader().is_none());
    assert_eq!(machine.finish().err(), Some(error));

    let machine = Interpreter::new(RootLines::Path("/nowhere".to_owned()), String::new());
    let files = Files::new(&[("/a", "x")]);
    assert_eq!(
        try_run(machine, &files, &mut Vec::new(), &mut Vec::new()).err(),
        Some(Error::Io("no file /nowhere".to_owned()))
    );
}

#[test]
fn failure_to_read_the_first_source_is_an_error() {
    let files = Files::new(&[("/a", "one\n#-import b\n!\nnever read"), ("/b", "in b")]);
    let machine = Interpreter::new(RootLines::Path("/a".to_owned()), String::new());
    assert_eq!(
        try_run(machine, &files, &mut Vec::new(), &mut Vec::new()).err(),
        Some(Error::Io("broken pipe".to_owned()))
    );
    let machine = Interpreter::new(RootLines::Buffer(Memory::new("!")), String::new());
    assert_eq!(
        try_run(machine, &none(), &mut Vec::new(), &mut Vec::new()).err(),
        Some(Error::Io("broken pipe".to_owned()))
    );
}

#[test]
fn failure_to_read_another_source_is_a_warning_and_its_end() {
    let files = Files::new(&[
        ("/a", "one\n#-import b\n#-lines b\nthree"),
        ("/b", "in b\n!\nnever read"),
    ]);
    let view = read_path("/a", &files);
    assert_eq!(
        shown(&view),
        [
            "line 1 FILE:/a one",
            "line 1 FILE:/b in b",
            "warning 2 FILE:/b broken pipe",
            "line 2 FILE:/b ",
            // read for its lines alone, the file shows no warning
            "line 1 FILE:/b in b",
            "line 2 FILE:/b ",
            "line 4 FILE:/a three",
            "line 5 FILE:/a ",
        ]
    );
}

#[test]
fn missing_import_of_a_file_is_a_warning_at_its_line() {
    let files = Files::new(&[("/p", "first\nsecond\n#-import \"gone away\"\nfourth")]);
    let view = read_path("/p", &files);
    assert_eq!(
        shown(&view),
        [
            "line 1 FILE:/p first",
            "line 2 FILE:/p second",
            "warning 3 FILE:/p could not source/import/lines gone away",
            "line 4 FILE:/p fourth",
            "line 5 FILE:/p ",
        ]
    );
}

#[test]
fn debug_shows_the_directives_that_come_to_it() {
    let text = "before\n#-debug\nseen\n#-ignore-text\nhidden\n#-end\n#-title T\n#-end\nafter";
    let machine = Interpreter::new(RootLines::Buffer(Memory::new(text)), String::new());
    let mut seen = Vec::new();
    let view = try_run(machine, &none(), &mut Vec::new(), &mut seen).unwrap();
    assert_eq!(texts(&view), ["before", "seen", "after", ""]);
    assert_eq!(
        seen,
        [
            Directive::Text("seen".to_owned()),
            Directive::IgnoreText,
            // the frame above has made nothing of the text
            Directive::Noop,
            Directive::EndMap { automatic: false },
            Directive::Title("T".to_owned()),
            Directive::EndMap { automatic: false },
        ]
    );
}

#[test]
fn clean_gives_an_empty_command_after_a_sourced_file_has_cleaned() {
    let files = Files::new(&[
        ("/root", "#-exe first\nfirst\n#-source s\n#-clean\nclean\n#-exe last\nlast"),
        ("/s", "#-clean\n#-exe of-s\n#-arg x\nin s"),
    ]);
    let view = read_path("/root", &files);
    let programs: Vec<(String, Option<String>, usize)> = view
        .lines()
        .iter()
        .filter(|line| !line.text().is_empty())
        .map(|line| {
            (line.text().to_owned(), line.cmd().program().cloned(), line.cmd().arguments().len())
        })
        .collect();
    assert_eq!(
        programs,
        [
            ("first".to_owned(), Some("first".to_owned()), 0),
            ("in s".to_owned(), Some("of-s".to_owned()), 1),
            ("clean".to_owned(), Some("last".to_owned()), 0),
            ("last".to_owned(), Some("last".to_owned()), 0),
        ]
    );
}

#[test]
fn document_can_be_taken_before_its_end() {
    let mut machine = Interpreter::new(RootLines::Buffer(Memory::new("")), "/dir".to_owned());
    machine.advance(Some("#-exe run"));
    machine.advance(Some("one"));
    let view = machine.finish().unwrap();
    assert_eq!(texts(&view), ["one"]);
    assert!(view.index(0).has_command());
}

#[test]
fn default_document_is_empty() {
    let view = LineView::default();
    assert_eq!(view.title(), "");
    assert_eq!(view.len(), 0);
    assert!(view.lines().is_empty());
}

#[test]
fn two_imports_that_source_one_file_show_it_twice() {
    let files = Files::new(&[
        ("/r", "#-import b\n#-import c"),
        ("/b", "#-source x"),
        ("/c", "#-source x"),
        ("/x", "x"),
    ]);
    let view = read_path("/r", &files);
    assert_eq!(
        shown(&view),
        [
            "line 1 FILE:/x x",
            "line 2 FILE:/x ",
            "line 2 FILE:/b ",
            "line 1 FILE:/x x",
            "line 2 FILE:/x ",
            "line 2 FILE:/c ",
            "line 3 FILE:/r ",
        ]
    );
    assert!(warnings(&view).is_empty());
}

#[test]
fn import_cycle_shows_every_line_once() {
    let files = Files::new(&[
        ("/a", "a1\na2\n#-import b\na4"),
        ("/b", "b1\n#-import \"a\"\nb3\nb4"),
    ]);
    let view = read_path("/a", &files);
    assert_eq!(
        shown(&view),
        [
            "line 1 FILE:/a a1",
            "line 2 FILE:/a a2",
            "line 1 FILE:/b b1",
            "warning 2 FILE:/b could not source/import/lines a",
            "line 3 FILE:/b b3",
            "line 4 FILE:/b b4",
            "line 5 FILE:/b ",
            "line 4 FILE:/a a4",
            "line 5 FILE:/a ",
        ]
    );
}
