use line_view::cmd::{Cmd, Directory};
use line_view::directive::Directive;
use line_view::escape_path;
use line_view::import::{import, lines, source, Import, Opened};
use line_view::line_view::directive_reader::DirectiveReader;
use line_view::line_view::directive_source::{DirectiveSource, DirectiveStream};
use line_view::line_view::line_map::{DirectiveMapperChain, Mapper};
use line_view::line_view::source::{Source, Watch};
use line_view::line_view::source_action::SourceAction;
use line_view::path_set::PathSet;

fn strings(items: &[&str]) -> Vec<String> {
    items.iter().map(|item| (*item).to_owned()).collect()
}

#[test]
fn watch_wakes_once() {
    let mut watch = Watch::default();
    assert!(watch.is_sleeping());
    assert!(!watch.is_watching());
    assert!(!watch.note("lost".to_owned()));
    assert_eq!(watch, Watch::Sleeping);
    watch.watch();
    assert!(watch.is_watching());
    assert!(watch.note("one".to_owned()));
    // a watch that is on keeps what it has
    watch.watch();
    assert!(watch.note("two".to_owned()));
    assert_eq!(watch, Watch::Watching { occured: strings(&["one", "two"]) });
    assert_eq!(watch.copy(), watch);
    let taken = watch.take();
    assert_eq!(taken, Watch::Watching { occured: strings(&["one", "two"]) });
    assert_eq!(watch, Watch::Sleeping);
    assert_eq!(watch.take(), Watch::Sleeping);
}

#[test]
fn sleep_drops_what_was_watched() {
    let mut watch = Watch::Watching { occured: strings(&["one"]) };
    watch.sleep();
    assert_eq!(watch, Watch::Sleeping);
    watch.sleep();
    assert_eq!(watch, Watch::Sleeping);
    watch.watch();
    assert_eq!(watch, Watch::Watching { occured: Vec::new() });
}

#[test]
fn reader_counts_lines_from_one() {
    let mut reader = DirectiveReader::new(());
    assert_eq!(reader.read(Some("a")), (1, Directive::Text("a".to_owned())));
    assert_eq!(reader.read(Some("#-clean")), (2, Directive::Clean));
    assert_eq!(reader.read(None), (3, Directive::Close));
    assert_eq!(reader.read(Some("")), (4, Directive::Empty));
    assert!(DirectiveSource::needs_line(&reader));
    assert_eq!(DirectiveSource::read(&mut reader, Some("b")), (5, Directive::Text("b".to_owned())));
}

#[test]
fn reader_hands_out_what_it_reads_from() {
    let mut reader = DirectiveReader::new(vec![1, 2]);
    reader.reader().push(3);
    reader.read(None);
    assert_eq!(reader.reader(), &mut vec![1, 2, 3]);
}

#[test]
fn stream_gives_an_empty_line_before_it_closes() {
    let mut stream = DirectiveStream::new(DirectiveReader::new(()));
    assert!(stream.needs_line());
    assert_eq!(stream.read(Some("text")), (1, Directive::Text("text".to_owned())));
    assert!(stream.needs_line());
    assert_eq!(stream.read(None), (2, Directive::Empty));
    assert!(!stream.needs_line());
    assert_eq!(stream.read(Some("not read")), (2, Directive::Close));
    assert!(!stream.needs_line());
    assert_eq!(stream.read(None), (2, Directive::Close));
    assert_eq!(stream.read(Some("not read")), (2, Directive::Close));
}

#[test]
fn stream_closes_at_a_close_directive() {
    let mut stream = DirectiveStream::new(DirectiveReader::new(()));
    assert_eq!(stream.read(Some("#-close")), (1, Directive::Empty));
    assert_eq!(stream.read(Some("more")), (1, Directive::Close));
    assert!(!DirectiveSource::needs_line(&stream));
    assert_eq!(DirectiveSource::read(&mut stream, None), (1, Directive::Close));
}

#[test]
fn what_is_put_back_is_read_first_and_last_in_first_out() {
    let mut stream = DirectiveStream::new(DirectiveReader::new(()));
    stream.push(7, Directive::Watch).push(8, Directive::Then);
    assert!(!stream.needs_line());
    assert_eq!(stream.read(Some("not read")), (8, Directive::Then));
    assert_eq!(stream.read(None), (7, Directive::Watch));
    assert!(stream.needs_line());
    assert_eq!(stream.read(Some("read")), (1, Directive::Text("read".to_owned())));
    // also after the end
    assert_eq!(stream.read(None), (2, Directive::Empty));
    stream.push(9, Directive::Clean);
    assert_eq!(stream.read(None), (9, Directive::Clean));
    assert_eq!(stream.read(None), (2, Directive::Close));
}

#[test]
fn stream_without_a_reader_gives_nothing() {
    let mut stream = DirectiveStream::<()>::null();
    assert!(!stream.needs_line());
    assert!(stream.reader().is_none());
    assert_eq!(stream.read(Some("text")), (0, Directive::Noop));
    assert_eq!(stream.read(None), (0, Directive::Noop));
    stream.push(3, Directive::Else);
    assert_eq!(stream.read(None), (3, Directive::Else));
}

#[test]
fn path_set_holds_each_path_once() {
    let mut set = PathSet::new();
    assert!(!set.contains("a"));
    set.insert("a".to_owned());
    assert!(set.contains("a"));
    assert!(!set.contains("b"));
    assert!(!set.contains(""));
    assert!(set.check_and_insert("b"));
    assert!(!set.check_and_insert("b"));
    assert!(!set.check_and_insert("a"));
    assert!(set.contains("b"));
    assert!(!PathSet::default().contains("a"));
}

#[test]
fn escape_path_knows_the_home_directory() {
    assert_eq!(escape_path("plain/path", None), Ok("plain/path".to_owned()));
    assert_eq!(escape_path("/abs", Some("/home/me")), Ok("/abs".to_owned()));
    assert_eq!(escape_path("~", Some("/home/me")), Ok("~".to_owned()));
    assert_eq!(escape_path("~x/y", None), Ok("~x/y".to_owned()));
    assert_eq!(escape_path("a/~/b", None), Ok("a/~/b".to_owned()));
    assert_eq!(escape_path("", None), Ok(String::new()));
    assert_eq!(escape_path("~/file", None), Err("could not find user home".to_owned()));
    assert_eq!(escape_path("~/", None), Err("could not find user home".to_owned()));
    assert_eq!(escape_path("~/~", None), Err("could not find user home".to_owned()));
    assert_eq!(escape_path("~/~/file", None), Ok("~/file".to_owned()));
    assert_eq!(escape_path("~/~/file", Some("/home/me")), Ok("~/file".to_owned()));
    assert_eq!(escape_path("~/~/~/file", None), Ok("~/~/file".to_owned()));
    let expected = std::path::Path::new("/home/me").join("dir/file");
    assert_eq!(escape_path("~/dir/file", Some("/home/me")), Ok(expected.display().to_string()));
    assert_eq!(escape_path("~/x", Some("/h")), Ok("/h/x".to_owned()));
    assert_eq!(escape_path("~/x", Some("/h/")), Ok("/h/x".to_owned()));
    assert_eq!(escape_path("~/~/x", Some("/h")), Ok("~/x".to_owned()));
    assert_eq!(escape_path("x", None), Ok("x".to_owned()));
}

#[test]
fn new_source_starts_from_nothing() {
    let mut directory = Directory::new();
    let before = directory.new_handle();
    let mut source = Source::<()>::new("/a/b".to_owned(), "/a".to_owned(), 4, &mut directory);
    assert_eq!(source.path, "/a/b");
    assert_eq!(source.dir, "/a");
    assert_eq!(source.sourced, 4);
    assert_ne!(source.cmd, before);
    assert!(directory.index(source.cmd).is_empty());
    assert_eq!(source.warning_watcher, Watch::Sleeping);
    assert_eq!(source.line_map, None);
    assert!(!source.read.needs_line());
    assert_eq!(source.read.read(Some("x")), (0, Directive::Noop));
    let mut opened = Source::open("/a/c".to_owned(), "/a".to_owned(), vec![1u8], 0, &mut directory);
    assert_ne!(opened.cmd, source.cmd);
    assert!(opened.read.needs_line());
    assert_eq!(opened.read.reader(), Some(&mut vec![1u8]));
}

#[test]
fn shallow_source_keeps_all_but_the_stream() {
    let mut directory = Directory::new();
    let mut source = Source::open("/a/c".to_owned(), "/a".to_owned(), (), 2, &mut directory);
    source.warning_watcher = Watch::Watching { occured: strings(&["w"]) };
    source.line_map = Some(DirectiveMapperChain::new(Mapper::IgnoreText, None, false));
    source.read.push(1, Directive::Clean);
    let mut shallow = source.shallow();
    assert_eq!(shallow.path, source.path);
    assert_eq!(shallow.dir, source.dir);
    assert_eq!(shallow.cmd, source.cmd);
    assert_eq!(shallow.sourced, 2);
    assert_eq!(shallow.warning_watcher, source.warning_watcher);
    assert_eq!(shallow.line_map, source.line_map);
    assert_eq!(shallow.read.read(None), (0, Directive::Noop));
    assert_eq!(source.read.read(None), (1, Directive::Clean));
}

fn opened(path: &str) -> Option<Opened<()>> {
    Some(Opened { path: path.to_owned(), dir: "/dir".to_owned(), read: () })
}

#[test]
fn import_checks_what_was_imported() {
    let mut directory = Directory::new();
    let mut imported = PathSet::new();
    let mut sourced = vec![PathSet::new()];
    let first = import(opened("/a"), &mut imported, &mut sourced, &mut directory).unwrap();
    assert_eq!(first.path, "/a");
    assert_eq!(first.dir, "/dir");
    assert_eq!(first.sourced, 1);
    assert_eq!(first.line_map, None);
    assert_eq!(sourced.len(), 2);
    assert!(imported.contains("/a"));
    assert!(import(opened("/a"), &mut imported, &mut sourced, &mut directory).is_none());
    assert_eq!(sourced.len(), 2);
    assert!(import(None::<Opened<()>>, &mut imported, &mut sourced, &mut directory).is_none());
    let second = import(opened("/b"), &mut imported, &mut sourced, &mut directory).unwrap();
    assert_eq!(second.sourced, 2);
    assert_ne!(second.cmd, first.cmd);
    assert!(!sourced[0].contains("/a"));
}

#[test]
fn source_checks_its_context() {
    let mut directory = Directory::new();
    let parent = directory.new_handle();
    let mut sourced = vec![PathSet::new(), PathSet::new()];
    let first = source(opened("/a"), parent, 1, &mut sourced, &mut directory).unwrap();
    assert_eq!(first.cmd, parent);
    assert_eq!(first.sourced, 1);
    assert!(sourced[1].contains("/a"));
    assert!(!sourced[0].contains("/a"));
    assert!(source(opened("/a"), parent, 1, &mut sourced, &mut directory).is_none());
    assert!(source(opened("/a"), parent, 0, &mut sourced, &mut directory).is_some());
    assert!(source(None::<Opened<()>>, parent, 0, &mut sourced, &mut directory).is_none());
    assert_eq!(sourced.len(), 2);
}

#[test]
fn lines_check_nothing() {
    let mut directory = Directory::new();
    let parent = directory.new_handle();
    let mut sourced = vec![PathSet::new()];
    for round in 1..4 {
        let read = lines(opened("/a"), parent, &mut sourced, &mut directory).unwrap();
        assert_eq!(read.cmd, parent);
        assert_eq!(read.sourced, round);
        assert_eq!(read.line_map, Some(DirectiveMapperChain::new(Mapper::Lines, None, true)));
    }
    assert!(lines(None::<Opened<()>>, parent, &mut sourced, &mut directory).is_none());
    assert_eq!(sourced.len(), 4);
}

#[test]
fn perform_import_gives_the_source_or_the_warning() {
    let mut directory = Directory::new();
    let mut imported = PathSet::new();
    let mut sourced = vec![PathSet::new()];
    let parent = Source::<()>::new("/p".to_owned(), "/".to_owned(), 0, &mut directory);
    let read = Import::new_source("a").perform_import(
        parent.shallow(),
        &mut imported,
        &mut sourced,
        &mut directory,
        opened("/a"),
    );
    assert_eq!(read.unwrap().cmd, parent.cmd);
    let again = Import::new_source("./a").perform_import(
        parent.shallow(),
        &mut imported,
        &mut sourced,
        &mut directory,
        opened("/a"),
    );
    assert_eq!(
        again.unwrap_err(),
        Directive::Warning("could not source/import/lines ./a".to_owned())
    );
    let missing = Import::new_lines("gone").perform_import(
        parent.shallow(),
        &mut imported,
        &mut sourced,
        &mut directory,
        None,
    );
    assert_eq!(
        missing.unwrap_err(),
        Directive::Warning("could not source/import/lines gone".to_owned())
    );
    let imported_source = Import::new_import("a").perform_import(
        parent.shallow(),
        &mut imported,
        &mut sourced,
        &mut directory,
        opened("/a"),
    );
    assert_ne!(imported_source.unwrap().cmd, parent.cmd);
}

#[test]
fn perform_carries_out_one_directive() {
    let mut directory = Directory::<Cmd>::new();
    let mut source = Source::open("/p".to_owned(), "/".to_owned(), (), 0, &mut directory);
    let mut lines = Vec::new();
    let mut title = None;
    let step = |source: &mut Source<()>,
                lines: &mut Vec<_>,
                title: &mut Option<String>,
                directory: &mut Directory<Cmd>,
                line: Option<&str>| {
        SourceAction::perform(source, line, lines, title, directory, &mut Vec::new())
    };
    let action = step(&mut source, &mut lines, &mut title, &mut directory, Some("#-title T"));
    assert!(matches!(action, SourceAction::Noop));
    assert_eq!(title, Some("T".to_owned()));
    let action = step(&mut source, &mut lines, &mut title, &mut directory, Some("#-import x"));
    match action {
        SourceAction::Import { position, import } => {
            assert_eq!(position, 2);
            assert_eq!(import, Import::new_import("x"));
        }
        other => panic!("{other:?}"),
    }
    let first = source.cmd;
    let action = step(&mut source, &mut lines, &mut title, &mut directory, Some("#-clean"));
    assert!(matches!(action, SourceAction::Noop));
    assert_ne!(source.cmd, first);
    assert_eq!(directory.select_command(first, 1), source.cmd);
    assert!(directory.index(source.cmd).is_empty());
    let action = step(&mut source, &mut lines, &mut title, &mut directory, Some("text"));
    assert!(matches!(action, SourceAction::Noop));
    assert_eq!(lines.len(), 1);
    assert_eq!(lines[0].line(), 4);
    assert_eq!(*lines[0].cmd(), source.cmd);
    let action = step(&mut source, &mut lines, &mut title, &mut directory, None);
    assert!(matches!(action, SourceAction::Noop));
    assert_eq!(lines.len(), 2);
    let action = step(&mut source, &mut lines, &mut title, &mut directory, None);
    assert!(matches!(action, SourceAction::Pop));
}

/// Carries out `directive` as if the source had put it back, and gives the texts of the
/// warnings that became lines.
fn carry_out(source: &mut Source<()>, directive: Directive) -> Vec<String> {
    let mut directory = Directory::<Cmd>::new();
    source.cmd = directory.new_handle();
    let mut lines = Vec::new();
    let mut title = None;
    source.read.push(9, directive);
    let action = SourceAction::perform(source, None, &mut lines, &mut title, &mut directory, &mut Vec::new());
    assert!(matches!(action, SourceAction::Noop));
    lines
        .iter()
        .map(|line| {
            assert!(line.is_warning());
            assert_eq!(line.line(), 9);
            line.text().to_owned()
        })
        .collect()
}

fn source_with(line_map: Option<DirectiveMapperChain>) -> Source<()> {
    let mut directory = Directory::<Cmd>::new();
    let mut source = Source::open("/p".to_owned(), "/".to_owned(), (), 0, &mut directory);
    source.line_map = line_map;
    source
}

#[test]
fn end_closes_a_frame_that_came_as_it_did() {
    let manual = DirectiveMapperChain::new(Mapper::IgnoreText, None, false);
    let automatic = DirectiveMapperChain::new(Mapper::IgnoreText, Some(manual.copy()), true);

    let mut source = source_with(Some(automatic.copy()));
    assert_eq!(carry_out(&mut source, Directive::EndMap { automatic: true }), Vec::<String>::new());
    assert_eq!(source.line_map, Some(manual.copy()));
    assert_eq!(carry_out(&mut source, Directive::EndMap { automatic: false }), Vec::<String>::new());
    assert_eq!(source.line_map, None);
}

#[test]
fn end_that_came_otherwise_is_a_warning() {
    let manual = DirectiveMapperChain::new(Mapper::IgnoreText, None, false);
    let automatic = DirectiveMapperChain::new(Mapper::IgnoreText, None, true);

    let mut source = source_with(Some(automatic.copy()));
    assert_eq!(
        carry_out(&mut source, Directive::EndMap { automatic: false }),
        ["end directive was given when an automatic EndMap directive was required"]
    );
    assert_eq!(source.line_map, Some(automatic));

    let mut source = source_with(Some(manual.copy()));
    assert_eq!(
        carry_out(&mut source, Directive::EndMap { automatic: true }),
        ["EndMap directive was issued automatically whilst a manual end directive was required"]
    );
    assert_eq!(source.line_map, Some(manual));

    let mut source = source_with(None);
    assert_eq!(
        carry_out(&mut source, Directive::EndMap { automatic: true }),
        ["EndMap directive was issued automatically with no LineMap in use"]
    );
    assert_eq!(
        carry_out(&mut source, Directive::EndMap { automatic: false }),
        ["end directive used with nothing to end"]
    );
}

#[test]
fn list_of_directives_is_carried_out_in_its_order() {
    let mut directory = Directory::<Cmd>::new();
    let mut source = Source::open("/p".to_owned(), "/".to_owned(), (), 0, &mut directory);
    let mut lines = Vec::new();
    let mut title = None;
    source.read.push(
        4,
        Directive::Multiple(vec![
            Directive::Text("one".to_owned()),
            Directive::Multiple(vec![Directive::Text("two".to_owned())]),
            Directive::Text("three".to_owned()),
        ]),
    );
    for _ in 0..5 {
        SourceAction::perform(
            &mut source,
            Some("not read"),
            &mut lines,
            &mut title,
            &mut directory,
            &mut Vec::new(),
        );
    }
    let texts: Vec<(usize, &str)> = lines.iter().map(|line| (line.line(), line.text())).collect();
    assert_eq!(texts, [(4, "one"), (4, "two"), (4, "three")]);
    SourceAction::perform(
        &mut source,
        Some("read"),
        &mut lines,
        &mut title,
        &mut directory,
        &mut Vec::new(),
    );
    assert_eq!(lines.len(), 4);
    assert_eq!((lines[3].line(), lines[3].text()), (1, "read"));
}

#[test]
fn stream_of_a_reader_that_failed_warns_and_ends() {
    let mut stream = DirectiveStream::new(DirectiveReader::new(()));
    assert_eq!(stream.read(Some("one")), (1, Directive::Text("one".to_owned())));
    stream.fail("cannot read");
    assert!(!stream.needs_line());
    assert_eq!(stream.read(None), (2, Directive::Warning("cannot read".to_owned())));
    assert_eq!(stream.read(Some("not read")), (2, Directive::Empty));
    assert!(!stream.needs_line());
    assert_eq!(stream.read(None), (2, Directive::Close));
    // a stream that wants no line takes no failure
    stream.fail("again");
    assert_eq!(stream.read(None), (2, Directive::Close));
    let mut stream = DirectiveStream::new(DirectiveReader::new(()));
    stream.push(5, Directive::Clean);
    stream.fail("not now");
    assert_eq!(stream.read(None), (5, Directive::Clean));
    assert_eq!(stream.read(Some("read")), (1, Directive::Text("read".to_owned())));
    let mut reader = DirectiveReader::new(());
    assert_eq!(reader.skip(), 1);
    assert_eq!(reader.read(Some("x")), (2, Directive::Text("x".to_owned())));
}
