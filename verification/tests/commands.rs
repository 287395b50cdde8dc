use line_view::cmd::{Cmd, Directory, Invocation, LINE_NR, LINE_SRC};
use line_view::desktop::{desktop_entry, escape_exec};
use line_view::error::{show_args, Error};
use line_view::line_view::line::{Builder, Source};

fn strings(items: &[&str]) -> Vec<String> {
    items.iter().map(|item| (*item).to_owned()).collect()
}

#[test]
fn new_command_is_empty() {
    let cmd = Cmd::default();
    assert!(cmd.is_empty());
    assert_eq!(cmd.program(), None);
    assert!(cmd.arguments().is_empty());
}

#[test]
fn exe_and_arg_build_a_command() {
    let mut cmd = Cmd::default();
    cmd.arg("-n".to_owned()).exe("echo".to_owned()).arg("x y".to_owned());
    assert!(!cmd.is_empty());
    assert_eq!(cmd.program(), Some(&"echo".to_owned()));
    assert_eq!(cmd.arguments(), &strings(&["-n", "x y"]));
    cmd.exe("printf".to_owned());
    assert_eq!(cmd.program(), Some(&"printf".to_owned()));
    assert_eq!(cmd.arguments(), &strings(&["-n", "x y"]));
}

#[test]
fn empty_command_is_not_run() {
    let cmd = Cmd::default();
    assert_eq!(cmd.invocation(3, &Source::File("f".to_owned()), strings(&["text"])), None);
    let mut cmd = Cmd::default();
    cmd.arg("only an argument".to_owned());
    assert_eq!(cmd.invocation(3, &Source::File("f".to_owned()), Vec::new()), None);
}

#[test]
fn invocation_appends_parameters_and_tells_of_the_line() {
    let mut cmd = Cmd::default();
    cmd.exe("/bin/echo".to_owned()).arg("-n".to_owned()).arg("--".to_owned());
    let invocation =
        cmd.invocation(1042, &Source::File("/tmp/a file".to_owned()), strings(&["one", "two"]));
    assert_eq!(
        invocation,
        Some(Invocation {
            program: "/bin/echo".to_owned(),
            args: strings(&["-n", "--", "one", "two"]),
            line_nr: "1042".to_owned(),
            line_src: "FILE:/tmp/a file".to_owned(),
        })
    );
    assert_eq!(LINE_NR, "LINE_VIEW_LINE_NR");
    assert_eq!(LINE_SRC, "LINE_VIEW_LINE_SRC");
}

#[test]
fn source_is_shown_with_its_prefix() {
    assert_eq!(Source::File("a/b".to_owned()).to_string(), "FILE:a/b");
    assert_eq!(Source::File(String::new()).to_string(), "FILE:");
    assert_eq!(Source::File("x".to_owned()).copy(), Source::File("x".to_owned()));
}

#[test]
fn new_directory_has_no_handles() {
    let mut directory = Directory::<Cmd>::new();
    assert_eq!(directory.len(), 0);
    let first = directory.new_handle();
    assert_eq!(directory.len(), 1);
    assert!(directory.get(first).unwrap().is_empty());
}

#[test]
fn each_new_handle_has_a_command_of_its_own() {
    let mut directory = Directory::new();
    let first = directory.new_handle();
    let second = directory.new_handle();
    assert_ne!(first, second);
    directory.get_mut(first).unwrap().exe("one".to_owned());
    directory.index_mut(second).exe("two".to_owned()).arg("x".to_owned());
    assert_eq!(directory.get(first).unwrap().program(), Some(&"one".to_owned()));
    assert_eq!(directory.index(second).program(), Some(&"two".to_owned()));
    assert_eq!(directory.index(second).arguments(), &strings(&["x"]));
    assert!(directory.index(first).arguments().is_empty());
}

#[test]
fn select_gives_the_generation_and_makes_it_if_new() {
    let mut directory = Directory::new();
    let first = directory.new_handle();
    directory.index_mut(first).exe("zero".to_owned());
    let next = directory.select_command(first, 1);
    assert_ne!(next, first);
    assert!(directory.index(next).is_empty());
    assert_eq!(directory.index(first).program(), Some(&"zero".to_owned()));
    directory.index_mut(next).exe("one".to_owned());
    // a generation that is there is found again, with what it holds
    let again = directory.select_command(first, 1);
    assert_eq!(again, next);
    assert_eq!(directory.index(again).program(), Some(&"one".to_owned()));
    let back = directory.select_command(next, 0);
    assert_eq!(back, first);
    assert_eq!(directory.index(back).program(), Some(&"zero".to_owned()));
    // generations need not follow each other
    let far = directory.select_command(first, usize::MAX);
    assert!(directory.index(far).is_empty());
    assert_eq!(directory.len(), 1);
}

#[test]
fn clean_command_is_a_new_and_empty_one() {
    let mut directory = Directory::new();
    let other = directory.new_handle();
    let first = directory.new_handle();
    directory.index_mut(first).exe("zero".to_owned());
    let second = directory.clean_command(first);
    assert_eq!(directory.select_command(first, 1), second);
    assert!(directory.index(second).is_empty());
    directory.index_mut(second).exe("one".to_owned());
    // whichever handle of the scope asks, the clean command is none that was there
    let third = directory.clean_command(first);
    assert_eq!(directory.select_command(first, 2), third);
    assert!(directory.index(third).is_empty());
    directory.index_mut(third).arg("two".to_owned());
    let far = directory.select_command(third, 4);
    directory.index_mut(far).exe("four".to_owned());
    // the first generation that is free is taken
    let fourth = directory.clean_command(far);
    assert_eq!(directory.select_command(first, 3), fourth);
    assert!(directory.index(fourth).is_empty());
    let sixth = directory.clean_command(second);
    assert_eq!(directory.select_command(first, 5), sixth);
    assert!(directory.index(sixth).is_empty());
    // and nothing else has changed
    assert_eq!(directory.index(first).program(), Some(&"zero".to_owned()));
    assert_eq!(directory.index(second).program(), Some(&"one".to_owned()));
    assert_eq!(directory.index(third).arguments().len(), 1);
    assert_eq!(directory.index(far).program(), Some(&"four".to_owned()));
    assert!(directory.index(other).is_empty());
    assert_eq!(directory.len(), 2);
}

#[test]
fn handles_of_another_directory_are_not_found() {
    let mut big = Directory::new();
    big.new_handle();
    let second = big.new_handle();
    let third = big.select_command(second, 5);
    let mut small = Directory::<Cmd>::new();
    let only = small.new_handle();
    assert!(small.get(second).is_none());
    assert!(small.get_mut(third).is_none());
    assert!(small.get(only).is_some());
    assert!(big.get(only).is_some());
    let third_in_first_scope = big.select_command(only, 0);
    assert!(big.get(third_in_first_scope).is_some());
    assert!(small.get(third).is_none());
}

#[test]
fn shared_directory_holds_the_same_commands() {
    let mut directory = Directory::new();
    let a = directory.new_handle();
    let b = directory.new_handle();
    let c = directory.select_command(a, 1);
    let d = directory.select_command(a, 7);
    directory.index_mut(a).exe("a".to_owned());
    directory.index_mut(b).exe("b".to_owned()).arg("1".to_owned());
    directory.index_mut(c).arg("2".to_owned());
    directory.index_mut(d).exe("d".to_owned());
    let shared = directory.map_to_arc();
    assert_eq!(shared.len(), 2);
    assert_eq!(shared.index(a).program(), Some(&"a".to_owned()));
    assert_eq!(shared.index(b).program(), Some(&"b".to_owned()));
    assert_eq!(shared.index(b).arguments(), &strings(&["1"]));
    assert_eq!(shared.index(c).program(), None);
    assert_eq!(shared.index(c).arguments(), &strings(&["2"]));
    assert_eq!(shared.get(d).unwrap().program(), Some(&"d".to_owned()));
}

#[test]
fn builder_makes_the_line_it_was_told() {
    let mut directory = Directory::new();
    let handle = directory.new_handle();
    directory.index_mut(handle).exe("run".to_owned());
    let line = Builder::new()
        .text("hello".to_owned())
        .source(Source::File("f".to_owned()))
        .cmd(handle)
        .position(4)
        .build(&mut directory);
    assert_eq!(directory.len(), 1);
    assert_eq!(line.text(), "hello");
    assert_eq!(line.line(), 4);
    assert_eq!(line.source(), &Source::File("f".to_owned()));
    assert_eq!(*line.cmd(), handle);
    assert!(!line.is_title());
    assert!(!line.is_warning());
    assert_eq!(line.printed(), "hello");
    let shared = directory.map_to_arc();
    let line = line.map_to_arc_cmd(&shared);
    assert!(line.has_command());
    assert_eq!(line.cmd().program(), Some(&"run".to_owned()));
    assert_eq!(
        line.invocation(),
        Some(Invocation {
            program: "run".to_owned(),
            args: strings(&["hello"]),
            line_nr: "4".to_owned(),
            line_src: "FILE:f".to_owned(),
        })
    );
}

#[test]
fn line_without_a_command_gets_an_empty_one() {
    let mut directory = Directory::new();
    let line = Builder::new()
        .source(Source::File("f".to_owned()))
        .position(1)
        .title()
        .text("T".to_owned())
        .build(&mut directory);
    assert_eq!(directory.len(), 1);
    assert!(line.is_title());
    assert!(!line.is_warning());
    assert_eq!(line.printed(), "-- T");
    assert!(directory.index(*line.cmd()).is_empty());
    let warning = Builder::new()
        .warning()
        .source(Source::File("f".to_owned()))
        .position(2)
        .text("W".to_owned())
        .build(&mut directory);
    assert_eq!(directory.len(), 2);
    assert!(warning.is_warning());
    assert_eq!(warning.printed(), "[warning] W");
    assert_ne!(warning.cmd(), line.cmd());
    let shared = directory.map_to_arc();
    let warning = warning.map_to_arc_cmd(&shared);
    assert!(!warning.has_command());
    assert_eq!(warning.invocation(), None);
}

#[test]
fn last_kind_chosen_counts() {
    let mut directory = Directory::new();
    let line = Builder::new()
        .title()
        .warning()
        .source(Source::File("f".to_owned()))
        .position(1)
        .build(&mut directory);
    assert!(line.is_warning());
    assert!(!line.is_title());
    assert_eq!(line.text(), "");
}

#[test]
fn arguments_are_shown_with_commas() {
    assert_eq!(show_args(&Vec::new()), "");
    assert_eq!(show_args(&strings(&["a"])), "a");
    assert_eq!(show_args(&strings(&["a", "b c", ""])), "a, b c, ");
}

#[test]
fn errors_in_words() {
    assert_eq!(Error::Io("no such file".to_owned()).to_string(), "no such file");
    let error = Error::Spawn {
        err: "not found".to_owned(),
        program: "prog".to_owned(),
        args: strings(&["-a", "b"]),
    };
    assert_eq!(error.to_string(), "failed to spawn prog with args |-a, b|, not found");
    let error = Error::Spawn { err: "e".to_owned(), program: "p".to_owned(), args: Vec::new() };
    assert_eq!(error.to_string(), "failed to spawn p with args ||, e");
}

#[test]
fn program_path_is_escaped_for_the_desktop() {
    assert_eq!(escape_exec(b""), b"");
    assert_eq!(escape_exec(b"/usr/bin/line-viewer"), b"/usr/bin/line-viewer");
    assert_eq!(escape_exec(b"a b\nc\td\re\\f"), b"a\\sb\\nc\\td\\re\\\\f");
    assert_eq!(escape_exec(b"  "), b"\\s\\s");
    assert_eq!(escape_exec(&[0, 255, b's']), [0, 255, b's']);
    assert_eq!(
        desktop_entry(b"[Desktop Entry]\n", b"/opt/my app/viewer"),
        b"[Desktop Entry]\nExec=/opt/my\\sapp/viewer open %f\n"
    );
    assert_eq!(desktop_entry(b"", b""), b"Exec= open %f\n");
}
