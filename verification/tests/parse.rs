use line_view::directive::{Directive, Keyword};
use line_view::import::{Import, ImportKind};
use line_view::text::{chars_of, is_white, to_decimal};

fn text(s: &str) -> Directive {
    Directive::Text(s.to_owned())
}

fn warning(s: &str) -> Directive {
    Directive::Warning(s.to_owned())
}

#[test]
fn empty_line_is_empty() {
    assert_eq!(Directive::parse_line(""), Directive::Empty);
    assert_eq!(Directive::parse_line("   \t"), Directive::Empty);
    assert_eq!(Directive::parse_line("\n"), Directive::Empty);
}

#[test]
fn plain_line_is_text_without_trailing_white_space() {
    assert_eq!(Directive::parse_line("hello world"), text("hello world"));
    assert_eq!(Directive::parse_line("  hello \t\r\n"), text("  hello"));
}

#[test]
fn doubled_hash_is_literal_text() {
    assert_eq!(Directive::parse_line("##literal"), text("#literal"));
    assert_eq!(Directive::parse_line("###"), text("##"));
    assert_eq!(Directive::parse_line("##-title x"), text("#-title x"));
}

#[test]
fn single_hash_is_a_comment() {
    assert_eq!(Directive::parse_line("# a comment  "), Directive::Comment("a comment".to_owned()));
    assert_eq!(Directive::parse_line("#"), Directive::Comment(String::new()));
    assert_eq!(Directive::parse_line("#x"), Directive::Comment("x".to_owned()));
}

#[test]
fn unknown_directive_is_a_warning() {
    assert_eq!(Directive::parse_line("#-frobnicate"), warning("frobnicate is not a directive"));
    assert_eq!(Directive::parse_line("#-frobnicate now"), warning("frobnicate is not a directive"));
    assert_eq!(Directive::parse_line("#-"), warning(" is not a directive"));
    assert_eq!(Directive::parse_line("#-Title x"), warning("Title is not a directive"));
}

#[test]
fn unknown_directive_result_is_an_error() {
    assert_eq!(
        Directive::parse_directive_result("frobnicate"),
        Err("frobnicate is not a directive".to_owned())
    );
    assert_eq!(Directive::parse_directive_result("clean"), Ok(Directive::Clean));
}

#[test]
fn directives_without_payload() {
    assert_eq!(Directive::parse_line("#-clean"), Directive::Clean);
    assert_eq!(Directive::parse_line("#-empty"), Directive::Empty);
    assert_eq!(Directive::parse_line("#-close"), Directive::Close);
    assert_eq!(Directive::parse_line("#-end"), Directive::EndMap { automatic: false });
    assert_eq!(Directive::parse_line("#-ignore-warnings"), Directive::IgnoreWarnings);
    assert_eq!(Directive::parse_line("#-display-warnings"), Directive::DisplayWarnings);
    assert_eq!(Directive::parse_line("#-ignore-text"), Directive::IgnoreText);
    assert_eq!(Directive::parse_line("#-then"), Directive::Then);
    assert_eq!(Directive::parse_line("#-else"), Directive::Else);
    assert_eq!(Directive::parse_line("#-watch"), Directive::Watch);
    assert_eq!(Directive::parse_line("#-debug"), Directive::Debug);
}

#[test]
fn payload_of_a_directive_without_one_is_dropped() {
    assert_eq!(Directive::parse_line("#-clean everything"), Directive::Clean);
    assert_eq!(Directive::parse_line("#-end  now"), Directive::EndMap { automatic: false });
}

#[test]
fn directives_with_payload() {
    assert_eq!(Directive::parse_line("#-arg -n"), Directive::Arg("-n".to_owned()));
    assert_eq!(Directive::parse_line("#-exe /bin/echo"), Directive::Exe("/bin/echo".to_owned()));
    assert_eq!(Directive::parse_line("#-title My Title"), Directive::Title("My Title".to_owned()));
    assert_eq!(Directive::parse_line("#-subtitle Sub"), Directive::Subtitle("Sub".to_owned()));
    assert_eq!(Directive::parse_line("#-warning careful"), warning("careful"));
    assert_eq!(Directive::parse_line("#-text #-clean"), text("#-clean"));
    assert_eq!(Directive::parse_line("#-comment c"), Directive::Comment("c".to_owned()));
    assert_eq!(
        Directive::parse_line("#-import a.txt"),
        Directive::Import(Import::new_import("a.txt"))
    );
    assert_eq!(
        Directive::parse_line("#-source a.txt"),
        Directive::Import(Import::new_source("a.txt"))
    );
    assert_eq!(
        Directive::parse_line("#-lines a.txt"),
        Directive::Import(Import::new_lines("a.txt"))
    );
}

#[test]
fn import_constructors_keep_path_and_kind() {
    assert_eq!(Import::new_import("p").kind(), ImportKind::Import);
    assert_eq!(Import::new_source("p").kind(), ImportKind::Source);
    assert_eq!(Import::new_lines("p").kind(), ImportKind::Lines);
    assert_eq!(Import::new_lines("some/p").file(), "some/p");
    assert_ne!(Import::new_import("p"), Import::new_source("p"));
}

#[test]
fn payload_is_trimmed_and_unquoted() {
    assert_eq!(Directive::parse_line("#-title    spaced   "), Directive::Title("spaced".to_owned()));
    assert_eq!(Directive::parse_line("#-title \"A\""), Directive::Title("A".to_owned()));
    assert_eq!(Directive::parse_line("#-title \t \"  A  \"  "), Directive::Title("  A  ".to_owned()));
    assert_eq!(Directive::parse_line("#-arg \"\""), Directive::Arg(String::new()));
    // quotes are taken off once, and nothing inside them is escaped
    assert_eq!(Directive::parse_line("#-arg \"\"a\"\""), Directive::Arg("\"a\"".to_owned()));
    assert_eq!(Directive::parse_line("#-arg \"a\\\"b\""), Directive::Arg("a\\\"b".to_owned()));
    // a pair needs two quotes
    assert_eq!(Directive::parse_line("#-arg \""), Directive::Arg("\"".to_owned()));
    assert_eq!(Directive::parse_line("#-arg \"a"), Directive::Arg("\"a".to_owned()));
    assert_eq!(Directive::parse_line("#-arg a\""), Directive::Arg("a\"".to_owned()));
}

#[test]
fn name_ends_at_the_first_white_space() {
    assert_eq!(Directive::parse_line("#-title\tA"), Directive::Title("A".to_owned()));
    assert_eq!(Directive::parse_line("#-  title A"), Directive::Title("A".to_owned()));
    assert_eq!(Directive::parse_line("#-title\u{3000}A"), Directive::Title("A".to_owned()));
}

#[test]
fn missing_payload_is_a_warning() {
    for name in [
        "arg", "exe", "title", "subtitle", "import", "lines", "source", "warning", "text",
        "comment",
    ] {
        let expected = warning(&format!("directive {name} requires an argument"));
        assert_eq!(Directive::parse_line(&format!("#-{name}")), expected);
        assert_eq!(Directive::parse_line(&format!("#-{name}   ")), expected);
        assert_eq!(Directive::parse_directive(&format!("{name} \t ")), expected);
        assert_eq!(
            Directive::parse_directive_result(name),
            Err(format!("directive {name} requires an argument"))
        );
    }
}

#[test]
fn parse_directive_reads_what_is_behind_the_prefix() {
    assert_eq!(Directive::parse_directive("title A"), Directive::Title("A".to_owned()));
    assert_eq!(Directive::parse_directive("  watch"), Directive::Watch);
    assert_eq!(Directive::parse_directive(""), warning(" is not a directive"));
}

#[test]
fn white_space_is_what_unicode_says() {
    let white = |c: char| {
        matches!(
            c,
            '\u{9}'..='\u{d}'
                | ' '
                | '\u{85}'
                | '\u{a0}'
                | '\u{1680}'
                | '\u{2000}'..='\u{200a}'
                | '\u{2028}'
                | '\u{2029}'
                | '\u{202f}'
                | '\u{205f}'
                | '\u{3000}'
        )
    };
    let mut count = 0;
    for code in 0..=0x10ffffu32 {
        let Some(c) = char::from_u32(code) else {
            continue;
        };
        assert_eq!(c.is_whitespace(), white(c), "U+{code:04X}");
        assert_eq!(is_white(c), c.is_whitespace(), "U+{code:04X}");
        let parsed = Directive::parse_line(&format!("x{c}"));
        if white(c) {
            count += 1;
            assert_eq!(parsed, text("x"), "U+{code:04X}");
        } else {
            assert_eq!(parsed, text(&format!("x{c}")), "U+{code:04X}");
        }
    }
    assert_eq!(count, 25);
}

#[test]
fn chars_of_gives_the_characters() {
    assert_eq!(chars_of("a\u{e9}\u{1f600}"), vec!['a', '\u{e9}', '\u{1f600}']);
    assert_eq!(chars_of(""), Vec::<char>::new());
}

#[test]
fn decimal_digits() {
    assert_eq!(to_decimal(0), "0");
    assert_eq!(to_decimal(7), "7");
    assert_eq!(to_decimal(10), "10");
    assert_eq!(to_decimal(1234567890), "1234567890");
    assert_eq!(to_decimal(usize::MAX), usize::MAX.to_string());
}

#[test]
fn keywords_have_their_names() {
    assert_eq!(Keyword::IgnoreWarnings.word(), "ignore-warnings");
    assert_eq!(Keyword::End.word(), "end");
    assert!(Keyword::Title.needs_payload());
    assert!(!Keyword::Watch.needs_payload());
    assert_eq!(Keyword::find(&chars_of("xxthen"), 2, 6), Some(Keyword::Then));
    assert_eq!(Keyword::find(&chars_of("xxthen"), 1, 6), None);
    assert_eq!(Keyword::Lines.build("p"), Directive::Import(Import::new_lines("p")));
}

#[test]
fn format_writes_the_line_of_a_directive() {
    assert_eq!(Directive::Clean.format(), Some("#-clean".to_owned()));
    assert_eq!(Directive::EndMap { automatic: false }.format(), Some("#-end".to_owned()));
    assert_eq!(Directive::Title("A b".to_owned()).format(), Some("#-title \"A b\"".to_owned()));
    assert_eq!(text("plain").format(), Some("#-text \"plain\"".to_owned()));
    assert_eq!(
        Directive::Import(Import::new_source("s")).format(),
        Some("#-source \"s\"".to_owned())
    );
    assert_eq!(Directive::Noop.format(), None);
    assert_eq!(Directive::EndMap { automatic: true }.format(), None);
    assert_eq!(Directive::Multiple(vec![Directive::Clean]).format(), None);
}

#[test]
fn parse_and_format_go_round() {
    let lines = [
        "",
        "plain text",
        "  indented\t",
        "##hash",
        "# comment",
        "#-title \"Quoted Title\"",
        "#-title   bare  ",
        "#-arg \" kept \"",
        "#-arg \"\"",
        "#-exe /bin/sh",
        "#-import ~/file",
        "#-source \"a b\"",
        "#-lines x",
        "#-warning \"oops\"",
        "#-frobnicate",
        "#-title",
        "#-end",
        "#-watch",
        "#-then",
        "#-else",
        "#-display-warnings",
        "#-ignore-warnings",
        "#-ignore-text",
        "#-debug",
        "#-clean",
        "#-close",
        "#-empty",
        "#-text \"a \"quote\" inside\"",
    ];
    for line in lines {
        let parsed = Directive::parse_line(line);
        let formatted = parsed.format().expect("what a line is parsed to can be written");
        assert_eq!(Directive::parse_line(&formatted), parsed, "{line:?} -> {formatted:?}");
    }
    let payloads = ["", " ", "a", "\"", "\"\"", " a \"b\" ", "#-x", "\t"];
    for payload in payloads {
        for directive in [
            Directive::Arg(payload.to_owned()),
            Directive::Exe(payload.to_owned()),
            Directive::Title(payload.to_owned()),
            Directive::Subtitle(payload.to_owned()),
            Directive::Warning(payload.to_owned()),
            Directive::Text(payload.to_owned()),
            Directive::Comment(payload.to_owned()),
            Directive::Import(Import::new_import(payload)),
            Directive::Import(Import::new_source(payload)),
            Directive::Import(Import::new_lines(payload)),
        ] {
            let formatted = directive.format().expect("a directive with a payload can be written");
            assert_eq!(Directive::parse_line(&formatted), directive, "{formatted:?}");
        }
    }
}

#[test]
fn default_directive_does_nothing() {
    assert_eq!(Directive::default(), Directive::Noop);
}
