use line_view::directive::Directive;
use line_view::import::{skip_directives, Import};
use line_view::line_view::line_map::{
    directive_debug, ignore_text, ignore_warnings, DirectiveMapper, DirectiveMapperChain, Else,
    Mapper, Then,
};

fn strings(items: &[&str]) -> Vec<String> {
    items.iter().map(|item| (*item).to_owned()).collect()
}

fn samples() -> Vec<Directive> {
    vec![
        Directive::Noop,
        Directive::Empty,
        Directive::Close,
        Directive::Clean,
        Directive::DisplayWarnings,
        Directive::IgnoreWarnings,
        Directive::IgnoreText,
        Directive::Watch,
        Directive::Then,
        Directive::Else,
        Directive::Debug,
        Directive::EndMap { automatic: false },
        Directive::EndMap { automatic: true },
        Directive::Exe("e".to_owned()),
        Directive::Arg("a".to_owned()),
        Directive::Warning("w".to_owned()),
        Directive::Title("t".to_owned()),
        Directive::Subtitle("s".to_owned()),
        Directive::Text("x".to_owned()),
        Directive::Comment("c".to_owned()),
        Directive::Import(Import::new_import("i")),
        Directive::Import(Import::new_source("i")),
        Directive::Import(Import::new_lines("i")),
        Directive::Multiple(vec![Directive::Text("m".to_owned())]),
    ]
}

fn handed_over(warnings: &[&str]) -> Directive {
    let mut list = vec![Directive::EndMap { automatic: false }, Directive::Watch];
    for warning in warnings {
        list.push(Directive::Warning((*warning).to_owned()));
    }
    list.push(Directive::Else);
    Directive::Multiple(list)
}

#[test]
fn then_without_warnings_lets_everything_pass() {
    let then = Then::from(Vec::new());
    for (depth, (given, same)) in samples().into_iter().zip(samples()).enumerate() {
        if given == Directive::Else {
            assert_eq!(then.map(given, depth), handed_over(&[]));
        } else {
            assert_eq!(then.map(given, depth), same);
        }
    }
    assert_eq!(then.name(), "Then");
}

#[test]
fn then_with_warnings_swallows_its_block() {
    let then = Then::from(strings(&["one", "two"]));
    for depth in [0usize, 1, 5] {
        for (given, same) in samples().into_iter().zip(samples()) {
            let expected = match same {
                Directive::Else => handed_over(&["one", "two"]),
                Directive::Close => Directive::Close,
                Directive::EndMap { automatic } if depth == 0 => Directive::EndMap { automatic },
                _ => Directive::Noop,
            };
            assert_eq!(then.map(given, depth), expected);
        }
    }
}

#[test]
fn else_with_warnings_lets_everything_pass_and_replays() {
    let otherwise = Else::from(strings(&["one", "two"]));
    for (depth, (given, same)) in samples().into_iter().zip(samples()).enumerate() {
        if given == Directive::DisplayWarnings {
            assert_eq!(
                otherwise.map(given, depth),
                Directive::Multiple(vec![
                    Directive::Warning("one".to_owned()),
                    Directive::Warning("two".to_owned()),
                ])
            );
        } else {
            assert_eq!(otherwise.map(given, depth), same);
        }
    }
    assert_eq!(otherwise.name(), "Else");
}

#[test]
fn else_without_warnings_swallows_its_block() {
    let otherwise = Else::from(Vec::new());
    for depth in [0usize, 1, 5] {
        for (given, same) in samples().into_iter().zip(samples()) {
            let expected = match same {
                Directive::Close => Directive::Close,
                Directive::EndMap { automatic } if depth == 0 => Directive::EndMap { automatic },
                _ => Directive::Noop,
            };
            assert_eq!(otherwise.map(given, depth), expected);
        }
    }
}

#[test]
fn plain_filters_drop_one_kind() {
    for (given, same) in samples().into_iter().zip(samples()) {
        let expected = match same {
            Directive::Warning(_) => Directive::Noop,
            other => other,
        };
        assert_eq!(ignore_warnings(given), expected);
    }
    for (given, same) in samples().into_iter().zip(samples()) {
        let expected = match same {
            Directive::Text(_) => Directive::Noop,
            other => other,
        };
        assert_eq!(ignore_text(given), expected);
    }
    for (given, same) in samples().into_iter().zip(samples()) {
        assert_eq!(directive_debug(given), same);
    }
}

#[test]
fn lines_filter_lets_only_lines_pass() {
    for (given, same) in samples().into_iter().zip(samples()) {
        let expected = match same {
            Directive::Close => Directive::Close,
            Directive::Empty => Directive::Empty,
            Directive::Text(text) => Directive::Text(text),
            _ => Directive::Noop,
        };
        assert_eq!(skip_directives(given), expected);
    }
    assert_eq!(Mapper::Lines.name(), "skip_directives");
    for (given, same) in samples().into_iter().zip(samples()) {
        assert_eq!(Mapper::Lines.map(given, 0), skip_directives(same));
    }
}

#[test]
fn chain_grows_and_shrinks_frame_by_frame() {
    let base = DirectiveMapperChain::new(Mapper::IgnoreText, None, true);
    assert!(base.automatic());
    assert_eq!(base.prev(), None);
    let chain = DirectiveMapperChain::new(
        Mapper::Then(Then::from(strings(&["w"]))),
        Some(base.copy()),
        false,
    );
    assert!(!chain.automatic());
    assert_eq!(chain.prev(), Some(base.copy()));
    assert_eq!(chain.copy(), chain);
    let top = DirectiveMapperChain::new(Mapper::Debug, Some(chain.copy()), false);
    assert_eq!(top.prev(), Some(chain.copy()));
    assert_eq!(top.prev().unwrap().prev(), Some(base));
}

#[test]
fn chain_is_walked_from_the_top() {
    let base = DirectiveMapperChain::new(Mapper::IgnoreText, None, false);
    let middle = DirectiveMapperChain::new(Mapper::IgnoreWarnings, Some(base.copy()), true);
    let top = DirectiveMapperChain::new(Mapper::Debug, Some(middle.copy()), false);
    let mut iter = top.iter();
    assert_eq!(iter.next(), Some(top.copy()));
    assert_eq!(iter.next(), Some(middle));
    assert_eq!(iter.next(), Some(base));
    assert_eq!(iter.next(), None);
    assert_eq!(iter.next(), None);
}

#[test]
fn chain_applies_the_top_frame_first() {
    // below: drops text; above: a then block that has warnings
    let base = DirectiveMapperChain::new(Mapper::IgnoreText, None, false);
    let chain = DirectiveMapperChain::new(
        Mapper::Then(Then::from(strings(&["w"]))),
        Some(base.copy()),
        false,
    );
    assert_eq!(base.apply(Directive::Text("x".to_owned())), Directive::Noop);
    assert_eq!(base.apply(Directive::Title("t".to_owned())), Directive::Title("t".to_owned()));
    assert_eq!(chain.apply(Directive::Title("t".to_owned())), Directive::Noop);
    assert_eq!(chain.apply(Directive::Close), Directive::Close);
    // the then block is on top: the end goes through
    assert_eq!(
        chain.apply(Directive::EndMap { automatic: false }),
        Directive::EndMap { automatic: false }
    );
    assert_eq!(chain.apply(Directive::Else), handed_over(&["w"]));
    // the same block one frame down lets no end through
    let covered = DirectiveMapperChain::new(Mapper::IgnoreWarnings, Some(chain), false);
    assert_eq!(covered.apply(Directive::EndMap { automatic: false }), Directive::Noop);
    assert_eq!(covered.apply(Directive::Close), Directive::Close);
    assert_eq!(covered.apply(Directive::Else), handed_over(&["w"]));
}

#[test]
fn frames_below_see_what_frames_above_made() {
    // above: an else block with warnings, which replays them; below: no warnings pass, but a
    // list is no warning
    let base = DirectiveMapperChain::new(Mapper::IgnoreWarnings, None, false);
    let chain =
        DirectiveMapperChain::new(Mapper::Else(Else::from(strings(&["w"]))), Some(base), false);
    assert_eq!(
        chain.apply(Directive::DisplayWarnings),
        Directive::Multiple(vec![Directive::Warning("w".to_owned())])
    );
    assert_eq!(chain.apply(Directive::Warning("direct".to_owned())), Directive::Noop);
    // a then block below turns the list of the block above to nothing
    let base = DirectiveMapperChain::new(Mapper::Then(Then::from(strings(&["v"]))), None, false);
    let chain =
        DirectiveMapperChain::new(Mapper::Else(Else::from(strings(&["w"]))), Some(base), false);
    assert_eq!(chain.apply(Directive::DisplayWarnings), Directive::Noop);
}

#[test]
fn filter_names() {
    assert_eq!(Mapper::Then(Then::from(Vec::new())).name(), "Then");
    assert_eq!(Mapper::Else(Else::from(Vec::new())).name(), "Else");
    assert_eq!(Mapper::IgnoreWarnings.name(), "ignore_warnings");
    assert_eq!(Mapper::IgnoreText.name(), "ignore_text");
    assert_eq!(Mapper::Debug.name(), "directive_debug");
    assert_eq!(Mapper::Debug.copy(), Mapper::Debug);
}

#[test]
fn copy_of_a_directive_is_the_directive() {
    for directive in samples() {
        assert_eq!(directive.copy(), directive);
        assert_eq!(directive.clone(), directive);
    }
    let nested = Directive::Multiple(vec![
        Directive::Multiple(samples()),
        Directive::Text("x".to_owned()),
        Directive::Multiple(Vec::new()),
    ]);
    assert_eq!(nested.copy(), nested);
    assert_eq!(Import::new_lines("a b").copy(), Import::new_lines("a b"));
}
