//! Directives and the parser that reads one from a line of text.

use vstd::prelude::*;

use crate::import::{Import, ImportKind, ImportModel};
use crate::text::{
    chars_of, find_whitespace, first_whitespace, is_whitespace, lemma_first_whitespace_at,
    lemma_trim_end_at, lemma_trim_end_behind, lemma_trim_end_cut, lemma_trim_of_trimmed_end,
    lemma_trim_start_at, spells, trim, trim_end, trim_end_index, trim_start, trim_start_index,
    unquote,
};

verus! {

/// What one line of a document asks for.
#[derive(Debug, PartialEq, Eq)]
pub enum Directive {
    Noop,
    Empty,
    Close,
    Clean,
    DisplayWarnings,
    IgnoreWarnings,
    IgnoreText,
    Watch,
    Then,
    Else,
    Debug,
    EndMap { automatic: bool },
    Exe(String),
    Arg(String),
    Warning(String),
    Title(String),
    Subtitle(String),
    Text(String),
    Comment(String),
    Import(Import),
    Multiple(Vec<Directive>),
}

/// What a [`Directive`] stands for.
#[verifier::ext_equal]
pub enum DirectiveModel {
    Noop,
    Empty,
    Close,
    Clean,
    DisplayWarnings,
    IgnoreWarnings,
    IgnoreText,
    Watch,
    Then,
    Else,
    Debug,
    EndMap { automatic: bool },
    Exe(Seq<char>),
    Arg(Seq<char>),
    Warning(Seq<char>),
    Title(Seq<char>),
    Subtitle(Seq<char>),
    Text(Seq<char>),
    Comment(Seq<char>),
    Import(ImportModel),
    Multiple(Seq<DirectiveModel>),
}

impl View for Directive {
    type V = DirectiveModel;

    open spec fn view(&self) -> DirectiveModel
        decreases self,
    {
        match self {
            Directive::Noop => DirectiveModel::Noop,
            Directive::Empty => DirectiveModel::Empty,
            Directive::Close => DirectiveModel::Close,
            Directive::Clean => DirectiveModel::Clean,
            Directive::DisplayWarnings => DirectiveModel::DisplayWarnings,
            Directive::IgnoreWarnings => DirectiveModel::IgnoreWarnings,
            Directive::IgnoreText => DirectiveModel::IgnoreText,
            Directive::Watch => DirectiveModel::Watch,
            Directive::Then => DirectiveModel::Then,
            Directive::Else => DirectiveModel::Else,
            Directive::Debug => DirectiveModel::Debug,
            Directive::EndMap { automatic } => DirectiveModel::EndMap { automatic: *automatic },
            Directive::Exe(text) => DirectiveModel::Exe(text@),
            Directive::Arg(text) => DirectiveModel::Arg(text@),
            Directive::Warning(text) => DirectiveModel::Warning(text@),
            Directive::Title(text) => DirectiveModel::Title(text@),
            Directive::Subtitle(text) => DirectiveModel::Subtitle(text@),
            Directive::Text(text) => DirectiveModel::Text(text@),
            Directive::Comment(text) => DirectiveModel::Comment(text@),
            Directive::Import(import) => DirectiveModel::Import(import@),
            Directive::Multiple(list) => DirectiveModel::Multiple(
                Seq::new(
                    list@.len(),
                    |i: int|
                        if 0 <= i < list@.len() {
                            list@[i].view()
                        } else {
                            DirectiveModel::Noop
                        },
                ),
            ),
        }
    }
}

/// What a list of directives stands for.
pub open spec fn directive_models(list: Seq<Directive>) -> Seq<DirectiveModel> {
    Seq::new(list.len(), |i: int| list[i]@)
}

/// A list of directives, as a directive, stands for the list of what each
/// stands for.
pub proof fn lemma_multiple_model(list: Vec<Directive>)
    ensures
        Directive::Multiple(list)@ == DirectiveModel::Multiple(directive_models(list@)),
{
    assert(Directive::Multiple(list)@->Multiple_0 =~= directive_models(list@));
}

impl Directive {
    /// A copy of the directive.
    pub fn copy(&self) -> (copy: Self)
        ensures
            copy@ == self@,
        decreases self,
    {
        match self {
            Directive::Noop => Directive::Noop,
            Directive::Empty => Directive::Empty,
            Directive::Close => Directive::Close,
            Directive::Clean => Directive::Clean,
            Directive::DisplayWarnings => Directive::DisplayWarnings,
            Directive::IgnoreWarnings => Directive::IgnoreWarnings,
            Directive::IgnoreText => Directive::IgnoreText,
            Directive::Watch => Directive::Watch,
            Directive::Then => Directive::Then,
            Directive::Else => Directive::Else,
            Directive::Debug => Directive::Debug,
            Directive::EndMap { automatic } => Directive::EndMap { automatic: *automatic },
            Directive::Exe(text) => Directive::Exe(text.clone()),
            Directive::Arg(text) => Directive::Arg(text.clone()),
            Directive::Warning(text) => Directive::Warning(text.clone()),
            Directive::Title(text) => Directive::Title(text.clone()),
            Directive::Subtitle(text) => Directive::Subtitle(text.clone()),
            Directive::Text(text) => Directive::Text(text.clone()),
            Directive::Comment(text) => Directive::Comment(text.clone()),
            Directive::Import(import) => Directive::Import(import.copy()),
            Directive::Multiple(list) => {
                let mut copies: Vec<Directive> = Vec::new();
                let mut i: usize = 0;
                while i < list.len()
                    invariant
                        i <= list.len(),
                        copies.len() == i,
                        self == Directive::Multiple(*list),
                        forall|j: int| 0 <= j < i ==> copies@[j]@ == list@[j]@,
                    decreases list.len() - i,
                {
                    proof {
                        assert(decreases_to!(self => self->Multiple_0));
                        assert(decreases_to!(*list => list@));
                        assert(decreases_to!(list@ => list@[i as int]));
                    }
                    copies.push(list[i].copy());
                    i = i + 1;
                }
                proof {
                    lemma_multiple_model(copies);
                    lemma_multiple_model(*list);
                    assert(directive_models(copies@) =~= directive_models(list@));
                }
                Directive::Multiple(copies)
            },
        }
    }
}

impl Clone for Directive {
    fn clone(&self) -> (copy: Self)
        ensures
            copy@ == self@,
    {
        self.copy()
    }
}

impl Default for Directive {
    fn default() -> (directive: Self)
        ensures
            directive@ == DirectiveModel::Noop,
    {
        Directive::Noop
    }
}

/// The names by which a line calls for a directive.
#[derive(Debug, Clone, Copy, PartialEq, Eq, Structural)]
pub enum Keyword {
    Arg,
    Exe,
    Clean,
    Title,
    Subtitle,
    Import,
    Lines,
    Source,
    Warning,
    Text,
    Empty,
    Comment,
    Close,
    End,
    IgnoreWarnings,
    DisplayWarnings,
    IgnoreText,
    Then,
    Else,
    Watch,
    Debug,
}

impl Keyword {
    /// The name as it is written behind `#-`.
    pub open spec fn name(self) -> Seq<char> {
        match self {
            Keyword::Arg => "arg"@,
            Keyword::Exe => "exe"@,
            Keyword::Clean => "clean"@,
            Keyword::Title => "title"@,
            Keyword::Subtitle => "subtitle"@,
            Keyword::Import => "import"@,
            Keyword::Lines => "lines"@,
            Keyword::Source => "source"@,
            Keyword::Warning => "warning"@,
            Keyword::Text => "text"@,
            Keyword::Empty => "empty"@,
            Keyword::Comment => "comment"@,
            Keyword::Close => "close"@,
            Keyword::End => "end"@,
            Keyword::IgnoreWarnings => "ignore-warnings"@,
            Keyword::DisplayWarnings => "display-warnings"@,
            Keyword::IgnoreText => "ignore-text"@,
            Keyword::Then => "then"@,
            Keyword::Else => "else"@,
            Keyword::Watch => "watch"@,
            Keyword::Debug => "debug"@,
        }
    }

    /// The keyword that `name` spells, if any.
    pub open spec fn lookup(name: Seq<char>) -> Option<Keyword> {
        if name == "arg"@ {
            Some(Keyword::Arg)
        } else if name == "exe"@ {
            Some(Keyword::Exe)
        } else if name == "clean"@ {
            Some(Keyword::Clean)
        } else if name == "title"@ {
            Some(Keyword::Title)
        } else if name == "subtitle"@ {
            Some(Keyword::Subtitle)
        } else if name == "import"@ {
            Some(Keyword::Import)
        } else if name == "lines"@ {
            Some(Keyword::Lines)
        } else if name == "source"@ {
            Some(Keyword::Source)
        } else if name == "warning"@ {
            Some(Keyword::Warning)
        } else if name == "text"@ {
            Some(Keyword::Text)
        } else if name == "empty"@ {
            Some(Keyword::Empty)
        } else if name == "comment"@ {
            Some(Keyword::Comment)
        } else if name == "close"@ {
            Some(Keyword::Close)
        } else if name == "end"@ {
            Some(Keyword::End)
        } else if name == "ignore-warnings"@ {
            Some(Keyword::IgnoreWarnings)
        } else if name == "display-warnings"@ {
            Some(Keyword::DisplayWarnings)
        } else if name == "ignore-text"@ {
            Some(Keyword::IgnoreText)
        } else if name == "then"@ {
            Some(Keyword::Then)
        } else if name == "else"@ {
            Some(Keyword::Else)
        } else if name == "watch"@ {
            Some(Keyword::Watch)
        } else if name == "debug"@ {
            Some(Keyword::Debug)
        } else {
            None
        }
    }

    /// Whether the directive needs a payload behind its name.
    pub open spec fn takes_payload(self) -> bool {
        match self {
            Keyword::Arg
            | Keyword::Exe
            | Keyword::Title
            | Keyword::Subtitle
            | Keyword::Import
            | Keyword::Lines
            | Keyword::Source
            | Keyword::Warning
            | Keyword::Text
            | Keyword::Comment => true,
            _ => false,
        }
    }

    /// The directive that the keyword makes of `payload`; one that takes no
    /// payload makes the same of every payload.
    pub open spec fn directive(self, payload: Seq<char>) -> DirectiveModel {
        match self {
            Keyword::Arg => DirectiveModel::Arg(payload),
            Keyword::Exe => DirectiveModel::Exe(payload),
            Keyword::Clean => DirectiveModel::Clean,
            Keyword::Title => DirectiveModel::Title(payload),
            Keyword::Subtitle => DirectiveModel::Subtitle(payload),
            Keyword::Import => DirectiveModel::Import(
                ImportModel { file: payload, kind: ImportKind::Import },
            ),
            Keyword::Lines => DirectiveModel::Import(
                ImportModel { file: payload, kind: ImportKind::Lines },
            ),
            Keyword::Source => DirectiveModel::Import(
                ImportModel { file: payload, kind: ImportKind::Source },
            ),
            Keyword::Warning => DirectiveModel::Warning(payload),
            Keyword::Text => DirectiveModel::Text(payload),
            Keyword::Empty => DirectiveModel::Empty,
            Keyword::Comment => DirectiveModel::Comment(payload),
            Keyword::Close => DirectiveModel::Close,
            Keyword::End => DirectiveModel::EndMap { automatic: false },
            Keyword::IgnoreWarnings => DirectiveModel::IgnoreWarnings,
            Keyword::DisplayWarnings => DirectiveModel::DisplayWarnings,
            Keyword::IgnoreText => DirectiveModel::IgnoreText,
            Keyword::Then => DirectiveModel::Then,
            Keyword::Else => DirectiveModel::Else,
            Keyword::Watch => DirectiveModel::Watch,
            Keyword::Debug => DirectiveModel::Debug,
        }
    }

    /// The name as it is written behind `#-`.
    pub fn word(self) -> (word: &'static str)
        ensures
            word@ == self.name(),
    {
        match self {
            Keyword::Arg => "arg",
            Keyword::Exe => "exe",
            Keyword::Clean => "clean",
            Keyword::Title => "title",
            Keyword::Subtitle => "subtitle",
            Keyword::Import => "import",
            Keyword::Lines => "lines",
            Keyword::Source => "source",
            Keyword::Warning => "warning",
            Keyword::Text => "text",
            Keyword::Empty => "empty",
            Keyword::Comment => "comment",
            Keyword::Close => "close",
            Keyword::End => "end",
            Keyword::IgnoreWarnings => "ignore-warnings",
            Keyword::DisplayWarnings => "display-warnings",
            Keyword::IgnoreText => "ignore-text",
            Keyword::Then => "then",
            Keyword::Else => "else",
            Keyword::Watch => "watch",
            Keyword::Debug => "debug",
        }
    }

    /// The keyword that `chars[from..to]` spells, if any.
    pub fn find(chars: &Vec<char>, from: usize, to: usize) -> (keyword: Option<Keyword>)
        requires
            from <= to <= chars.len(),
        ensures
            keyword == Keyword::lookup(chars@.subrange(from as int, to as int)),
    {
        if spells(chars, from, to, "arg") {
            Some(Keyword::Arg)
        } else if spells(chars, from, to, "exe") {
            Some(Keyword::Exe)
        } else if spells(chars, from, to, "clean") {
            Some(Keyword::Clean)
        } else if spells(chars, from, to, "title") {
            Some(Keyword::Title)
        } else if spells(chars, from, to, "subtitle") {
            Some(Keyword::Subtitle)
        } else if spells(chars, from, to, "import") {
            Some(Keyword::Import)
        } else if spells(chars, from, to, "lines") {
            Some(Keyword::Lines)
        } else if spells(chars, from, to, "source") {
            Some(Keyword::Source)
        } else if spells(chars, from, to, "warning") {
            Some(Keyword::Warning)
        } else if spells(chars, from, to, "text") {
            Some(Keyword::Text)
        } else if spells(chars, from, to, "empty") {
            Some(Keyword::Empty)
        } else if spells(chars, from, to, "comment") {
            Some(Keyword::Comment)
        } else if spells(chars, from, to, "close") {
            Some(Keyword::Close)
        } else if spells(chars, from, to, "end") {
            Some(Keyword::End)
        } else if spells(chars, from, to, "ignore-warnings") {
            Some(Keyword::IgnoreWarnings)
        } else if spells(chars, from, to, "display-warnings") {
            Some(Keyword::DisplayWarnings)
        } else if spells(chars, from, to, "ignore-text") {
            Some(Keyword::IgnoreText)
        } else if spells(chars, from, to, "then") {
            Some(Keyword::Then)
        } else if spells(chars, from, to, "else") {
            Some(Keyword::Else)
        } else if spells(chars, from, to, "watch") {
            Some(Keyword::Watch)
        } else if spells(chars, from, to, "debug") {
            Some(Keyword::Debug)
        } else {
            None
        }
    }

    /// The directive that the keyword makes of `payload`.
    pub fn build(self, payload: &str) -> (directive: Directive)
        ensures
            directive@ == self.directive(payload@),
    {
        match self {
            Keyword::Arg => Directive::Arg(payload.to_owned()),
            Keyword::Exe => Directive::Exe(payload.to_owned()),
            Keyword::Clean => Directive::Clean,
            Keyword::Title => Directive::Title(payload.to_owned()),
            Keyword::Subtitle => Directive::Subtitle(payload.to_owned()),
            Keyword::Import => Directive::Import(Import::new_import(payload)),
            Keyword::Lines => Directive::Import(Import::new_lines(payload)),
            Keyword::Source => Directive::Import(Import::new_source(payload)),
            Keyword::Warning => Directive::Warning(payload.to_owned()),
            Keyword::Text => Directive::Text(payload.to_owned()),
            Keyword::Empty => Directive::Empty,
            Keyword::Comment => Directive::Comment(payload.to_owned()),
            Keyword::Close => Directive::Close,
            Keyword::End => Directive::EndMap { automatic: false },
            Keyword::IgnoreWarnings => Directive::IgnoreWarnings,
            Keyword::DisplayWarnings => Directive::DisplayWarnings,
            Keyword::IgnoreText => Directive::IgnoreText,
            Keyword::Then => Directive::Then,
            Keyword::Else => Directive::Else,
            Keyword::Watch => Directive::Watch,
            Keyword::Debug => Directive::Debug,
        }
    }
}

/// The warning for a name that is no keyword.
pub open spec fn unknown_name(name: Seq<char>) -> Seq<char> {
    name + " is not a directive"@
}

/// The warning for a keyword that came without the payload it needs.
pub open spec fn missing_payload(name: Seq<char>) -> Seq<char> {
    "directive "@ + name + " requires an argument"@
}

/// The directive that `text`, the part of a line behind `#-`, calls for, or
/// the warning that says why it calls for none.
///
/// The name runs up to the first white space. What follows that one
/// character is the payload, trimmed and without the pair of double quotes
/// around it; a keyword that needs one and finds none left gives the warning.
pub open spec fn parsed_directive_result(text: Seq<char>) -> Result<DirectiveModel, Seq<char>> {
    let text = trim_start(text);
    let split = first_whitespace(text);
    let name = text.take(split);
    let payload = if split < text.len() {
        trim(text.skip(split + 1))
    } else {
        Seq::empty()
    };
    match Keyword::lookup(name) {
        None => Err(unknown_name(name)),
        Some(keyword) => if !keyword.takes_payload() {
            Ok(keyword.directive(Seq::empty()))
        } else if payload.len() > 0 {
            Ok(keyword.directive(unquote(payload)))
        } else {
            Err(missing_payload(name))
        },
    }
}

/// The directive that `text`, the part of a line behind `#-`, calls for; a
/// warning where it calls for none.
pub open spec fn parsed_directive(text: Seq<char>) -> DirectiveModel {
    match parsed_directive_result(text) {
        Ok(directive) => directive,
        Err(warning) => DirectiveModel::Warning(warning),
    }
}

/// The directive of one line of a document.
///
/// Trailing white space does not count. An empty line is `Empty`; behind `#-`
/// stands a directive; behind `##` stands text that begins with `#`; behind a
/// single `#` stands a comment; anything else is text.
pub open spec fn parsed_line(text: Seq<char>) -> DirectiveModel {
    let text = trim_end(text);
    if text.len() == 0 {
        DirectiveModel::Empty
    } else if text.len() >= 2 && text[0] == '#' && text[1] == '-' {
        parsed_directive(text.skip(2))
    } else if text.len() >= 2 && text[0] == '#' && text[1] == '#' {
        DirectiveModel::Text(text.skip(1))
    } else if text[0] == '#' {
        DirectiveModel::Comment(trim_start(text.skip(1)))
    } else {
        DirectiveModel::Text(text)
    }
}

impl DirectiveModel {
    /// The keyword and the payload by which a line calls for the directive.
    /// Three directives no line calls for: the one that does nothing, the
    /// end that comes by itself, and a list of directives.
    pub open spec fn written(self) -> Option<(Keyword, Seq<char>)> {
        match self {
            DirectiveModel::Noop => None,
            DirectiveModel::Empty => Some((Keyword::Empty, Seq::empty())),
            DirectiveModel::Close => Some((Keyword::Close, Seq::empty())),
            DirectiveModel::Clean => Some((Keyword::Clean, Seq::empty())),
            DirectiveModel::DisplayWarnings => Some((Keyword::DisplayWarnings, Seq::empty())),
            DirectiveModel::IgnoreWarnings => Some((Keyword::IgnoreWarnings, Seq::empty())),
            DirectiveModel::IgnoreText => Some((Keyword::IgnoreText, Seq::empty())),
            DirectiveModel::Watch => Some((Keyword::Watch, Seq::empty())),
            DirectiveModel::Then => Some((Keyword::Then, Seq::empty())),
            DirectiveModel::Else => Some((Keyword::Else, Seq::empty())),
            DirectiveModel::Debug => Some((Keyword::Debug, Seq::empty())),
            DirectiveModel::EndMap { automatic } => if automatic {
                None
            } else {
                Some((Keyword::End, Seq::empty()))
            },
            DirectiveModel::Exe(text) => Some((Keyword::Exe, text)),
            DirectiveModel::Arg(text) => Some((Keyword::Arg, text)),
            DirectiveModel::Warning(text) => Some((Keyword::Warning, text)),
            DirectiveModel::Title(text) => Some((Keyword::Title, text)),
            DirectiveModel::Subtitle(text) => Some((Keyword::Subtitle, text)),
            DirectiveModel::Text(text) => Some((Keyword::Text, text)),
            DirectiveModel::Comment(text) => Some((Keyword::Comment, text)),
            DirectiveModel::Import(import) => Some(
                (
                    match import.kind {
                        ImportKind::Import => Keyword::Import,
                        ImportKind::Source => Keyword::Source,
                        ImportKind::Lines => Keyword::Lines,
                    },
                    import.file,
                ),
            ),
            DirectiveModel::Multiple(_) => None,
        }
    }

    /// The line that calls for the directive, with the payload between
    /// double quotes; nothing for a directive that no line calls for.
    pub open spec fn formatted(self) -> Option<Seq<char>> {
        match self.written() {
            Some((keyword, payload)) => Some(keyword.line(payload)),
            None => None,
        }
    }
}

impl Keyword {
    /// The line that calls for the directive of the keyword with `payload`:
    /// `#-` and the name, and behind one blank the payload between double
    /// quotes where the keyword takes one.
    pub open spec fn line(self, payload: Seq<char>) -> Seq<char> {
        if self.takes_payload() {
            "#-"@ + self.name() + " \""@ + payload + "\""@
        } else {
            "#-"@ + self.name()
        }
    }

    /// The name of a keyword has no white space in it, and is the name of no
    /// other keyword.
    pub proof fn lemma_name(self)
        ensures
            self.name().len() > 0,
            forall|i: int| 0 <= i < self.name().len() ==> !is_whitespace(#[trigger] self.name()[i]),
            Keyword::lookup(self.name()) == Some(self),
    {
        reveal_strlit("arg");
        reveal_strlit("exe");
        reveal_strlit("clean");
        reveal_strlit("title");
        reveal_strlit("subtitle");
        reveal_strlit("import");
        reveal_strlit("lines");
        reveal_strlit("source");
        reveal_strlit("warning");
        reveal_strlit("text");
        reveal_strlit("empty");
        reveal_strlit("comment");
        reveal_strlit("close");
        reveal_strlit("end");
        reveal_strlit("ignore-warnings");
        reveal_strlit("display-warnings");
        reveal_strlit("ignore-text");
        reveal_strlit("then");
        reveal_strlit("else");
        reveal_strlit("watch");
        reveal_strlit("debug");
        assert("arg"@.len() == 3);
        assert("exe"@.len() == 3);
        assert("clean"@.len() == 5);
        assert("title"@.len() == 5);
        assert("subtitle"@.len() == 8);
        assert("import"@.len() == 6);
        assert("lines"@.len() == 5);
        assert("source"@.len() == 6);
        assert("warning"@.len() == 7);
        assert("text"@.len() == 4);
        assert("empty"@.len() == 5);
        assert("comment"@.len() == 7);
        assert("close"@.len() == 5);
        assert("end"@.len() == 3);
        assert("ignore-warnings"@.len() == 15);
        assert("display-warnings"@.len() == 16);
        assert("ignore-text"@.len() == 11);
        assert("then"@.len() == 4);
        assert("else"@.len() == 4);
        assert("watch"@.len() == 5);
        assert("debug"@.len() == 5);
        match self {
            Keyword::Arg => {
            },
            Keyword::Exe => {
                assert("exe"@[0] != "arg"@[0]);
            },
            Keyword::Clean => {
            },
            Keyword::Title => {
                assert("title"@[0] != "clean"@[0]);
            },
            Keyword::Subtitle => {
            },
            Keyword::Import => {
            },
            Keyword::Lines => {
                assert("lines"@[0] != "clean"@[0]);
                assert("lines"@[0] != "title"@[0]);
            },
            Keyword::Source => {
                assert("source"@[0] != "import"@[0]);
            },
            Keyword::Warning => {
            },
            Keyword::Text => {
            },
            Keyword::Empty => {
                assert("empty"@[0] != "clean"@[0]);
                assert("empty"@[0] != "title"@[0]);
                assert("empty"@[0] != "lines"@[0]);
            },
            Keyword::Comment => {
                assert("comment"@[0] != "warning"@[0]);
            },
            Keyword::Close => {
                assert("close"@[2] != "clean"@[2]);
                assert("close"@[0] != "title"@[0]);
                assert("close"@[0] != "lines"@[0]);
                assert("close"@[0] != "empty"@[0]);
            },
            Keyword::End => {
                assert("end"@[0] != "arg"@[0]);
                assert("end"@[1] != "exe"@[1]);
            },
            Keyword::IgnoreWarnings => {
            },
            Keyword::DisplayWarnings => {
            },
            Keyword::IgnoreText => {
            },
            Keyword::Then => {
                assert("then"@[1] != "text"@[1]);
            },
            Keyword::Else => {
                assert("else"@[0] != "text"@[0]);
                assert("else"@[0] != "then"@[0]);
            },
            Keyword::Watch => {
                assert("watch"@[0] != "clean"@[0]);
                assert("watch"@[0] != "title"@[0]);
                assert("watch"@[0] != "lines"@[0]);
                assert("watch"@[0] != "empty"@[0]);
                assert("watch"@[0] != "close"@[0]);
            },
            Keyword::Debug => {
                assert("debug"@[0] != "clean"@[0]);
                assert("debug"@[0] != "title"@[0]);
                assert("debug"@[0] != "lines"@[0]);
                assert("debug"@[0] != "empty"@[0]);
                assert("debug"@[0] != "close"@[0]);
                assert("debug"@[0] != "watch"@[0]);
            },
        }
    }

    /// Whether the directive needs a payload behind its name.
    pub fn needs_payload(self) -> (needs: bool)
        ensures
            needs == self.takes_payload(),
    {
        match self {
            Keyword::Arg
            | Keyword::Exe
            | Keyword::Title
            | Keyword::Subtitle
            | Keyword::Import
            | Keyword::Lines
            | Keyword::Source
            | Keyword::Warning
            | Keyword::Text
            | Keyword::Comment => true,
            _ => false,
        }
    }
}

/// A line that calls for a directive by its keyword, with the payload
/// between double quotes, is parsed to that directive: whatever the payload
/// holds, quotes and white space too, it comes back as it was.
pub proof fn theorem_keyword_line_parses(keyword: Keyword, payload: Seq<char>)
    ensures
        parsed_line(keyword.line(payload)) == keyword.directive(
            if keyword.takes_payload() {
                payload
            } else {
                Seq::empty()
            },
        ),
{
    reveal_strlit("#-");
    reveal_strlit(" \"");
    reveal_strlit("\"");
    keyword.lemma_name();
    let name = keyword.name();
    let line = keyword.line(payload);
    assert(line.len() >= 2 && line[0] == '#' && line[1] == '-');
    assert(!is_whitespace(line[line.len() - 1])) by {
        if keyword.takes_payload() {
            assert(line[line.len() - 1] == '"');
        } else {
            assert(line[line.len() - 1] == name[name.len() - 1]);
        }
    }
    lemma_trim_end_at(line, line.len() as int);
    assert(line.take(line.len() as int) =~= line);
    let rest = line.skip(2);
    assert(rest[0] == name[0]);
    lemma_trim_start_at(rest, 0);
    assert(rest.skip(0) =~= rest);
    assert forall|i: int| 0 <= i < name.len() implies !is_whitespace(#[trigger] rest[i]) by {
        assert(rest[i] == name[i]);
    }
    if keyword.takes_payload() {
        assert(rest[name.len() as int] == ' ');
    }
    lemma_first_whitespace_at(rest, name.len() as int);
    assert(rest.take(name.len() as int) =~= name);
    if keyword.takes_payload() {
        let quoted = rest.skip(name.len() as int + 1);
        assert(quoted =~= "\""@ + payload + "\""@);
        assert(quoted[0] == '"');
        assert(quoted[quoted.len() - 1] == '"');
        lemma_trim_start_at(quoted, 0);
        assert(quoted.skip(0) =~= quoted);
        lemma_trim_end_at(quoted, quoted.len() as int);
        assert(quoted.take(quoted.len() as int) =~= quoted);
        assert(trim(quoted) == quoted);
        assert(quoted.subrange(1, quoted.len() - 1) =~= payload);
    }
}

/// What a line that names a keyword is parsed to, whatever follows the name
/// behind white space: the payload of the directive is what follows,
/// trimmed and without the pair of double quotes around it. A keyword that
/// takes no payload makes nothing of what follows, and one that takes a
/// payload and finds nothing but white space is a warning.
pub proof fn theorem_keyword_line(keyword: Keyword, tail: Seq<char>)
    requires
        tail.len() == 0 || is_whitespace(tail[0]),
    ensures
        parsed_line("#-"@ + keyword.name() + tail) == if !keyword.takes_payload() {
            keyword.directive(Seq::empty())
        } else if trim(tail).len() > 0 {
            keyword.directive(unquote(trim(tail)))
        } else {
            DirectiveModel::Warning(missing_payload(keyword.name()))
        },
{
    reveal_strlit("#-");
    keyword.lemma_name();
    let name = keyword.name();
    let head = "#-"@ + name;
    let line = "#-"@ + name + tail;
    assert(head.last() == name.last());
    lemma_trim_end_behind(head, tail);
    let end = lemma_trim_end_cut(tail);
    let kept = tail.take(end);
    let trimmed = head + kept;
    assert(trim_end(line) == trimmed);
    assert(trimmed.len() >= 2 && trimmed[0] == '#' && trimmed[1] == '-');
    let rest = trimmed.skip(2);
    assert(rest =~= name + kept);
    assert(rest[0] == name[0]);
    lemma_trim_start_at(rest, 0);
    assert(rest.skip(0) =~= rest);
    assert forall|i: int| 0 <= i < name.len() implies !is_whitespace(#[trigger] rest[i]) by {
        assert(rest[i] == name[i]);
    }
    if end > 0 {
        assert(rest[name.len() as int] == tail[0]);
    }
    lemma_first_whitespace_at(rest, name.len() as int);
    assert(rest.take(name.len() as int) =~= name);
    if end > 0 {
        let behind = tail.skip(1);
        assert(rest.skip(name.len() as int + 1) =~= behind.take(end - 1));
        assert forall|i: int| end - 1 <= i < behind.len() implies is_whitespace(
            #[trigger] behind[i],
        ) by {
            assert(behind[i] == tail[i + 1]);
        }
        if end > 1 {
            assert(behind[end - 2] == tail[end - 1]);
        }
        lemma_trim_end_at(behind, end - 1);
        lemma_trim_of_trimmed_end(behind);
        assert(tail.drop_first() =~= behind);
        assert(trim(tail) == trim(behind));
    } else {
        // nothing but white space follows the name
        assert(kept =~= Seq::<char>::empty());
        lemma_trim_of_trimmed_end(tail);
        assert(trim_end(tail) == Seq::<char>::empty());
        assert(trim(Seq::<char>::empty()) == Seq::<char>::empty());
    }
}

/// A line that begins with two `#` is text that begins with one: the first
/// `#` and the white space at the end are taken off, and what is left is the
/// text, whatever it holds.
pub proof fn theorem_doubled_hash_is_text(tail: Seq<char>)
    ensures
        parsed_line("##"@ + tail) == DirectiveModel::Text("#"@ + trim_end(tail)),
{
    reveal_strlit("##");
    reveal_strlit("#");
    lemma_trim_end_behind("##"@, tail);
    let trimmed = "##"@ + trim_end(tail);
    assert(trimmed.skip(1) =~= "#"@ + trim_end(tail));
}

/// A name that is no keyword is a warning that says so, whatever follows the
/// name behind white space.
pub proof fn theorem_unknown_name_is_a_warning(name: Seq<char>, tail: Seq<char>)
    requires
        name.len() > 0,
        forall|i: int| 0 <= i < name.len() ==> !is_whitespace(#[trigger] name[i]),
        Keyword::lookup(name) is None,
        tail.len() == 0 || is_whitespace(tail[0]),
    ensures
        parsed_line("#-"@ + name + tail) == DirectiveModel::Warning(unknown_name(name)),
{
    reveal_strlit("#-");
    let head = "#-"@ + name;
    assert(head.last() == name.last());
    lemma_trim_end_behind(head, tail);
    let end = lemma_trim_end_cut(tail);
    let kept = tail.take(end);
    let trimmed = head + kept;
    assert(trimmed.len() >= 2 && trimmed[0] == '#' && trimmed[1] == '-');
    let rest = trimmed.skip(2);
    assert(rest =~= name + kept);
    assert(rest[0] == name[0]);
    lemma_trim_start_at(rest, 0);
    assert(rest.skip(0) =~= rest);
    assert forall|i: int| 0 <= i < name.len() implies !is_whitespace(#[trigger] rest[i]) by {
        assert(rest[i] == name[i]);
    }
    if end > 0 {
        assert(rest[name.len() as int] == tail[0]);
    }
    lemma_first_whitespace_at(rest, name.len() as int);
    assert(rest.take(name.len() as int) =~= name);
}

/// Parsing and formatting go round: the line that is formatted from a
/// directive is parsed to that directive.
pub proof fn theorem_format_round_trip(directive: DirectiveModel)
    requires
        directive.written() is Some,
    ensures
        parsed_line(directive.formatted()->0) == directive,
{
    let (keyword, payload) = directive.written()->0;
    theorem_keyword_line_parses(keyword, payload);
}

/// What a line is parsed to can be formatted, and the formatted line is
/// parsed to the same: of a line, the formatted line keeps the directive and
/// its payload, without the quotes and the white space around them.
pub proof fn theorem_parse_round_trip(text: Seq<char>)
    ensures
        parsed_line(text).written() is Some,
        parsed_line(parsed_line(text).formatted()->0) == parsed_line(text),
{
    theorem_format_round_trip(parsed_line(text));
}

/// What the result of parsing a directive stands for.
pub open spec fn result_model(result: Result<Directive, String>) -> Result<
    DirectiveModel,
    Seq<char>,
> {
    match result {
        Ok(directive) => Ok(directive@),
        Err(warning) => Err(warning@),
    }
}

/// Parses `chars[from..to]`, the characters of `text` behind `#-`.
fn parse_directive_chars(text: &str, chars: &Vec<char>, from: usize, to: usize) -> (result: Result<
    Directive,
    String,
>)
    requires
        chars@ == text@,
        from <= to <= chars.len(),
    ensures
        result_model(result) == parsed_directive_result(chars@.subrange(from as int, to as int)),
{
    let start = trim_start_index(chars, from, to);
    let split = find_whitespace(chars, start, to);
    let keyword = Keyword::find(chars, start, split);
    proof {
        let trimmed = chars@.subrange(start as int, to as int);
        assert(trimmed.take(split - start) =~= chars@.subrange(start as int, split as int));
    }
    let name = text.substring_char(start, split);
    match keyword {
        None => Err(String::from_str(name).concat(" is not a directive")),
        Some(keyword) => {
            let mut payload_start = to;
            let mut payload_end = to;
            if split < to {
                payload_start = trim_start_index(chars, split + 1, to);
                payload_end = trim_end_index(chars, payload_start, to);
                proof {
                    let trimmed = chars@.subrange(start as int, to as int);
                    assert(trimmed.skip(split - start + 1) =~= chars@.subrange(
                        split + 1,
                        to as int,
                    ));
                }
            }
            proof {
                if split >= to {
                    assert(chars@.subrange(payload_start as int, payload_end as int) =~= Seq::<
                        char,
                    >::empty());
                }
            }
            if !keyword.needs_payload() {
                let directive = keyword.build("");
                proof {
                    assert(directive@ == keyword.directive(Seq::empty()));
                }
                Ok(directive)
            } else if payload_end > payload_start {
                let ghost payload = chars@.subrange(payload_start as int, payload_end as int);
                if payload_end - payload_start >= 2 && chars[payload_start] == '"' && chars[payload_end
                    - 1] == '"' {
                    proof {
                        assert(payload.subrange(1, payload.len() - 1) =~= chars@.subrange(
                            payload_start + 1,
                            payload_end - 1,
                        ));
                    }
                    payload_start = payload_start + 1;
                    payload_end = payload_end - 1;
                }
                Ok(keyword.build(text.substring_char(payload_start, payload_end)))
            } else {
                Err(
                    String::from_str("directive ").concat(name).concat(" requires an argument"),
                )
            }
        },
    }
}

impl Directive {
    /// The keyword of the directive and its payload, if a line can call for
    /// the directive.
    fn keyword(&self) -> (written: Option<(Keyword, &str)>)
        ensures
            match written {
                Some((keyword, payload)) => self@.written() == Some((keyword, payload@)),
                None => self@.written() is None,
            },
    {
        proof {
            reveal_strlit("");
        }
        match self {
            Directive::Noop => None,
            Directive::Empty => Some((Keyword::Empty, "")),
            Directive::Close => Some((Keyword::Close, "")),
            Directive::Clean => Some((Keyword::Clean, "")),
            Directive::DisplayWarnings => Some((Keyword::DisplayWarnings, "")),
            Directive::IgnoreWarnings => Some((Keyword::IgnoreWarnings, "")),
            Directive::IgnoreText => Some((Keyword::IgnoreText, "")),
            Directive::Watch => Some((Keyword::Watch, "")),
            Directive::Then => Some((Keyword::Then, "")),
            Directive::Else => Some((Keyword::Else, "")),
            Directive::Debug => Some((Keyword::Debug, "")),
            Directive::EndMap { automatic } => if *automatic {
                None
            } else {
                Some((Keyword::End, ""))
            },
            Directive::Exe(text) => Some((Keyword::Exe, text.as_str())),
            Directive::Arg(text) => Some((Keyword::Arg, text.as_str())),
            Directive::Warning(text) => Some((Keyword::Warning, text.as_str())),
            Directive::Title(text) => Some((Keyword::Title, text.as_str())),
            Directive::Subtitle(text) => Some((Keyword::Subtitle, text.as_str())),
            Directive::Text(text) => Some((Keyword::Text, text.as_str())),
            Directive::Comment(text) => Some((Keyword::Comment, text.as_str())),
            Directive::Import(import) => Some(
                (
                    match import.kind() {
                        ImportKind::Import => Keyword::Import,
                        ImportKind::Source => Keyword::Source,
                        ImportKind::Lines => Keyword::Lines,
                    },
                    import.file().as_str(),
                ),
            ),
            Directive::Multiple(_) => None,
        }
    }

    /// The line that calls for the directive, with the payload between
    /// double quotes; nothing for a directive that no line calls for.
    pub fn format(&self) -> (line: Option<String>)
        ensures
            match line {
                Some(line) => self@.formatted() == Some(line@),
                None => self@.formatted() is None,
            },
    {
        proof {
            reveal_strlit("");
        }
        match self.keyword() {
            None => None,
            Some((keyword, payload)) => {
                let line = String::from_str("#-").concat(keyword.word());
                if keyword.needs_payload() {
                    Some(line.concat(" \"").concat(payload).concat("\""))
                } else {
                    Some(line)
                }
            },
        }
    }

    /// Parses the part of a line behind `#-`; the error is the text of the
    /// warning that the line becomes.
    pub fn parse_directive_result(text: &str) -> (result: Result<Self, String>)
        ensures
            result_model(result) == parsed_directive_result(text@),
    {
        let chars = chars_of(text);
        proof {
            assert(chars@.subrange(0, chars@.len() as int) =~= text@);
        }
        parse_directive_chars(text, &chars, 0, chars.len())
    }

    /// Parses the part of a line behind `#-`. Text that calls for no
    /// directive becomes a warning: parsing never fails.
    pub fn parse_directive(text: &str) -> (directive: Self)
        ensures
            directive@ == parsed_directive(text@),
    {
        match Self::parse_directive_result(text) {
            Err(warning) => Directive::Warning(warning),
            Ok(directive) => directive,
        }
    }

    /// Parses one line of a document.
    pub fn parse_line(text: &str) -> (directive: Self)
        ensures
            directive@ == parsed_line(text@),
    {
        let chars = chars_of(text);
        let end = trim_end_index(&chars, 0, chars.len());
        proof {
            assert(chars@.subrange(0, chars@.len() as int) =~= text@);
        }
        let ghost trimmed = chars@.subrange(0, end as int);
        if end == 0 {
            Directive::Empty
        } else if end >= 2 && chars[0] == '#' && chars[1] == '-' {
            proof {
                assert(trimmed.skip(2) =~= chars@.subrange(2, end as int));
            }
            match parse_directive_chars(text, &chars, 2, end) {
                Err(warning) => Directive::Warning(warning),
                Ok(directive) => directive,
            }
        } else if end >= 2 && chars[0] == '#' && chars[1] == '#' {
            proof {
                assert(trimmed.skip(1) =~= chars@.subrange(1, end as int));
            }
            Directive::Text(text.substring_char(1, end).to_owned())
        } else if chars[0] == '#' {
            let start = trim_start_index(&chars, 1, end);
            proof {
                assert(trimmed.skip(1) =~= chars@.subrange(1, end as int));
            }
            Directive::Comment(text.substring_char(start, end).to_owned())
        } else {
            Directive::Text(text.substring_char(0, end).to_owned())
        }
    }
}

} // verus!
