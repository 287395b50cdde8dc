//! Line-view documents: text files whose lines are shown as they are or are
//! directives, which bind a command to the lines that follow, set titles,
//! filter what is shown, or pull in other files.
//!
//! [`Directive::parse_line`] reads one line. [`line_view::Interpreter`] reads
//! a document: it is handed line after line, and file after file where a
//! directive names one, and gives a [`LineView`] at the end.

pub mod cmd;
pub mod desktop;
pub mod directive;
pub mod error;
pub mod import;
pub mod line_view;
pub mod list;
pub mod path_set;
pub mod text;

use vstd::prelude::*;

pub use crate::cmd::Cmd;
pub use crate::directive::Directive;
pub use crate::error::Error;
pub use crate::import::Import;
pub use crate::line_view::LineView;

verus! {

/// A path as a directive writes it.
#[verifier::ext_equal]
pub enum Written {
    /// The path is meant as it stands here.
    Plain(Seq<char>),
    /// The path is meant from the home directory.
    Home(Seq<char>),
}

/// What a path as written means. Behind `~/` stands a path from the home
/// directory, unless `~/` stands there twice: then what is behind the first
/// is meant as it stands, so that a path can begin with `~/`.
pub open spec fn written(line: Seq<char>) -> Written {
    if line.len() >= 2 && line[0] == '~' && line[1] == '/' {
        let rest = line.skip(2);
        if rest.len() >= 2 && rest[0] == '~' && rest[1] == '/' {
            Written::Plain(rest)
        } else {
            Written::Home(rest)
        }
    } else {
        Written::Plain(line)
    }
}

/// The error of a path from the home directory where no home directory is
/// known.
pub open spec fn no_home() -> Seq<char> {
    "could not find user home"@
}

/// What `Path::join` of the standard library makes of two paths that are
/// text: `path` behind `base`, as the platform writes paths.
pub uninterp spec fn path_joined(base: Seq<char>, path: Seq<char>) -> Seq<char>;

/// `Path::join` of the standard library, on paths that are text: the result
/// is claimed to be what that function makes of the two paths, and nothing
/// more is said of it.
#[verifier::external_body]
fn join_path(base: &str, path: &str) -> (joined: String)
    ensures
        joined@ == path_joined(base@, path@),
{
    std::path::Path::new(base).join(path).to_string_lossy().into_owned()
}

/// What a directive means by `line`, with `home` for the home directory if
/// one is known: the path as it stands; or the path joined to the home
/// directory; or the error of a path from a home directory that is not
/// known.
pub open spec fn escaped_path(line: Seq<char>, home: Option<Seq<char>>) -> Result<
    Seq<char>,
    Seq<char>,
> {
    match written(line) {
        Written::Plain(plain) => Ok(plain),
        Written::Home(rest) => match home {
            Some(home) => Ok(path_joined(home, rest)),
            None => Err(no_home()),
        },
    }
}

/// The path that a directive means by `line`, with `home` for the home
/// directory if one is known.
///
/// A path that is meant as it stands comes back as it stands. A path from
/// the home directory comes back joined to `home`, as the platform writes
/// paths; without `home` it is an error.
pub fn escape_path(line: &str, home: Option<&str>) -> (path: Result<String, String>)
    ensures
        match path {
            Ok(path) => Ok::<Seq<char>, Seq<char>>(path@),
            Err(error) => Err(error@),
        } == escaped_path(
            line@,
            match home {
                Some(home) => Some(home@),
                None => None,
            },
        ),
{
    let chars = crate::text::chars_of(line);
    let n = chars.len();
    if n >= 2 && chars[0] == '~' && chars[1] == '/' {
        let rest = line.substring_char(2, n);
        proof {
            assert(rest@ =~= line@.skip(2));
        }
        if n >= 4 && chars[2] == '~' && chars[3] == '/' {
            Ok(rest.to_owned())
        } else {
            match home {
                Some(home) => Ok(join_path(home, rest)),
                None => Err(String::from_str("could not find user home")),
            }
        }
    } else {
        Ok(line.to_owned())
    }
}

} // verus!
