//! What can go wrong around a document, and how it is told.

use vstd::prelude::*;

use crate::text::join;

verus! {

/// An error of reading a document or of running the command of a line.
#[derive(Debug, Clone, PartialEq, Eq)]
pub enum Error {
    /// A file could not be opened or read; the text is that of the failure.
    Io(String),
    /// The program of a command could not be started.
    Spawn { err: String, program: String, args: Vec<String> },
}

/// What an [`Error`] stands for.
#[verifier::ext_equal]
pub enum ErrorModel {
    Io(Seq<char>),
    Spawn { err: Seq<char>, program: Seq<char>, args: Seq<Seq<char>> },
}

impl View for Error {
    type V = ErrorModel;

    open spec fn view(&self) -> ErrorModel {
        match self {
            Error::Io(err) => ErrorModel::Io(err@),
            Error::Spawn { err, program, args } => ErrorModel::Spawn {
                err: err@,
                program: program@,
                args: args.deep_view(),
            },
        }
    }
}

/// The arguments as an error shows them: with a comma and a blank between
/// each two.
pub open spec fn shown_args(args: Seq<Seq<char>>) -> Seq<char> {
    join(args, ", "@)
}

impl ErrorModel {
    /// The error in words.
    pub open spec fn message(self) -> Seq<char> {
        match self {
            ErrorModel::Io(err) => err,
            ErrorModel::Spawn { err, program, args } => "failed to spawn "@ + program
                + " with args |"@ + shown_args(args) + "|, "@ + err,
        }
    }
}

/// The arguments as an error shows them.
pub fn show_args(args: &Vec<String>) -> (shown: String)
    ensures
        shown@ == shown_args(args.deep_view()),
{
    let mut shown = String::new();
    let mut i: usize = 0;
    let ghost items = args.deep_view();
    while i < args.len()
        invariant
            i <= args.len(),
            items == args.deep_view(),
            shown@ == join(items.take(i as int), ", "@),
        decreases args.len() - i,
    {
        let ghost before = shown@;
        if i > 0 {
            shown.append(", ");
        }
        shown.append(args[i].as_str());
        proof {
            let taken = items.take(i + 1);
            assert(taken.drop_last() =~= items.take(i as int));
            assert(taken.last() == args@[i as int]@);
            if i == 0 {
                assert(shown@ =~= args@[i as int]@);
            } else {
                assert(shown@ =~= before + ", "@ + args@[i as int]@);
            }
        }
        i = i + 1;
    }
    proof {
        assert(items.take(i as int) =~= items);
    }
    shown
}

impl Error {
    /// The error in words.
    pub fn to_string(&self) -> (message: String)
        ensures
            message@ == self@.message(),
    {
        match self {
            Error::Io(err) => err.clone(),
            Error::Spawn { err, program, args } => {
                let shown = show_args(args);
                String::from_str("failed to spawn ").concat(program.as_str()).concat(
                    " with args |",
                ).concat(shown.as_str()).concat("|, ").concat(err.as_str())
            },
        }
    }
}

} // verus!
