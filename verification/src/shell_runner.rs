//! Commands given as one string: cutting them into words.
use crate::encoding;
use crate::text;
use vstd::prelude::*;
use vstd::string::*;

verus! {

/// The words that a shell would cut a command into, or nothing where a quote
/// is not closed or an escape is not finished.
pub uninterp spec fn shell_words(command: Seq<char>) -> Option<Seq<Seq<char>>>;

/// What stands between words.
pub open spec fn is_word_gap(c: char) -> bool {
    c == ' ' || c == '\t' || c == '\n'
}

/// The views of an optional list of strings.
pub open spec fn opt_views(o: Option<Vec<String>>) -> Option<Seq<Seq<char>>> {
    match o {
        Some(v) => Some(text::views(v@)),
        None => None,
    }
}

/// `shlex::split`: the words by the quoting rules of a POSIX shell, which are
/// given a name only. A command of nothing but gaps has no words.
#[verifier::external_body]
fn split_words(command: &str) -> (r: Option<Vec<String>>)
    ensures
        opt_views(r) == shell_words(command@),
        (forall|i: int| 0 <= i < command@.len() ==> is_word_gap(#[trigger] command@[i])) ==> opt_views(r)
            == Some(Seq::<Seq<char>>::empty()),
{
    shlex::split(command)
}

/// Why a command cannot be run.
#[derive(Debug)]
pub enum ArgvError {
    /// It has no words.
    Empty,
    /// It cannot be cut into words.
    Unparsed(String),
}

/// What to run for the words of a command.
pub open spec fn argv_result(
    command: Seq<char>,
    words: Option<Seq<Seq<char>>>,
    r: Result<Vec<String>, ArgvError>,
) -> bool {
    match words {
        Some(w) => if w.len() > 0 {
            r matches Ok(argv) && text::views(argv@) == w
        } else {
            r == Err::<Vec<String>, ArgvError>(ArgvError::Empty)
        },
        None => r matches Err(ArgvError::Unparsed(c)) && c@ == command,
    }
}

/// What to run for the words of a command.
pub fn argv_from_words(command: &str, words: Option<Vec<String>>) -> (r: Result<
    Vec<String>,
    ArgvError,
>)
    ensures
        argv_result(command@, opt_views(words), r),
{
    match words {
        Some(w) => {
            assert(text::views(w@).len() == w@.len());
            if w.len() > 0 {
                Ok(w)
            } else {
                Err(ArgvError::Empty)
            }
        },
        None => Err(ArgvError::Unparsed(command.to_owned())),
    }
}

/// What to run for a command given as one string. A command of nothing but
/// gaps is refused.
pub fn shell_argv(command: &str) -> (r: Result<Vec<String>, ArgvError>)
    ensures
        argv_result(command@, shell_words(command@), r),
        (forall|i: int| 0 <= i < command@.len() ==> is_word_gap(#[trigger] command@[i])) ==> r
            == Err::<Vec<String>, ArgvError>(ArgvError::Empty),
{
    let words = split_words(command);
    argv_from_words(command, words)
}

impl ArgvError {
    /// The error in words.
    pub fn message(&self) -> (r: String)
        ensures
            r@ == (match *self {
                ArgvError::Empty => "shell-string parsed to empty argv"@,
                ArgvError::Unparsed(c) => "shlex could not parse: "@ + encoding::quoted(c@),
            }),
    {
        match self {
            ArgvError::Empty => "shell-string parsed to empty argv".to_owned(),
            ArgvError::Unparsed(c) => {
                let mut out = "shlex could not parse: ".to_owned();
                out.append(&encoding::quote(c));
                out
            },
        }
    }
}

} // verus!
