//! Classification of command-line path arguments. Whether a path names an
//! existing directory is a question for the file system, so the caller
//! answers it and hands the answer in; the classification itself is plain
//! logic.

use vstd::prelude::*;

use crate::strutil::str_eq;

verus! {

/// Where the records or the mapping come from.
#[derive(Debug, PartialEq, Eq)]
pub enum Input {
    Stdin,
    File(String),
    Directory(String),
}

/// Where the table goes.
#[derive(Debug, PartialEq, Eq)]
pub enum Output {
    Stdout,
    File(String),
    Directory(String),
}

impl Input {
    /// Classifies a path argument: `-` names the standard stream, an
    /// existing directory (`is_dir`, answered by the caller) a directory,
    /// anything else a file.
    pub fn from_arg(arg: String, is_dir: bool) -> (r: Input)
        ensures
            arg@ == seq!['-'] ==> r == Input::Stdin,
            arg@ != seq!['-'] && is_dir ==> r == Input::Directory(arg),
            arg@ != seq!['-'] && !is_dir ==> r == Input::File(arg),
    {
        proof {
            reveal_strlit("-");
            assert("-"@ =~~= seq!['-']);
        }
        if str_eq(arg.as_str(), "-") {
            Input::Stdin
        } else if is_dir {
            Input::Directory(arg)
        } else {
            Input::File(arg)
        }
    }
}

impl Output {
    /// Classifies a path argument: `-` names the standard stream, an
    /// existing directory (`is_dir`, answered by the caller) a directory,
    /// anything else a file.
    pub fn from_arg(arg: String, is_dir: bool) -> (r: Output)
        ensures
            arg@ == seq!['-'] ==> r == Output::Stdout,
            arg@ != seq!['-'] && is_dir ==> r == Output::Directory(arg),
            arg@ != seq!['-'] && !is_dir ==> r == Output::File(arg),
    {
        proof {
            reveal_strlit("-");
            assert("-"@ =~~= seq!['-']);
        }
        if str_eq(arg.as_str(), "-") {
            Output::Stdout
        } else if is_dir {
            Output::Directory(arg)
        } else {
            Output::File(arg)
        }
    }
}

impl Default for Output {
    /// The standard stream, where no output argument was given.
    fn default() -> (r: Output)
        ensures
            r == Output::Stdout,
    {
        Output::Stdout
    }
}

} // verus!
