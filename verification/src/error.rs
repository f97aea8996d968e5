//! The failures that the filesystem reports.

use vstd::prelude::*;

verus! {

/// Why an operation on the filesystem did not go through.
#[derive(Debug, PartialEq, Eq)]
pub enum FsError {
    /// A quoted path has no closing quote.
    MalformedPath,
    /// A path that has to name at least one directory names none.
    EmptyPath,
    /// No directory or file of this name where one was looked for.
    NotFound(String),
    /// A directory of this name already stands among the siblings.
    DirAlreadyExists(String),
    /// The file holds something other than text.
    NotReadable,
    /// The file holds something other than a program.
    NotExecutable,
    /// A command came with too few or too many arguments.
    InvalidCommandArguments,
}

/// Mathematical counterpart of [`FsError`], with names as character sequences.
pub enum FsErrorView {
    MalformedPath,
    EmptyPath,
    NotFound(Seq<char>),
    DirAlreadyExists(Seq<char>),
    NotReadable,
    NotExecutable,
    InvalidCommandArguments,
}

impl View for FsError {
    type V = FsErrorView;

    open spec fn view(&self) -> FsErrorView {
        match self {
            FsError::MalformedPath => FsErrorView::MalformedPath,
            FsError::EmptyPath => FsErrorView::EmptyPath,
            FsError::NotFound(name) => FsErrorView::NotFound(name@),
            FsError::DirAlreadyExists(name) => FsErrorView::DirAlreadyExists(name@),
            FsError::NotReadable => FsErrorView::NotReadable,
            FsError::NotExecutable => FsErrorView::NotExecutable,
            FsError::InvalidCommandArguments => FsErrorView::InvalidCommandArguments,
        }
    }
}

impl FsErrorView {
    /// The sentence that describes the failure to a person.
    pub open spec fn message(self) -> Seq<char> {
        match self {
            FsErrorView::MalformedPath => "No closing ' found!"@,
            FsErrorView::EmptyPath => "Specified path can not be empty!"@,
            FsErrorView::NotFound(name) => "Not found: "@ + name,
            FsErrorView::DirAlreadyExists(name) => "Directory already exists: "@ + name,
            FsErrorView::NotReadable => "This file is not a text file and can not be read!"@,
            FsErrorView::NotExecutable => "This file is not executable!"@,
            FsErrorView::InvalidCommandArguments => "Not enough arguments."@,
        }
    }
}

impl FsError {
    /// The sentence that describes the failure to a person.
    pub fn message(&self) -> (text: String)
        ensures
            text@ == self@.message(),
    {
        match self {
            FsError::MalformedPath => "No closing ' found!".to_owned(),
            FsError::EmptyPath => "Specified path can not be empty!".to_owned(),
            FsError::NotFound(name) => "Not found: ".to_owned().concat(name.as_str()),
            FsError::DirAlreadyExists(name) => "Directory already exists: ".to_owned().concat(
                name.as_str(),
            ),
            FsError::NotReadable => "This file is not a text file and can not be read!".to_owned(),
            FsError::NotExecutable => "This file is not executable!".to_owned(),
            FsError::InvalidCommandArguments => "Not enough arguments.".to_owned(),
        }
    }
}

} // verus!
