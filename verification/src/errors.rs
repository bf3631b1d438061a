//! The errors that the launcher reports to the user.
use vstd::prelude::*;

verus! {

/// What went wrong; the payload names the variable, directory or file.
#[derive(Debug, Clone, PartialEq)]
pub enum SherlockErrorType {
    EnvVarNotFoundError(String),
    DirCreateError(String),
    FileExistError(String),
    FileReadError(String),
    FileWriteError(String),
}

/// An error together with the message that explains it.
#[derive(Debug, Clone, PartialEq)]
pub struct SherlockError {
    pub error: SherlockErrorType,
    pub traceback: String,
}

/// The kind of an error with its payload as characters.
pub enum ErrorKindView {
    EnvVarNotFound(Seq<char>),
    DirCreate(Seq<char>),
    FileExist(Seq<char>),
    FileRead(Seq<char>),
    FileWrite(Seq<char>),
}

impl View for SherlockErrorType {
    type V = ErrorKindView;

    open spec fn view(&self) -> ErrorKindView {
        match self {
            SherlockErrorType::EnvVarNotFoundError(s) => ErrorKindView::EnvVarNotFound(s@),
            SherlockErrorType::DirCreateError(s) => ErrorKindView::DirCreate(s@),
            SherlockErrorType::FileExistError(s) => ErrorKindView::FileExist(s@),
            SherlockErrorType::FileReadError(s) => ErrorKindView::FileRead(s@),
            SherlockErrorType::FileWriteError(s) => ErrorKindView::FileWrite(s@),
        }
    }
}

impl SherlockError {
    /// An error of the given kind with the given message.
    pub fn new(error: SherlockErrorType, traceback: String) -> (r: SherlockError)
        ensures
            r.error@ == error@,
            r.traceback@ == traceback@,
    {
        SherlockError { error, traceback }
    }
}

} // verus!
