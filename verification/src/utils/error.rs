//! The errors a command can end with.

use vstd::prelude::*;
use vstd::string::StringExecFns;

verus! {

/// Why an operation of the host failed, as far as the commands care.
#[derive(Clone, Copy, Debug, PartialEq, Eq, Structural)]
pub enum ErrorKind {
    NotFound,
    PermissionDenied,
    AlreadyExists,
    InvalidInput,
    /// Source and destination of a rename lie on different devices.
    CrossDevice,
    Other,
}

/// A failed operation of the host: its kind and the text that describes it.
#[derive(Clone, Debug, PartialEq, Eq)]
pub struct IoError {
    pub kind: ErrorKind,
    pub message: String,
}

/// The mathematical value of a [`IoError`].
pub struct IoErrorView {
    pub kind: ErrorKind,
    pub message: Seq<char>,
}

impl View for IoError {
    type V = IoErrorView;

    open spec fn view(&self) -> IoErrorView {
        IoErrorView { kind: self.kind, message: self.message@ }
    }
}

/// How a command fails.
#[derive(Clone, Debug, PartialEq, Eq)]
pub enum ShellError {
    /// An operation of the host failed.
    IoError(IoError),
    /// The first word of the line names no command; it is carried here.
    CommandNotFound(String),
    /// The arguments are too few, too many, or not what the command takes.
    InvalidArguments(String),
}

/// The mathematical value of a [`ShellError`].
pub enum ShellErrorView {
    IoError(IoErrorView),
    CommandNotFound(Seq<char>),
    InvalidArguments(Seq<char>),
}

impl View for ShellError {
    type V = ShellErrorView;

    open spec fn view(&self) -> ShellErrorView {
        match self {
            ShellError::IoError(e) => ShellErrorView::IoError(e@),
            ShellError::CommandNotFound(verb) => ShellErrorView::CommandNotFound(verb@),
            ShellError::InvalidArguments(message) => ShellErrorView::InvalidArguments(message@),
        }
    }
}

/// `text` between the escape sequences that switch the terminal to red and back.
pub open spec fn in_red(text: Seq<char>) -> Seq<char> {
    "\x1b[31m"@ + text + "\x1b[0m"@
}

impl ShellErrorView {
    /// The line shown to the user for this error.
    pub open spec fn text(self) -> Seq<char> {
        match self {
            ShellErrorView::IoError(e) => in_red(e.message),
            ShellErrorView::CommandNotFound(verb) => in_red("Command '"@ + verb + "' not found"@),
            ShellErrorView::InvalidArguments(message) => in_red(message),
        }
    }
}

impl IoError {
    pub fn new(kind: ErrorKind, message: String) -> (e: IoError)
        ensures
            e@ == (IoErrorView { kind, message: message@ }),
    {
        IoError { kind, message }
    }
}

impl ShellError {
    /// The error of kind `kind` whose text is `message`.
    pub fn io(kind: ErrorKind, message: String) -> (e: ShellError)
        ensures
            e@ == ShellErrorView::IoError(IoErrorView { kind, message: message@ }),
    {
        ShellError::IoError(IoError { kind, message })
    }

    /// The line shown to the user for this error, in red.
    pub fn to_string(&self) -> (text: String)
        ensures
            text@ == self@.text(),
    {
        let mut text = String::from_str("\x1b[31m");
        match self {
            ShellError::IoError(e) => {
                text.append(e.message.as_str());
            },
            ShellError::CommandNotFound(verb) => {
                text.append("Command '");
                text.append(verb.as_str());
                text.append("' not found");
            },
            ShellError::InvalidArguments(message) => {
                text.append(message.as_str());
            },
        }
        text.append("\x1b[0m");
        text
    }

    /// The failed operation behind this error, if there is one.
    pub fn source(&self) -> (cause: Option<&IoError>)
        ensures
            match *self {
                ShellError::IoError(e) => cause == Some(&e),
                _ => cause is None,
            },
    {
        match self {
            ShellError::IoError(e) => Some(e),
            _ => None,
        }
    }
}

impl From<IoError> for ShellError {
    fn from(err: IoError) -> (e: ShellError) {
        ShellError::IoError(err)
    }
}

impl vstd::std_specs::convert::FromSpecImpl<IoError> for ShellError {
    open spec fn obeys_from_spec() -> bool {
        true
    }

    open spec fn from_spec(err: IoError) -> ShellError {
        ShellError::IoError(err)
    }
}

} // verus!
