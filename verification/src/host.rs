//! What the library asks of its host and what the host answers.
//!
//! The host is whatever runs the commands against a file system: it performs
//! one [`Request`] at a time and answers each with a [`Reply`].

use crate::utils::error::{IoError, IoErrorView};
use crate::utils::mode::{file_type, file_type_of, FileType};
use crate::utils::text::views;
use vstd::prelude::*;

verus! {

/// What the file system records about a file.
#[derive(Clone, Copy, Debug, PartialEq, Eq, Structural)]
pub struct FileMeta {
    /// The mode word: the type of the file and its permission bits.
    pub mode: u32,
    /// The number of hard links.
    pub nlink: u64,
    /// The owner's user number.
    pub uid: u32,
    /// The owner's group number.
    pub gid: u32,
    /// The length in bytes.
    pub size: u64,
    /// The device number, for a device file.
    pub rdev: u64,
    /// The allocated blocks of 512 bytes.
    pub blocks: u64,
    /// The time of the last modification, in seconds since the epoch.
    pub modified: u64,
}

impl FileMeta {
    pub open spec fn is_dir_spec(&self) -> bool {
        file_type_of(self.mode) == FileType::Directory
    }

    /// Whether this is a directory.
    #[verifier::when_used_as_spec(is_dir_spec)]
    pub fn is_dir(&self) -> (r: bool)
        ensures
            r == self.is_dir_spec(),
    {
        file_type(self.mode) == FileType::Directory
    }
}

/// One entry of a directory: its name, what the file system records about
/// the entry itself, and, for a symbolic link, where it points, if that
/// could be read.
#[derive(Clone, Debug, PartialEq, Eq)]
pub struct DirEntry {
    pub name: String,
    pub meta: FileMeta,
    pub link: Option<String>,
}

/// The mathematical value of a [`DirEntry`].
pub struct DirEntryView {
    pub name: Seq<char>,
    pub meta: FileMeta,
    pub link: Option<Seq<char>>,
}

impl View for DirEntry {
    type V = DirEntryView;

    open spec fn view(&self) -> DirEntryView {
        DirEntryView {
            name: self.name@,
            meta: self.meta,
            link: match self.link {
                Some(target) => Some(target@),
                None => None,
            },
        }
    }
}

/// An operation for the host to perform. Paths are absolute wherever the
/// shell's current directory is.
#[derive(Clone, Debug, PartialEq, Eq)]
pub enum Request {
    /// Look up the user's home directory in the environment.
    HomeDir,
    /// Look up a file, following symbolic links.
    Metadata(String),
    /// List a directory, `.` and `..` left out, links not followed. An
    /// entry that cannot be read makes the request fail.
    ReadDir(String),
    /// List a directory to show it: as `ReadDir`, but entries that cannot
    /// be read are left out.
    ListDir(String),
    /// Read a file as text.
    ReadFile(String),
    /// Create one directory; its parent must exist.
    CreateDir(String),
    /// Create a directory and the missing directories above it.
    CreateDirAll(String),
    /// Copy the contents of the first file to the second.
    CopyFile(String, String),
    /// Make a symbolic link that points to the first path, at the second.
    Symlink(String, String),
    /// Rename the first path to the second.
    Rename(String, String),
    /// Remove a file.
    RemoveFile(String),
    /// Remove a directory and all it holds.
    RemoveDirAll(String),
    /// Open an existing file for writing, and close it.
    OpenForWrite(String),
    /// Create an empty file, or open the one that is there for writing.
    CreateFile(String),
    /// Make a directory the working directory of the process.
    SetCurrentDir(String),
}

/// The mathematical value of a [`Request`].
pub enum RequestView {
    HomeDir,
    Metadata(Seq<char>),
    ReadDir(Seq<char>),
    ListDir(Seq<char>),
    ReadFile(Seq<char>),
    CreateDir(Seq<char>),
    CreateDirAll(Seq<char>),
    CopyFile(Seq<char>, Seq<char>),
    Symlink(Seq<char>, Seq<char>),
    Rename(Seq<char>, Seq<char>),
    RemoveFile(Seq<char>),
    RemoveDirAll(Seq<char>),
    OpenForWrite(Seq<char>),
    CreateFile(Seq<char>),
    SetCurrentDir(Seq<char>),
}

impl View for Request {
    type V = RequestView;

    open spec fn view(&self) -> RequestView {
        match self {
            Request::HomeDir => RequestView::HomeDir,
            Request::Metadata(p) => RequestView::Metadata(p@),
            Request::ReadDir(p) => RequestView::ReadDir(p@),
            Request::ListDir(p) => RequestView::ListDir(p@),
            Request::ReadFile(p) => RequestView::ReadFile(p@),
            Request::CreateDir(p) => RequestView::CreateDir(p@),
            Request::CreateDirAll(p) => RequestView::CreateDirAll(p@),
            Request::CopyFile(from, to) => RequestView::CopyFile(from@, to@),
            Request::Symlink(target, at) => RequestView::Symlink(target@, at@),
            Request::Rename(from, to) => RequestView::Rename(from@, to@),
            Request::RemoveFile(p) => RequestView::RemoveFile(p@),
            Request::RemoveDirAll(p) => RequestView::RemoveDirAll(p@),
            Request::OpenForWrite(p) => RequestView::OpenForWrite(p@),
            Request::CreateFile(p) => RequestView::CreateFile(p@),
            Request::SetCurrentDir(p) => RequestView::SetCurrentDir(p@),
        }
    }
}

/// What the host observed when it performed a request.
#[derive(Clone, Debug, PartialEq, Eq)]
pub enum Reply {
    /// The operation failed.
    Failed(IoError),
    /// The operation succeeded and has nothing to report.
    Done,
    /// The file that was looked up.
    Meta(FileMeta),
    /// The entries of the directory that was listed.
    Entries(Vec<DirEntry>),
    /// The text that was read, or the home directory.
    Text(String),
}

/// The mathematical value of a [`Reply`].
pub enum ReplyView {
    Failed(IoErrorView),
    Done,
    Meta(FileMeta),
    Entries(Seq<DirEntryView>),
    Text(Seq<char>),
}

impl View for Reply {
    type V = ReplyView;

    open spec fn view(&self) -> ReplyView {
        match self {
            Reply::Failed(e) => ReplyView::Failed(e@),
            Reply::Done => ReplyView::Done,
            Reply::Meta(meta) => ReplyView::Meta(*meta),
            Reply::Entries(entries) => ReplyView::Entries(views(entries@)),
            Reply::Text(text) => ReplyView::Text(text@),
        }
    }
}

impl RequestView {
    /// Whether `reply` is an answer to this request: a failure, or what the
    /// operation reports when it succeeds.
    pub open spec fn accepts(self, reply: ReplyView) -> bool {
        reply is Failed || match self {
            RequestView::HomeDir => reply is Text,
            RequestView::Metadata(_) => reply is Meta,
            RequestView::ReadDir(_) => reply is Entries,
            RequestView::ListDir(_) => reply is Entries,
            RequestView::ReadFile(_) => reply is Text,
            _ => reply is Done,
        }
    }
}

impl ReplyView {
    /// Whether the reply tells of an existing file.
    pub open spec fn found(self) -> bool {
        self is Meta
    }

    /// Whether the reply tells of an existing directory.
    pub open spec fn is_dir(self) -> bool {
        self matches ReplyView::Meta(meta) && meta.is_dir_spec()
    }
}

impl Request {
    /// Whether `reply` is an answer to this request.
    pub fn accepts(&self, reply: &Reply) -> (r: bool)
        ensures
            r == self@.accepts(reply@),
    {
        match reply {
            Reply::Failed(_) => true,
            Reply::Done => match self {
                Request::HomeDir
                | Request::Metadata(_)
                | Request::ReadDir(_)
                | Request::ListDir(_)
                | Request::ReadFile(_) => false,
                _ => true,
            },
            Reply::Meta(_) => match self {
                Request::Metadata(_) => true,
                _ => false,
            },
            Reply::Entries(_) => match self {
                Request::ReadDir(_) | Request::ListDir(_) => true,
                _ => false,
            },
            Reply::Text(_) => match self {
                Request::HomeDir | Request::ReadFile(_) => true,
                _ => false,
            },
        }
    }
}

impl Reply {
    /// Whether the reply tells of an existing file.
    pub fn found(&self) -> (r: bool)
        ensures
            r == self@.found(),
    {
        match self {
            Reply::Meta(_) => true,
            _ => false,
        }
    }

    /// Whether the reply tells of an existing directory.
    pub fn is_dir(&self) -> (r: bool)
        ensures
            r == self@.is_dir(),
    {
        match self {
            Reply::Meta(meta) => meta.is_dir(),
            _ => false,
        }
    }
}

} // verus!
