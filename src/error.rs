//! Errors of file access and package resolution.
use vstd::prelude::*;

use crate::text::{copy_opt_string, copy_string, opt_view, push_str};

verus! {

/// A package coordinate: namespace, name and semantic version.
pub struct PackageSpec {
    pub namespace: String,
    pub name: String,
    pub major: u32,
    pub minor: u32,
    pub patch: u32,
}

/// The mathematical value of a package coordinate.
pub struct PackageSpecView {
    pub namespace: Seq<char>,
    pub name: Seq<char>,
    pub major: u32,
    pub minor: u32,
    pub patch: u32,
}

impl View for PackageSpec {
    type V = PackageSpecView;

    open spec fn view(&self) -> PackageSpecView {
        PackageSpecView {
            namespace: self.namespace@,
            name: self.name@,
            major: self.major,
            minor: self.minor,
            patch: self.patch,
        }
    }
}

impl PackageSpec {
    /// A copy of the coordinate.
    pub fn duplicate(&self) -> (r: PackageSpec)
        ensures
            r@ == self@,
    {
        PackageSpec {
            namespace: copy_string(&self.namespace),
            name: copy_string(&self.name),
            major: self.major,
            minor: self.minor,
            patch: self.patch,
        }
    }
}

/// A failure to make a package available.
pub enum PackageError {
    /// The package is in no local directory and cannot be fetched.
    NotFound(PackageSpec),
    /// The download failed; the transport's message, if any.
    NetworkFailed(Option<String>),
    /// The archive could not be unpacked; the unpacker's message, if any.
    MalformedArchive(Option<String>),
}

/// The mathematical value of a package error.
pub enum PackageErrorView {
    NotFound(PackageSpecView),
    NetworkFailed(Option<Seq<char>>),
    MalformedArchive(Option<Seq<char>>),
}

impl View for PackageError {
    type V = PackageErrorView;

    open spec fn view(&self) -> PackageErrorView {
        match self {
            PackageError::NotFound(s) => PackageErrorView::NotFound(s@),
            PackageError::NetworkFailed(m) => PackageErrorView::NetworkFailed(opt_view(m)),
            PackageError::MalformedArchive(m) => PackageErrorView::MalformedArchive(opt_view(m)),
        }
    }
}

impl PackageError {
    /// A copy of the error.
    pub fn duplicate(&self) -> (r: PackageError)
        ensures
            r@ == self@,
    {
        match self {
            PackageError::NotFound(s) => PackageError::NotFound(s.duplicate()),
            PackageError::NetworkFailed(m) => PackageError::NetworkFailed(copy_opt_string(m)),
            PackageError::MalformedArchive(m) => PackageError::MalformedArchive(
                copy_opt_string(m),
            ),
        }
    }
}

/// A failure to load a file.
pub enum FileError {
    /// No file at the given system path.
    NotFound(String),
    /// The path would leave the root it is resolved against.
    AccessDenied,
    /// The path names a directory.
    IsDirectory,
    /// The file is not a source file (or none is configured).
    NotSource,
    /// The bytes are not valid UTF-8.
    InvalidUtf8,
    /// The package that holds the file could not be made available.
    Package(PackageError),
    /// Another I/O fault: the path it met, and its message.
    Io(String, String),
}

/// The mathematical value of a file error.
pub enum FileErrorView {
    NotFound(Seq<char>),
    AccessDenied,
    IsDirectory,
    NotSource,
    InvalidUtf8,
    Package(PackageErrorView),
    Io(Seq<char>, Seq<char>),
}

impl View for FileError {
    type V = FileErrorView;

    open spec fn view(&self) -> FileErrorView {
        match self {
            FileError::NotFound(p) => FileErrorView::NotFound(p@),
            FileError::AccessDenied => FileErrorView::AccessDenied,
            FileError::IsDirectory => FileErrorView::IsDirectory,
            FileError::NotSource => FileErrorView::NotSource,
            FileError::InvalidUtf8 => FileErrorView::InvalidUtf8,
            FileError::Package(e) => FileErrorView::Package(e@),
            FileError::Io(p, m) => FileErrorView::Io(p@, m@),
        }
    }
}

/// The kinds of I/O fault that reads distinguish.
#[derive(Clone, Copy, Debug, PartialEq, Eq, Structural)]
pub enum IoKind {
    NotFound,
    PermissionDenied,
    IsADirectory,
    InvalidData,
    TimedOut,
    ConnectionReset,
    ConnectionAborted,
    UnexpectedEof,
    BrokenPipe,
    Other,
}

impl FileError {
    /// A copy of the error.
    pub fn duplicate(&self) -> (r: FileError)
        ensures
            r@ == self@,
    {
        match self {
            FileError::NotFound(p) => FileError::NotFound(copy_string(p)),
            FileError::AccessDenied => FileError::AccessDenied,
            FileError::IsDirectory => FileError::IsDirectory,
            FileError::NotSource => FileError::NotSource,
            FileError::InvalidUtf8 => FileError::InvalidUtf8,
            FileError::Package(e) => FileError::Package(e.duplicate()),
            FileError::Io(p, m) => FileError::Io(copy_string(p), copy_string(m)),
        }
    }

    /// Classifies an I/O fault met while reading `path`.
    pub fn from_io(kind: IoKind, path: &str, message: String) -> (r: FileError)
        ensures
            kind == IoKind::NotFound ==> r@ == FileErrorView::NotFound(path@),
            kind == IoKind::PermissionDenied ==> r@ == FileErrorView::AccessDenied,
            kind == IoKind::IsADirectory ==> r@ == FileErrorView::IsDirectory,
            kind == IoKind::InvalidData ==> r@ == FileErrorView::InvalidUtf8,
            kind != IoKind::NotFound && kind != IoKind::PermissionDenied && kind
                != IoKind::IsADirectory && kind != IoKind::InvalidData ==> r@ == FileErrorView::Io(
                path@,
                message@,
            ),
    {
        match kind {
            IoKind::NotFound => FileError::NotFound(path.to_owned()),
            IoKind::PermissionDenied => FileError::AccessDenied,
            IoKind::IsADirectory => FileError::IsDirectory,
            IoKind::InvalidData => FileError::InvalidUtf8,
            _ => FileError::Io(path.to_owned(), message),
        }
    }
}

/// A failure to set up a project's file system.
pub enum WorldCreationError {
    /// No main file is configured.
    InputNotFound(String),
    /// The main file is not contained within the root folder.
    InputOutsideRoot,
    /// The root directory does not exist.
    RootNotFound(String),
    /// Another I/O fault, with its message.
    Io(String),
}

impl WorldCreationError {
    /// A sentence that describes the error.
    pub fn message(&self) -> (r: String)
        ensures
            self matches WorldCreationError::InputNotFound(p) ==> r@
                == "input file not found (searched at "@ + p@ + ")"@,
            self is InputOutsideRoot ==> r@ == "source file must be contained in project root"@,
            self matches WorldCreationError::RootNotFound(p) ==> r@
                == "root directory not found (searched at "@ + p@ + ")"@,
            self matches WorldCreationError::Io(m) ==> r@ == m@,
    {
        match self {
            WorldCreationError::InputNotFound(p) => {
                let mut out = "input file not found (searched at ".to_owned();
                push_str(&mut out, p.as_str());
                push_str(&mut out, ")");
                out
            },
            WorldCreationError::InputOutsideRoot => {
                "source file must be contained in project root".to_owned()
            },
            WorldCreationError::RootNotFound(p) => {
                let mut out = "root directory not found (searched at ".to_owned();
                push_str(&mut out, p.as_str());
                push_str(&mut out, ")");
                out
            },
            WorldCreationError::Io(m) => copy_string(m),
        }
    }
}

} // verus!
