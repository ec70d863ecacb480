//! The errors of the filesystem and the codes under which the kernel
//! learns of them.

use vstd::prelude::*;
use crate::inode::FileKind;

verus! {

/// What can go wrong in a filesystem operation.
#[derive(Debug, Clone, Copy, PartialEq, Eq, Structural)]
pub enum Error {
    /// The object does not exist.
    NotFound,
    /// A directory was required.
    NotADirectory,
    /// A regular file was required.
    IsADirectory,
    /// The directory still has entries.
    DirectoryNotEmpty,
    /// The name is already taken.
    FileExists,
    /// The cache entry was superseded; the file has to be opened again.
    Invalidated,
    /// The metadata store failed.
    Sql,
    /// The remote side failed.
    Grammers,
    /// The download of the file's content failed.
    DownloadFailed,
    /// The remote message carries no usable document.
    MediaInvalid,
    /// Local storage failed.
    Io,
    /// A file of this type is not supported here.
    InvalidFileType(FileKind),
}

/// The error numbers of the operating system that the filesystem reports.
pub struct ErrnoTable {
    /// `ENOENT`
    pub enoent: i32,
    /// `ENOTDIR`
    pub enotdir: i32,
    /// `EISDIR`
    pub eisdir: i32,
    /// `ENOTEMPTY`
    pub enotempty: i32,
    /// `EEXIST`
    pub eexist: i32,
    /// `EPERM`
    pub eperm: i32,
    /// `EIO`
    pub eio: i32,
}

/// The error numbers as Linux has them on x86-64 and AArch64.
pub open spec fn linux_errnos() -> ErrnoTable {
    ErrnoTable { enoent: 2, enotdir: 20, eisdir: 21, enotempty: 39, eexist: 17, eperm: 1, eio: 5 }
}

/// The constants `ENOENT`, `ENOTDIR`, `EISDIR`, `ENOTEMPTY`, `EEXIST`,
/// `EPERM` and `EIO` of `libc`. The contract gives the numbers that `libc`
/// defines for Linux on x86-64 and AArch64; on another target they can
/// differ.
#[verifier::external_body]
pub(crate) fn errno_table() -> (table: ErrnoTable)
    ensures
        table == linux_errnos(),
{
    ErrnoTable {
        enoent: libc::ENOENT,
        enotdir: libc::ENOTDIR,
        eisdir: libc::EISDIR,
        enotempty: libc::ENOTEMPTY,
        eexist: libc::EEXIST,
        eperm: libc::EPERM,
        eio: libc::EIO,
    }
}

impl Error {
    /// The error number under which the kernel learns of the error.
    pub open spec fn errno(self) -> int {
        match self {
            Error::NotFound => linux_errnos().enoent as int,
            Error::NotADirectory => linux_errnos().enotdir as int,
            Error::IsADirectory => linux_errnos().eisdir as int,
            Error::DirectoryNotEmpty => linux_errnos().enotempty as int,
            Error::FileExists => linux_errnos().eexist as int,
            Error::Invalidated => linux_errnos().eperm as int,
            Error::Sql => linux_errnos().eio as int,
            Error::Grammers => linux_errnos().eio as int,
            Error::DownloadFailed => linux_errnos().eio as int,
            Error::MediaInvalid => linux_errnos().eio as int,
            Error::Io => linux_errnos().eio as int,
            Error::InvalidFileType(_) => linux_errnos().eperm as int,
        }
    }

    /// The error number under which the kernel learns of the error.
    pub fn into_c_err(self) -> (code: i32)
        ensures
            code == self.errno(),
    {
        let table = errno_table();
        match self {
            Error::NotFound => table.enoent,
            Error::NotADirectory => table.enotdir,
            Error::IsADirectory => table.eisdir,
            Error::DirectoryNotEmpty => table.enotempty,
            Error::FileExists => table.eexist,
            Error::Invalidated => table.eperm,
            Error::Sql | Error::Grammers => table.eio,
            Error::DownloadFailed | Error::MediaInvalid => table.eio,
            Error::Io => table.eio,
            Error::InvalidFileType(_) => table.eperm,
        }
    }

    /// The error in words.
    pub fn message(&self) -> (text: &'static str)
        ensures
            text@ == self.message_text(),
    {
        match self {
            Error::NotFound => "Object not found",
            Error::NotADirectory => "Not a directory",
            Error::IsADirectory => "Is a directory",
            Error::DirectoryNotEmpty => "Directory not empty",
            Error::FileExists => "File exists",
            Error::Invalidated => "File changed in remote side, please re-open it",
            Error::Sql => "sql error",
            Error::Grammers => "grammers error",
            Error::DownloadFailed => "Download failed",
            Error::MediaInvalid => "Media invalid",
            Error::Io => "IO error",
            Error::InvalidFileType(_) => "File type not support",
        }
    }

    /// The words of `message`.
    pub open spec fn message_text(self) -> Seq<char> {
        match self {
            Error::NotFound => "Object not found"@,
            Error::NotADirectory => "Not a directory"@,
            Error::IsADirectory => "Is a directory"@,
            Error::DirectoryNotEmpty => "Directory not empty"@,
            Error::FileExists => "File exists"@,
            Error::Invalidated => "File changed in remote side, please re-open it"@,
            Error::Sql => "sql error"@,
            Error::Grammers => "grammers error"@,
            Error::DownloadFailed => "Download failed"@,
            Error::MediaInvalid => "Media invalid"@,
            Error::Io => "IO error"@,
            Error::InvalidFileType(_) => "File type not support"@,
        }
    }
}

} // verus!
