//! The attributes of files and directories as the metadata store keeps
//! them, and what the kernel is told of them.

use vstd::prelude::*;
use crate::error::Error;

verus! {

/// The size of a block, in bytes.
pub const BLOCK_SIZE: u32 = 512;

/// The type of a file.
#[derive(Debug, Clone, Copy, PartialEq, Eq, Structural)]
pub enum FileKind {
    /// A named pipe.
    NamedPipe,
    /// A character device.
    CharDevice,
    /// A block device.
    BlockDevice,
    /// A directory.
    Directory,
    /// A regular file.
    RegularFile,
    /// A symbolic link.
    Symlink,
    /// A socket.
    Socket,
}

/// The file type bits of a mode.
pub struct ModeBits {
    /// `S_IFREG`
    pub reg: u16,
    /// `S_IFSOCK`
    pub sock: u16,
    /// `S_IFDIR`
    pub dir: u16,
    /// `S_IFLNK`
    pub lnk: u16,
    /// `S_IFBLK`
    pub blk: u16,
    /// `S_IFCHR`
    pub chr: u16,
    /// `S_IFIFO`
    pub fifo: u16,
}

/// The file type bits as Unix has them.
pub open spec fn unix_mode_bits() -> ModeBits {
    ModeBits {
        reg: 0o100000,
        sock: 0o140000,
        dir: 0o040000,
        lnk: 0o120000,
        blk: 0o060000,
        chr: 0o020000,
        fifo: 0o010000,
    }
}

/// The constants `S_IFREG`, `S_IFSOCK`, `S_IFDIR`, `S_IFLNK`, `S_IFBLK`,
/// `S_IFCHR` and `S_IFIFO` of `libc`, which all fit into 16 bits.
#[verifier::external_body]
pub(crate) fn mode_bits() -> (bits: ModeBits)
    ensures
        bits == unix_mode_bits(),
{
    ModeBits {
        reg: libc::S_IFREG as u16,
        sock: libc::S_IFSOCK as u16,
        dir: libc::S_IFDIR as u16,
        lnk: libc::S_IFLNK as u16,
        blk: libc::S_IFBLK as u16,
        chr: libc::S_IFCHR as u16,
        fifo: libc::S_IFIFO as u16,
    }
}

/// The file type that the type bits `kind` stand for; bits that stand for
/// none are taken as a regular file.
pub open spec fn kind_of(kind: u16) -> FileKind {
    let bits = unix_mode_bits();
    if kind == bits.reg {
        FileKind::RegularFile
    } else if kind == bits.sock {
        FileKind::Socket
    } else if kind == bits.dir {
        FileKind::Directory
    } else if kind == bits.lnk {
        FileKind::Symlink
    } else if kind == bits.blk {
        FileKind::BlockDevice
    } else if kind == bits.chr {
        FileKind::CharDevice
    } else if kind == bits.fifo {
        FileKind::NamedPipe
    } else {
        FileKind::RegularFile
    }
}

/// The file type that the type bits `kind` stand for.
pub fn convert_file_type(kind: u16) -> (file_type: FileKind)
    ensures
        file_type == kind_of(kind),
{
    let bits = mode_bits();
    if kind == bits.reg {
        FileKind::RegularFile
    } else if kind == bits.sock {
        FileKind::Socket
    } else if kind == bits.dir {
        FileKind::Directory
    } else if kind == bits.lnk {
        FileKind::Symlink
    } else if kind == bits.blk {
        FileKind::BlockDevice
    } else if kind == bits.chr {
        FileKind::CharDevice
    } else if kind == bits.fifo {
        FileKind::NamedPipe
    } else {
        FileKind::RegularFile
    }
}

/// The attributes of one node, as the metadata store keeps them. Times are
/// seconds since the Unix epoch.
#[derive(Debug, Clone)]
pub struct InodeAttr {
    pub ino: u32,
    pub size: u32,
    pub blocks: u32,
    pub atime: u32,
    pub mtime: u32,
    pub ctime: u32,
    pub crtime: u32,
    pub kind: u16,
    pub perm: u16,
    pub nlink: u32,
    pub uid: u32,
    pub gid: u32,
    pub rdev: u32,
    pub blksize: u32,
    pub flags: u32,
    pub remote_id: i32,
    pub name: String,
}

/// The attributes of one node, as the kernel is told them. Times are
/// seconds since the Unix epoch.
#[derive(Debug, Clone, Copy, PartialEq, Eq, Structural)]
pub struct FileAttr {
    pub ino: u64,
    pub size: u64,
    pub blocks: u64,
    pub atime: u64,
    pub mtime: u64,
    pub ctime: u64,
    pub crtime: u64,
    pub kind: FileKind,
    pub perm: u16,
    pub nlink: u32,
    pub uid: u32,
    pub gid: u32,
    pub rdev: u32,
    pub blksize: u32,
    pub flags: u32,
}

/// One entry of a directory.
#[derive(Debug, Clone)]
pub struct DirEntry {
    pub parent_ino: u32,
    pub child_ino: u32,
    pub name: String,
    pub file_type: FileKind,
}

/// How many blocks a file of `size` bytes takes.
pub open spec fn blocks_of(size: u32) -> u32 {
    ((size + BLOCK_SIZE - 1) / BLOCK_SIZE as int) as u32
}

/// How many blocks a file of `size` bytes takes.
pub fn block_count(size: u32) -> (blocks: u32)
    ensures
        blocks == blocks_of(size),
        blocks as int * BLOCK_SIZE >= size,
        (blocks as int - 1) * BLOCK_SIZE < size,
{
    let wide: u64 = size as u64 + (BLOCK_SIZE as u64 - 1);
    (wide / BLOCK_SIZE as u64) as u32
}

/// The low 32 bits of `n`, which is how the metadata store keeps a size.
pub open spec fn low32(n: u64) -> u32 {
    (n % 0x1_0000_0000) as u32
}

/// The low 32 bits of `n`.
pub fn stored_size(n: u64) -> (low: u32)
    ensures
        low == low32(n),
{
    (n % 0x1_0000_0000) as u32
}

/// What is recorded in the metadata store for a file of `size` bytes: the
/// stored size and the number of blocks.
pub fn update_attr(size: u64) -> (r: (u32, u32))
    ensures
        r == (low32(size), blocks_of(low32(size))),
{
    let low = stored_size(size);
    (low, block_count(low))
}

/// What a rename does to the metadata store.
#[derive(Debug, Clone, Copy, PartialEq, Eq, Structural)]
pub enum RenamePlan {
    /// Source and destination are the same: nothing is done.
    Nothing,
    /// The source entry moves; `replace` is the node under the destination
    /// name, which goes first.
    Move { replace: Option<u32> },
}

/// What a rename comes to. `same` says whether source and destination
/// are one place, `source` and `dest` are the entries found there, and
/// `dest_empty` says whether a directory at the destination has no entries.
pub open spec fn rename_outcome(
    same: bool,
    source: Option<FileKind>,
    dest: Option<(FileKind, u32)>,
    dest_empty: bool,
) -> Result<RenamePlan, Error> {
    if same {
        Ok(RenamePlan::Nothing)
    } else {
        match source {
            None => Err(Error::NotFound),
            Some(kind) => match dest {
                None => Ok(RenamePlan::Move { replace: None }),
                Some((dest_kind, dest_ino)) => if dest_kind != kind {
                    match dest_kind {
                        FileKind::Directory => Err(Error::IsADirectory),
                        FileKind::RegularFile => Err(Error::NotADirectory),
                        _ => Err(Error::InvalidFileType(dest_kind)),
                    }
                } else if dest_kind == FileKind::Directory && !dest_empty {
                    Err(Error::DirectoryNotEmpty)
                } else {
                    Ok(RenamePlan::Move { replace: Some(dest_ino) })
                },
            },
        }
    }
}

/// The type and node of a directory entry.
pub open spec fn entry_kind(entry: Option<&DirEntry>) -> Option<(FileKind, u32)> {
    match entry {
        Some(e) => Some((e.file_type, e.child_ino)),
        None => None,
    }
}

/// The type of a directory entry.
pub open spec fn entry_type(entry: Option<&DirEntry>) -> Option<FileKind> {
    match entry {
        Some(e) => Some(e.file_type),
        None => None,
    }
}

/// Says what a rename does. A source that is not there is `NotFound`. A
/// destination of another type is `IsADirectory` where it is a directory,
/// `NotADirectory` where it is a regular file, and `InvalidFileType`
/// otherwise; a destination directory with entries is `DirectoryNotEmpty`.
pub fn rename(same: bool, source: Option<&DirEntry>, dest: Option<&DirEntry>, dest_empty: bool) -> (r:
    Result<RenamePlan, Error>)
    ensures
        r == rename_outcome(same, entry_type(source), entry_kind(dest), dest_empty),
{
    if same {
        return Ok(RenamePlan::Nothing);
    }
    let old_entry = match source {
        Some(e) => e,
        None => {
            return Err(Error::NotFound);
        },
    };
    match dest {
        None => Ok(RenamePlan::Move { replace: None }),
        Some(dest_entry) => {
            if dest_entry.file_type != old_entry.file_type {
                match dest_entry.file_type {
                    FileKind::Directory => Err(Error::IsADirectory),
                    FileKind::RegularFile => Err(Error::NotADirectory),
                    _ => Err(Error::InvalidFileType(dest_entry.file_type)),
                }
            } else if dest_entry.file_type == FileKind::Directory && !dest_empty {
                Err(Error::DirectoryNotEmpty)
            } else {
                Ok(RenamePlan::Move { replace: Some(dest_entry.child_ino) })
            }
        },
    }
}

/// The remote message that goes with a replaced node: the node's remote
/// id, unless it has none, which 0 stands for.
pub fn replaced_remote_id(attr: Option<&InodeAttr>) -> (r: Option<i32>)
    ensures
        r == (match attr {
            Some(a) => if a.remote_id != 0 {
                Some(a.remote_id)
            } else {
                None
            },
            None => None,
        }),
{
    match attr {
        Some(a) => {
            if a.remote_id != 0 {
                Some(a.remote_id)
            } else {
                None
            }
        },
        None => None,
    }
}

impl InodeAttr {
    /// The attributes of a node made at `time`: a directory with all
    /// permissions and two links, or else a regular file that all may read
    /// and write, with one link.
    pub open spec fn created(
        ino: u32,
        name: String,
        kind: FileKind,
        uid: u32,
        gid: u32,
        remote_id: i32,
        time: u32,
    ) -> InodeAttr {
        let directory = kind == FileKind::Directory;
        InodeAttr {
            ino,
            size: 0,
            blocks: 0,
            atime: time,
            mtime: time,
            ctime: time,
            crtime: time,
            kind: if directory {
                unix_mode_bits().dir
            } else {
                unix_mode_bits().reg
            },
            perm: if directory {
                0o777
            } else {
                0o666
            },
            nlink: if directory {
                2
            } else {
                1
            },
            uid,
            gid,
            rdev: 0,
            blksize: BLOCK_SIZE,
            flags: 0,
            remote_id,
            name,
        }
    }

    /// The attributes of a new node.
    pub fn add(
        ino: u32,
        name: String,
        kind: FileKind,
        uid: u32,
        gid: u32,
        remote_id: i32,
        time: u32,
    ) -> (attr: InodeAttr)
        ensures
            attr == Self::created(ino, name, kind, uid, gid, remote_id, time),
    {
        let bits = mode_bits();
        let directory = kind == FileKind::Directory;
        InodeAttr {
            ino,
            size: 0,
            blocks: 0,
            atime: time,
            mtime: time,
            ctime: time,
            crtime: time,
            kind: if directory {
                bits.dir
            } else {
                bits.reg
            },
            perm: if directory {
                0o777
            } else {
                0o666
            },
            nlink: if directory {
                2
            } else {
                1
            },
            uid,
            gid,
            rdev: 0,
            blksize: BLOCK_SIZE,
            flags: 0,
            remote_id,
            name,
        }
    }

    /// What the kernel is told of the node.
    pub open spec fn file_attr(&self) -> FileAttr {
        FileAttr {
            ino: self.ino as u64,
            size: self.size as u64,
            blocks: self.blocks as u64,
            atime: self.atime as u64,
            mtime: self.mtime as u64,
            ctime: self.ctime as u64,
            crtime: self.crtime as u64,
            kind: kind_of(self.kind),
            perm: self.perm,
            nlink: self.nlink,
            uid: self.uid,
            gid: self.gid,
            rdev: self.rdev,
            blksize: self.blksize,
            flags: self.flags,
        }
    }

    /// What the kernel is told of the node.
    pub fn get_file_attr(&self) -> (attr: FileAttr)
        ensures
            attr == self.file_attr(),
    {
        FileAttr {
            ino: self.ino as u64,
            size: self.size as u64,
            blocks: self.blocks as u64,
            atime: self.atime as u64,
            mtime: self.mtime as u64,
            ctime: self.ctime as u64,
            crtime: self.crtime as u64,
            kind: convert_file_type(self.kind),
            perm: self.perm,
            nlink: self.nlink,
            uid: self.uid,
            gid: self.gid,
            rdev: self.rdev,
            blksize: self.blksize,
            flags: self.flags,
        }
    }
}

} // verus!
