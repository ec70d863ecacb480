//! The face towards the kernel: how the arguments of its requests are
//! read, and the fixed answers.

use vstd::prelude::*;
use crate::vfs::Vfs;

verus! {

/// The generation number reported with every node.
pub const GENERATION: u64 = 0;

/// The longest name, in bytes.
pub const NAME_LEN: u32 = 256;

/// The size of a block, in bytes.
pub const BLOCK_SIZE: u32 = 512;

/// The size of a fragment, in bytes.
pub const FRAGMENT_SIZE: u32 = 512;

/// For how many seconds the kernel may keep an answer.
pub const TTL_SECONDS: u64 = 1;

/// The flags of `open` that are read here.
pub struct OpenBits {
    /// `O_WRONLY`
    pub wronly: i32,
    /// `O_EXCL`
    pub excl: i32,
    /// `O_TRUNC`
    pub trunc: i32,
}

/// The flags as Linux has them on x86-64 and AArch64.
pub open spec fn linux_open_bits() -> OpenBits {
    OpenBits { wronly: 1, excl: 128, trunc: 512 }
}

/// The constants `O_WRONLY`, `O_EXCL` and `O_TRUNC` of `libc`. The contract
/// gives the numbers that `libc` defines for Linux on x86-64 and AArch64;
/// on another target they can differ.
#[verifier::external_body]
pub(crate) fn open_bits() -> (bits: OpenBits)
    ensures
        bits == linux_open_bits(),
{
    OpenBits { wronly: libc::O_WRONLY, excl: libc::O_EXCL, trunc: libc::O_TRUNC }
}

/// How a file is to be opened or created.
#[derive(Debug, Clone, Copy, PartialEq, Eq, Structural)]
pub struct OpenMode {
    /// Whether the file is opened for writing.
    pub write: bool,
    /// Whether the file must not exist yet.
    pub exclusive: bool,
    /// Whether the file is cut to no bytes.
    pub truncate: bool,
    /// The flags that are reported back to the kernel.
    pub ret_flags: u32,
}

/// What the kernel is told of the filesystem as a whole.
#[derive(Debug, Clone, Copy, PartialEq, Eq, Structural)]
pub struct StatFs {
    pub blocks: u64,
    pub bfree: u64,
    pub bavail: u64,
    pub files: u64,
    pub ffree: u64,
    pub bsize: u32,
    pub namelen: u32,
    pub frsize: u32,
}

/// The flags of a request to create a file, read.
pub open spec fn create_mode(flags: i32) -> OpenMode {
    OpenMode {
        write: flags & 1 != 0,
        exclusive: flags & 128 != 0,
        truncate: flags & 512 != 0,
        ret_flags: (flags & 641) as u32,
    }
}

/// The flags of a request to open a file, read.
pub open spec fn open_mode(flags: i32) -> OpenMode {
    OpenMode { write: flags & 1 != 0, exclusive: false, truncate: false, ret_flags: (flags & 1) as u32 }
}

/// The face of the filesystem towards the kernel.
pub struct Filesystem {
    vfs: Vfs,
}

impl Filesystem {
    /// The filesystem that the kernel is served.
    pub closed spec fn inner(&self) -> Vfs {
        self.vfs
    }

    /// A face for `vfs`.
    pub fn new(vfs: Vfs) -> (fs: Self)
        ensures
            fs.inner() == vfs,
    {
        Filesystem { vfs }
    }

    /// The filesystem that the kernel is served.
    pub fn vfs(&mut self) -> (vfs: &mut Vfs)
        ensures
            *vfs == old(self).inner(),
            *final(vfs) == final(self).inner(),
    {
        &mut self.vfs
    }

    /// What the kernel is told of the filesystem as a whole: nothing is
    /// counted.
    pub fn statfs() -> (stat: StatFs)
        ensures
            stat == (StatFs {
                blocks: 0,
                bfree: 0,
                bavail: 0,
                files: 0,
                ffree: 0,
                bsize: 512,
                namelen: 256,
                frsize: 512,
            }),
    {
        StatFs {
            blocks: 0,
            bfree: 0,
            bavail: 0,
            files: 0,
            ffree: 0,
            bsize: BLOCK_SIZE,
            namelen: NAME_LEN,
            frsize: FRAGMENT_SIZE,
        }
    }

    /// Reads the flags of a request to open a file. Reading is always
    /// allowed. A request that truncates is not served here.
    pub fn open(flags: i32) -> (mode: OpenMode)
        requires
            flags & 512 == 0,
        ensures
            mode == open_mode(flags),
    {
        let bits = open_bits();
        let kept: i32 = flags & bits.wronly;
        assert(0 <= flags & 1 <= 1) by (bit_vector);
        OpenMode { write: kept != 0, exclusive: false, truncate: false, ret_flags: kept as u32 }
    }

    /// Reads the flags of a request to create a file.
    pub fn create(flags: i32) -> (mode: OpenMode)
        ensures
            mode == create_mode(flags),
    {
        let bits = open_bits();
        let kept: i32 = flags & (bits.wronly | bits.excl | bits.trunc);
        assert(1i32 | 128i32 | 512i32 == 641i32) by (bit_vector);
        assert(0 <= flags & 641 <= 641) by (bit_vector);
        OpenMode {
            write: flags & bits.wronly != 0,
            exclusive: flags & bits.excl != 0,
            truncate: flags & bits.trunc != 0,
            ret_flags: kept as u32,
        }
    }

    /// Reads offset and size of a request to read.
    pub fn read(offset: i64, size: u32) -> (r: (u64, usize))
        requires
            offset >= 0,
        ensures
            r.0 == offset,
            r.1 == size,
    {
        (offset as u64, size as usize)
    }

    /// The index of the first directory entry that a listing from `offset`
    /// reports, among `len` entries; the entry at index `i` is reported
    /// with `i + 1` as the offset of the next.
    pub fn readdir(len: usize, offset: i64) -> (start: usize)
        ensures
            start == (if 0 <= offset < len {
                offset as int
            } else {
                len as int
            }),
    {
        if offset < 0 {
            len
        } else if (offset as u64) < len as u64 {
            offset as usize
        } else {
            len
        }
    }
}

} // verus!
