use telegram_fuse::cache::{DiskCache, FlushStep};
use telegram_fuse::cache_state::{Held, TruncatePlan};
use telegram_fuse::error::Error;
use telegram_fuse::fuse_fs::{Filesystem, OpenMode, StatFs, BLOCK_SIZE, GENERATION, NAME_LEN, TTL_SECONDS};
use telegram_fuse::inode::{
    block_count, convert_file_type, rename, replaced_remote_id, stored_size, update_attr, DirEntry,
    FileKind, InodeAttr, RenamePlan,
};
use telegram_fuse::vfs::{CreatePlan, OpenPlan, Vfs};

fn file(ino: u32, remote_id: i32) -> InodeAttr {
    InodeAttr::add(ino, String::from("a.txt"), FileKind::RegularFile, 1000, 100, remote_id, 1234)
}

fn entry(kind: FileKind, ino: u32) -> DirEntry {
    DirEntry { parent_ino: 1, child_ino: ino, name: String::from("n"), file_type: kind }
}

#[test]
fn file_types() {
    assert_eq!(convert_file_type(libc::S_IFREG as u16), FileKind::RegularFile);
    assert_eq!(convert_file_type(libc::S_IFSOCK as u16), FileKind::Socket);
    assert_eq!(convert_file_type(libc::S_IFDIR as u16), FileKind::Directory);
    assert_eq!(convert_file_type(libc::S_IFLNK as u16), FileKind::Symlink);
    assert_eq!(convert_file_type(libc::S_IFBLK as u16), FileKind::BlockDevice);
    assert_eq!(convert_file_type(libc::S_IFCHR as u16), FileKind::CharDevice);
    assert_eq!(convert_file_type(libc::S_IFIFO as u16), FileKind::NamedPipe);
    assert_eq!(convert_file_type(0), FileKind::RegularFile);
    assert_eq!(convert_file_type(0o777), FileKind::RegularFile);
    assert_eq!(convert_file_type(0o040000), FileKind::Directory);
}

#[test]
fn new_nodes() {
    let f = file(7, 55);
    assert_eq!((f.ino, f.size, f.blocks, f.remote_id), (7, 0, 0, 55));
    assert_eq!((f.atime, f.mtime, f.ctime, f.crtime), (1234, 1234, 1234, 1234));
    assert_eq!((f.kind as u32, f.perm, f.nlink), (libc::S_IFREG as u32, 0o666, 1));
    assert_eq!((f.uid, f.gid, f.rdev, f.blksize, f.flags), (1000, 100, 0, 512, 0));
    assert_eq!(f.name, "a.txt");
    let d = InodeAttr::add(8, String::from("d"), FileKind::Directory, 1, 2, 0, 5);
    assert_eq!((d.kind as u32, d.perm, d.nlink), (libc::S_IFDIR as u32, 0o777, 2));
    let l = InodeAttr::add(9, String::from("l"), FileKind::Symlink, 1, 2, 0, 5);
    assert_eq!((l.kind as u32, l.perm, l.nlink), (libc::S_IFREG as u32, 0o666, 1));
}

#[test]
fn file_attr_for_the_kernel() {
    let mut f = file(7, 55);
    f.size = 1025;
    f.blocks = 3;
    let attr = f.get_file_attr();
    assert_eq!((attr.ino, attr.size, attr.blocks), (7, 1025, 3));
    assert_eq!((attr.atime, attr.mtime, attr.ctime, attr.crtime), (1234, 1234, 1234, 1234));
    assert_eq!(attr.kind, FileKind::RegularFile);
    assert_eq!((attr.perm, attr.nlink, attr.uid, attr.gid), (0o666, 1, 1000, 100));
    assert_eq!((attr.rdev, attr.blksize, attr.flags), (0, 512, 0));
}

#[test]
fn blocks() {
    assert_eq!(block_count(0), 0);
    assert_eq!(block_count(1), 1);
    assert_eq!(block_count(512), 1);
    assert_eq!(block_count(513), 2);
    assert_eq!(block_count(u32::MAX), 8388608);
    assert_eq!(stored_size(5), 5);
    assert_eq!(stored_size(0x1_0000_0005), 5);
    assert_eq!(update_attr(1025), (1025, 3));
    assert_eq!(update_attr(0x1_0000_0000), (0, 0));
}

#[test]
fn rename_plans() {
    let f = entry(FileKind::RegularFile, 10);
    let g = entry(FileKind::RegularFile, 11);
    let d = entry(FileKind::Directory, 12);
    let e = entry(FileKind::Directory, 13);
    let s = entry(FileKind::Symlink, 14);
    assert_eq!(rename(true, None, None, true), Ok(RenamePlan::Nothing));
    assert_eq!(rename(false, None, Some(&f), true), Err(Error::NotFound));
    assert_eq!(rename(false, Some(&f), None, true), Ok(RenamePlan::Move { replace: None }));
    assert_eq!(rename(false, Some(&f), Some(&g), false), Ok(RenamePlan::Move { replace: Some(11) }));
    assert_eq!(rename(false, Some(&f), Some(&d), true), Err(Error::IsADirectory));
    assert_eq!(rename(false, Some(&d), Some(&f), true), Err(Error::NotADirectory));
    assert_eq!(rename(false, Some(&f), Some(&s), true), Err(Error::InvalidFileType(FileKind::Symlink)));
    assert_eq!(rename(false, Some(&d), Some(&e), false), Err(Error::DirectoryNotEmpty));
    assert_eq!(rename(false, Some(&d), Some(&e), true), Ok(RenamePlan::Move { replace: Some(13) }));
    assert_eq!(Error::InvalidFileType(FileKind::Symlink).into_c_err(), libc::EPERM);
}

#[test]
fn replaced_messages() {
    assert_eq!(replaced_remote_id(None), None);
    assert_eq!(replaced_remote_id(Some(&file(3, 0))), None);
    assert_eq!(replaced_remote_id(Some(&file(3, 44))), Some(44));
}

#[test]
fn lookups() {
    assert_eq!(Vfs::lookup(None).unwrap_err(), Error::NotFound);
    assert_eq!(Vfs::lookup(Some(file(3, 4))).unwrap().ino, 3);
    assert_eq!(Vfs::get_attr(None).unwrap_err(), Error::NotFound);
    assert_eq!(Vfs::get_attr(Some(file(3, 4))).unwrap().remote_id, 4);
}

#[test]
fn opening() {
    let mut vfs = Vfs::new(DiskCache::new());
    assert_eq!(vfs.open_file(None), Err(Error::MediaInvalid));
    assert_eq!(vfs.open_file(Some(&file(3, 4))), Ok(OpenPlan::Fetch { remote_id: 4 }));
    vfs.cache().insert_empty(4);
    assert_eq!(vfs.open_file(Some(&file(3, 4))), Ok(OpenPlan::Opened { fh: 0 }));
}

#[test]
fn creating() {
    assert!(matches!(Vfs::open_create_file(None, false, false), Ok(CreatePlan::Create)));
    assert!(matches!(Vfs::open_create_file(None, true, true), Ok(CreatePlan::Create)));
    let f = file(3, 4);
    assert!(matches!(Vfs::open_create_file(Some(f.clone()), false, true), Err(Error::FileExists)));
    assert!(matches!(Vfs::open_create_file(Some(f.clone()), false, false), Ok(CreatePlan::Open(a)) if a.ino == 3));
    assert!(matches!(Vfs::open_create_file(Some(f.clone()), true, true), Ok(CreatePlan::Existing(a)) if a.ino == 3));
    assert!(matches!(Vfs::open_create_file(Some(f), true, false), Ok(CreatePlan::Existing(a)) if a.ino == 3));
}

#[test]
fn directories() {
    let d = InodeAttr::add(8, String::from("d"), FileKind::Directory, 1, 2, 0, 5);
    assert_eq!(Vfs::create_dir(None), Ok(()));
    assert_eq!(Vfs::create_dir(Some(&d)), Err(Error::FileExists));
    assert_eq!(Vfs::remove_dir(None, true), Err(Error::NotFound));
    assert_eq!(Vfs::remove_dir(Some(&d), false), Err(Error::DirectoryNotEmpty));
    assert_eq!(Vfs::remove_dir(Some(&d), true), Ok(8));
    assert_eq!(Error::DirectoryNotEmpty.into_c_err(), libc::ENOTEMPTY);
}

#[test]
fn reading_and_writing_through_the_filesystem() {
    let mut vfs = Vfs::new(DiskCache::new());
    let f = file(3, 4);
    assert_eq!(vfs.read_file(None, 0, 1), Err(Error::NotFound));
    assert_eq!(vfs.read_file(Some(&f), 0, 1), Err(Error::NotFound));
    assert_eq!(vfs.write_file(None, 0, b"x", 1), Err(Error::NotFound));
    assert_eq!(vfs.write_file(Some(&f), 0, b"x", 1), Err(Error::NotFound));
    vfs.cache().insert_empty(4);
    assert_eq!(vfs.write_file(Some(&f), 0, b"hello", 9), Ok(Held::Done((5, 9))));
    match vfs.read_file(Some(&f), 1, 3) {
        Ok(Held::Done(bytes)) => assert_eq!(&bytes[..], b"ell"),
        other => panic!("not served: {:?}", other),
    }
    let h = vfs.cache().try_alloc_and_fetch(5, None, 8).unwrap().unwrap();
    assert_eq!(vfs.read_file(Some(&file(6, 5)), 0, 8), Ok(Held::Wait { handle: h }));
}

#[test]
fn closing_and_syncing() {
    let mut vfs = Vfs::new(DiskCache::new());
    let f = file(3, 4);
    assert_eq!(vfs.close_file(None), Err(Error::NotFound));
    assert_eq!(vfs.sync_file(None), Err(Error::NotFound));
    assert_eq!(vfs.close_file(Some(&f)), Err(Error::NotFound));
    let h = vfs.cache().insert_empty(4);
    assert_eq!(vfs.close_file(Some(&f)), Ok(FlushStep::Done));
    assert_eq!(vfs.write_file(Some(&f), 0, b"hello", 9), Ok(Held::Done((5, 9))));
    let job = match vfs.close_file(Some(&f)) {
        Ok(FlushStep::Upload(job)) => job,
        other => panic!("no upload: {:?}", other),
    };
    assert_eq!(job.payload, b"hello".to_vec());
    assert_eq!(vfs.close_file(Some(&f)), Ok(FlushStep::Done));
    assert_eq!(vfs.sync_file(Some(&f)), Ok(FlushStep::WaitUpload { handle: h, epoch: job.epoch }));
}

#[test]
fn removing_files() {
    let mut vfs = Vfs::new(DiskCache::new());
    let f = file(3, 4);
    assert_eq!(vfs.remove_file(None), Err(Error::NotFound));
    vfs.cache().insert_empty(4);
    assert_eq!(vfs.remove_file(Some(&f)), Ok((3, 4)));
    assert!(!vfs.cache().open(4));
    vfs.cache().insert_empty(5);
    vfs.rename(None);
    assert!(vfs.cache().open(5));
    vfs.rename(Some(5));
    assert!(!vfs.cache().open(5));
}

#[test]
fn setting_attributes() {
    let mut vfs = Vfs::new(DiskCache::new());
    assert_eq!(vfs.set_attr(None, Some(1), None, 5).unwrap_err(), Error::NotFound);
    let f = file(3, 4);

    let (attr, plan) = vfs.set_attr(Some(f.clone()), None, None, 5).unwrap();
    assert_eq!((attr.size, attr.mtime, plan), (0, 1234, None));
    let (attr, plan) = vfs.set_attr(Some(f.clone()), None, Some(77), 5).unwrap();
    assert_eq!((attr.size, attr.mtime, plan), (0, 77, None));
    // the size is the stored one: only the time is set
    let (attr, plan) = vfs.set_attr(Some(f.clone()), Some(0), Some(77), 5).unwrap();
    assert_eq!((attr.size, attr.mtime, plan), (0, 77, None));
    let (attr, plan) = vfs.set_attr(Some(f.clone()), Some(0), None, 5).unwrap();
    assert_eq!((attr.size, attr.mtime, plan), (0, 1234, None));

    let (attr, plan) = vfs.set_attr(Some(f.clone()), Some(9), None, 5).unwrap();
    assert_eq!((attr.size, attr.mtime, plan), (9, 5, Some(TruncatePlan::Fetch)));
    let h = vfs.cache().insert_empty(4);
    let (attr, plan) = vfs.set_attr(Some(f.clone()), Some(9), Some(77), 5).unwrap();
    assert_eq!((attr.size, attr.mtime, plan), (9, 77, Some(TruncatePlan::Done)));
    assert_eq!(vfs.cache().size(h), Some(9));
}

#[test]
fn constants_for_the_kernel() {
    assert_eq!(
        Filesystem::statfs(),
        StatFs { blocks: 0, bfree: 0, bavail: 0, files: 0, ffree: 0, bsize: 512, namelen: 256, frsize: 512 }
    );
    assert_eq!((GENERATION, NAME_LEN, BLOCK_SIZE, TTL_SECONDS), (0, 256, 512, 1));
}

#[test]
fn open_and_create_flags() {
    assert_eq!(
        Filesystem::open(libc::O_RDONLY),
        OpenMode { write: false, exclusive: false, truncate: false, ret_flags: 0 }
    );
    assert_eq!(
        Filesystem::open(libc::O_WRONLY | libc::O_APPEND),
        OpenMode { write: true, exclusive: false, truncate: false, ret_flags: libc::O_WRONLY as u32 }
    );
    assert_eq!(
        Filesystem::create(libc::O_WRONLY | libc::O_EXCL | libc::O_CREAT),
        OpenMode {
            write: true,
            exclusive: true,
            truncate: false,
            ret_flags: (libc::O_WRONLY | libc::O_EXCL) as u32
        }
    );
    assert_eq!(
        Filesystem::create(libc::O_TRUNC),
        OpenMode { write: false, exclusive: false, truncate: true, ret_flags: libc::O_TRUNC as u32 }
    );
    assert_eq!(
        Filesystem::create(-1),
        OpenMode {
            write: true,
            exclusive: true,
            truncate: true,
            ret_flags: (libc::O_WRONLY | libc::O_EXCL | libc::O_TRUNC) as u32
        }
    );
}

#[test]
fn flag_and_mode_numbers() {
    assert_eq!(
        Filesystem::create(1 | 128 | 512),
        OpenMode { write: true, exclusive: true, truncate: true, ret_flags: 641 }
    );
    assert_eq!(
        Filesystem::create(128),
        OpenMode { write: false, exclusive: true, truncate: false, ret_flags: 128 }
    );
    assert_eq!(
        Filesystem::open(1),
        OpenMode { write: true, exclusive: false, truncate: false, ret_flags: 1 }
    );
    assert_eq!(convert_file_type(0o100000), FileKind::RegularFile);
    assert_eq!(convert_file_type(0o140000), FileKind::Socket);
    assert_eq!(convert_file_type(0o120000), FileKind::Symlink);
    assert_eq!(convert_file_type(0o060000), FileKind::BlockDevice);
    assert_eq!(convert_file_type(0o020000), FileKind::CharDevice);
    assert_eq!(convert_file_type(0o010000), FileKind::NamedPipe);
}

#[test]
fn read_arguments_and_listings() {
    assert_eq!(Filesystem::read(0, 0), (0, 0));
    assert_eq!(Filesystem::read(4096, 131072), (4096, 131072));
    assert_eq!(Filesystem::readdir(5, 0), 0);
    assert_eq!(Filesystem::readdir(5, 3), 3);
    assert_eq!(Filesystem::readdir(5, 5), 5);
    assert_eq!(Filesystem::readdir(5, 9), 5);
    assert_eq!(Filesystem::readdir(5, -1), 5);
    assert_eq!(Filesystem::readdir(0, 0), 0);
}

#[test]
fn a_filesystem_serves_its_vfs() {
    let mut vfs = Vfs::new(DiskCache::with_capacity(4));
    vfs.cache().insert_empty(4);
    let mut fs = Filesystem::new(vfs);
    assert!(fs.vfs().cache().open(4));
    assert!(!fs.vfs().cache().open(5));
}
