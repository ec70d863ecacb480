use telegram_fuse::error::Error;
use telegram_fuse::inode::FileKind;

#[test]
fn not_found_is_enoent() {
    assert_eq!(Error::NotFound.into_c_err(), libc::ENOENT);
}

#[test]
fn every_error_has_its_errno() {
    assert_eq!(Error::NotADirectory.into_c_err(), libc::ENOTDIR);
    assert_eq!(Error::IsADirectory.into_c_err(), libc::EISDIR);
    assert_eq!(Error::DirectoryNotEmpty.into_c_err(), libc::ENOTEMPTY);
    assert_eq!(Error::FileExists.into_c_err(), libc::EEXIST);
    assert_eq!(Error::Invalidated.into_c_err(), libc::EPERM);
    assert_eq!(Error::Sql.into_c_err(), libc::EIO);
    assert_eq!(Error::Grammers.into_c_err(), libc::EIO);
    assert_eq!(Error::DownloadFailed.into_c_err(), libc::EIO);
    assert_eq!(Error::MediaInvalid.into_c_err(), libc::EIO);
    assert_eq!(Error::Io.into_c_err(), libc::EIO);
    assert_eq!(Error::InvalidFileType(FileKind::Symlink).into_c_err(), libc::EPERM);
}

#[test]
fn errno_numbers_are_those_of_linux() {
    assert_eq!(Error::NotFound.into_c_err(), 2);
    assert_eq!(Error::NotADirectory.into_c_err(), 20);
    assert_eq!(Error::IsADirectory.into_c_err(), 21);
    assert_eq!(Error::DirectoryNotEmpty.into_c_err(), 39);
    assert_eq!(Error::FileExists.into_c_err(), 17);
    assert_eq!(Error::Invalidated.into_c_err(), 1);
    assert_eq!(Error::Io.into_c_err(), 5);
}

#[test]
fn invalidated_differs_from_not_found() {
    assert_ne!(Error::Invalidated.into_c_err(), Error::NotFound.into_c_err());
}

#[test]
fn messages() {
    assert_eq!(Error::NotFound.message(), "Object not found");
    assert_eq!(Error::Invalidated.message(), "File changed in remote side, please re-open it");
    assert_eq!(Error::DownloadFailed.message(), "Download failed");
}
