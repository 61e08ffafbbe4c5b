use karmaio::driver::backends::{iocp, iouring};
use karmaio::driver::ops::file::{
    AT_EMPTY_PATH, AT_REMOVEDIR, AT_SYMLINK_NOFOLLOW, MOVEFILE_REPLACE_EXISTING, MOVEFILE_WRITE_THROUGH, POLLIN,
    STATX_BASIC_STATS, SYMBOLIC_LINK_FLAG_DIRECTORY,
};
use karmaio::driver::ops::{connection, managed, request};
use karmaio::fs::metadata::{linux, mode, windows};
use karmaio::fs::open_options::{self, OpenFlags};
use windows_sys::Win32::Foundation;
use windows_sys::Win32::Storage::FileSystem;

#[test]
fn linux_constants() {
    let flags = OpenFlags::linux();
    assert_eq!(flags.rdonly, libc::O_RDONLY);
    assert_eq!(flags.wronly, libc::O_WRONLY);
    assert_eq!(flags.rdwr, libc::O_RDWR);
    assert_eq!(flags.append, libc::O_APPEND);
    assert_eq!(flags.creat, libc::O_CREAT);
    assert_eq!(flags.trunc, libc::O_TRUNC);
    assert_eq!(flags.excl, libc::O_EXCL);
    assert_eq!(flags.cloexec, libc::O_CLOEXEC);
    assert_eq!(flags.accmode, libc::O_ACCMODE);
    assert_eq!(flags.einval, libc::EINVAL);

    assert_eq!(request::AT_FDCWD, libc::AT_FDCWD);
    assert_eq!(AT_EMPTY_PATH, libc::AT_EMPTY_PATH);
    assert_eq!(AT_SYMLINK_NOFOLLOW, libc::AT_SYMLINK_NOFOLLOW);
    assert_eq!(AT_REMOVEDIR, libc::AT_REMOVEDIR);
    assert_eq!(STATX_BASIC_STATS, libc::STATX_BASIC_STATS);
    assert_eq!(linux::STATX_BTIME, libc::STATX_BTIME);
    assert_eq!(POLLIN, libc::POLLIN as u32);
    assert_eq!(connection::SOCK_CLOEXEC, libc::SOCK_CLOEXEC);
    assert_eq!(connection::SOCK_NONBLOCK, libc::SOCK_NONBLOCK);
    assert_eq!(managed::MSG_TRUNC, libc::MSG_TRUNC as u32);
    assert_eq!(
        managed::SOCKADDR_STORAGE_LEN as usize,
        std::mem::size_of::<libc::sockaddr_storage>()
    );
    assert_eq!(iouring::EBUSY, libc::EBUSY);
    assert_eq!(iouring::EINTR, libc::EINTR);
    assert_eq!(iouring::ETIME, libc::ETIME);
}

#[test]
fn mode_constants() {
    assert_eq!(mode::S_IFMT, libc::S_IFMT);
    assert_eq!(mode::S_IFSOCK, libc::S_IFSOCK);
    assert_eq!(mode::S_IFLNK, libc::S_IFLNK);
    assert_eq!(mode::S_IFREG, libc::S_IFREG);
    assert_eq!(mode::S_IFBLK, libc::S_IFBLK);
    assert_eq!(mode::S_IFDIR, libc::S_IFDIR);
    assert_eq!(mode::S_IFCHR, libc::S_IFCHR);
    assert_eq!(mode::S_IFIFO, libc::S_IFIFO);
}

#[test]
fn windows_constants() {
    assert_eq!(open_options::GENERIC_READ, Foundation::GENERIC_READ);
    assert_eq!(open_options::GENERIC_WRITE, Foundation::GENERIC_WRITE);
    assert_eq!(open_options::ERROR_INVALID_PARAMETER as u32, Foundation::ERROR_INVALID_PARAMETER);
    assert_eq!(open_options::FILE_GENERIC_WRITE, FileSystem::FILE_GENERIC_WRITE);
    assert_eq!(open_options::FILE_WRITE_DATA, FileSystem::FILE_WRITE_DATA);
    assert_eq!(open_options::FILE_SHARE_READ, FileSystem::FILE_SHARE_READ);
    assert_eq!(open_options::FILE_SHARE_WRITE, FileSystem::FILE_SHARE_WRITE);
    assert_eq!(open_options::FILE_SHARE_DELETE, FileSystem::FILE_SHARE_DELETE);
    assert_eq!(open_options::CREATE_NEW, FileSystem::CREATE_NEW);
    assert_eq!(open_options::CREATE_ALWAYS, FileSystem::CREATE_ALWAYS);
    assert_eq!(open_options::OPEN_EXISTING, FileSystem::OPEN_EXISTING);
    assert_eq!(open_options::OPEN_ALWAYS, FileSystem::OPEN_ALWAYS);
    assert_eq!(open_options::TRUNCATE_EXISTING, FileSystem::TRUNCATE_EXISTING);
    assert_eq!(open_options::FILE_FLAG_OVERLAPPED, FileSystem::FILE_FLAG_OVERLAPPED);
    assert_eq!(open_options::FILE_FLAG_OPEN_REPARSE_POINT, FileSystem::FILE_FLAG_OPEN_REPARSE_POINT);
    assert_eq!(windows::FILE_ATTRIBUTE_READONLY, FileSystem::FILE_ATTRIBUTE_READONLY);
    assert_eq!(windows::FILE_ATTRIBUTE_DIRECTORY, FileSystem::FILE_ATTRIBUTE_DIRECTORY);
    assert_eq!(windows::FILE_ATTRIBUTE_REPARSE_POINT, FileSystem::FILE_ATTRIBUTE_REPARSE_POINT);
    assert_eq!(MOVEFILE_REPLACE_EXISTING, FileSystem::MOVEFILE_REPLACE_EXISTING);
    assert_eq!(MOVEFILE_WRITE_THROUGH, FileSystem::MOVEFILE_WRITE_THROUGH);
    assert_eq!(SYMBOLIC_LINK_FLAG_DIRECTORY, FileSystem::SYMBOLIC_LINK_FLAG_DIRECTORY);
    assert_eq!(iocp::ERROR_NOT_FOUND as u32, Foundation::ERROR_NOT_FOUND);
    assert_eq!(iocp::ERROR_OPERATION_ABORTED as u32, Foundation::ERROR_OPERATION_ABORTED);
    assert_eq!(iocp::WAIT_TIMEOUT as u32, Foundation::WAIT_TIMEOUT);
}
