use karmaio::driver::helpers::io_handle::OsRawHandle;
use karmaio::driver::ops::file::{
    Close, CreateDir, Hardlink, Open, PathStat, Rename, SetPermissions, Stat, Symlink, Sync, Truncate, UnixCall,
    Unlink, WaitProcess, WindowsCall, AT_EMPTY_PATH, AT_REMOVEDIR, AT_SYMLINK_NOFOLLOW, POLLIN, STATX_BASIC_STATS,
};
use karmaio::driver::ops::request::{UringRequest, AT_FDCWD};
use karmaio::driver::ops::Completion;
use karmaio::error::{ErrorKind, IoError};
use karmaio::fs::dir_builder::{CreateDir as CreateProgress, CreateStep, DirBuilder, Phase};
use karmaio::fs::metadata::{
    linux, system_time_from_unix, unix, windows, FileType, FileTypeFlags, Metadata, Permissions, Statx,
    StatxTimestamp, SystemTime,
};
use karmaio::fs::open_options::{OpenFlags, OpenOptions};
use karmaio::fs::read_dir::{Chunk, DirEntry, EntryStep, ReadDir, CHUNK_SIZE};
use karmaio::fs::write::{WriteAll, WriteStep};

fn ok(n: u32) -> Completion {
    Completion::new(Ok(n))
}

fn os(code: i32) -> IoError {
    IoError::from_raw_os_error(code)
}

fn options(read: bool, write: bool, append: bool) -> OpenOptions {
    let mut options = OpenOptions::new();
    options.read(read).write(write).append(append);
    options
}

#[test]
fn access_follows_from_the_options() {
    let flags = OpenFlags::linux();
    assert_eq!(options(true, false, false).access_mode(&flags).unwrap(), libc::O_RDONLY);
    assert_eq!(options(false, true, false).access_mode(&flags).unwrap(), libc::O_WRONLY);
    assert_eq!(options(true, true, false).access_mode(&flags).unwrap(), libc::O_RDWR);
    assert_eq!(
        options(false, false, true).access_mode(&flags).unwrap(),
        libc::O_WRONLY | libc::O_APPEND
    );
    assert_eq!(options(true, false, true).access_mode(&flags).unwrap(), libc::O_RDWR | libc::O_APPEND);
    assert_eq!(
        options(false, false, false).access_mode(&flags).unwrap_err().raw_os_error(),
        Some(libc::EINVAL)
    );
}

#[test]
fn appending_and_writing_is_appending() {
    let flags = OpenFlags::linux();
    for read in [false, true] {
        assert_eq!(
            options(read, true, true).open_flags(&flags).unwrap(),
            options(read, false, true).open_flags(&flags).unwrap()
        );
        assert_eq!(
            options(read, true, true).windows_access_mode().unwrap(),
            options(read, false, true).windows_access_mode().unwrap()
        );
    }
}

#[test]
fn creation_follows_from_the_options() {
    let flags = OpenFlags::linux();
    let cases = [
        (false, false, false, 0),
        (true, false, false, libc::O_CREAT),
        (false, true, false, libc::O_TRUNC),
        (true, true, false, libc::O_CREAT | libc::O_TRUNC),
        (false, false, true, libc::O_CREAT | libc::O_EXCL),
        (true, true, true, libc::O_CREAT | libc::O_EXCL),
    ];
    for (create, truncate, create_new, expected) in cases {
        let mut options = options(false, true, false);
        options.create(create).truncate(truncate).create_new(create_new);
        assert_eq!(options.creation_mode(&flags).unwrap(), expected);
    }

    for setter in 0..3 {
        let mut options = options(true, false, false);
        match setter {
            0 => options.create(true),
            1 => options.truncate(true),
            _ => options.create_new(true),
        };
        assert_eq!(options.creation_mode(&flags).unwrap_err().raw_os_error(), Some(libc::EINVAL));
        assert_eq!(options.windows_creation_mode().unwrap_err().raw_os_error(), Some(87));
    }

    let mut appending = options(false, false, true);
    appending.truncate(true);
    assert!(appending.creation_mode(&flags).is_err());
    appending.create_new(true);
    assert_eq!(appending.creation_mode(&flags).unwrap(), libc::O_CREAT | libc::O_EXCL);
}

#[test]
fn custom_flags_cannot_change_the_access() {
    let flags = OpenFlags::linux();
    let mut options = options(true, false, false);
    options.custom_flags(libc::O_RDWR | libc::O_NOFOLLOW);
    assert_eq!(
        options.open_flags(&flags).unwrap(),
        libc::O_CLOEXEC | libc::O_RDONLY | libc::O_NOFOLLOW
    );
}

#[test]
fn windows_opens_follow_from_the_options() {
    let mut options = options(true, true, false);
    options.create(true);
    assert_eq!(options.windows_access_mode().unwrap(), 0xC000_0000);
    assert_eq!(options.windows_creation_mode().unwrap(), 4);
    assert_eq!(options.get_flags_and_attributes(), 0x4000_0000);
    options.create_new(true).attributes(0x80).security_qos_flags(0x0010_0000).windows_flags(0x0200_0000);
    assert_eq!(options.windows_creation_mode().unwrap(), 1);
    assert_eq!(options.get_flags_and_attributes(), 0x4230_0080);
    options.windows_access(5).share_mode(1);
    assert_eq!(options.windows_access_mode().unwrap(), 5);
    assert_eq!(options.sharing(), 1);

    let mut append = OpenOptions::new();
    append.append(true);
    assert_eq!(append.windows_access_mode().unwrap(), 0x0012_0116 & !2);
    assert_eq!(OpenOptions::new().windows_access_mode().unwrap_err().raw_os_error(), Some(87));
}

#[test]
fn common_ways_to_open() {
    let flags = OpenFlags::linux();
    assert_eq!(
        OpenOptions::for_create().open_flags(&flags).unwrap(),
        libc::O_CLOEXEC | libc::O_WRONLY | libc::O_CREAT | libc::O_TRUNC
    );
    assert_eq!(
        OpenOptions::for_create_new().open_flags(&flags).unwrap(),
        libc::O_CLOEXEC | libc::O_RDWR | libc::O_CREAT | libc::O_EXCL
    );
    assert_eq!(OpenOptions::for_open().open_flags(&flags).unwrap(), libc::O_CLOEXEC | libc::O_RDONLY);
    assert_eq!(OpenOptions::default().create_mode(), 0o666);
}

#[test]
fn opening_looks_at_the_options_first() {
    let flags = OpenFlags::linux();
    let refused = Open::new(b"a\0b".to_vec(), OpenOptions::new(), &flags);
    match refused {
        Ok(_) => panic!("no access was asked for"),
        Err(error) => assert_eq!(error.raw_os_error(), Some(libc::EINVAL)),
    }
    match Open::new(b"a\0b".to_vec(), OpenOptions::for_open(), &flags) {
        Ok(_) => panic!("the path would be cut short"),
        Err(error) => {
            assert_eq!(error.kind(), ErrorKind::InvalidInput);
            assert_eq!(error.raw_os_error(), None);
        }
    }
    let mut options = OpenOptions::for_create();
    options.mode(0o640);
    let open = match Open::new(b"a".to_vec(), options, &flags) {
        Ok(open) => open,
        Err(error) => panic!("{:?}", error),
    };
    assert_eq!(open.path(), &b"a\0".to_vec());
    let all = libc::O_CLOEXEC | libc::O_WRONLY | libc::O_CREAT | libc::O_TRUNC;
    assert_eq!(open.submit(&flags), UringRequest::OpenAt { dir: AT_FDCWD, flags: all, mode: 0o640 });
    assert_eq!(open.attempt(&flags).unwrap(), UnixCall::Open { flags: all, mode: 0o640 });
    assert_eq!(open.complete(ok(5), |fd| Ok(fd)).unwrap(), 5);

    let open = match Open::new_wide(vec![97], OpenOptions::for_open()) {
        Ok(open) => open,
        Err(error) => panic!("{:?}", error),
    };
    assert_eq!(
        open.submit_wide().unwrap(),
        WindowsCall::CreateFile { access: 0x8000_0000, share: 7, creation: 3, flags: 0x4000_0000 }
    );
    assert_eq!(open.complete_wide(ok(0), Some(9), |handle| Ok(handle)).unwrap(), 9);
    assert!(Open::new_wide(vec![97], OpenOptions::new()).is_err());
}

#[test]
fn names_are_changed_relative_to_the_working_directory() {
    let path = || b"p".to_vec();
    let dir = CreateDir::new(path(), 0o755).unwrap_or_else(|error| panic!("{:?}", error));
    assert_eq!(dir.submit(), UringRequest::MkDirAt { dir: libc::AT_FDCWD, mode: 0o755 });
    assert_eq!(dir.attempt(), UnixCall::Mkdir { mode: 0o755 });
    assert!(dir.complete(ok(0)).is_ok());

    let link = Hardlink::new(path(), path()).unwrap_or_else(|error| panic!("{:?}", error));
    assert_eq!(link.submit(), UringRequest::LinkAt { from_dir: AT_FDCWD, to_dir: AT_FDCWD });
    assert_eq!(link.attempt(), UnixCall::Link);

    let rename = Rename::new(path(), path()).unwrap_or_else(|error| panic!("{:?}", error));
    assert_eq!(rename.submit(), UringRequest::RenameAt { from_dir: AT_FDCWD, to_dir: AT_FDCWD });
    assert_eq!(Rename::new_wide(vec![1], vec![2]).submit_wide(), WindowsCall::MoveFile { flags: 9 });

    let symlink = Symlink::new(path(), path(), false).unwrap_or_else(|error| panic!("{:?}", error));
    assert_eq!(symlink.submit(), UringRequest::SymlinkAt { dir: AT_FDCWD });
    assert_eq!(
        Symlink::new_wide(vec![1], vec![2], true).submit_wide(),
        WindowsCall::CreateSymbolicLink { flags: 1 }
    );
    assert_eq!(
        Symlink::new_wide(vec![1], vec![2], false).submit_wide(),
        WindowsCall::CreateSymbolicLink { flags: 0 }
    );

    let file = Unlink::new(path(), false).unwrap_or_else(|error| panic!("{:?}", error));
    assert_eq!(file.submit(), UringRequest::UnlinkAt { dir: AT_FDCWD, flags: 0 });
    assert_eq!(file.attempt(), UnixCall::Unlink);
    let dir = Unlink::new(path(), true).unwrap_or_else(|error| panic!("{:?}", error));
    assert_eq!(dir.submit(), UringRequest::UnlinkAt { dir: AT_FDCWD, flags: AT_REMOVEDIR });
    assert_eq!(dir.attempt(), UnixCall::Rmdir);
    assert_eq!(Unlink::new_wide(vec![1], true).submit_wide(), WindowsCall::RemoveDirectory);

    for (first, second) in [(&b"a\0"[..], &b"b"[..]), (&b"a"[..], &b"\0b"[..])] {
        match Rename::new(first.to_vec(), second.to_vec()) {
            Ok(_) => panic!("a path would be cut short"),
            Err(error) => assert_eq!(error.kind(), ErrorKind::InvalidInput),
        }
    }
}

#[test]
fn open_files_are_changed_through_their_handle() {
    let sync = Sync { handle: (), sync_data: true };
    assert_eq!(sync.submit(4), UringRequest::Fsync { fd: 4, data_only: true });
    assert_eq!(sync.attempt(), UnixCall::Fsync);
    assert!(sync.complete(Completion::<()>::new(Err(os(libc::EIO)))).is_err());
    let truncate = Truncate { handle: (), size: 1 << 40 };
    assert_eq!(truncate.submit(4), UringRequest::Ftruncate { fd: 4, len: 1 << 40 });
    assert_eq!(truncate.submit_wide(), WindowsCall::SetEndOfFile { position: 1 << 40 });
    let permissions = SetPermissions { handle: (), perm: Permissions::from_mode(0o600) };
    assert_eq!(permissions.attempt(), UnixCall::Fchmod { mode: 0o600 });
    assert_eq!(Close { io_handle: OsRawHandle::Fd(3) }.submit(), Some(UringRequest::Close { fd: 3 }));
    assert_eq!(Close { io_handle: OsRawHandle::Fd(3) }.submit_wide(), None);
    assert_eq!(
        Close { io_handle: OsRawHandle::Socket(8) }.submit_wide(),
        Some(WindowsCall::CloseSocket { socket: 8 })
    );
    assert_eq!(
        Close { io_handle: OsRawHandle::Handle(8) }.submit_wide(),
        Some(WindowsCall::CloseHandle { handle: 8 })
    );
    let wait = WaitProcess { child: "child" };
    assert_eq!(wait.submit(6), UringRequest::PollAdd { fd: 6, events: POLLIN });
    assert_eq!(wait.complete(Completion::<()>::new(Err(os(libc::EIO))), |child| Ok(child)).unwrap(), "child");
}

fn time(tv_sec: i64, tv_nsec: u32) -> StatxTimestamp {
    StatxTimestamp { tv_sec, tv_nsec }
}

fn statx(mode: u16, mask: u32) -> Statx {
    Statx {
        stx_mask: mask,
        stx_blksize: 4096,
        stx_nlink: 2,
        stx_uid: 1000,
        stx_gid: 100,
        stx_mode: mode,
        stx_ino: 77,
        stx_size: 12345,
        stx_blocks: 32,
        stx_atime: time(10, 1),
        stx_btime: time(20, 2),
        stx_ctime: time(30, 3),
        stx_mtime: time(-5, 4),
        stx_rdev_major: 0x1234_5678,
        stx_rdev_minor: 0x9abc_def0,
        stx_dev_major: 8,
        stx_dev_minor: 1,
    }
}

#[test]
fn metadata_of_a_path() {
    let stat = PathStat::new(b"p".to_vec(), false).unwrap_or_else(|error| panic!("{:?}", error));
    let mask = STATX_BASIC_STATS | linux::STATX_BTIME;
    assert_eq!(
        stat.submit(),
        UringRequest::Statx { dir: AT_FDCWD, flags: AT_SYMLINK_NOFOLLOW, mask }
    );
    assert_eq!(stat.attempt(), UnixCall::Lstat);
    let follow = PathStat::new(b"p".to_vec(), true).unwrap_or_else(|error| panic!("{:?}", error));
    assert_eq!(follow.submit(), UringRequest::Statx { dir: AT_FDCWD, flags: 0, mask });
    assert_eq!(follow.attempt(), UnixCall::Stat);
    let metadata = follow.complete(ok(0), statx(0o100644, 0xfff)).unwrap();
    assert!(metadata.is_file());
    let open = Stat { handle: () };
    assert_eq!(open.submit(4), UringRequest::Statx { dir: 4, flags: AT_EMPTY_PATH, mask });
    assert!(open.complete(Completion::<()>::new(Err(os(libc::EBADF))), statx(0, 0)).is_err());
}

#[test]
fn linux_metadata() {
    let metadata = Metadata::from_statx(statx(0o040755, 0xfff));
    assert!(metadata.is_dir() && !metadata.is_file() && !metadata.is_symlink());
    assert!(metadata.file_type().is_dir());
    assert_eq!(metadata.len(), 12345);
    assert_eq!(metadata.size(), 12345);
    assert_eq!(metadata.permissions().mode(), 0o040755);
    assert_eq!(metadata.mode(), 0o040755);
    assert_eq!(metadata.accessed().unwrap(), SystemTime { secs: 10, nanos: 1 });
    assert_eq!(metadata.modified().unwrap(), SystemTime { secs: -5, nanos: 4 });
    assert_eq!(metadata.created().unwrap(), SystemTime { secs: 20, nanos: 2 });
    assert_eq!(metadata.dev(), rustix::fs::makedev(8, 1));
    assert_eq!(metadata.dev(), 0x801);
    assert_eq!(metadata.rdev(), 0x1234_59ab_cde6_78f0);
    assert_eq!(metadata.rdev(), rustix::fs::makedev(0x1234_5678, 0x9abc_def0));
    assert_eq!((metadata.ino(), metadata.nlink(), metadata.uid(), metadata.gid()), (77, 2, 1000, 100));
    assert_eq!((metadata.atime(), metadata.atime_nsec()), (10, 1));
    assert_eq!((metadata.mtime(), metadata.mtime_nsec()), (-5, 4));
    assert_eq!((metadata.ctime(), metadata.ctime_nsec()), (30, 3));
    assert_eq!((metadata.blksize(), metadata.blocks()), (4096, 32));

    let unborn = Metadata::from_statx(statx(0o120777, 0x7ff));
    assert!(unborn.is_symlink());
    assert_eq!(unborn.created().unwrap_err().kind(), ErrorKind::Unsupported);
}

#[test]
fn times_carry_over_and_stay_in_range() {
    assert_eq!(system_time_from_unix(1, 2_500_000_000).unwrap(), SystemTime { secs: 3, nanos: 500_000_000 });
    assert_eq!(
        system_time_from_unix(i64::MAX, 1_000_000_000).unwrap_err().kind(),
        ErrorKind::InvalidData
    );
    assert_eq!(unix::timespec(4, 5).unwrap(), SystemTime { secs: 4, nanos: 5 });
    let epoch = windows::FileTime { low: 0xD53E_8000, high: 0x019D_B1DE };
    assert_eq!(windows::filetime_to_u64(&epoch), 116_444_736_000_000_000);
    assert_eq!(windows::filetime_to_system_time(&epoch).unwrap(), SystemTime { secs: 0, nanos: 0 });
    let later = windows::FileTime { low: 0xD53E_8000 + 12_345_678, high: 0x019D_B1DE };
    assert_eq!(windows::filetime_to_system_time(&later).unwrap(), SystemTime { secs: 1, nanos: 234_567_800 });
    let early = windows::FileTime { low: 7, high: 0 };
    assert_eq!(
        windows::filetime_to_system_time(&early).unwrap(),
        SystemTime { secs: -11_644_473_600, nanos: 700 }
    );
}

#[test]
fn unix_metadata() {
    let stat = unix::Stat {
        st_dev: 1,
        st_ino: 2,
        st_mode: 0o100400,
        st_nlink: 3,
        st_uid: 4,
        st_gid: 5,
        st_rdev: 6,
        st_size: 7,
        st_atime: 8,
        st_atime_nsec: 9,
        st_mtime: 10,
        st_mtime_nsec: 11,
        st_ctime: 12,
        st_ctime_nsec: 13,
        birthtime: Some((14, 15)),
        st_blksize: 16,
        st_blocks: 17,
    };
    let metadata = unix::Metadata::from_stat(stat);
    assert!(metadata.is_file() && !metadata.is_dir() && !metadata.is_symlink());
    assert_eq!(metadata.len(), 7);
    assert!(metadata.permissions().readonly());
    assert_eq!(metadata.accessed().unwrap(), SystemTime { secs: 8, nanos: 9 });
    assert_eq!(metadata.modified().unwrap(), SystemTime { secs: 10, nanos: 11 });
    assert_eq!(metadata.created().unwrap(), SystemTime { secs: 14, nanos: 15 });
    assert_eq!((metadata.dev(), metadata.ino(), metadata.nlink(), metadata.rdev()), (1, 2, 3, 6));
    assert_eq!((metadata.blksize(), metadata.blocks(), metadata.ctime()), (16, 17, 12));
    let unborn = unix::Metadata::from_stat(unix::Stat { birthtime: None, ..stat });
    assert_eq!(unborn.created().unwrap_err().kind(), ErrorKind::Unsupported);

    let completion = Completion::from_blocking_result(Ok(stat));
    assert_eq!(Stat { handle: () }.complete_stat(completion).unwrap().len(), 7);
}

#[test]
fn windows_metadata() {
    let zero = windows::FileTime { low: 0, high: 0 };
    let info = windows::FileInformation {
        attributes: windows::FILE_ATTRIBUTE_REPARSE_POINT | windows::FILE_ATTRIBUTE_DIRECTORY,
        creation_time: zero,
        last_access_time: zero,
        last_write_time: windows::FileTime { low: 1, high: 2 },
        file_size_low: 3,
        file_size_high: 4,
        volume_serial_number: 5,
        number_of_links: 6,
        file_index_low: 7,
        file_index_high: 8,
    };
    assert!(windows::Metadata::needs_reparse_tag(&info));
    let tag = windows::AttributeTag { attributes: 0x400, reparse_tag: 0xA000_000C };
    let link = windows::Metadata::from_information(&info, Some(tag));
    assert!(link.is_symlink() && !link.is_dir() && !link.is_file());
    assert!(link.file_type().is_symlink_dir() && !link.file_type().is_symlink_file());
    assert_eq!(link.len(), 0x4_0000_0003);
    assert_eq!(link.last_write_time(), 0x2_0000_0001);
    assert_eq!(link.volume_serial_number(), Some(5));
    assert_eq!(link.number_of_links(), Some(6));
    assert_eq!(link.file_index(), Some(0x8_0000_0007));
    assert_eq!(link.change_time(), None);

    // Without a tag that confirms it, it is no link.
    let untagged = windows::Metadata::from_information(&info, None);
    assert!(untagged.is_dir() && !untagged.is_symlink());
    let denied = windows::AttributeTag { attributes: 0, reparse_tag: 0xA000_000C };
    assert!(windows::Metadata::from_information(&info, Some(denied)).is_dir());
    assert!(untagged.file_type().is_dir());
}

#[test]
fn file_types_are_kept() {
    let none = FileTypeFlags {
        is_symlink: false,
        is_dir: false,
        is_file: false,
        is_block_device: false,
        is_char_device: false,
        is_fifo: false,
        is_socket: false,
    };
    let found = |flags: FileTypeFlags| {
        let found = FileType::from_std(flags);
        [
            found.is_symlink(),
            found.is_dir(),
            found.is_file(),
            found.is_block_device(),
            found.is_char_device(),
            found.is_fifo(),
            found.is_socket(),
        ]
    };
    let cases = [
        FileTypeFlags { is_symlink: true, ..none },
        FileTypeFlags { is_dir: true, ..none },
        FileTypeFlags { is_file: true, ..none },
        FileTypeFlags { is_block_device: true, ..none },
        FileTypeFlags { is_char_device: true, ..none },
        FileTypeFlags { is_fifo: true, ..none },
        FileTypeFlags { is_socket: true, ..none },
    ];
    for (index, flags) in cases.into_iter().enumerate() {
        let mut expected = [false; 7];
        expected[index] = true;
        assert_eq!(found(flags), expected);
    }
    assert_eq!(found(none), [false; 7]);
}

#[test]
fn readonly_can_be_set_and_cleared() {
    let mut permissions = Permissions::from_mode(0o100666);
    assert!(!permissions.readonly());
    permissions.set_readonly(true);
    assert!(permissions.readonly());
    assert_eq!(permissions.mode(), 0o100444);
    permissions.set_readonly(false);
    assert!(!permissions.readonly());
    assert_eq!(permissions.mode(), 0o100644);
    permissions.set_mode(0o700);
    assert_eq!(permissions, Permissions::from_mode(0o700));
}

fn drive(progress: &mut CreateProgress, results: &[Result<(), i32>]) -> Vec<usize> {
    let mut levels = Vec::new();
    for result in results {
        match progress.step() {
            CreateStep::Make { level, .. } => levels.push(level),
            _ => panic!("expected a directory to make"),
        }
        progress.made(result.map_err(os));
    }
    levels
}

#[test]
fn single_directories_are_made_once() {
    let mut progress = DirBuilder::new().create(3);
    assert!(matches!(progress.step(), CreateStep::Make { level: 0, phase: Phase::Single }));
    progress.made(Err(os(libc::EEXIST)));
    match progress.step() {
        CreateStep::Done(Err(error)) => assert_eq!(error.kind(), ErrorKind::AlreadyExists),
        _ => panic!("expected a failure"),
    }
}

#[test]
fn missing_parents_are_made_outermost_first() {
    let mut builder = DirBuilder::new();
    builder.recursive(true).mode(0o700);
    assert_eq!(builder.create_mode(), 0o700);
    let mut progress = builder.create(4);
    let levels = drive(
        &mut progress,
        &[Err(libc::ENOENT), Err(libc::ENOENT), Ok(()), Ok(()), Err(libc::EEXIST)],
    );
    assert_eq!(levels, vec![0, 1, 2, 1, 0]);
    assert!(matches!(progress.step(), CreateStep::Done(Ok(()))));
}

#[test]
fn existing_targets_must_be_directories() {
    let mut builder = DirBuilder::default();
    builder.recursive(true);
    for is_dir in [true, false] {
        let mut progress = builder.create(4);
        drive(&mut progress, &[Err(libc::EEXIST)]);
        assert!(matches!(progress.step(), CreateStep::CheckDir(_)));
        progress.checked(is_dir);
        match progress.step() {
            CreateStep::Done(result) => assert_eq!(result.is_ok(), is_dir),
            _ => panic!("expected an answer"),
        }
    }
}

#[test]
fn making_directories_fails_as_the_system_does() {
    let mut builder = DirBuilder::new();
    builder.recursive(true);
    let mut progress = builder.create(2);
    drive(&mut progress, &[Err(libc::ENOENT), Err(libc::ENOENT)]);
    match progress.step() {
        CreateStep::Done(Err(error)) => assert_eq!(error.kind(), ErrorKind::NotFound),
        _ => panic!("there is no parent left"),
    }
    let mut progress = builder.create(2);
    drive(&mut progress, &[Err(libc::ENOENT), Ok(()), Err(libc::EACCES)]);
    match progress.step() {
        CreateStep::Done(Err(error)) => assert_eq!(error.kind(), ErrorKind::PermissionDenied),
        _ => panic!("expected a failure"),
    }
    assert!(matches!(builder.create(0).step(), CreateStep::Done(Ok(()))));
}

fn chunk(entries: std::ops::Range<usize>, end: bool) -> Chunk<usize, &'static str> {
    let mut chunk = Chunk::new("dir");
    for entry in entries {
        assert!(chunk.wants_more());
        chunk.push_next(Some(Ok(entry)));
    }
    if end {
        chunk.push_next(None);
    }
    chunk
}

#[test]
fn chunks_are_bounded() {
    let full = chunk(0..CHUNK_SIZE, false);
    assert!(!full.wants_more());
    assert!(!chunk(0..3, true).wants_more());
    assert!(chunk(0..3, false).wants_more());
}

#[test]
fn entries_come_in_order_and_none_is_lost() {
    let mut dir = ReadDir::new(chunk(0..2, false));
    let mut seen = Vec::new();
    for _ in 0..2 {
        match dir.poll_next_entry() {
            EntryStep::Ready(Ok(Some(entry))) => seen.push(entry),
            _ => panic!("expected an entry"),
        }
    }
    match dir.poll_next_entry() {
        EntryStep::Spawn(source) => assert_eq!(source, "dir"),
        _ => panic!("expected the next chunk to be read"),
    }
    assert!(matches!(dir.poll_next_entry(), EntryStep::Wait));
    assert!(matches!(dir.poll_next_entry(), EntryStep::Wait));
    dir.chunk_ready(chunk(2..3, true));
    match dir.poll_next_entry() {
        EntryStep::Ready(Ok(Some(entry))) => seen.push(entry),
        _ => panic!("expected an entry"),
    }
    assert_eq!(seen, vec![0, 1, 2]);
    assert!(matches!(dir.poll_next_entry(), EntryStep::Ready(Ok(None))));
    assert!(matches!(dir.poll_next_entry(), EntryStep::Ready(Ok(None))));
}

#[test]
fn failed_entries_and_chunks_are_reported() {
    let mut first: Chunk<usize, &'static str> = Chunk::new("dir");
    first.push_next(Some(Err(os(libc::EIO))));
    let mut dir = ReadDir::new(first);
    assert!(matches!(dir.poll_next_entry(), EntryStep::Ready(Err(_))));
    assert!(matches!(dir.poll_next_entry(), EntryStep::Spawn("dir")));
    dir.chunk_failed();
    assert!(matches!(dir.poll_next_entry(), EntryStep::Ready(Ok(None))));
}

#[test]
fn directory_entries_remember_what_they_are() {
    let flags = FileTypeFlags {
        is_symlink: false,
        is_dir: true,
        is_file: false,
        is_block_device: false,
        is_char_device: false,
        is_fifo: false,
        is_socket: false,
    };
    let entry = DirEntry::new("name", Some(flags));
    assert_eq!(*entry.entry(), "name");
    assert!(entry.file_type().unwrap().is_dir());
    assert_eq!(DirEntry::new("name", None).file_type(), None);
}

#[test]
fn whole_files_are_written_piece_by_piece() {
    let mut progress = WriteAll::new(10);
    assert_eq!(progress.step(), WriteStep::Write { offset: 0 });
    assert!(progress.wrote(Ok(4)).is_ok());
    assert_eq!(progress.step(), WriteStep::Write { offset: 4 });
    assert!(progress.wrote(Err(os(libc::EIO))).is_err());
    assert_eq!(progress.step(), WriteStep::Write { offset: 4 });
    assert_eq!(progress.wrote(Ok(0)).unwrap_err().kind(), ErrorKind::WriteZero);
    assert!(progress.wrote(Ok(6)).is_ok());
    assert_eq!(progress.step(), WriteStep::Close);
    assert_eq!(WriteAll::new(0).step(), WriteStep::Close);
}

#[test]
fn times_before_1970_are_kept() {
    assert_eq!(system_time_from_unix(-1, 0).unwrap(), SystemTime { secs: -1, nanos: 0 });
    assert_eq!(unix::timespec(-1, 5).unwrap(), SystemTime { secs: -1, nanos: 5 });
    assert_eq!(unix::timespec(i64::MAX, 1_000_000_000).unwrap_err().kind(), ErrorKind::InvalidData);
    // Half a second before 1970.
    let just_before = windows::FileTime { low: 0xD53E_8000 - 5_000_000, high: 0x019D_B1DE };
    assert_eq!(
        windows::filetime_to_system_time(&just_before).unwrap(),
        SystemTime { secs: -1, nanos: 500_000_000 }
    );
}

#[test]
fn whole_chunks_lose_and_repeat_no_entry() {
    let mut dir = ReadDir::new(chunk(0..CHUNK_SIZE, false));
    let mut rest = vec![chunk(2 * CHUNK_SIZE..2 * CHUNK_SIZE, true), chunk(CHUNK_SIZE..2 * CHUNK_SIZE, false)];
    let mut seen = Vec::new();
    loop {
        match dir.poll_next_entry() {
            EntryStep::Ready(Ok(Some(entry))) => seen.push(entry),
            EntryStep::Ready(Ok(None)) => break,
            EntryStep::Spawn(_) => {
                assert!(matches!(dir.poll_next_entry(), EntryStep::Wait));
                dir.chunk_ready(rest.pop().unwrap());
            }
            _ => panic!("expected an entry or the end"),
        }
    }
    assert_eq!(seen, (0..2 * CHUNK_SIZE).collect::<Vec<usize>>());
    assert!(rest.is_empty());
    assert!(matches!(dir.poll_next_entry(), EntryStep::Ready(Ok(None))));
}

#[test]
fn files_end_up_with_the_whole_contents() {
    let contents: Vec<u8> = (0..23).collect();
    for piece in [1, 5, 22, 23, 64] {
        let mut file: Vec<u8> = Vec::new();
        let mut progress = WriteAll::new(contents.len());
        while let WriteStep::Write { offset } = progress.step() {
            let start = usize::try_from(offset).unwrap();
            let count = piece.min(contents.len() - start);
            file.resize(start + count, 0);
            file[start..].copy_from_slice(&contents[start..start + count]);
            assert!(progress.wrote(Ok(count)).is_ok());
        }
        assert_eq!(file, contents);
    }
}

#[derive(Clone, Copy, Debug, PartialEq)]
enum Place {
    Missing,
    Directory,
    Occupied,
}

/// Make a directory in a tree where `places` says what is at the path and at
/// each parent, the innermost first.
fn make_in(builder: &DirBuilder, places: &mut [Place]) -> Result<(), IoError> {
    let mut progress = builder.create(places.len());
    loop {
        match progress.step() {
            CreateStep::Make { level, .. } => {
                let parent = places.get(level + 1).copied().unwrap_or(Place::Directory);
                let made = match (places[level], parent) {
                    (Place::Missing, Place::Directory) => {
                        places[level] = Place::Directory;
                        Ok(())
                    }
                    (Place::Missing, Place::Missing) => Err(os(libc::ENOENT)),
                    (Place::Missing, Place::Occupied) => Err(os(libc::ENOTDIR)),
                    _ => Err(os(libc::EEXIST)),
                };
                progress.made(made);
            }
            CreateStep::CheckDir(_) => progress.checked(places[0] == Place::Directory),
            CreateStep::Done(result) => return result,
        }
    }
}

#[test]
fn whole_trees_are_made_where_nothing_is_in_the_way() {
    let mut builder = DirBuilder::new();
    builder.recursive(true);
    for existing in 0..=5 {
        let mut places = [Place::Missing; 5];
        places[5 - existing..].fill(Place::Directory);
        assert!(make_in(&builder, &mut places).is_ok());
        assert_eq!(places, [Place::Directory; 5]);
    }

    let mut blocked = [Place::Missing, Place::Missing, Place::Occupied, Place::Directory];
    assert_eq!(make_in(&builder, &mut blocked).unwrap_err().raw_os_error(), Some(libc::ENOTDIR));
    assert_eq!(blocked, [Place::Missing, Place::Missing, Place::Occupied, Place::Directory]);

    let mut taken = [Place::Occupied, Place::Directory];
    assert_eq!(make_in(&builder, &mut taken).unwrap_err().kind(), ErrorKind::AlreadyExists);
}

#[test]
fn one_directory_needs_its_parent() {
    let builder = DirBuilder::new();
    let mut ready = [Place::Missing, Place::Directory];
    assert!(make_in(&builder, &mut ready).is_ok());
    assert_eq!(ready, [Place::Directory, Place::Directory]);
    assert_eq!(make_in(&builder, &mut ready).unwrap_err().kind(), ErrorKind::AlreadyExists);
    let mut orphan = [Place::Missing, Place::Missing];
    assert_eq!(make_in(&builder, &mut orphan).unwrap_err().kind(), ErrorKind::NotFound);
    assert_eq!(orphan, [Place::Missing, Place::Missing]);
}
