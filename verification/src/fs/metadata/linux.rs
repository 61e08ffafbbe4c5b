//! What Linux knows about files.
use crate::error::{ErrorKind, IoError};
use crate::fs::metadata::mode::{FileType, Permissions};
use crate::fs::metadata::{system_time_from_unix, SystemTime};
use vstd::prelude::*;

verus! {

/// The creation time was asked for or is known.
pub const STATX_BTIME: u32 = 0x800;

/// A time in [`Statx`].
#[derive(Clone, Copy, Debug)]
pub struct StatxTimestamp {
    pub tv_sec: i64,
    pub tv_nsec: u32,
}

/// What the system call `statx` answers.
#[derive(Clone, Copy, Debug)]
pub struct Statx {
    pub stx_mask: u32,
    pub stx_blksize: u32,
    pub stx_nlink: u32,
    pub stx_uid: u32,
    pub stx_gid: u32,
    pub stx_mode: u16,
    pub stx_ino: u64,
    pub stx_size: u64,
    pub stx_blocks: u64,
    pub stx_atime: StatxTimestamp,
    pub stx_btime: StatxTimestamp,
    pub stx_ctime: StatxTimestamp,
    pub stx_mtime: StatxTimestamp,
    pub stx_rdev_major: u32,
    pub stx_rdev_minor: u32,
    pub stx_dev_major: u32,
    pub stx_dev_minor: u32,
}

/// A device number, made of its major and its minor number.
pub open spec fn spec_makedev(major: u32, minor: u32) -> u64 {
    ((major as u64 & 0xffff_f000) << 32) | ((major as u64 & 0xfff) << 8) | ((minor as u64 & 0xffff_ff00) << 12) | (
    minor as u64 & 0xff)
}

/// Calls [`rustix::fs::makedev`].
///
/// The claim is that on Linux the device number holds the low twelve bits of
/// the major number above the low eight bits of the minor number, then the
/// rest of the minor number, then the rest of the major number.
#[verifier::external_body]
fn makedev(major: u32, minor: u32) -> (device: u64)
    ensures
        device == spec_makedev(major, minor),
{
    rustix::fs::makedev(major, minor) as u64
}

/// Different devices have different numbers.
pub proof fn law_device_numbers_differ(major1: u32, minor1: u32, major2: u32, minor2: u32)
    ensures
        spec_makedev(major1, minor1) == spec_makedev(major2, minor2) <==> major1 == major2 && minor1 == minor2,
{
    assert((((major1 as u64 & 0xffff_f000) << 32) | ((major1 as u64 & 0xfff) << 8) | ((minor1 as u64 & 0xffff_ff00)
        << 12) | (minor1 as u64 & 0xff)) == (((major2 as u64 & 0xffff_f000) << 32) | ((major2 as u64 & 0xfff) << 8)
        | ((minor2 as u64 & 0xffff_ff00) << 12) | (minor2 as u64 & 0xff)) <==> major1 == major2 && minor1 == minor2)
        by (bit_vector);
}

/// What is known about a file.
#[derive(Clone, Debug)]
pub struct Metadata {
    statx: Statx,
}

/// The time of a timestamp. It may lie before 1970.
fn timestamp(ts: StatxTimestamp) -> (time: Result<SystemTime, IoError>)
    ensures
        crate::fs::metadata::time_of(ts.tv_sec, ts.tv_nsec, time),
{
    system_time_from_unix(ts.tv_sec, ts.tv_nsec)
}

impl View for Metadata {
    type V = Statx;

    closed spec fn view(&self) -> Statx {
        self.statx
    }
}

impl Metadata {
    /// What `statx` answered.
    pub fn from_statx(statx: Statx) -> (metadata: Self)
        ensures
            metadata@ == statx,
    {
        Metadata { statx }
    }

    /// What the file is.
    pub fn file_type(&self) -> (file_type: FileType)
        ensures
            file_type.spec_mode() == self@.stx_mode,
    {
        FileType::from_mode(self.statx.stx_mode as u32)
    }

    /// Whether the file is a directory.
    pub fn is_dir(&self) -> (is: bool)
        ensures
            is == (self@.stx_mode & 0o170000 == 0o040000),
    {
        self.file_type().is_dir()
    }

    /// Whether the file is a regular file.
    pub fn is_file(&self) -> (is: bool)
        ensures
            is == (self@.stx_mode & 0o170000 == 0o100000),
    {
        self.file_type().is_file()
    }

    /// Whether the file is a symbolic link.
    pub fn is_symlink(&self) -> (is: bool)
        ensures
            is == (self@.stx_mode & 0o170000 == 0o120000),
    {
        self.file_type().is_symlink()
    }

    /// The size in bytes.
    pub fn len(&self) -> (len: u64)
        ensures
            len == self@.stx_size,
    {
        self.statx.stx_size
    }

    /// Who may do what with the file.
    pub fn permissions(&self) -> (permissions: Permissions)
        ensures
            permissions.spec_mode() == self@.stx_mode,
    {
        Permissions::from_mode(self.statx.stx_mode as u32)
    }

    /// When the file was last changed.
    pub fn modified(&self) -> (time: Result<SystemTime, IoError>)
        ensures
            crate::fs::metadata::time_of(self@.stx_mtime.tv_sec, self@.stx_mtime.tv_nsec, time),
    {
        timestamp(self.statx.stx_mtime)
    }

    /// When the file was last read.
    pub fn accessed(&self) -> (time: Result<SystemTime, IoError>)
        ensures
            crate::fs::metadata::time_of(self@.stx_atime.tv_sec, self@.stx_atime.tv_nsec, time),
    {
        timestamp(self.statx.stx_atime)
    }

    /// When the file was made, where the filesystem knows it.
    pub fn created(&self) -> (time: Result<SystemTime, IoError>)
        ensures
            if self@.stx_mask & STATX_BTIME == 0 {
                time == Err::<SystemTime, IoError>(
                    IoError::Custom {
                        kind: ErrorKind::Unsupported,
                        message: "creation time is not available for the filesystem",
                    },
                )
            } else {
                crate::fs::metadata::time_of(self@.stx_btime.tv_sec, self@.stx_btime.tv_nsec, time)
            },
    {
        if self.statx.stx_mask & STATX_BTIME == 0 {
            return Err(
                IoError::new(ErrorKind::Unsupported, "creation time is not available for the filesystem"),
            );
        }
        timestamp(self.statx.stx_btime)
    }

    /// The device that holds the file.
    pub fn dev(&self) -> (dev: u64)
        ensures
            dev == spec_makedev(self@.stx_dev_major, self@.stx_dev_minor),
    {
        makedev(self.statx.stx_dev_major, self.statx.stx_dev_minor)
    }

    /// The inode number.
    pub fn ino(&self) -> (ino: u64)
        ensures
            ino == self@.stx_ino,
    {
        self.statx.stx_ino
    }

    /// The mode.
    pub fn mode(&self) -> (mode: u32)
        ensures
            mode == self@.stx_mode,
    {
        self.statx.stx_mode as u32
    }

    /// How many names the file has.
    pub fn nlink(&self) -> (nlink: u64)
        ensures
            nlink == self@.stx_nlink,
    {
        self.statx.stx_nlink as u64
    }

    /// The owner.
    pub fn uid(&self) -> (uid: u32)
        ensures
            uid == self@.stx_uid,
    {
        self.statx.stx_uid
    }

    /// The group.
    pub fn gid(&self) -> (gid: u32)
        ensures
            gid == self@.stx_gid,
    {
        self.statx.stx_gid
    }

    /// The device that the file is.
    pub fn rdev(&self) -> (rdev: u64)
        ensures
            rdev == spec_makedev(self@.stx_rdev_major, self@.stx_rdev_minor),
    {
        makedev(self.statx.stx_rdev_major, self.statx.stx_rdev_minor)
    }

    /// The size in bytes.
    pub fn size(&self) -> (size: u64)
        ensures
            size == self@.stx_size,
    {
        self.statx.stx_size
    }

    /// When the file was last read: seconds.
    pub fn atime(&self) -> (secs: i64)
        ensures
            secs == self@.stx_atime.tv_sec,
    {
        self.statx.stx_atime.tv_sec
    }

    /// When the file was last read: nanoseconds.
    pub fn atime_nsec(&self) -> (nanos: i64)
        ensures
            nanos == self@.stx_atime.tv_nsec,
    {
        self.statx.stx_atime.tv_nsec as i64
    }

    /// When the file was last changed: seconds.
    pub fn mtime(&self) -> (secs: i64)
        ensures
            secs == self@.stx_mtime.tv_sec,
    {
        self.statx.stx_mtime.tv_sec
    }

    /// When the file was last changed: nanoseconds.
    pub fn mtime_nsec(&self) -> (nanos: i64)
        ensures
            nanos == self@.stx_mtime.tv_nsec,
    {
        self.statx.stx_mtime.tv_nsec as i64
    }

    /// When the file's metadata was last changed: seconds.
    pub fn ctime(&self) -> (secs: i64)
        ensures
            secs == self@.stx_ctime.tv_sec,
    {
        self.statx.stx_ctime.tv_sec
    }

    /// When the file's metadata was last changed: nanoseconds.
    pub fn ctime_nsec(&self) -> (nanos: i64)
        ensures
            nanos == self@.stx_ctime.tv_nsec,
    {
        self.statx.stx_ctime.tv_nsec as i64
    }

    /// The preferred size of a transfer.
    pub fn blksize(&self) -> (blksize: u64)
        ensures
            blksize == self@.stx_blksize,
    {
        self.statx.stx_blksize as u64
    }

    /// How many blocks hold the file.
    pub fn blocks(&self) -> (blocks: u64)
        ensures
            blocks == self@.stx_blocks,
    {
        self.statx.stx_blocks
    }
}

/// What is known of a file is what the kernel answered: its size, what it is, who may
/// do what with it, and its times, each from the answer's own field. When it was made
/// is known only where the answer says so.
pub proof fn law_metadata_is_what_the_kernel_answered(
    statx: Statx,
    metadata: Metadata,
    len: u64,
    permissions: Permissions,
    file_type: FileType,
    modified: Result<SystemTime, IoError>,
    accessed: Result<SystemTime, IoError>,
    created: Result<SystemTime, IoError>,
)
    requires
        call_ensures(Metadata::from_statx, (statx,), metadata),
        call_ensures(Metadata::len, (&metadata,), len),
        call_ensures(Metadata::permissions, (&metadata,), permissions),
        call_ensures(Metadata::file_type, (&metadata,), file_type),
        call_ensures(Metadata::modified, (&metadata,), modified),
        call_ensures(Metadata::accessed, (&metadata,), accessed),
        call_ensures(Metadata::created, (&metadata,), created),
        statx.stx_mtime.tv_nsec < 1_000_000_000,
        statx.stx_atime.tv_nsec < 1_000_000_000,
        statx.stx_btime.tv_nsec < 1_000_000_000,
    ensures
        len == statx.stx_size,
        permissions.spec_mode() == statx.stx_mode,
        file_type.spec_mode() == statx.stx_mode,
        modified == Ok::<SystemTime, IoError>(
            SystemTime { secs: statx.stx_mtime.tv_sec, nanos: statx.stx_mtime.tv_nsec },
        ),
        accessed == Ok::<SystemTime, IoError>(
            SystemTime { secs: statx.stx_atime.tv_sec, nanos: statx.stx_atime.tv_nsec },
        ),
        statx.stx_mask & 0x800 != 0 ==> created == Ok::<SystemTime, IoError>(
            SystemTime { secs: statx.stx_btime.tv_sec, nanos: statx.stx_btime.tv_nsec },
        ),
        statx.stx_mask & 0x800 == 0 ==> (created matches Err(error) && error.spec_kind() == ErrorKind::Unsupported),
{
    crate::fs::metadata::law_timestamp_is_exact(statx.stx_mtime.tv_sec, statx.stx_mtime.tv_nsec, modified);
    crate::fs::metadata::law_timestamp_is_exact(statx.stx_atime.tv_sec, statx.stx_atime.tv_nsec, accessed);
    if statx.stx_mask & 0x800 != 0 {
        crate::fs::metadata::law_timestamp_is_exact(statx.stx_btime.tv_sec, statx.stx_btime.tv_nsec, created);
    }
}

} // verus!
