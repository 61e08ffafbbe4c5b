//! What Unix systems other than Linux know about files.
use crate::error::{ErrorKind, IoError};
use crate::fs::metadata::mode::{FileType, Permissions};
use crate::fs::metadata::{system_time_from_unix, SystemTime};
use vstd::prelude::*;

verus! {

/// What the system call `fstat` answers.
#[derive(Clone, Copy, Debug)]
pub struct Stat {
    pub st_dev: u64,
    pub st_ino: u64,
    pub st_mode: u32,
    pub st_nlink: u64,
    pub st_uid: u32,
    pub st_gid: u32,
    pub st_rdev: u64,
    pub st_size: i64,
    pub st_atime: i64,
    pub st_atime_nsec: i64,
    pub st_mtime: i64,
    pub st_mtime_nsec: i64,
    pub st_ctime: i64,
    pub st_ctime_nsec: i64,
    /// When the file was made, on systems that tell it.
    pub birthtime: Option<(i64, i64)>,
    pub st_blksize: i64,
    pub st_blocks: i64,
}

/// The time of a timestamp. It may lie before 1970.
pub fn timespec(secs: i64, nsecs: i64) -> (time: Result<SystemTime, IoError>)
    ensures
        crate::fs::metadata::time_of(secs, nsecs as u32, time),
{
    system_time_from_unix(secs, #[verifier::truncate] (nsecs as u32))
}

/// What is known about a file.
#[derive(Clone, Debug)]
pub struct Metadata {
    stat: Stat,
}

impl View for Metadata {
    type V = Stat;

    closed spec fn view(&self) -> Stat {
        self.stat
    }
}

impl Metadata {
    /// What `fstat` answered.
    pub fn from_stat(stat: Stat) -> (metadata: Self)
        ensures
            metadata@ == stat,
    {
        Metadata { stat }
    }

    /// What the file is.
    pub fn file_type(&self) -> (file_type: FileType)
        ensures
            file_type.spec_mode() == self@.st_mode,
    {
        FileType::from_mode(self.stat.st_mode)
    }

    /// Whether the file is a directory.
    pub fn is_dir(&self) -> (is: bool)
        ensures
            is == (self@.st_mode & 0o170000 == 0o040000),
    {
        self.file_type().is_dir()
    }

    /// Whether the file is a regular file.
    pub fn is_file(&self) -> (is: bool)
        ensures
            is == (self@.st_mode & 0o170000 == 0o100000),
    {
        self.file_type().is_file()
    }

    /// Whether the file is a symbolic link.
    pub fn is_symlink(&self) -> (is: bool)
        ensures
            is == (self@.st_mode & 0o170000 == 0o120000),
    {
        self.file_type().is_symlink()
    }

    /// The size in bytes.
    pub fn len(&self) -> (len: u64)
        ensures
            len == self@.st_size as u64,
    {
        self.stat.st_size as u64
    }

    /// Who may do what with the file.
    pub fn permissions(&self) -> (permissions: Permissions)
        ensures
            permissions.spec_mode() == self@.st_mode,
    {
        Permissions::from_mode(self.stat.st_mode)
    }

    /// When the file was last changed.
    pub fn modified(&self) -> (time: Result<SystemTime, IoError>)
        ensures
            crate::fs::metadata::time_of(self@.st_mtime, self@.st_mtime_nsec as u32, time),
    {
        timespec(self.stat.st_mtime, self.stat.st_mtime_nsec)
    }

    /// When the file was last read.
    pub fn accessed(&self) -> (time: Result<SystemTime, IoError>)
        ensures
            crate::fs::metadata::time_of(self@.st_atime, self@.st_atime_nsec as u32, time),
    {
        timespec(self.stat.st_atime, self.stat.st_atime_nsec)
    }

    /// When the file was made, where the system tells it.
    pub fn created(&self) -> (time: Result<SystemTime, IoError>)
        ensures
            match self@.birthtime {
                Some((secs, nsecs)) => crate::fs::metadata::time_of(secs, nsecs as u32, time),
                None => time == Err::<SystemTime, IoError>(
                    IoError::Custom {
                        kind: ErrorKind::Unsupported,
                        message: "creation time is not available on this platform currently",
                    },
                ),
            },
    {
        match self.stat.birthtime {
            Some((secs, nsecs)) => timespec(secs, nsecs),
            None => Err(
                IoError::new(
                    ErrorKind::Unsupported,
                    "creation time is not available on this platform currently",
                ),
            ),
        }
    }

    /// The device that holds the file.
    pub fn dev(&self) -> (dev: u64)
        ensures
            dev == self@.st_dev,
    {
        self.stat.st_dev
    }

    /// The inode number.
    pub fn ino(&self) -> (ino: u64)
        ensures
            ino == self@.st_ino,
    {
        self.stat.st_ino
    }

    /// The mode.
    pub fn mode(&self) -> (mode: u32)
        ensures
            mode == self@.st_mode,
    {
        self.stat.st_mode
    }

    /// How many names the file has.
    pub fn nlink(&self) -> (nlink: u64)
        ensures
            nlink == self@.st_nlink,
    {
        self.stat.st_nlink
    }

    /// The owner.
    pub fn uid(&self) -> (uid: u32)
        ensures
            uid == self@.st_uid,
    {
        self.stat.st_uid
    }

    /// The group.
    pub fn gid(&self) -> (gid: u32)
        ensures
            gid == self@.st_gid,
    {
        self.stat.st_gid
    }

    /// The device that the file is.
    pub fn rdev(&self) -> (rdev: u64)
        ensures
            rdev == self@.st_rdev,
    {
        self.stat.st_rdev
    }

    /// The size in bytes.
    pub fn size(&self) -> (size: u64)
        ensures
            size == self@.st_size as u64,
    {
        self.stat.st_size as u64
    }

    /// When the file was last read: seconds.
    pub fn atime(&self) -> (atime: i64)
        ensures
            atime == self@.st_atime,
    {
        self.stat.st_atime
    }

    /// When the file was last read: nanoseconds.
    pub fn atime_nsec(&self) -> (atime_nsec: i64)
        ensures
            atime_nsec == self@.st_atime_nsec,
    {
        self.stat.st_atime_nsec
    }

    /// When the file was last changed: seconds.
    pub fn mtime(&self) -> (mtime: i64)
        ensures
            mtime == self@.st_mtime,
    {
        self.stat.st_mtime
    }

    /// When the file was last changed: nanoseconds.
    pub fn mtime_nsec(&self) -> (mtime_nsec: i64)
        ensures
            mtime_nsec == self@.st_mtime_nsec,
    {
        self.stat.st_mtime_nsec
    }

    /// When the file's metadata was last changed: seconds.
    pub fn ctime(&self) -> (ctime: i64)
        ensures
            ctime == self@.st_ctime,
    {
        self.stat.st_ctime
    }

    /// When the file's metadata was last changed: nanoseconds.
    pub fn ctime_nsec(&self) -> (ctime_nsec: i64)
        ensures
            ctime_nsec == self@.st_ctime_nsec,
    {
        self.stat.st_ctime_nsec
    }

    /// The preferred size of a transfer.
    pub fn blksize(&self) -> (blksize: u64)
        ensures
            blksize == self@.st_blksize as u64,
    {
        self.stat.st_blksize as u64
    }

    /// How many blocks hold the file.
    pub fn blocks(&self) -> (blocks: u64)
        ensures
            blocks == self@.st_blocks as u64,
    {
        self.stat.st_blocks as u64
    }
}

/// What is known of a file is what the system answered: its size, what it is, who may
/// do what with it, and its times, each from the answer's own field. When it was made
/// is known only where the system tells it.
pub proof fn law_metadata_is_what_the_system_answered(
    stat: Stat,
    metadata: Metadata,
    len: u64,
    permissions: Permissions,
    file_type: FileType,
    modified: Result<SystemTime, IoError>,
    accessed: Result<SystemTime, IoError>,
    created: Result<SystemTime, IoError>,
)
    requires
        call_ensures(Metadata::from_stat, (stat,), metadata),
        call_ensures(Metadata::len, (&metadata,), len),
        call_ensures(Metadata::permissions, (&metadata,), permissions),
        call_ensures(Metadata::file_type, (&metadata,), file_type),
        call_ensures(Metadata::modified, (&metadata,), modified),
        call_ensures(Metadata::accessed, (&metadata,), accessed),
        call_ensures(Metadata::created, (&metadata,), created),
        0 <= stat.st_size,
        0 <= stat.st_mtime_nsec < 1_000_000_000,
        0 <= stat.st_atime_nsec < 1_000_000_000,
        stat.birthtime matches Some((_, nsecs)) ==> 0 <= nsecs < 1_000_000_000,
    ensures
        len == stat.st_size,
        permissions.spec_mode() == stat.st_mode,
        file_type.spec_mode() == stat.st_mode,
        modified matches Ok(time) && time.secs == stat.st_mtime && time.nanos == stat.st_mtime_nsec,
        accessed matches Ok(time) && time.secs == stat.st_atime && time.nanos == stat.st_atime_nsec,
        stat.birthtime matches Some((secs, nsecs)) ==> (created matches Ok(time) && time.secs == secs && time.nanos
            == nsecs),
        stat.birthtime is None ==> (created matches Err(error) && error.spec_kind() == ErrorKind::Unsupported),
{
    crate::fs::metadata::law_timestamp_is_exact(stat.st_mtime, stat.st_mtime_nsec as u32, modified);
    crate::fs::metadata::law_timestamp_is_exact(stat.st_atime, stat.st_atime_nsec as u32, accessed);
    if let Some((secs, nsecs)) = stat.birthtime {
        crate::fs::metadata::law_timestamp_is_exact(secs, nsecs as u32, created);
    }
}

} // verus!
