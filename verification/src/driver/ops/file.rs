//! Operations on files and on the names of files.
use crate::driver::helpers::cstr::{cstr, wide};
use crate::driver::helpers::io_handle::OsRawHandle;
use crate::driver::ops::connection::finish_unit;
use crate::driver::ops::request::{UringRequest, AT_FDCWD};
use crate::driver::ops::Completion;
use crate::error::IoError;
use crate::fs::metadata::linux::{Metadata, Statx, STATX_BTIME};
use crate::fs::metadata::{unix, windows, Permissions};
use crate::fs::open_options::{OpenFlags, OpenOptions};
use vstd::prelude::*;

verus! {

/// Ask about the descriptor itself.
pub const AT_EMPTY_PATH: i32 = 0x1000;

/// Ask about a link itself.
pub const AT_SYMLINK_NOFOLLOW: i32 = 0x100;

/// Remove a directory.
pub const AT_REMOVEDIR: i32 = 0x200;

/// Ask for everything that `stat` knows.
pub const STATX_BASIC_STATS: u32 = 0x7ff;

/// Wait for something to read.
pub const POLLIN: u32 = 1;

/// Windows: replace the target of a move.
pub const MOVEFILE_REPLACE_EXISTING: u32 = 1;

/// Windows: return from a move only when it is on disk.
pub const MOVEFILE_WRITE_THROUGH: u32 = 8;

/// Windows: the link names a directory.
pub const SYMBOLIC_LINK_FLAG_DIRECTORY: u32 = 1;

/// A system call that a Unix system is asked to make in the pool.
#[derive(Clone, Copy, Debug, PartialEq, Eq, Structural)]
pub enum UnixCall {
    Open { flags: i32, mode: u32 },
    Close { fd: i32 },
    Mkdir { mode: u32 },
    Link,
    Rename,
    Symlink,
    Rmdir,
    Unlink,
    Fsync,
    Ftruncate { size: u64 },
    Fchmod { mode: u32 },
    Fstat,
    Stat,
    Lstat,
}

/// A system call that Windows is asked to make.
#[derive(Clone, Copy, Debug, PartialEq, Eq, Structural)]
pub enum WindowsCall {
    CreateFile { access: u32, share: u32, creation: u32, flags: u32 },
    CloseHandle { handle: usize },
    CloseSocket { socket: usize },
    CreateDirectory,
    CreateHardLink,
    MoveFile { flags: u32 },
    CreateSymbolicLink { flags: u32 },
    RemoveDirectory,
    DeleteFile,
    FlushFileBuffers,
    /// Move to this position, then end the file there.
    SetEndOfFile { position: i64 },
    /// Set the attributes and leave the times alone.
    SetAttributes { attributes: u32 },
}

/// Open a path.
pub struct Open<P> {
    path: P,
    options: OpenOptions,
}

impl<P> Open<P> {
    /// The path, ended by a zero.
    pub closed spec fn spec_path(&self) -> P {
        self.path
    }

    pub closed spec fn spec_options(&self) -> crate::fs::open_options::OpenRequest {
        self.options@
    }

    /// The path, ended by a zero.
    pub fn path(&self) -> (path: &P)
        ensures
            *path == self.spec_path(),
    {
        &self.path
    }
}

/// Why a path cannot be opened with these options, if it cannot: no access was
/// asked for, or access that does not suit what is to become of the file, or
/// the path would be cut short.
pub open spec fn open_refused(
    path: Seq<u8>,
    access: Result<i32, IoError>,
    creation: Result<i32, IoError>,
    error: IoError,
) -> bool {
    match (access, creation) {
        (Err(refused), _) => error == refused,
        (Ok(_), Err(refused)) => error == refused,
        (Ok(_), Ok(_)) => path.contains(0u8) && error == crate::driver::helpers::cstr::nul_inside(),
    }
}

impl Open<Vec<u8>> {
    /// Begin to open a path. The options are looked at here, because a request
    /// to the kernel can no longer be refused.
    pub fn new(path: Vec<u8>, options: OpenOptions, flags: &OpenFlags) -> (op: Result<Self, IoError>)
        ensures
            match op {
                Ok(op) => {
                    &&& op.spec_path()@ == path@.push(0u8)
                    &&& !path@.contains(0u8)
                    &&& op.spec_options() == options@
                    &&& options@.spec_open_flags(*flags) is Ok
                },
                Err(error) => open_refused(
                    path@,
                    options@.spec_access_mode(*flags),
                    options@.spec_creation_mode(*flags),
                    error,
                ),
            },
    {
        if let Err(error) = options.access_mode(flags) {
            return Err(error);
        }
        if let Err(error) = options.creation_mode(flags) {
            return Err(error);
        }
        match cstr(path) {
            Ok(path) => Ok(Open { path, options }),
            Err(error) => Err(error),
        }
    }

    /// What to ask of io_uring.
    pub fn submit(&self, flags: &OpenFlags) -> (request: UringRequest)
        requires
            self.spec_options().spec_open_flags(*flags) is Ok,
        ensures
            request == (UringRequest::OpenAt {
                dir: AT_FDCWD,
                flags: self.spec_options().spec_open_flags(*flags)->Ok_0,
                mode: self.spec_options().mode,
            }),
    {
        let all = self.options.open_flags(flags).unwrap();
        UringRequest::OpenAt { dir: AT_FDCWD, flags: all, mode: self.options.create_mode() }
    }

    /// The system call on other Unix systems.
    pub fn attempt(&self, flags: &OpenFlags) -> (call: Result<UnixCall, IoError>)
        ensures
            call == (match self.spec_options().spec_open_flags(*flags) {
                Ok(flags) => Ok(UnixCall::Open { flags, mode: self.spec_options().mode }),
                Err(error) => Err(error),
            }),
    {
        match self.options.open_flags(flags) {
            Ok(flags) => Ok(UnixCall::Open { flags, mode: self.options.create_mode() }),
            Err(error) => Err(error),
        }
    }

    /// Take the completion: the descriptor of the file, which is attached to
    /// the driver.
    pub fn complete<F, C, A: FnOnce(i32) -> Result<F, IoError>>(self, completion: Completion<C>, attach: A) -> (file: Result<
        F,
        IoError,
    >)
        requires
            completion.result matches Ok(fd) ==> call_requires(attach, (fd as i32,)),
        ensures
            match completion.result {
                Ok(fd) => call_ensures(attach, (fd as i32,), file),
                Err(error) => file == Err::<F, IoError>(error),
            },
    {
        match completion.result {
            Ok(fd) => attach(fd as i32),
            Err(error) => Err(error),
        }
    }
}

impl Open<Vec<u16>> {
    /// Begin to open a path on Windows.
    pub fn new_wide(path: Vec<u16>, options: OpenOptions) -> (op: Result<Self, IoError>)
        ensures
            match op {
                Ok(op) => {
                    &&& op.spec_path()@ == path@.push(0u16)
                    &&& op.spec_options() == options@
                    &&& options@.spec_windows_access_mode() is Ok
                    &&& options@.spec_windows_creation_mode() is Ok
                },
                Err(error) => match options@.spec_windows_access_mode() {
                    Err(refused) => error == refused,
                    Ok(_) => options@.spec_windows_creation_mode() == Err::<u32, IoError>(error),
                },
            },
    {
        if let Err(error) = options.windows_access_mode() {
            return Err(error);
        }
        if let Err(error) = options.windows_creation_mode() {
            return Err(error);
        }
        Ok(Open { path: wide(path), options })
    }

    /// The system call on Windows, which is made at once.
    pub fn submit_wide(&self) -> (call: Result<WindowsCall, IoError>)
        ensures
            call == (match (
                self.spec_options().spec_windows_access_mode(),
                self.spec_options().spec_windows_creation_mode(),
            ) {
                (Ok(access), Ok(creation)) => Ok(
                    WindowsCall::CreateFile {
                        access,
                        share: self.spec_options().share_mode,
                        creation,
                        flags: self.spec_options().spec_flags_and_attributes(),
                    },
                ),
                (Err(error), _) => Err(error),
                (Ok(_), Err(error)) => Err(error),
            }),
    {
        let access = match self.options.windows_access_mode() {
            Ok(access) => access,
            Err(error) => {
                return Err(error);
            },
        };
        let creation = match self.options.windows_creation_mode() {
            Ok(creation) => creation,
            Err(error) => {
                return Err(error);
            },
        };
        Ok(
            WindowsCall::CreateFile {
                access,
                share: self.options.sharing(),
                creation,
                flags: self.options.get_flags_and_attributes(),
            },
        )
    }

    /// Take the completion of opening a file on Windows. `handle` is what was
    /// opened.
    pub fn complete_wide<F, C, A: FnOnce(usize) -> Result<F, IoError>>(
        self,
        completion: Completion<C>,
        handle: Option<usize>,
        attach: A,
    ) -> (file: Result<F, IoError>)
        requires
            completion.result is Ok ==> handle is Some && call_requires(attach, (handle->0,)),
        ensures
            match completion.result {
                Ok(_) => call_ensures(attach, (handle->0,), file),
                Err(error) => file == Err::<F, IoError>(error),
            },
    {
        match completion.result {
            Ok(_) => attach(handle.unwrap()),
            Err(error) => Err(error),
        }
    }
}

/// Close a resource.
pub struct Close {
    pub io_handle: OsRawHandle,
}

impl Close {
    /// What to ask of io_uring. Only a descriptor can be closed this way.
    pub fn submit(&self) -> (request: Option<UringRequest>)
        ensures
            request == (match self.io_handle {
                OsRawHandle::Fd(fd) => Some(UringRequest::Close { fd }),
                _ => None,
            }),
    {
        match self.io_handle {
            OsRawHandle::Fd(fd) => Some(UringRequest::Close { fd }),
            _ => None,
        }
    }

    /// The system call on other Unix systems.
    pub fn attempt(&self) -> (call: Option<UnixCall>)
        ensures
            call == (match self.io_handle {
                OsRawHandle::Fd(fd) => Some(UnixCall::Close { fd }),
                _ => None,
            }),
    {
        match self.io_handle {
            OsRawHandle::Fd(fd) => Some(UnixCall::Close { fd }),
            _ => None,
        }
    }

    /// The system call on Windows, which is made in the pool. Sockets and other
    /// handles are closed differently.
    pub fn submit_wide(&self) -> (call: Option<WindowsCall>)
        ensures
            call == (match self.io_handle {
                OsRawHandle::Socket(socket) => Some(WindowsCall::CloseSocket { socket }),
                OsRawHandle::Handle(handle) => Some(WindowsCall::CloseHandle { handle }),
                OsRawHandle::Fd(_) => None,
            }),
    {
        match self.io_handle {
            OsRawHandle::Socket(socket) => Some(WindowsCall::CloseSocket { socket }),
            OsRawHandle::Handle(handle) => Some(WindowsCall::CloseHandle { handle }),
            OsRawHandle::Fd(_) => None,
        }
    }

    /// Take the completion.
    pub fn complete<C>(self, completion: Completion<C>) -> (result: Result<(), IoError>)
        ensures
            result == crate::driver::ops::connection::spec_unit(completion),
    {
        finish_unit(completion)
    }
}

/// Make a directory.
pub struct CreateDir<P> {
    /// The path, ended by a zero.
    pub path: P,
    /// Unix: the mode of the directory.
    pub mode: u32,
}

impl CreateDir<Vec<u8>> {
    pub fn new(path: Vec<u8>, mode: u32) -> (op: Result<Self, IoError>)
        ensures
            op is Err <==> path@.contains(0u8),
            op matches Err(error) ==> error == crate::driver::helpers::cstr::nul_inside(),
            op matches Ok(op) ==> op.path@ == path@.push(0u8),
            op matches Ok(op) ==> op.mode == mode,
    {
        match cstr(path) {
            Ok(path) => Ok(CreateDir { path, mode }),
            Err(error) => Err(error),
        }
    }

    /// What to ask of io_uring.
    pub fn submit(&self) -> (call: UringRequest)
        ensures
            call == (UringRequest::MkDirAt { dir: AT_FDCWD, mode: self.mode }),
    {
        UringRequest::MkDirAt { dir: AT_FDCWD, mode: self.mode }
    }

    /// The system call on other Unix systems.
    pub fn attempt(&self) -> (call: UnixCall)
        ensures
            call == (UnixCall::Mkdir { mode: self.mode }),
    {
        UnixCall::Mkdir { mode: self.mode }
    }
}

impl CreateDir<Vec<u16>> {
    pub fn new_wide(path: Vec<u16>, mode: u32) -> (op: Self)
        ensures
            op.path@ == path@.push(0u16),
            op.mode == mode,
    {
        CreateDir { path: wide(path), mode }
    }

    /// The system call on Windows, which is made in the pool.
    pub fn submit_wide(&self) -> (call: WindowsCall)
        ensures
            call == WindowsCall::CreateDirectory,
    {
        WindowsCall::CreateDirectory
    }
}

impl<P> CreateDir<P> {
    /// Take the completion.
    pub fn complete<C>(self, completion: Completion<C>) -> (result: Result<(), IoError>)
        ensures
            result == crate::driver::ops::connection::spec_unit(completion),
    {
        finish_unit(completion)
    }
}

/// Give a file a second name.
pub struct Hardlink<P> {
    /// A path, ended by a zero.
    pub original: P,
    /// A path, ended by a zero.
    pub link: P,
}

impl Hardlink<Vec<u8>> {
    pub fn new(original: Vec<u8>, link: Vec<u8>) -> (op: Result<Self, IoError>)
        ensures
            op is Err <==> original@.contains(0u8) || link@.contains(0u8),
            op matches Err(error) ==> error == crate::driver::helpers::cstr::nul_inside(),
            op matches Ok(op) ==> op.original@ == original@.push(0u8) && op.link@ == link@.push(0u8),
    {
        let original = match cstr(original) {
            Ok(original) => original,
            Err(error) => {
                return Err(error);
            },
        };
        match cstr(link) {
            Ok(link) => Ok(Hardlink { original, link }),
            Err(error) => Err(error),
        }
    }

    /// What to ask of io_uring.
    pub fn submit(&self) -> (call: UringRequest)
        ensures
            call == (UringRequest::LinkAt { from_dir: AT_FDCWD, to_dir: AT_FDCWD }),
    {
        UringRequest::LinkAt { from_dir: AT_FDCWD, to_dir: AT_FDCWD }
    }

    /// The system call on other Unix systems.
    pub fn attempt(&self) -> (call: UnixCall)
        ensures
            call == UnixCall::Link,
    {
        UnixCall::Link
    }
}

impl Hardlink<Vec<u16>> {
    pub fn new_wide(original: Vec<u16>, link: Vec<u16>) -> (op: Self)
        ensures
            op.original@ == original@.push(0u16),
            op.link@ == link@.push(0u16),
    {
        Hardlink { original: wide(original), link: wide(link) }
    }

    /// The system call on Windows, which is made in the pool.
    pub fn submit_wide(&self) -> (call: WindowsCall)
        ensures
            call == WindowsCall::CreateHardLink,
    {
        WindowsCall::CreateHardLink
    }
}

impl<P> Hardlink<P> {
    /// Take the completion.
    pub fn complete<C>(self, completion: Completion<C>) -> (result: Result<(), IoError>)
        ensures
            result == crate::driver::ops::connection::spec_unit(completion),
    {
        finish_unit(completion)
    }
}

/// Give a file another name, replacing what has that name.
pub struct Rename<P> {
    /// A path, ended by a zero.
    pub from: P,
    /// A path, ended by a zero.
    pub to: P,
}

impl Rename<Vec<u8>> {
    pub fn new(from: Vec<u8>, to: Vec<u8>) -> (op: Result<Self, IoError>)
        ensures
            op is Err <==> from@.contains(0u8) || to@.contains(0u8),
            op matches Err(error) ==> error == crate::driver::helpers::cstr::nul_inside(),
            op matches Ok(op) ==> op.from@ == from@.push(0u8) && op.to@ == to@.push(0u8),
    {
        let from = match cstr(from) {
            Ok(from) => from,
            Err(error) => {
                return Err(error);
            },
        };
        match cstr(to) {
            Ok(to) => Ok(Rename { from, to }),
            Err(error) => Err(error),
        }
    }

    /// What to ask of io_uring.
    pub fn submit(&self) -> (call: UringRequest)
        ensures
            call == (UringRequest::RenameAt { from_dir: AT_FDCWD, to_dir: AT_FDCWD }),
    {
        UringRequest::RenameAt { from_dir: AT_FDCWD, to_dir: AT_FDCWD }
    }

    /// The system call on other Unix systems.
    pub fn attempt(&self) -> (call: UnixCall)
        ensures
            call == UnixCall::Rename,
    {
        UnixCall::Rename
    }
}

impl Rename<Vec<u16>> {
    pub fn new_wide(from: Vec<u16>, to: Vec<u16>) -> (op: Self)
        ensures
            op.from@ == from@.push(0u16),
            op.to@ == to@.push(0u16),
    {
        Rename { from: wide(from), to: wide(to) }
    }

    /// The system call on Windows, which is made in the pool.
    pub fn submit_wide(&self) -> (call: WindowsCall)
        ensures
            call == (WindowsCall::MoveFile { flags: MOVEFILE_REPLACE_EXISTING | MOVEFILE_WRITE_THROUGH }),
    {
        WindowsCall::MoveFile { flags: MOVEFILE_REPLACE_EXISTING | MOVEFILE_WRITE_THROUGH }
    }
}

impl<P> Rename<P> {
    /// Take the completion.
    pub fn complete<C>(self, completion: Completion<C>) -> (result: Result<(), IoError>)
        ensures
            result == crate::driver::ops::connection::spec_unit(completion),
    {
        finish_unit(completion)
    }
}

/// Make a symbolic link.
pub struct Symlink<P> {
    /// A path, ended by a zero.
    pub original: P,
    /// A path, ended by a zero.
    pub link: P,
    /// Windows: the link names a directory.
    pub dir: bool,
}

impl Symlink<Vec<u8>> {
    pub fn new(original: Vec<u8>, link: Vec<u8>, dir: bool) -> (op: Result<Self, IoError>)
        ensures
            op is Err <==> original@.contains(0u8) || link@.contains(0u8),
            op matches Err(error) ==> error == crate::driver::helpers::cstr::nul_inside(),
            op matches Ok(op) ==> op.original@ == original@.push(0u8) && op.link@ == link@.push(0u8),
            op matches Ok(op) ==> op.dir == dir,
    {
        let original = match cstr(original) {
            Ok(original) => original,
            Err(error) => {
                return Err(error);
            },
        };
        match cstr(link) {
            Ok(link) => Ok(Symlink { original, link, dir }),
            Err(error) => Err(error),
        }
    }

    /// What to ask of io_uring.
    pub fn submit(&self) -> (call: UringRequest)
        ensures
            call == (UringRequest::SymlinkAt { dir: AT_FDCWD }),
    {
        UringRequest::SymlinkAt { dir: AT_FDCWD }
    }

    /// The system call on other Unix systems.
    pub fn attempt(&self) -> (call: UnixCall)
        ensures
            call == UnixCall::Symlink,
    {
        UnixCall::Symlink
    }
}

impl Symlink<Vec<u16>> {
    pub fn new_wide(original: Vec<u16>, link: Vec<u16>, dir: bool) -> (op: Self)
        ensures
            op.original@ == original@.push(0u16),
            op.link@ == link@.push(0u16),
            op.dir == dir,
    {
        Symlink { original: wide(original), link: wide(link), dir }
    }

    /// The system call on Windows, which is made in the pool.
    pub fn submit_wide(&self) -> (call: WindowsCall)
        ensures
            self.dir ==> call == (WindowsCall::CreateSymbolicLink { flags: SYMBOLIC_LINK_FLAG_DIRECTORY }),
            !self.dir ==> call == (WindowsCall::CreateSymbolicLink { flags: 0 }),
    {
        if self.dir {
            WindowsCall::CreateSymbolicLink { flags: SYMBOLIC_LINK_FLAG_DIRECTORY }
        } else {
            WindowsCall::CreateSymbolicLink { flags: 0 }
        }
    }
}

impl<P> Symlink<P> {
    /// Take the completion.
    pub fn complete<C>(self, completion: Completion<C>) -> (result: Result<(), IoError>)
        ensures
            result == crate::driver::ops::connection::spec_unit(completion),
    {
        finish_unit(completion)
    }
}

/// Remove the name of a file, or an empty directory.
pub struct Unlink<P> {
    /// The path, ended by a zero.
    pub path: P,
    /// It is a directory.
    pub remove_dir: bool,
}

impl Unlink<Vec<u8>> {
    pub fn new(path: Vec<u8>, remove_dir: bool) -> (op: Result<Self, IoError>)
        ensures
            op is Err <==> path@.contains(0u8),
            op matches Err(error) ==> error == crate::driver::helpers::cstr::nul_inside(),
            op matches Ok(op) ==> op.path@ == path@.push(0u8),
            op matches Ok(op) ==> op.remove_dir == remove_dir,
    {
        match cstr(path) {
            Ok(path) => Ok(Unlink { path, remove_dir }),
            Err(error) => Err(error),
        }
    }

    /// What to ask of io_uring.
    pub fn submit(&self) -> (call: UringRequest)
        ensures
            self.remove_dir ==> call == (UringRequest::UnlinkAt { dir: AT_FDCWD, flags: AT_REMOVEDIR }),
            !self.remove_dir ==> call == (UringRequest::UnlinkAt { dir: AT_FDCWD, flags: 0 }),
    {
        if self.remove_dir {
            UringRequest::UnlinkAt { dir: AT_FDCWD, flags: AT_REMOVEDIR }
        } else {
            UringRequest::UnlinkAt { dir: AT_FDCWD, flags: 0 }
        }
    }

    /// The system call on other Unix systems.
    pub fn attempt(&self) -> (call: UnixCall)
        ensures
            self.remove_dir ==> call == UnixCall::Rmdir,
            !self.remove_dir ==> call == UnixCall::Unlink,
    {
        if self.remove_dir {
            UnixCall::Rmdir
        } else {
            UnixCall::Unlink
        }
    }
}

impl Unlink<Vec<u16>> {
    pub fn new_wide(path: Vec<u16>, remove_dir: bool) -> (op: Self)
        ensures
            op.path@ == path@.push(0u16),
            op.remove_dir == remove_dir,
    {
        Unlink { path: wide(path), remove_dir }
    }

    /// The system call on Windows, which is made in the pool.
    pub fn submit_wide(&self) -> (call: WindowsCall)
        ensures
            self.remove_dir ==> call == WindowsCall::RemoveDirectory,
            !self.remove_dir ==> call == WindowsCall::DeleteFile,
    {
        if self.remove_dir {
            WindowsCall::RemoveDirectory
        } else {
            WindowsCall::DeleteFile
        }
    }
}

impl<P> Unlink<P> {
    /// Take the completion.
    pub fn complete<C>(self, completion: Completion<C>) -> (result: Result<(), IoError>)
        ensures
            result == crate::driver::ops::connection::spec_unit(completion),
    {
        finish_unit(completion)
    }
}

/// Write out what is cached of a file.
pub struct Sync<H> {
    pub handle: H,
    /// Linux: the data alone.
    pub sync_data: bool,
}

impl<H> Sync<H> {
    /// What to ask of io_uring, given the descriptor of the handle.
    pub fn submit(&self, fd: i32) -> (request: UringRequest)
        ensures
            request == (UringRequest::Fsync { fd, data_only: self.sync_data }),
    {
        UringRequest::Fsync { fd, data_only: self.sync_data }
    }

    /// The system call on other Unix systems.
    pub fn attempt(&self) -> (call: UnixCall)
        ensures
            call == UnixCall::Fsync,
    {
        UnixCall::Fsync
    }

    /// The system call on Windows, which is made in the pool.
    pub fn submit_wide(&self) -> (call: WindowsCall)
        ensures
            call == WindowsCall::FlushFileBuffers,
    {
        WindowsCall::FlushFileBuffers
    }

    /// Take the completion.
    pub fn complete<C>(self, completion: Completion<C>) -> (result: Result<(), IoError>)
        ensures
            result == crate::driver::ops::connection::spec_unit(completion),
    {
        finish_unit(completion)
    }
}

/// Change the length of a file.
pub struct Truncate<H> {
    pub handle: H,
    pub size: u64,
}

impl<H> Truncate<H> {
    /// What to ask of io_uring, given the descriptor of the handle.
    pub fn submit(&self, fd: i32) -> (request: UringRequest)
        ensures
            request == (UringRequest::Ftruncate { fd, len: self.size }),
    {
        UringRequest::Ftruncate { fd, len: self.size }
    }

    /// The system call on other Unix systems.
    pub fn attempt(&self) -> (call: UnixCall)
        ensures
            call == (UnixCall::Ftruncate { size: self.size }),
    {
        UnixCall::Ftruncate { size: self.size }
    }

    /// The system call on Windows, which is made in the pool.
    pub fn submit_wide(&self) -> (call: WindowsCall)
        ensures
            call == (WindowsCall::SetEndOfFile { position: self.size as i64 }),
    {
        WindowsCall::SetEndOfFile { position: self.size as i64 }
    }

    /// Take the completion.
    pub fn complete<C>(self, completion: Completion<C>) -> (result: Result<(), IoError>)
        ensures
            result == crate::driver::ops::connection::spec_unit(completion),
    {
        finish_unit(completion)
    }
}

/// Change who may do what with a file.
pub struct SetPermissions<H, P> {
    pub handle: H,
    pub perm: P,
}

impl<H> SetPermissions<H, Permissions> {
    /// The system call on Unix systems.
    pub fn attempt(&self) -> (call: UnixCall)
        ensures
            call == (UnixCall::Fchmod { mode: self.perm.spec_mode() }),
    {
        UnixCall::Fchmod { mode: self.perm.mode() }
    }
}

impl<H> SetPermissions<H, windows::Permissions> {
    /// The system call on Windows, which is made in the pool.
    pub fn submit_wide(&self) -> (call: WindowsCall)
        ensures
            call == (WindowsCall::SetAttributes { attributes: self.perm.spec_attrs() }),
    {
        WindowsCall::SetAttributes { attributes: self.perm.attrs() }
    }
}

impl<H, P> SetPermissions<H, P> {
    /// Take the completion.
    pub fn complete<C>(self, completion: Completion<C>) -> (result: Result<(), IoError>)
        ensures
            result == crate::driver::ops::connection::spec_unit(completion),
    {
        finish_unit(completion)
    }
}

/// Ask for the metadata of an open file.
pub struct Stat<H> {
    pub handle: H,
}

impl<H> Stat<H> {
    /// What to ask of io_uring, given the descriptor of the handle.
    pub fn submit(&self, fd: i32) -> (request: UringRequest)
        ensures
            request == (UringRequest::Statx {
                dir: fd,
                flags: AT_EMPTY_PATH,
                mask: STATX_BASIC_STATS | STATX_BTIME,
            }),
    {
        UringRequest::Statx { dir: fd, flags: AT_EMPTY_PATH, mask: STATX_BASIC_STATS | STATX_BTIME }
    }

    /// The system call on other Unix systems.
    pub fn attempt(&self) -> (call: UnixCall)
        ensures
            call == UnixCall::Fstat,
    {
        UnixCall::Fstat
    }

    /// Take the completion. `answer` is what io_uring wrote down.
    pub fn complete<C>(self, completion: Completion<C>, answer: Statx) -> (metadata: Result<Metadata, IoError>)
        ensures
            match completion.result {
                Ok(_) => metadata matches Ok(metadata) && metadata@ == answer,
                Err(error) => metadata == Err::<Metadata, IoError>(error),
            },
    {
        match completion.result {
            Ok(_) => Ok(Metadata::from_statx(answer)),
            Err(error) => Err(error),
        }
    }

    /// Take the completion of a system call that was made in the pool.
    pub fn complete_stat(self, completion: Completion<unix::Stat>) -> (metadata: Result<unix::Metadata, IoError>)
        requires
            completion.result is Ok ==> completion.blocking_value is Some,
        ensures
            match completion.result {
                Ok(_) => metadata matches Ok(metadata) && metadata@ == completion.blocking_value->0,
                Err(error) => metadata == Err::<unix::Metadata, IoError>(error),
            },
    {
        match completion.into_blocking_value() {
            Ok(stat) => Ok(unix::Metadata::from_stat(stat)),
            Err(error) => Err(error),
        }
    }

    /// Take the completion of a system call that was made in the pool on
    /// Windows.
    pub fn complete_wide(self, completion: Completion<windows::Metadata>) -> (metadata: Result<
        windows::Metadata,
        IoError,
    >)
        requires
            completion.result is Ok ==> completion.blocking_value is Some,
        ensures
            metadata == (match completion.result {
                Ok(_) => Ok(completion.blocking_value->0),
                Err(error) => Err(error),
            }),
    {
        completion.into_blocking_value()
    }
}

/// Ask for the metadata of a path, or of what it links to.
pub struct PathStat {
    /// The path, ended by a zero.
    pub path: Vec<u8>,
    /// Ask about what a link names.
    pub follow_symlinks: bool,
}

impl PathStat {
    pub fn new(path: Vec<u8>, follow_symlinks: bool) -> (op: Result<Self, IoError>)
        ensures
            op is Err <==> path@.contains(0u8),
            op matches Err(error) ==> error == crate::driver::helpers::cstr::nul_inside(),
            op matches Ok(op) ==> op.path@ == path@.push(0u8) && op.follow_symlinks == follow_symlinks,
    {
        match cstr(path) {
            Ok(path) => Ok(PathStat { path, follow_symlinks }),
            Err(error) => Err(error),
        }
    }

    /// What to ask of io_uring.
    pub fn submit(&self) -> (call: UringRequest)
        ensures
            call == (UringRequest::Statx {
                dir: AT_FDCWD,
                flags: if self.follow_symlinks {
                    0
                } else {
                    AT_SYMLINK_NOFOLLOW
                },
                mask: STATX_BASIC_STATS | STATX_BTIME,
            }),
    {
        let flags: i32 = if self.follow_symlinks {
            0
        } else {
            AT_SYMLINK_NOFOLLOW
        };
        UringRequest::Statx { dir: AT_FDCWD, flags, mask: STATX_BASIC_STATS | STATX_BTIME }
    }

    /// The system call on other Unix systems.
    pub fn attempt(&self) -> (call: UnixCall)
        ensures
            self.follow_symlinks ==> call == UnixCall::Stat,
            !self.follow_symlinks ==> call == UnixCall::Lstat,
    {
        if self.follow_symlinks {
            UnixCall::Stat
        } else {
            UnixCall::Lstat
        }
    }

    /// Take the completion. `answer` is what io_uring wrote down.
    pub fn complete<C>(self, completion: Completion<C>, answer: Statx) -> (metadata: Result<Metadata, IoError>)
        ensures
            match completion.result {
                Ok(_) => metadata matches Ok(metadata) && metadata@ == answer,
                Err(error) => metadata == Err::<Metadata, IoError>(error),
            },
    {
        match completion.result {
            Ok(_) => Ok(Metadata::from_statx(answer)),
            Err(error) => Err(error),
        }
    }

    /// Take the completion of a system call that was made in the pool. It left
    /// its answer behind if it succeeded.
    pub fn complete_stat<C>(self, completion: Completion<C>, answer: Option<unix::Stat>) -> (metadata: Result<
        unix::Metadata,
        IoError,
    >)
        requires
            completion.result is Ok ==> answer is Some,
        ensures
            match completion.result {
                Ok(_) => metadata matches Ok(metadata) && metadata@ == answer->0,
                Err(error) => metadata == Err::<unix::Metadata, IoError>(error),
            },
    {
        match completion.result {
            Ok(_) => Ok(unix::Metadata::from_stat(answer.unwrap())),
            Err(error) => Err(error),
        }
    }
}

/// Wait for a child process. Its descriptor can be read once it has ended.
pub struct WaitProcess<K> {
    /// The process, which is reaped at the end.
    pub child: K,
}

impl<K> WaitProcess<K> {
    /// What to ask of io_uring, given the descriptor of the process.
    pub fn submit(&self, pidfd: i32) -> (request: UringRequest)
        ensures
            request == (UringRequest::PollAdd { fd: pidfd, events: POLLIN }),
    {
        UringRequest::PollAdd { fd: pidfd, events: POLLIN }
    }

    /// Take the completion: the process is reaped, whatever the completion
    /// says.
    pub fn complete<S, C, W: FnOnce(K) -> Result<S, IoError>>(self, completion: Completion<C>, wait: W) -> (status: Result<
        S,
        IoError,
    >)
        requires
            call_requires(wait, (self.child,)),
        ensures
            call_ensures(wait, (self.child,), status),
    {
        let _ = completion;
        wait(self.child)
    }
}

/// A path is opened if some access is asked for, if the access suits what is to become
/// of the file, and if the path holds no zero; the system gets all of the path, and
/// what was asked for. Nothing else is refused.
pub proof fn law_what_can_be_opened(
    path: Vec<u8>,
    options: OpenOptions,
    flags: OpenFlags,
    op: Result<Open<Vec<u8>>, IoError>,
)
    requires
        call_ensures(Open::<Vec<u8>>::new, (path, options, &flags), op),
    ensures
        op is Ok <==> (options@.read || options@.write || options@.append) && (options@.write || options@.append || !(
        options@.create || options@.truncate || options@.create_new)) && !(options@.append && options@.truncate
            && !options@.create_new) && !path@.contains(0u8),
        op matches Ok(op) ==> {
            &&& op.spec_path()@.len() == path@.len() + 1
            &&& forall|i: int| 0 <= i < path@.len() ==> #[trigger] op.spec_path()@[i] == path@[i]
            &&& op.spec_path()@[path@.len() as int] == 0
            &&& op.spec_options() == options@
        },
        op matches Err(error) ==> error == IoError::Os(flags.einval) || error.spec_kind()
            == crate::error::ErrorKind::InvalidInput,
{
    options@.law_when_opening_is_refused(flags);
}

/// The system is asked to open a path below the working directory, and to give a new
/// file the mode that was asked for.
pub proof fn law_opening_asks_for_the_mode(
    op: Open<Vec<u8>>,
    flags: OpenFlags,
    request: UringRequest,
    call: Result<UnixCall, IoError>,
)
    requires
        op.spec_options().spec_open_flags(flags) is Ok,
        call_ensures(Open::<Vec<u8>>::submit, (&op, &flags), request),
        call_ensures(Open::<Vec<u8>>::attempt, (&op, &flags), call),
    ensures
        request matches UringRequest::OpenAt { dir, flags: asked, mode } && dir == -100 && mode
            == op.spec_options().mode && call == Ok::<UnixCall, IoError>(UnixCall::Open { flags: asked, mode }),
{
}

/// A file that was opened is the one that is attached to the driver, whatever the
/// number of its descriptor; a failure is told as it is.
pub proof fn law_opened_file_is_attached<F, C, A: FnOnce(i32) -> Result<F, IoError>>(
    op: Open<Vec<u8>>,
    completion: Completion<C>,
    attach: A,
    fd: i32,
    file: Result<F, IoError>,
)
    requires
        call_ensures(Open::<Vec<u8>>::complete::<F, C, A>, (op, completion, attach), file),
    ensures
        completion.result == Ok::<u32, IoError>(fd as u32) && fd >= 0 ==> call_ensures(attach, (fd,), file),
        completion.result matches Err(error) ==> file == Err::<F, IoError>(error),
{
}

/// A directory is removed as a directory, and anything else as a name.
pub proof fn law_directories_are_removed_as_such(
    op: Unlink<Vec<u8>>,
    request: UringRequest,
    call: UnixCall,
    wide: Unlink<Vec<u16>>,
    windows: WindowsCall,
)
    requires
        call_ensures(Unlink::<Vec<u8>>::submit, (&op,), request),
        call_ensures(Unlink::<Vec<u8>>::attempt, (&op,), call),
        call_ensures(Unlink::<Vec<u16>>::submit_wide, (&wide,), windows),
    ensures
        request matches UringRequest::UnlinkAt { dir, flags } && dir == -100 && (flags == 0x200 <==> op.remove_dir)
            && (flags == 0 <==> !op.remove_dir),
        call == UnixCall::Rmdir <==> op.remove_dir,
        call == UnixCall::Unlink <==> !op.remove_dir,
        windows == WindowsCall::RemoveDirectory <==> wide.remove_dir,
        windows == WindowsCall::DeleteFile <==> !wide.remove_dir,
{
}

/// A link is followed where that was asked for, and looked at itself where it was not.
/// Either way everything is asked for that can be known, when the file was made too.
pub proof fn law_links_are_followed_as_asked<H>(
    op: PathStat,
    request: UringRequest,
    call: UnixCall,
    open: Stat<H>,
    fd: i32,
    opened: UringRequest,
)
    requires
        call_ensures(PathStat::submit, (&op,), request),
        call_ensures(PathStat::attempt, (&op,), call),
        call_ensures(Stat::<H>::submit, (&open, fd), opened),
    ensures
        request matches UringRequest::Statx { dir, flags, mask } && dir == -100 && (flags == 0
            <==> op.follow_symlinks) && (flags == 0x100 <==> !op.follow_symlinks) && mask == 0xfff,
        call == UnixCall::Stat <==> op.follow_symlinks,
        call == UnixCall::Lstat <==> !op.follow_symlinks,
        opened == (UringRequest::Statx { dir: fd, flags: 0x1000, mask: 0xfff }),
{
    assert(0x7ffu32 | 0x800u32 == 0xfffu32) by (bit_vector);
}

/// On Windows a file takes the place of what has its new name, and is on disk when the
/// move is over; a link to a directory is made as one.
pub proof fn law_windows_names(
    rename: Rename<Vec<u16>>,
    moved: WindowsCall,
    link: Symlink<Vec<u16>>,
    linked: WindowsCall,
)
    requires
        call_ensures(Rename::<Vec<u16>>::submit_wide, (&rename,), moved),
        call_ensures(Symlink::<Vec<u16>>::submit_wide, (&link,), linked),
    ensures
        moved matches WindowsCall::MoveFile { flags } && flags == 9,
        linked matches WindowsCall::CreateSymbolicLink { flags } && (flags == 1 <==> link.dir) && (flags == 0
            <==> !link.dir),
{
    assert(1u32 | 8u32 == 9u32) by (bit_vector);
}

} // verus!
