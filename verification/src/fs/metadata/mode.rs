//! The file mode of Unix systems: what a file is, and who may do what with it.
use vstd::prelude::*;

verus! {

/// The bits of a mode that say what a file is.
pub const S_IFMT: u32 = 0o170000;

/// A socket.
pub const S_IFSOCK: u32 = 0o140000;

/// A symbolic link.
pub const S_IFLNK: u32 = 0o120000;

/// A regular file.
pub const S_IFREG: u32 = 0o100000;

/// A block device.
pub const S_IFBLK: u32 = 0o060000;

/// A directory.
pub const S_IFDIR: u32 = 0o040000;

/// A character device.
pub const S_IFCHR: u32 = 0o020000;

/// A named pipe.
pub const S_IFIFO: u32 = 0o010000;

/// What a file was found to be.
#[derive(Clone, Copy, Debug)]
pub struct FileTypeFlags {
    pub is_symlink: bool,
    pub is_dir: bool,
    pub is_file: bool,
    pub is_block_device: bool,
    pub is_char_device: bool,
    pub is_fifo: bool,
    pub is_socket: bool,
}

impl FileTypeFlags {
    /// The mode of a file that was found to be this. Where several answers
    /// were given, the first in this order counts.
    pub open spec fn spec_mode(self) -> u32 {
        if self.is_symlink {
            S_IFLNK
        } else if self.is_dir {
            S_IFDIR
        } else if self.is_file {
            S_IFREG
        } else if self.is_block_device {
            S_IFBLK
        } else if self.is_char_device {
            S_IFCHR
        } else if self.is_fifo {
            S_IFIFO
        } else if self.is_socket {
            S_IFSOCK
        } else {
            0
        }
    }

    /// How many answers were given.
    pub open spec fn count(self) -> int {
        let one = |b: bool| if b { 1int } else { 0int };
        one(self.is_symlink) + one(self.is_dir) + one(self.is_file) + one(self.is_block_device) + one(
            self.is_char_device,
        ) + one(self.is_fifo) + one(self.is_socket)
    }
}

/// What a file is.
#[derive(Clone, Copy, Debug, PartialEq, Eq, Hash, Structural)]
pub struct FileType {
    mode: u32,
}

impl FileType {
    pub closed spec fn spec_mode(&self) -> u32 {
        self.mode
    }

    /// The kind of file that the mode names.
    pub open spec fn spec_format(&self) -> u32 {
        self.spec_mode() & S_IFMT
    }

    /// The file type in a mode.
    pub fn from_mode(mode: u32) -> (file_type: Self)
        ensures
            file_type.spec_mode() == mode,
    {
        FileType { mode }
    }

    /// The file type of a file that was found to be this.
    pub fn from_std(file_type: FileTypeFlags) -> (found: Self)
        ensures
            found.spec_mode() == file_type.spec_mode(),
    {
        let mode: u32 = if file_type.is_symlink {
            S_IFLNK
        } else if file_type.is_dir {
            S_IFDIR
        } else if file_type.is_file {
            S_IFREG
        } else if file_type.is_block_device {
            S_IFBLK
        } else if file_type.is_char_device {
            S_IFCHR
        } else if file_type.is_fifo {
            S_IFIFO
        } else if file_type.is_socket {
            S_IFSOCK
        } else {
            0
        };
        FileType::from_mode(mode)
    }

    /// Whether this is a directory.
    pub fn is_dir(&self) -> (is: bool)
        ensures
            is == (self.spec_format() == S_IFDIR),
    {
        self.mode & S_IFMT == S_IFDIR
    }

    /// Whether this is a regular file.
    pub fn is_file(&self) -> (is: bool)
        ensures
            is == (self.spec_format() == S_IFREG),
    {
        self.mode & S_IFMT == S_IFREG
    }

    /// Whether this is a symbolic link.
    pub fn is_symlink(&self) -> (is: bool)
        ensures
            is == (self.spec_format() == S_IFLNK),
    {
        self.mode & S_IFMT == S_IFLNK
    }

    /// Whether this is a block device.
    pub fn is_block_device(&self) -> (is: bool)
        ensures
            is == (self.spec_format() == S_IFBLK),
    {
        self.mode & S_IFMT == S_IFBLK
    }

    /// Whether this is a character device.
    pub fn is_char_device(&self) -> (is: bool)
        ensures
            is == (self.spec_format() == S_IFCHR),
    {
        self.mode & S_IFMT == S_IFCHR
    }

    /// Whether this is a named pipe.
    pub fn is_fifo(&self) -> (is: bool)
        ensures
            is == (self.spec_format() == S_IFIFO),
    {
        self.mode & S_IFMT == S_IFIFO
    }

    /// Whether this is a socket.
    pub fn is_socket(&self) -> (is: bool)
        ensures
            is == (self.spec_format() == S_IFSOCK),
    {
        self.mode & S_IFMT == S_IFSOCK
    }

    /// A file that was found to be one thing is that thing, and nothing else.
    pub proof fn law_from_std_keeps_the_file_type(flags: FileTypeFlags, found: FileType)
        requires
            flags.count() == 1,
            found.spec_mode() == flags.spec_mode(),
        ensures
            (found.spec_format() == S_IFLNK) == flags.is_symlink,
            (found.spec_format() == S_IFDIR) == flags.is_dir,
            (found.spec_format() == S_IFREG) == flags.is_file,
            (found.spec_format() == S_IFBLK) == flags.is_block_device,
            (found.spec_format() == S_IFCHR) == flags.is_char_device,
            (found.spec_format() == S_IFIFO) == flags.is_fifo,
            (found.spec_format() == S_IFSOCK) == flags.is_socket,
    {
        assert(0o120000u32 & 0o170000u32 == 0o120000u32) by (bit_vector);
        assert(0o040000u32 & 0o170000u32 == 0o040000u32) by (bit_vector);
        assert(0o100000u32 & 0o170000u32 == 0o100000u32) by (bit_vector);
        assert(0o060000u32 & 0o170000u32 == 0o060000u32) by (bit_vector);
        assert(0o020000u32 & 0o170000u32 == 0o020000u32) by (bit_vector);
        assert(0o010000u32 & 0o170000u32 == 0o010000u32) by (bit_vector);
        assert(0o140000u32 & 0o170000u32 == 0o140000u32) by (bit_vector);
    }
}

/// Who may do what with a file.
#[derive(Clone, Debug, PartialEq, Eq, Structural)]
pub struct Permissions {
    mode: u32,
}

impl Permissions {
    pub closed spec fn spec_mode(&self) -> u32 {
        self.mode
    }

    /// Whether nobody may write.
    pub open spec fn spec_readonly(&self) -> bool {
        self.spec_mode() & 0o222 == 0
    }

    /// The permissions in a mode.
    pub fn from_mode(mode: u32) -> (permissions: Self)
        ensures
            permissions.spec_mode() == mode,
    {
        Permissions { mode }
    }

    /// The mode.
    pub fn mode(&self) -> (mode: u32)
        ensures
            mode == self.spec_mode(),
    {
        self.mode
    }

    /// Set the mode.
    pub fn set_mode(&mut self, mode: u32)
        ensures
            final(self).spec_mode() == mode,
    {
        self.mode = mode;
    }

    /// Whether nobody may write.
    pub fn readonly(&self) -> (readonly: bool)
        ensures
            readonly == self.spec_readonly(),
    {
        self.mode & 0o222 == 0
    }

    /// Take the right to write from everybody, or give it to the owner. The
    /// other bits stay.
    pub fn set_readonly(&mut self, readonly: bool)
        ensures
            final(self).spec_mode() == (if readonly {
                old(self).spec_mode() & !0o222u32
            } else {
                old(self).spec_mode() | 0o200
            }),
            final(self).spec_readonly() == readonly,
            final(self).spec_mode() & !0o222u32 == old(self).spec_mode() & !0o222u32,
    {
        let mode = self.mode;
        proof {
            assert((mode & !0o222u32) & 0o222 == 0) by (bit_vector);
            assert((mode & !0o222u32) & !0o222u32 == mode & !0o222u32) by (bit_vector);
            assert((mode | 0o200) & 0o222 != 0) by (bit_vector);
            assert((mode | 0o200) & !0o222u32 == mode & !0o222u32) by (bit_vector);
        }
        if readonly {
            self.mode = mode & !0o222u32;
        } else {
            self.mode = mode | 0o200;
        }
    }
}

/// What a file is follows from the format in its mode alone, and is one thing at most.
pub proof fn law_mode_says_what_a_file_is(
    file_type: FileType,
    is_dir: bool,
    is_file: bool,
    is_symlink: bool,
    is_block_device: bool,
    is_char_device: bool,
    is_fifo: bool,
    is_socket: bool,
)
    requires
        call_ensures(FileType::is_dir, (&file_type,), is_dir),
        call_ensures(FileType::is_file, (&file_type,), is_file),
        call_ensures(FileType::is_symlink, (&file_type,), is_symlink),
        call_ensures(FileType::is_block_device, (&file_type,), is_block_device),
        call_ensures(FileType::is_char_device, (&file_type,), is_char_device),
        call_ensures(FileType::is_fifo, (&file_type,), is_fifo),
        call_ensures(FileType::is_socket, (&file_type,), is_socket),
    ensures
        is_dir <==> file_type.spec_mode() & 0o170000 == 0o040000,
        is_file <==> file_type.spec_mode() & 0o170000 == 0o100000,
        is_symlink <==> file_type.spec_mode() & 0o170000 == 0o120000,
        is_block_device <==> file_type.spec_mode() & 0o170000 == 0o060000,
        is_char_device <==> file_type.spec_mode() & 0o170000 == 0o020000,
        is_fifo <==> file_type.spec_mode() & 0o170000 == 0o010000,
        is_socket <==> file_type.spec_mode() & 0o170000 == 0o140000,
        is_dir ==> !is_file && !is_symlink && !is_block_device && !is_char_device && !is_fifo && !is_socket,
        is_file ==> !is_symlink && !is_block_device && !is_char_device && !is_fifo && !is_socket,
{
}

/// A link is a link, whatever it names; a file that is nothing known has no format.
pub proof fn law_links_are_links(flags: FileTypeFlags, found: FileType)
    requires
        call_ensures(FileType::from_std, (flags,), found),
    ensures
        flags.is_symlink ==> found.spec_mode() == 0o120000,
        !flags.is_symlink && flags.is_dir ==> found.spec_mode() == 0o040000,
        !flags.is_symlink && !flags.is_dir && flags.is_file ==> found.spec_mode() == 0o100000,
        !flags.is_symlink && !flags.is_dir && !flags.is_file ==> {
            &&& flags.is_block_device ==> found.spec_mode() == 0o060000
            &&& !flags.is_block_device && flags.is_char_device ==> found.spec_mode() == 0o020000
            &&& !flags.is_block_device && !flags.is_char_device && flags.is_fifo ==> found.spec_mode() == 0o010000
            &&& !flags.is_block_device && !flags.is_char_device && !flags.is_fifo && flags.is_socket
                ==> found.spec_mode() == 0o140000
            &&& !flags.is_block_device && !flags.is_char_device && !flags.is_fifo && !flags.is_socket
                ==> found.spec_mode() == 0
        },
{
}

impl Permissions {
    /// A file is read-only if and only if neither its owner, nor its group, nor
    /// anybody else may write it.
    pub proof fn law_readonly_means_nobody_may_write(self, readonly: bool)
        requires
            call_ensures(Permissions::readonly, (&self,), readonly),
        ensures
            readonly <==> self.spec_mode() & 0o200 == 0 && self.spec_mode() & 0o020 == 0 && self.spec_mode() & 0o002
                == 0,
    {
        let mode = self.spec_mode();
        assert(mode & 0o222 == 0 <==> mode & 0o200 == 0 && mode & 0o020 == 0 && mode & 0o002 == 0) by (bit_vector);
    }
}

} // verus!
