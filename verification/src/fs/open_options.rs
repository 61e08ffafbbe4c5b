//! How a file is opened.
use crate::error::IoError;
use vstd::prelude::*;

verus! {

/// Windows: read access.
pub const GENERIC_READ: u32 = 0x8000_0000;

/// Windows: write access.
pub const GENERIC_WRITE: u32 = 0x4000_0000;

/// Windows: the rights that write access stands for on files.
pub const FILE_GENERIC_WRITE: u32 = 0x0012_0116;

/// Windows: the right to write anywhere in a file.
pub const FILE_WRITE_DATA: u32 = 0x2;

/// Windows: others may read.
pub const FILE_SHARE_READ: u32 = 1;

/// Windows: others may write.
pub const FILE_SHARE_WRITE: u32 = 2;

/// Windows: others may delete.
pub const FILE_SHARE_DELETE: u32 = 4;

/// Windows: make a new file, or fail.
pub const CREATE_NEW: u32 = 1;

/// Windows: make a file, replacing an old one.
pub const CREATE_ALWAYS: u32 = 2;

/// Windows: open an old file, or fail.
pub const OPEN_EXISTING: u32 = 3;

/// Windows: open a file, making it if it is missing.
pub const OPEN_ALWAYS: u32 = 4;

/// Windows: empty an old file, or fail.
pub const TRUNCATE_EXISTING: u32 = 5;

/// Windows: open for overlapped I/O.
pub const FILE_FLAG_OVERLAPPED: u32 = 0x4000_0000;

/// Windows: open a link itself.
pub const FILE_FLAG_OPEN_REPARSE_POINT: u32 = 0x0020_0000;

/// Windows error code: a parameter is wrong.
pub const ERROR_INVALID_PARAMETER: i32 = 87;

/// The numbers of the open flags on a Unix system.
#[derive(Clone, Copy, Debug)]
pub struct OpenFlags {
    pub rdonly: i32,
    pub wronly: i32,
    pub rdwr: i32,
    pub append: i32,
    pub creat: i32,
    pub trunc: i32,
    pub excl: i32,
    pub cloexec: i32,
    pub accmode: i32,
    /// The error number for a wrong combination.
    pub einval: i32,
}

impl OpenFlags {
    /// The numbers that Linux uses on most machines.
    pub open spec fn spec_linux() -> OpenFlags {
        OpenFlags {
            rdonly: 0,
            wronly: 1,
            rdwr: 2,
            append: 0o2000,
            creat: 0o100,
            trunc: 0o1000,
            excl: 0o200,
            cloexec: 0o2000000,
            accmode: 3,
            einval: 22,
        }
    }

    /// The numbers that Linux uses on most machines.
    pub fn linux() -> (flags: OpenFlags)
        ensures
            flags == OpenFlags::spec_linux(),
    {
        OpenFlags {
            rdonly: 0,
            wronly: 1,
            rdwr: 2,
            append: 0o2000,
            creat: 0o100,
            trunc: 0o1000,
            excl: 0o200,
            cloexec: 0o2000000,
            accmode: 3,
            einval: 22,
        }
    }
}

/// What can be asked for when a file is opened.
pub struct OpenRequest {
    pub read: bool,
    pub write: bool,
    pub append: bool,
    pub truncate: bool,
    pub create: bool,
    pub create_new: bool,
    /// Unix: the mode of a new file.
    pub mode: u32,
    /// Unix: further open flags.
    pub custom_flags: i32,
    /// Windows: the access mode, in place of the one that follows from the
    /// other options.
    pub access: Option<u32>,
    /// Windows: what others may do meanwhile.
    pub share_mode: u32,
    /// Windows: further flags.
    pub windows_flags: u32,
    pub attributes: u32,
    pub security_qos_flags: u32,
}

/// Options for opening a file.
#[derive(Clone, Debug)]
pub struct OpenOptions {
    read: bool,
    write: bool,
    append: bool,
    truncate: bool,
    create: bool,
    create_new: bool,
    mode: u32,
    custom_flags: i32,
    access: Option<u32>,
    share_mode: u32,
    windows_flags: u32,
    attributes: u32,
    security_qos_flags: u32,
}

impl View for OpenOptions {
    type V = OpenRequest;

    closed spec fn view(&self) -> OpenRequest {
        OpenRequest {
            read: self.read,
            write: self.write,
            append: self.append,
            truncate: self.truncate,
            create: self.create,
            create_new: self.create_new,
            mode: self.mode,
            custom_flags: self.custom_flags,
            access: self.access,
            share_mode: self.share_mode,
            windows_flags: self.windows_flags,
            attributes: self.attributes,
            security_qos_flags: self.security_qos_flags,
        }
    }
}

impl OpenRequest {
    /// Nothing is asked for.
    pub open spec fn blank() -> OpenRequest {
        OpenRequest {
            read: false,
            write: false,
            append: false,
            truncate: false,
            create: false,
            create_new: false,
            mode: 0o666,
            custom_flags: 0,
            access: None,
            share_mode: FILE_SHARE_READ | FILE_SHARE_WRITE | FILE_SHARE_DELETE,
            windows_flags: 0,
            attributes: 0,
            security_qos_flags: 0,
        }
    }

    /// The Unix access flags: some access is needed, and appending writes.
    pub open spec fn spec_access_mode(self, flags: OpenFlags) -> Result<i32, IoError> {
        if self.append {
            Ok(
                if self.read {
                    flags.rdwr
                } else {
                    flags.wronly
                } | flags.append,
            )
        } else if self.read && self.write {
            Ok(flags.rdwr)
        } else if self.read {
            Ok(flags.rdonly)
        } else if self.write {
            Ok(flags.wronly)
        } else {
            Err(IoError::Os(flags.einval))
        }
    }

    /// Whether the options say what is to become of a missing or an old file
    /// without the access for it. An appender cannot empty a file, and a new
    /// file is empty anyway.
    pub open spec fn creation_refused(self) -> bool {
        if self.append {
            self.truncate && !self.create_new
        } else {
            !self.write && (self.truncate || self.create || self.create_new)
        }
    }

    /// The Unix creation flags. A new file need not be emptied.
    pub open spec fn spec_creation_mode(self, flags: OpenFlags) -> Result<i32, IoError> {
        if self.creation_refused() {
            Err(IoError::Os(flags.einval))
        } else if self.create_new {
            Ok(flags.creat | flags.excl)
        } else if self.create && self.truncate {
            Ok(flags.creat | flags.trunc)
        } else if self.create {
            Ok(flags.creat)
        } else if self.truncate {
            Ok(flags.trunc)
        } else {
            Ok(0)
        }
    }

    /// All Unix open flags. The access mode cannot be changed by further flags.
    pub open spec fn spec_open_flags(self, flags: OpenFlags) -> Result<i32, IoError> {
        match (self.spec_access_mode(flags), self.spec_creation_mode(flags)) {
            (Err(error), _) => Err(error),
            (Ok(_), Err(error)) => Err(error),
            (Ok(access), Ok(creation)) => Ok(
                flags.cloexec | access | creation | (self.custom_flags & !flags.accmode),
            ),
        }
    }

    /// The Windows access mode.
    pub open spec fn spec_windows_access_mode(self) -> Result<u32, IoError> {
        if self.access is Some {
            Ok(self.access->0)
        } else if self.append {
            Ok(
                if self.read {
                    GENERIC_READ | (FILE_GENERIC_WRITE & !FILE_WRITE_DATA)
                } else {
                    FILE_GENERIC_WRITE & !FILE_WRITE_DATA
                },
            )
        } else if self.read && self.write {
            Ok(GENERIC_READ | GENERIC_WRITE)
        } else if self.read {
            Ok(GENERIC_READ)
        } else if self.write {
            Ok(GENERIC_WRITE)
        } else {
            Err(IoError::Os(ERROR_INVALID_PARAMETER))
        }
    }

    /// The Windows creation disposition.
    pub open spec fn spec_windows_creation_mode(self) -> Result<u32, IoError> {
        if self.creation_refused() {
            Err(IoError::Os(ERROR_INVALID_PARAMETER))
        } else if self.create_new {
            Ok(CREATE_NEW)
        } else if self.create && self.truncate {
            Ok(CREATE_ALWAYS)
        } else if self.create {
            Ok(OPEN_ALWAYS)
        } else if self.truncate {
            Ok(TRUNCATE_EXISTING)
        } else {
            Ok(OPEN_EXISTING)
        }
    }

    /// The Windows flags and attributes. A new file must not be a link.
    pub open spec fn spec_flags_and_attributes(self) -> u32 {
        self.windows_flags | self.attributes | self.security_qos_flags | FILE_FLAG_OVERLAPPED | if self.create_new {
            FILE_FLAG_OPEN_REPARSE_POINT
        } else {
            0
        }
    }

    /// Asking to write and to append has the same effect as asking to append.
    pub proof fn law_append_includes_write(self, flags: OpenFlags)
        requires
            self.append,
        ensures
            (OpenRequest { write: true, ..self }).spec_open_flags(flags) == (OpenRequest {
                write: false,
                ..self
            }).spec_open_flags(flags),
            (OpenRequest { write: true, ..self }).spec_windows_access_mode() == (OpenRequest {
                write: false,
                ..self
            }).spec_windows_access_mode(),
            (OpenRequest { write: true, ..self }).spec_windows_creation_mode() == (OpenRequest {
                write: false,
                ..self
            }).spec_windows_creation_mode(),
    {
    }

    /// Where a file has to be new, `create` and `truncate` are ignored.
    pub proof fn law_create_new_ignores_create_and_truncate(self, flags: OpenFlags, create: bool, truncate: bool)
        requires
            self.create_new,
        ensures
            (OpenRequest { create, truncate, ..self }).spec_open_flags(flags) == self.spec_open_flags(flags),
            (OpenRequest { create, truncate, ..self }).spec_windows_creation_mode()
                == self.spec_windows_creation_mode(),
            (OpenRequest { create, truncate, ..self }).spec_flags_and_attributes()
                == self.spec_flags_and_attributes(),
    {
    }

    /// Nothing can be opened without access, and no file is made or emptied
    /// without the access to write it.
    pub proof fn law_creating_needs_write_access(self, flags: OpenFlags)
        ensures
            !self.read && !self.write && !self.append ==> self.spec_open_flags(flags) is Err,
            !self.write && !self.append && (self.create || self.truncate || self.create_new)
                ==> self.spec_open_flags(flags) is Err && self.spec_windows_creation_mode() is Err,
    {
    }
}

impl OpenOptions {
    /// Nothing is asked for yet.
    pub fn new() -> (options: OpenOptions)
        ensures
            options@ == OpenRequest::blank(),
    {
        OpenOptions {
            read: false,
            write: false,
            append: false,
            truncate: false,
            create: false,
            create_new: false,
            mode: 0o666,
            custom_flags: 0,
            access: None,
            share_mode: FILE_SHARE_READ | FILE_SHARE_WRITE | FILE_SHARE_DELETE,
            windows_flags: 0,
            attributes: 0,
            security_qos_flags: 0,
        }
    }

    /// Ask for read access.
    pub fn read(&mut self, read: bool) -> (options: &mut OpenOptions)
        ensures
            options@ == (OpenRequest { read, ..old(self)@ }),
            *final(self) == *final(options),
    {
        self.read = read;
        self
    }

    /// Ask for write access.
    pub fn write(&mut self, write: bool) -> (options: &mut OpenOptions)
        ensures
            options@ == (OpenRequest { write, ..old(self)@ }),
            *final(self) == *final(options),
    {
        self.write = write;
        self
    }

    /// Ask for writes to go to the end of the file.
    pub fn append(&mut self, append: bool) -> (options: &mut OpenOptions)
        ensures
            options@ == (OpenRequest { append, ..old(self)@ }),
            *final(self) == *final(options),
    {
        self.append = append;
        self
    }

    /// Ask for an old file to be emptied.
    pub fn truncate(&mut self, truncate: bool) -> (options: &mut OpenOptions)
        ensures
            options@ == (OpenRequest { truncate, ..old(self)@ }),
            *final(self) == *final(options),
    {
        self.truncate = truncate;
        self
    }

    /// Ask for a missing file to be made.
    pub fn create(&mut self, create: bool) -> (options: &mut OpenOptions)
        ensures
            options@ == (OpenRequest { create, ..old(self)@ }),
            *final(self) == *final(options),
    {
        self.create = create;
        self
    }

    /// Ask for a new file, and for failure where there is an old one.
    pub fn create_new(&mut self, create_new: bool) -> (options: &mut OpenOptions)
        ensures
            options@ == (OpenRequest { create_new, ..old(self)@ }),
            *final(self) == *final(options),
    {
        self.create_new = create_new;
        self
    }

    /// Unix: the mode of a new file.
    pub fn mode(&mut self, mode: u32) -> (options: &mut OpenOptions)
        ensures
            options@ == (OpenRequest { mode, ..old(self)@ }),
            *final(self) == *final(options),
    {
        self.mode = mode;
        self
    }

    /// Unix: further open flags.
    pub fn custom_flags(&mut self, custom_flags: i32) -> (options: &mut OpenOptions)
        ensures
            options@ == (OpenRequest { custom_flags, ..old(self)@ }),
            *final(self) == *final(options),
    {
        self.custom_flags = custom_flags;
        self
    }

    /// Windows: a given access mode.
    pub fn windows_access(&mut self, access: u32) -> (options: &mut OpenOptions)
        ensures
            options@ == (OpenRequest { access: Some(access), ..old(self)@ }),
            *final(self) == *final(options),
    {
        self.access = Some(access);
        self
    }

    /// Windows: what others may do meanwhile.
    pub fn share_mode(&mut self, share_mode: u32) -> (options: &mut OpenOptions)
        ensures
            options@ == (OpenRequest { share_mode, ..old(self)@ }),
            *final(self) == *final(options),
    {
        self.share_mode = share_mode;
        self
    }

    /// Windows: further flags.
    pub fn windows_flags(&mut self, windows_flags: u32) -> (options: &mut OpenOptions)
        ensures
            options@ == (OpenRequest { windows_flags, ..old(self)@ }),
            *final(self) == *final(options),
    {
        self.windows_flags = windows_flags;
        self
    }

    /// Windows: the attributes of a new file.
    pub fn attributes(&mut self, attributes: u32) -> (options: &mut OpenOptions)
        ensures
            options@ == (OpenRequest { attributes, ..old(self)@ }),
            *final(self) == *final(options),
    {
        self.attributes = attributes;
        self
    }

    /// Windows: security flags.
    pub fn security_qos_flags(&mut self, security_qos_flags: u32) -> (options: &mut OpenOptions)
        ensures
            options@ == (OpenRequest { security_qos_flags, ..old(self)@ }),
            *final(self) == *final(options),
    {
        self.security_qos_flags = security_qos_flags;
        self
    }

    /// Unix: the mode of a new file.
    pub fn create_mode(&self) -> (mode: u32)
        ensures
            mode == self@.mode,
    {
        self.mode
    }

    /// Windows: what others may do meanwhile.
    pub fn sharing(&self) -> (share_mode: u32)
        ensures
            share_mode == self@.share_mode,
    {
        self.share_mode
    }

    /// The options for making a file, replacing an old one.
    pub fn for_create() -> (options: OpenOptions)
        ensures
            options@ == (OpenRequest { write: true, create: true, truncate: true, ..OpenRequest::blank() }),
    {
        let mut options = OpenOptions::new();
        let _ = options.write(true);
        let _ = options.create(true);
        let _ = options.truncate(true);
        options
    }

    /// The options for making a new file.
    pub fn for_create_new() -> (options: OpenOptions)
        ensures
            options@ == (OpenRequest { read: true, write: true, create_new: true, ..OpenRequest::blank() }),
    {
        let mut options = OpenOptions::new();
        let _ = options.read(true);
        let _ = options.write(true);
        let _ = options.create_new(true);
        options
    }

    /// The options for reading a file.
    pub fn for_open() -> (options: OpenOptions)
        ensures
            options@ == (OpenRequest { read: true, ..OpenRequest::blank() }),
    {
        let mut options = OpenOptions::new();
        let _ = options.read(true);
        options
    }

    /// The Unix access flags.
    pub fn access_mode(&self, flags: &OpenFlags) -> (mode: Result<i32, IoError>)
        ensures
            mode == self@.spec_access_mode(*flags),
    {
        match (self.read, self.write, self.append) {
            (true, false, false) => Ok(flags.rdonly),
            (false, true, false) => Ok(flags.wronly),
            (true, true, false) => Ok(flags.rdwr),
            (false, _, true) => Ok(flags.wronly | flags.append),
            (true, _, true) => Ok(flags.rdwr | flags.append),
            (false, false, false) => Err(IoError::from_raw_os_error(flags.einval)),
        }
    }

    fn refuses_creation(&self) -> (refused: bool)
        ensures
            refused == self@.creation_refused(),
    {
        match (self.write, self.append) {
            (true, false) => false,
            (false, false) => self.truncate || self.create || self.create_new,
            (_, true) => self.truncate && !self.create_new,
        }
    }

    /// The Unix creation flags.
    pub fn creation_mode(&self, flags: &OpenFlags) -> (mode: Result<i32, IoError>)
        ensures
            mode == self@.spec_creation_mode(*flags),
    {
        if self.refuses_creation() {
            return Err(IoError::from_raw_os_error(flags.einval));
        }
        Ok(
            match (self.create, self.truncate, self.create_new) {
                (false, false, false) => 0,
                (true, false, false) => flags.creat,
                (false, true, false) => flags.trunc,
                (true, true, false) => flags.creat | flags.trunc,
                (_, _, true) => flags.creat | flags.excl,
            },
        )
    }

    /// All Unix open flags.
    pub fn open_flags(&self, flags: &OpenFlags) -> (all: Result<i32, IoError>)
        ensures
            all == self@.spec_open_flags(*flags),
    {
        let access = match self.access_mode(flags) {
            Ok(access) => access,
            Err(error) => {
                return Err(error);
            },
        };
        let creation = match self.creation_mode(flags) {
            Ok(creation) => creation,
            Err(error) => {
                return Err(error);
            },
        };
        Ok(flags.cloexec | access | creation | (self.custom_flags & !flags.accmode))
    }

    /// The Windows access mode.
    pub fn windows_access_mode(&self) -> (mode: Result<u32, IoError>)
        ensures
            mode == self@.spec_windows_access_mode(),
    {
        if let Some(mode) = self.access {
            return Ok(mode);
        }
        match (self.read, self.write, self.append) {
            (true, false, false) => Ok(GENERIC_READ),
            (false, true, false) => Ok(GENERIC_WRITE),
            (true, true, false) => Ok(GENERIC_READ | GENERIC_WRITE),
            (false, _, true) => Ok(FILE_GENERIC_WRITE & !FILE_WRITE_DATA),
            (true, _, true) => Ok(GENERIC_READ | (FILE_GENERIC_WRITE & !FILE_WRITE_DATA)),
            (false, false, false) => Err(IoError::from_raw_os_error(ERROR_INVALID_PARAMETER)),
        }
    }

    /// The Windows creation disposition.
    pub fn windows_creation_mode(&self) -> (mode: Result<u32, IoError>)
        ensures
            mode == self@.spec_windows_creation_mode(),
    {
        if self.refuses_creation() {
            return Err(IoError::from_raw_os_error(ERROR_INVALID_PARAMETER));
        }
        Ok(
            match (self.create, self.truncate, self.create_new) {
                (false, false, false) => OPEN_EXISTING,
                (true, false, false) => OPEN_ALWAYS,
                (false, true, false) => TRUNCATE_EXISTING,
                (true, true, false) => CREATE_ALWAYS,
                (_, _, true) => CREATE_NEW,
            },
        )
    }

    /// The Windows flags and attributes.
    pub fn get_flags_and_attributes(&self) -> (flags: u32)
        ensures
            flags == self@.spec_flags_and_attributes(),
    {
        self.windows_flags | self.attributes | self.security_qos_flags | FILE_FLAG_OVERLAPPED | if self.create_new {
            FILE_FLAG_OPEN_REPARSE_POINT
        } else {
            0
        }
    }
}

impl Default for OpenOptions {
    fn default() -> (options: Self)
        ensures
            options@ == OpenRequest::blank(),
    {
        OpenOptions::new()
    }
}

proof fn lemma_creation_bits(creat: i32, trunc: i32, excl: i32)
    by (bit_vector)
    requires
        creat & trunc == 0,
        creat & excl == 0,
        trunc & excl == 0,
    ensures
        (creat | excl) & creat == creat,
        (creat | excl) & excl == excl,
        (creat | excl) & trunc == 0,
        (creat | trunc) & creat == creat,
        (creat | trunc) & trunc == trunc,
        (creat | trunc) & excl == 0,
        creat & creat == creat,
        trunc & trunc == trunc,
        trunc & creat == 0,
        0i32 & creat == 0,
        0i32 & trunc == 0,
        0i32 & excl == 0,
{
}

/// The flags of a request on Linux, from their parts.
proof fn lemma_linux_bits(access: i32, creation: i32, further: i32, all: i32)
    by (bit_vector)
    requires
        access == 0 || access == 1 || access == 2 || access == 0o2001 || access == 0o2002,
        creation == 0 || creation == 0o100 || creation == 0o1000 || creation == 0o1100 || creation == 0o300,
        all == 0o2000000i32 | access | creation | (further & !3i32),
    ensures
        all & 0o2000000 != 0,
        all & 3 == access & 3,
        (all & 0o2000 != 0) == (access & 0o2000 != 0 || further & 0o2000 != 0),
        (all & 0o100 != 0) == (creation & 0o100 != 0 || further & 0o100 != 0),
        (all & 0o200 != 0) == (creation & 0o200 != 0 || further & 0o200 != 0),
        (all & 0o1000 != 0) == (creation & 0o1000 != 0 || further & 0o1000 != 0),
        0i32 & 3 == 0,
        1i32 & 3 == 1,
        2i32 & 3 == 2,
        0o2001i32 & 3 == 1,
        0o2002i32 & 3 == 2,
        0i32 & 0o2000 == 0,
        1i32 & 0o2000 == 0,
        2i32 & 0o2000 == 0,
        0o2001i32 & 0o2000 != 0,
        0o2002i32 & 0o2000 != 0,
        0i32 & 0o100 == 0,
        0o100i32 & 0o100 != 0,
        0o1000i32 & 0o100 == 0,
        0o1100i32 & 0o100 != 0,
        0o300i32 & 0o100 != 0,
        0i32 & 0o200 == 0,
        0o100i32 & 0o200 == 0,
        0o1000i32 & 0o200 == 0,
        0o1100i32 & 0o200 == 0,
        0o300i32 & 0o200 != 0,
        0i32 & 0o1000 == 0,
        0o100i32 & 0o1000 == 0,
        0o1000i32 & 0o1000 != 0,
        0o1100i32 & 0o1000 != 0,
        0o300i32 & 0o1000 == 0,
{
}

/// The numbers of the parts on Linux.
proof fn lemma_linux_parts()
    by (bit_vector)
    ensures
        1i32 | 0o2000i32 == 0o2001,
        2i32 | 0o2000i32 == 0o2002,
        0o100i32 | 0o1000i32 == 0o1100,
        0o100i32 | 0o200i32 == 0o300,
{
}

/// Whether opening with this Windows disposition makes a missing file.
pub open spec fn makes_missing_file(disposition: u32) -> bool {
    disposition == CREATE_NEW || disposition == CREATE_ALWAYS || disposition == OPEN_ALWAYS
}

/// Whether opening with this Windows disposition takes an old file.
pub open spec fn takes_old_file(disposition: u32) -> bool {
    disposition == CREATE_ALWAYS || disposition == OPEN_EXISTING || disposition == OPEN_ALWAYS || disposition
        == TRUNCATE_EXISTING
}

/// Whether opening with this Windows disposition empties an old file.
pub open spec fn empties_old_file(disposition: u32) -> bool {
    disposition == CREATE_ALWAYS || disposition == TRUNCATE_EXISTING
}

impl OpenRequest {
    /// What becomes of a file is what was asked for, whatever the access: the flags
    /// to open it make it if and only if `create` or `create_new` was asked for,
    /// fail on an old one if and only if `create_new` was, and empty an old one if
    /// and only if `truncate` was and a new one was not. So no file is emptied that
    /// nobody asked to empty.
    pub proof fn law_files_are_made_and_emptied_as_asked(self, flags: OpenFlags, mode: i32)
        requires
            self.spec_creation_mode(flags) == Ok::<i32, IoError>(mode),
            flags.creat != 0,
            flags.trunc != 0,
            flags.excl != 0,
            flags.creat & flags.trunc == 0,
            flags.creat & flags.excl == 0,
            flags.trunc & flags.excl == 0,
        ensures
            mode & flags.creat == flags.creat <==> self.create || self.create_new,
            mode & flags.excl == flags.excl <==> self.create_new,
            mode & flags.trunc == flags.trunc <==> self.truncate && !self.create_new,
            !self.truncate ==> mode & flags.trunc == 0,
            !self.create && !self.create_new && !self.truncate ==> mode == 0,
    {
        lemma_creation_bits(flags.creat, flags.trunc, flags.excl);
    }

    /// A file can be opened if and only if some access was asked for, and access to
    /// write where the file is to be made or emptied. An appender may make a file
    /// but not empty one, and a file that has to be new needs no emptying. Otherwise
    /// the system's error for wrong parameters comes back.
    pub proof fn law_when_opening_is_refused(self, flags: OpenFlags)
        ensures
            self.spec_open_flags(flags) is Ok <==> (self.read || self.write || self.append) && (self.write
                || self.append || !(self.create || self.truncate || self.create_new)) && !(self.append
                && self.truncate && !self.create_new),
            self.spec_open_flags(flags) matches Err(error) ==> error == IoError::Os(flags.einval),
            self.spec_creation_mode(flags) is Ok <==> self.spec_windows_creation_mode() is Ok,
            self.access is None ==> (self.spec_access_mode(flags) is Ok <==> self.spec_windows_access_mode() is Ok),
            self.spec_windows_creation_mode() matches Err(error) ==> error == IoError::Os(87),
            self.spec_windows_access_mode() matches Err(error) ==> error == IoError::Os(87),
    {
    }

    /// On Linux a path that cannot be opened as it was asked for is refused as an
    /// invalid argument.
    pub proof fn law_linux_refuses_as_invalid(self, error: IoError)
        requires
            self.spec_open_flags(OpenFlags::spec_linux()) == Err::<i32, IoError>(error),
        ensures
            error == IoError::Os(22),
    {
    }

    /// On Linux the flags say exactly what was asked for: the access, whether writes
    /// go to the end, whether a missing file is made, whether an old one is refused
    /// or emptied. The descriptor is never handed to child processes. Further flags
    /// add to that, but do not change the access.
    pub proof fn law_linux_flags_say_what_was_asked(self, all: i32)
        requires
            self.spec_open_flags(OpenFlags::spec_linux()) == Ok::<i32, IoError>(all),
        ensures
            all & 0o2000000 != 0,
            all & 3 == 0 <==> self.read && !self.write && !self.append,
            all & 3 == 1 <==> !self.read,
            all & 3 == 2 <==> self.read && (self.write || self.append),
            all & 0o2000 != 0 <==> self.append || self.custom_flags & 0o2000 != 0,
            all & 0o100 != 0 <==> self.create || self.create_new || self.custom_flags & 0o100 != 0,
            all & 0o200 != 0 <==> self.create_new || self.custom_flags & 0o200 != 0,
            all & 0o1000 != 0 <==> self.truncate && !self.create_new || self.custom_flags & 0o1000 != 0,
    {
        lemma_linux_parts();
        let flags = OpenFlags::spec_linux();
        let access = self.spec_access_mode(flags)->Ok_0;
        let creation = self.spec_creation_mode(flags)->Ok_0;
        lemma_linux_bits(access, creation, self.custom_flags, all);
    }

    /// The same on Windows: a missing file is made, and an old one taken or emptied,
    /// if and only if that was asked for.
    pub proof fn law_windows_makes_and_empties_as_asked(self, disposition: u32)
        requires
            self.spec_windows_creation_mode() == Ok::<u32, IoError>(disposition),
        ensures
            1 <= disposition <= 5,
            makes_missing_file(disposition) <==> self.create || self.create_new,
            takes_old_file(disposition) <==> !self.create_new,
            empties_old_file(disposition) <==> self.truncate && !self.create_new,
    {
    }

    /// On Windows the access is what was asked for, unless it was given: to read, to
    /// write anywhere, or to write at the end only.
    pub proof fn law_windows_access_is_what_was_asked(self, mode: u32)
        requires
            self.spec_windows_access_mode() == Ok::<u32, IoError>(mode),
        ensures
            self.access matches Some(given) ==> mode == given,
            self.access is None ==> {
                &&& mode & 0x8000_0000 != 0 <==> self.read
                &&& mode & 0x4000_0000 != 0 <==> self.write && !self.append
                &&& mode & 0x4 != 0 <==> self.append
                &&& mode & 0x2 == 0
            },
    {
        assert(0x8000_0000u32 & 0x8000_0000 != 0 && 0x8000_0000u32 & 0x4000_0000 == 0 && 0x8000_0000u32 & 0x4 == 0
            && 0x8000_0000u32 & 0x2 == 0 && 0x4000_0000u32 & 0x8000_0000 == 0 && 0x4000_0000u32 & 0x4000_0000 != 0
            && 0x4000_0000u32 & 0x4 == 0 && 0x4000_0000u32 & 0x2 == 0) by (bit_vector);
        assert((0x8000_0000u32 | 0x4000_0000u32) & 0x8000_0000 != 0 && (0x8000_0000u32 | 0x4000_0000u32) & 0x4000_0000
            != 0 && (0x8000_0000u32 | 0x4000_0000u32) & 0x4 == 0 && (0x8000_0000u32 | 0x4000_0000u32) & 0x2 == 0)
            by (bit_vector);
        let append = FILE_GENERIC_WRITE & !FILE_WRITE_DATA;
        assert(append == 0x0012_0114) by {
            assert(0x0012_0116u32 & !0x2u32 == 0x0012_0114) by (bit_vector);
        }
        assert(0x0012_0114u32 & 0x8000_0000 == 0 && 0x0012_0114u32 & 0x4000_0000 == 0 && 0x0012_0114u32 & 0x4 != 0
            && 0x0012_0114u32 & 0x2 == 0 && (0x8000_0000u32 | 0x0012_0114u32) & 0x8000_0000 != 0 && (0x8000_0000u32
            | 0x0012_0114u32) & 0x4000_0000 == 0 && (0x8000_0000u32 | 0x0012_0114u32) & 0x4 != 0 && (0x8000_0000u32
            | 0x0012_0114u32) & 0x2 == 0) by (bit_vector);
    }

    /// On Windows every file is opened for overlapped work, and one that has to be
    /// new is not looked for behind a link. All that was asked for besides is kept.
    pub proof fn law_windows_flags_keep_what_was_asked(self)
        ensures
            ({
                let flags = self.spec_flags_and_attributes();
                &&& flags & 0x4000_0000 != 0
                &&& self.create_new ==> flags & 0x0020_0000 != 0
                &&& flags & self.windows_flags == self.windows_flags
                &&& flags & self.attributes == self.attributes
                &&& flags & self.security_qos_flags == self.security_qos_flags
                &&& !self.create_new && self.windows_flags == 0 && self.attributes == 0 && self.security_qos_flags == 0
                    ==> flags == 0x4000_0000
            }),
    {
        let a = self.windows_flags;
        let b = self.attributes;
        let c = self.security_qos_flags;
        let d: u32 = if self.create_new {
            FILE_FLAG_OPEN_REPARSE_POINT
        } else {
            0
        };
        assert((a | b | c | 0x4000_0000u32 | d) & 0x4000_0000 != 0 && (a | b | c | 0x4000_0000u32 | d) & a == a && (a
            | b | c | 0x4000_0000u32 | d) & b == b && (a | b | c | 0x4000_0000u32 | d) & c == c && (d == 0x0020_0000
            ==> (a | b | c | 0x4000_0000u32 | d) & 0x0020_0000 != 0) && (a == 0 && b == 0 && c == 0 && d == 0 ==> (a
            | b | c | 0x4000_0000u32 | d) == 0x4000_0000)) by (bit_vector);
    }
}

impl OpenOptions {
    /// What is not asked for is not there: options begin with nothing asked for, and
    /// a new file may be read and written by everybody, as far as the system lets
    /// it. The ready-made options ask for what their names say.
    pub proof fn law_options_begin_with_nothing(
        blank: OpenOptions,
        create: OpenOptions,
        create_new: OpenOptions,
        open: OpenOptions,
    )
        requires
            call_ensures(OpenOptions::new, (), blank),
            call_ensures(OpenOptions::for_create, (), create),
            call_ensures(OpenOptions::for_create_new, (), create_new),
            call_ensures(OpenOptions::for_open, (), open),
        ensures
            !blank@.read && !blank@.write && !blank@.append && !blank@.truncate && !blank@.create
                && !blank@.create_new && blank@.mode == 0o666 && blank@.custom_flags == 0 && blank@.access is None,
            blank@.share_mode == 7 && blank@.windows_flags == 0 && blank@.attributes == 0 && blank@.security_qos_flags
                == 0,
            create@ == (OpenRequest { write: true, create: true, truncate: true, ..blank@ }),
            create_new@ == (OpenRequest { read: true, write: true, create_new: true, ..blank@ }),
            open@ == (OpenRequest { read: true, ..blank@ }),
    {
        assert(1u32 | 2u32 | 4u32 == 7) by (bit_vector);
    }
}

} // verus!
