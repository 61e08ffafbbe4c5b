//! Errors as plain values.
use vstd::prelude::*;

verus! {

/// The error categories that this crate tells apart.
///
/// Every category that the crate neither reports nor inspects is `Other`.
#[derive(Clone, Copy, Debug, PartialEq, Eq, Structural)]
pub enum ErrorKind {
    AlreadyExists,
    BrokenPipe,
    Interrupted,
    InvalidData,
    InvalidInput,
    NotConnected,
    NotFound,
    OutOfMemory,
    PermissionDenied,
    ResourceBusy,
    Unsupported,
    WouldBlock,
    WriteZero,
    Other,
}

/// An I/O failure.
#[derive(Clone, Copy, Debug)]
pub enum IoError {
    /// An error code reported by the operating system.
    Os(i32),
    /// A failure detected by this crate, or by a layer above it.
    Custom { kind: ErrorKind, message: &'static str },
    /// A failure with nothing to say beyond its category.
    Simple(ErrorKind),
    /// The platform claimed to have moved more bytes than were offered to it.
    BufferOverrun { capacity: usize },
}

/// The category that the standard library gives an operating system error code
/// on the platform this crate is built for.
pub uninterp spec fn os_error_kind(code: i32) -> ErrorKind;

/// Asks [`std::io::Error::kind`] for the category of an operating system error
/// code.
///
/// The claim is only that the answer depends on nothing but the code. The
/// categories of the standard library that this crate does not tell apart come
/// back as `Other`.
#[verifier::external_body]
fn kind_of_os_error(code: i32) -> (kind: ErrorKind)
    ensures
        kind == os_error_kind(code),
{
    match std::io::Error::from_raw_os_error(code).kind() {
        std::io::ErrorKind::AlreadyExists => ErrorKind::AlreadyExists,
        std::io::ErrorKind::BrokenPipe => ErrorKind::BrokenPipe,
        std::io::ErrorKind::Interrupted => ErrorKind::Interrupted,
        std::io::ErrorKind::InvalidInput => ErrorKind::InvalidInput,
        std::io::ErrorKind::NotConnected => ErrorKind::NotConnected,
        std::io::ErrorKind::NotFound => ErrorKind::NotFound,
        std::io::ErrorKind::OutOfMemory => ErrorKind::OutOfMemory,
        std::io::ErrorKind::PermissionDenied => ErrorKind::PermissionDenied,
        std::io::ErrorKind::ResourceBusy => ErrorKind::ResourceBusy,
        std::io::ErrorKind::Unsupported => ErrorKind::Unsupported,
        std::io::ErrorKind::WouldBlock => ErrorKind::WouldBlock,
        _ => ErrorKind::Other,
    }
}

impl IoError {
    /// The category of this error.
    pub open spec fn spec_kind(self) -> ErrorKind {
        match self {
            IoError::Os(code) => os_error_kind(code),
            IoError::Custom { kind, .. } => kind,
            IoError::Simple(kind) => kind,
            IoError::BufferOverrun { .. } => ErrorKind::InvalidData,
        }
    }

    /// The operating system code that this error carries, if it carries one.
    pub open spec fn spec_raw_os_error(self) -> Option<i32> {
        match self {
            IoError::Os(code) => Some(code),
            _ => None,
        }
    }

    /// An error of category `kind` with a fixed description.
    pub fn new(kind: ErrorKind, message: &'static str) -> (error: IoError)
        ensures
            error == (IoError::Custom { kind, message }),
    {
        IoError::Custom { kind, message }
    }

    /// An error without a more specific category.
    pub fn other(message: &'static str) -> (error: IoError)
        ensures
            error == (IoError::Custom { kind: ErrorKind::Other, message }),
    {
        IoError::Custom { kind: ErrorKind::Other, message }
    }

    /// The error for an operating system code.
    pub fn from_raw_os_error(code: i32) -> (error: IoError)
        ensures
            error == IoError::Os(code),
    {
        IoError::Os(code)
    }

    /// The category of this error.
    pub fn kind(&self) -> (kind: ErrorKind)
        ensures
            kind == self.spec_kind(),
    {
        match self {
            IoError::Os(code) => kind_of_os_error(*code),
            IoError::Custom { kind, .. } => *kind,
            IoError::Simple(kind) => *kind,
            IoError::BufferOverrun { .. } => ErrorKind::InvalidData,
        }
    }

    /// The operating system code, where the operating system reported the error.
    pub fn raw_os_error(&self) -> (code: Option<i32>)
        ensures
            code == self.spec_raw_os_error(),
    {
        match self {
            IoError::Os(code) => Some(*code),
            _ => None,
        }
    }
}

impl IoError {
    /// An error keeps what it was made from: a code of the system stays that code, a
    /// category stays that category, and only the system's errors have codes.
    pub proof fn law_errors_keep_what_they_were_made_from(
        code: i32,
        kind: ErrorKind,
        message: &'static str,
        capacity: usize,
        from_code: IoError,
        from_kind: IoError,
        other: IoError,
    )
        requires
            call_ensures(IoError::from_raw_os_error, (code,), from_code),
            call_ensures(IoError::new, (kind, message), from_kind),
            call_ensures(IoError::other, (message,), other),
        ensures
            from_code.spec_raw_os_error() == Some(code),
            from_code.spec_kind() == os_error_kind(code),
            from_kind.spec_raw_os_error() is None,
            from_kind.spec_kind() == kind,
            other.spec_raw_os_error() is None,
            other.spec_kind() == ErrorKind::Other,
            IoError::Simple(kind).spec_kind() == kind,
            (IoError::BufferOverrun { capacity }).spec_kind() == ErrorKind::InvalidData,
    {
    }
}

} // verus!
