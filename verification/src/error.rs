//! The error type of the library.

use vstd::prelude::*;
use vstd::string::*;

verus! {

/// The standard I/O error, carried through unchanged by [`PingError::Io`].
#[verifier::external_type_specification]
#[verifier::external_body]
pub struct ExIoError(std::io::Error);

/// The kinds of I/O error that the library tells apart.
#[derive(Debug, Clone, Copy, PartialEq, Eq, Structural)]
pub enum IoErrorKind {
    /// `std::io::ErrorKind::PermissionDenied`
    PermissionDenied,
    /// `std::io::ErrorKind::TimedOut`
    TimedOut,
    /// Any other kind.
    Other,
}

/// Errors of the ping library.
#[derive(Debug)]
pub enum PingError {
    /// An I/O error.
    Io(std::io::Error),
    /// A packet that cannot be used.
    InvalidPacket(String),
    /// The operation timed out.
    Timeout,
    /// Raw sockets need privileges that the process lacks.
    PermissionDenied,
    /// An argument that cannot be used.
    InvalidArgument(String),
    /// The platform is not supported.
    UnsupportedPlatform,
}

/// Result type of the library.
pub type Result<T> = core::result::Result<T, PingError>;

/// `r` is the error [`PingError::InvalidPacket`] with the message `msg`.
pub open spec fn is_invalid_packet<T>(r: core::result::Result<T, PingError>, msg: Seq<char>) -> bool {
    r matches Err(PingError::InvalidPacket(m)) && m@ == msg
}

/// What `std::io::Error::kind` reports of an error, in the kinds the library tells apart.
pub uninterp spec fn io_error_kind_of(err: std::io::Error) -> IoErrorKind;

/// Reads the kind of an I/O error (`std::io::Error::kind`); kinds other than
/// permission denied and timed out are reported as `Other`.
#[verifier::external_body]
fn io_error_kind(err: &std::io::Error) -> (k: IoErrorKind)
    ensures
        k == io_error_kind_of(*err),
{
    match err.kind() {
        std::io::ErrorKind::PermissionDenied => IoErrorKind::PermissionDenied,
        std::io::ErrorKind::TimedOut => IoErrorKind::TimedOut,
        _ => IoErrorKind::Other,
    }
}

/// Renders an I/O error as its `Display` implementation does (`format!("{}", err)`).
/// The text comes from the operating system and may depend on its locale, so
/// nothing is stated of it.
#[verifier::external_body]
fn io_error_text(err: &std::io::Error) -> String {
    format!("{}", err)
}

/// The error that an I/O error of the given kind becomes.
pub open spec fn error_of_io_kind(kind: IoErrorKind, err: std::io::Error) -> PingError {
    match kind {
        IoErrorKind::PermissionDenied => PingError::PermissionDenied,
        IoErrorKind::TimedOut => PingError::Timeout,
        IoErrorKind::Other => PingError::Io(err),
    }
}

impl PingError {
    /// Converts an I/O error of a known kind: a permission error becomes
    /// [`PingError::PermissionDenied`], a timeout [`PingError::Timeout`], and
    /// any other error is kept as [`PingError::Io`].
    pub fn from_io_kind(kind: IoErrorKind, err: std::io::Error) -> (r: PingError)
        ensures
            r == error_of_io_kind(kind, err),
    {
        match kind {
            IoErrorKind::PermissionDenied => PingError::PermissionDenied,
            IoErrorKind::TimedOut => PingError::Timeout,
            IoErrorKind::Other => PingError::Io(err),
        }
    }

    /// Converts an I/O error, by its kind, as [`PingError::from_io_kind`] does.
    pub fn from_io_error(err: std::io::Error) -> (r: PingError)
        ensures
            r == error_of_io_kind(io_error_kind_of(err), err),
    {
        let kind = io_error_kind(&err);
        PingError::from_io_kind(kind, err)
    }

    /// Converts the error met while opening a raw socket: a permission error
    /// becomes [`PingError::PermissionDenied`], any other is kept as
    /// [`PingError::Io`].
    pub fn from_open_error(err: std::io::Error) -> (r: PingError)
        ensures
            io_error_kind_of(err) == IoErrorKind::PermissionDenied ==> r is PermissionDenied,
            io_error_kind_of(err) != IoErrorKind::PermissionDenied ==> r == PingError::Io(err),
    {
        match io_error_kind(&err) {
            IoErrorKind::PermissionDenied => PingError::PermissionDenied,
            _ => PingError::Io(err),
        }
    }

    /// The human-readable description of the error.
    pub fn message(&self) -> (r: String)
        ensures
            match self {
                PingError::Io(_) => exists|t: Seq<char>| r@ == "I/O error: "@ + t,
                PingError::InvalidPacket(msg) => r@ == "Invalid packet: "@ + msg@,
                PingError::Timeout => r@ == "Operation timed out"@,
                PingError::PermissionDenied => r@
                    == "Permission denied (raw socket requires root/admin privileges)"@,
                PingError::InvalidArgument(msg) => r@ == "Invalid argument: "@ + msg@,
                PingError::UnsupportedPlatform => r@ == "Unsupported platform"@,
            },
    {
        match self {
            PingError::Io(err) => {
                let text = io_error_text(err);
                let r = String::from_str("I/O error: ").concat(text.as_str());
                assert(r@ == "I/O error: "@ + text@);
                r
            },
            PingError::InvalidPacket(msg) => String::from_str("Invalid packet: ").concat(
                msg.as_str(),
            ),
            PingError::Timeout => String::from_str("Operation timed out"),
            PingError::PermissionDenied => String::from_str(
                "Permission denied (raw socket requires root/admin privileges)",
            ),
            PingError::InvalidArgument(msg) => String::from_str("Invalid argument: ").concat(
                msg.as_str(),
            ),
            PingError::UnsupportedPlatform => String::from_str("Unsupported platform"),
        }
    }
}

} // verus!
