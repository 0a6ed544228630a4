use pingrs::error::{IoErrorKind, PingError};
use std::io;

#[test]
fn test_error_display() {
    let errors = vec![
        PingError::Timeout,
        PingError::PermissionDenied,
        PingError::InvalidPacket("Test error".to_string()),
        PingError::InvalidArgument("Test argument".to_string()),
        PingError::UnsupportedPlatform,
    ];

    for error in errors {
        let display = error.message();
        assert!(!display.is_empty());
    }
}

#[test]
fn error_messages() {
    assert_eq!(PingError::Timeout.message(), "Operation timed out");
    assert_eq!(
        PingError::PermissionDenied.message(),
        "Permission denied (raw socket requires root/admin privileges)"
    );
    assert_eq!(PingError::InvalidPacket("bad".to_string()).message(), "Invalid packet: bad");
    assert_eq!(PingError::InvalidArgument("x".to_string()).message(), "Invalid argument: x");
    assert_eq!(PingError::UnsupportedPlatform.message(), "Unsupported platform");
    let io_err = PingError::Io(io::Error::new(io::ErrorKind::Other, "boom"));
    assert_eq!(io_err.message(), "I/O error: boom");
}

#[test]
fn io_errors_convert_by_kind() {
    let e = PingError::from_io_error(io::Error::from(io::ErrorKind::PermissionDenied));
    assert!(matches!(e, PingError::PermissionDenied));
    let e = PingError::from_io_error(io::Error::from(io::ErrorKind::TimedOut));
    assert!(matches!(e, PingError::Timeout));
    let e = PingError::from_io_error(io::Error::from(io::ErrorKind::WouldBlock));
    match e {
        PingError::Io(inner) => assert_eq!(inner.kind(), io::ErrorKind::WouldBlock),
        other => panic!("unexpected {:?}", other),
    }
}

#[test]
fn io_kind_table() {
    let e = PingError::from_io_kind(IoErrorKind::PermissionDenied, io::Error::from(io::ErrorKind::Other));
    assert!(matches!(e, PingError::PermissionDenied));
    let e = PingError::from_io_kind(IoErrorKind::TimedOut, io::Error::from(io::ErrorKind::Other));
    assert!(matches!(e, PingError::Timeout));
    let e = PingError::from_io_kind(IoErrorKind::Other, io::Error::from(io::ErrorKind::NotFound));
    assert!(matches!(e, PingError::Io(_)));
}
