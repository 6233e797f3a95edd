//! Which socket errors a tunnel survives.

use std::io::ErrorKind;

use vstd::prelude::*;

verus! {

#[verifier::external_type_specification]
#[verifier::external_body]
pub struct ExIoError(std::io::Error);

/// The kinds of socket errors that are told apart.
#[derive(Clone, Copy, Debug, PartialEq, Eq, Structural)]
pub enum SocketErrorKind {
    ConnectionRefused,
    ConnectionReset,
    ConnectionAborted,
    HostUnreachable,
    NetworkUnreachable,
    Interrupted,
    WouldBlock,
    TimedOut,
    NotConnected,
    AddrNotAvailable,
    PermissionDenied,
    InvalidInput,
    /// Any other.
    Other,
}

/// The kind of an error.
pub uninterp spec fn kind_of(error: std::io::Error) -> SocketErrorKind;

/// `std::io::Error::kind`, as far as the kinds are told apart here.
#[verifier::external_body]
fn error_kind(error: &std::io::Error) -> (r: SocketErrorKind)
    ensures
        r == kind_of(*error),
{
    match error.kind() {
        ErrorKind::ConnectionRefused => SocketErrorKind::ConnectionRefused,
        ErrorKind::ConnectionReset => SocketErrorKind::ConnectionReset,
        ErrorKind::ConnectionAborted => SocketErrorKind::ConnectionAborted,
        ErrorKind::HostUnreachable => SocketErrorKind::HostUnreachable,
        ErrorKind::NetworkUnreachable => SocketErrorKind::NetworkUnreachable,
        ErrorKind::Interrupted => SocketErrorKind::Interrupted,
        ErrorKind::WouldBlock => SocketErrorKind::WouldBlock,
        ErrorKind::TimedOut => SocketErrorKind::TimedOut,
        ErrorKind::NotConnected => SocketErrorKind::NotConnected,
        ErrorKind::AddrNotAvailable => SocketErrorKind::AddrNotAvailable,
        ErrorKind::PermissionDenied => SocketErrorKind::PermissionDenied,
        ErrorKind::InvalidInput => SocketErrorKind::InvalidInput,
        _ => SocketErrorKind::Other,
    }
}

/// Whether an error of this kind passes by itself.
pub open spec fn passes(kind: SocketErrorKind) -> bool {
    ||| kind is ConnectionRefused
    ||| kind is ConnectionReset
    ||| kind is ConnectionAborted
    ||| kind is HostUnreachable
    ||| kind is NetworkUnreachable
    ||| kind is Interrupted
    ||| kind is WouldBlock
    ||| kind is TimedOut
}

/// Whether an error of this kind passes by itself.
pub fn is_transient_kind(kind: SocketErrorKind) -> (r: bool)
    ensures
        r == passes(kind),
{
    match kind {
        SocketErrorKind::ConnectionRefused
        | SocketErrorKind::ConnectionReset
        | SocketErrorKind::ConnectionAborted
        | SocketErrorKind::HostUnreachable
        | SocketErrorKind::NetworkUnreachable
        | SocketErrorKind::Interrupted
        | SocketErrorKind::WouldBlock
        | SocketErrorKind::TimedOut => true,
        _ => false,
    }
}

/// Whether the error passes by itself: the peer or the path refused a datagram,
/// or there was nothing to read yet. Any other error means that the socket is
/// broken.
pub fn is_transient_socket_error(error: &std::io::Error) -> (r: bool)
    ensures
        r == passes(kind_of(*error)),
{
    is_transient_kind(error_kind(error))
}

} // verus!
