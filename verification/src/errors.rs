//! The error taxonomy of the engine.
//!
//! Every failure surfaced by the engine is one of these variants. The
//! variants that carry a `String` hold the full, already contextualized
//! message (a short operation prefix followed by the underlying report);
//! `NotConnected` is the one fixed-text failure, raised whenever an
//! operation is attempted with no active session.

use vstd::prelude::*;

verus! {

/// A failure surfaced to the caller of the engine.
#[derive(Debug, PartialEq, Eq)]
pub enum FtpError {
    /// The transport could not be opened or was reset.
    ConnectionError(String),
    /// The TLS upgrade or handshake failed.
    TlsError(String),
    /// The server rejected the credentials.
    AuthError(String),
    /// An operation was attempted with no active session.
    NotConnected,
    /// The server rejected a command; carries the server's report.
    OperationError(String),
    /// An I/O or protocol fault occurred during a transfer.
    TransferError(String),
}

/// The text a caller sees for an error.
pub open spec fn error_text(e: FtpError) -> Seq<char> {
    match e {
        FtpError::ConnectionError(m) => m@,
        FtpError::TlsError(m) => m@,
        FtpError::AuthError(m) => m@,
        FtpError::NotConnected => "No active FTP connection"@,
        FtpError::OperationError(m) => m@,
        FtpError::TransferError(m) => m@,
    }
}

impl Clone for FtpError {
    /// An equal error: same variant, same carried message.
    fn clone(&self) -> (r: Self)
        ensures
            r == *self,
    {
        match self {
            FtpError::ConnectionError(m) => FtpError::ConnectionError(m.clone()),
            FtpError::TlsError(m) => FtpError::TlsError(m.clone()),
            FtpError::AuthError(m) => FtpError::AuthError(m.clone()),
            FtpError::NotConnected => FtpError::NotConnected,
            FtpError::OperationError(m) => FtpError::OperationError(m.clone()),
            FtpError::TransferError(m) => FtpError::TransferError(m.clone()),
        }
    }
}

/// The error is a `ConnectionError` carrying exactly `text`.
pub open spec fn is_connection_error(e: FtpError, text: Seq<char>) -> bool {
    e matches FtpError::ConnectionError(m) && m@ == text
}

/// The error is a `TlsError` carrying exactly `text`.
pub open spec fn is_tls_error(e: FtpError, text: Seq<char>) -> bool {
    e matches FtpError::TlsError(m) && m@ == text
}

/// The error is an `AuthError` carrying exactly `text`.
pub open spec fn is_auth_error(e: FtpError, text: Seq<char>) -> bool {
    e matches FtpError::AuthError(m) && m@ == text
}

/// The error is an `OperationError` carrying exactly `text`.
pub open spec fn is_op_error(e: FtpError, text: Seq<char>) -> bool {
    e matches FtpError::OperationError(m) && m@ == text
}

/// The error is a `TransferError` carrying exactly `text`.
pub open spec fn is_transfer_error(e: FtpError, text: Seq<char>) -> bool {
    e matches FtpError::TransferError(m) && m@ == text
}

impl FtpError {
    /// The message carried by the error, or the fixed text for
    /// `NotConnected`.
    pub fn message(&self) -> (r: String)
        ensures
            r@ == error_text(*self),
    {
        match self {
            FtpError::ConnectionError(m) => m.clone(),
            FtpError::TlsError(m) => m.clone(),
            FtpError::AuthError(m) => m.clone(),
            FtpError::NotConnected => String::from_str("No active FTP connection"),
            FtpError::OperationError(m) => m.clone(),
            FtpError::TransferError(m) => m.clone(),
        }
    }
}

} // verus!
