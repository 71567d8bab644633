//! The error type used throughout the library.

use vstd::prelude::*;

verus! {

/// std::io::Error, carried unchanged in `WebSocketError::IoError`.
#[verifier::external_type_specification]
#[verifier::external_body]
pub struct ExIoError(std::io::Error);

/// std::str::Utf8Error, the error of std::str::from_utf8, carried unchanged.
#[verifier::external_type_specification]
#[verifier::external_body]
pub struct ExUtf8Error(std::str::Utf8Error);

/// url::ParseError, carried unchanged in `WebSocketError::UrlError`.
#[verifier::external_type_specification]
#[verifier::external_body]
pub struct ExUrlParseError(url::ParseError);

/// openssl::error::ErrorStack, carried unchanged in `WebSocketError::TlsError`.
#[verifier::external_type_specification]
#[verifier::external_body]
pub struct ExErrorStack(openssl::error::ErrorStack);

/// The type used for WebSocket results.
pub type WebSocketResult<T> = Result<T, WebSocketError>;

/// Represents a WebSocket error.
#[derive(Debug)]
pub enum WebSocketError {
    /// A WebSocket protocol error
    ProtocolError(&'static str),
    /// Invalid WebSocket request error
    RequestError(&'static str),
    /// Invalid WebSocket response error
    ResponseError(&'static str),
    /// Invalid WebSocket data frame error
    DataFrameError(&'static str),
    /// No data available: the input ended before a complete unit was read
    NoDataAvailable,
    /// An input/output error of the transport
    IoError(std::io::Error),
    /// An HTTP parsing error during the handshake
    HttpError(&'static str),
    /// A URL parsing error
    UrlError(url::ParseError),
    /// A WebSocket URL error
    WebSocketUrlError(WSUrlErrorKind),
    /// A TLS error
    TlsError(openssl::error::ErrorStack),
    /// A TLS handshake failure
    TlsHandshakeFailure,
    /// A TLS handshake interruption
    TlsHandshakeInterruption,
    /// A UTF-8 error
    Utf8Error(std::str::Utf8Error),
}

/// Represents a WebSocket URL error.
#[derive(Debug, Clone, Copy, PartialEq, Eq, Structural)]
pub enum WSUrlErrorKind {
    /// Fragments are not valid in a WebSocket URL
    CannotSetFragment,
    /// The scheme provided is invalid for a WebSocket
    InvalidScheme,
    /// There is no hostname or IP address to connect to
    NoHostName,
}

impl WebSocketError {
    /// A short description of the kind of error.
    pub fn description(&self) -> (r: &'static str) {
        match self {
            WebSocketError::ProtocolError(_) => "WebSocket protocol error",
            WebSocketError::RequestError(_) => "WebSocket request error",
            WebSocketError::ResponseError(_) => "WebSocket response error",
            WebSocketError::DataFrameError(_) => "WebSocket data frame error",
            WebSocketError::NoDataAvailable => "No data available",
            WebSocketError::IoError(_) => "I/O failure",
            WebSocketError::HttpError(_) => "HTTP failure",
            WebSocketError::UrlError(_) => "URL failure",
            WebSocketError::WebSocketUrlError(_) => "WebSocket URL failure",
            WebSocketError::TlsError(_) => "TLS failure",
            WebSocketError::TlsHandshakeFailure => "TLS Handshake failure",
            WebSocketError::TlsHandshakeInterruption => "TLS Handshake interrupted",
            WebSocketError::Utf8Error(_) => "UTF-8 failure",
        }
    }
}

impl WSUrlErrorKind {
    /// A short description of the URL error.
    pub fn description(&self) -> (r: &'static str) {
        match self {
            WSUrlErrorKind::CannotSetFragment => "WebSocket URL cannot set fragment",
            WSUrlErrorKind::InvalidScheme => "WebSocket URL invalid scheme",
            WSUrlErrorKind::NoHostName => "WebSocket URL no host name provided",
        }
    }
}

} // verus!
