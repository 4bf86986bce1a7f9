//! Error taxonomy of the core: every operation returns success or exactly one
//! of these errors; nothing is retried inside the core.

use vstd::prelude::*;

verus! {

/// Outcome of a single authentication attempt.
#[derive(Clone, Copy, PartialEq, Eq, Structural, Debug)]
pub enum AuthError {
    /// The private key material could not be decoded.
    BadKey,
    /// The server refused structurally valid credentials.
    Rejected,
    /// A transport-level fault occurred during the attempt.
    Transport,
}

/// Errors of vault, transport, session and file-transfer operations.
#[derive(PartialEq, Eq, Debug)]
pub enum CoreError {
    /// Network-level failure reaching a host; carries a description.
    Connect(String),
    /// Proxy handshake or CONNECT rejection; carries the proxy's raw response text.
    Proxy(String),
    /// Pseudo-terminal, shell or subsystem request refused.
    Channel(String),
    /// A session id or remote path is absent.
    NotFound,
    /// A remote file operation fault; carries the remote error text.
    Io(String),
    /// Encryption, decryption or authentication-tag failure.
    Crypto,
    /// A malformed persisted or imported document.
    Format,
}

impl CoreError {
    /// A short description of the error, suitable for surfacing to a caller.
    pub fn message(&self) -> (r: String)
        ensures
            self matches CoreError::Proxy(t) ==> r@ == t@,
            self matches CoreError::Io(t) ==> r@ == t@,
            self is Crypto ==> r@ == "wrong password or corrupted data"@,
    {
        match self {
            CoreError::Connect(t) => t.clone(),
            CoreError::Proxy(t) => t.clone(),
            CoreError::Channel(t) => t.clone(),
            CoreError::NotFound => "not found".to_owned(),
            CoreError::Io(t) => t.clone(),
            CoreError::Crypto => "wrong password or corrupted data".to_owned(),
            CoreError::Format => "malformed document".to_owned(),
        }
    }
}

} // verus!
