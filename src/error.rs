//! The failures of the server's lifecycle calls.
use vstd::prelude::*;

verus! {

#[derive(PartialEq, Eq, Structural, Clone, Copy, Debug)]
pub enum ServerError {
    /// `start` while a session is running.
    AlreadyRunning,
    /// The listening socket could not be bound.
    Bind,
    /// The machine's local network address could not be found.
    AddressResolution,
    /// The pairing URL could not be turned into a QR image.
    Encoding,
}

impl ServerError {
    /// A short description of the failure.
    pub fn message(&self) -> (r: String)
        ensures
            *self == ServerError::AlreadyRunning ==> r@ == "Server is already running"@,
            *self == ServerError::Bind ==> r@ == "could not bind the listening socket"@,
            *self == ServerError::AddressResolution ==> r@ == "could not find the local network address"@,
            *self == ServerError::Encoding ==> r@ == "could not encode the QR code"@,
    {
        proof {
            reveal_strlit("Server is already running");
            reveal_strlit("could not bind the listening socket");
            reveal_strlit("could not find the local network address");
            reveal_strlit("could not encode the QR code");
        }
        match self {
            ServerError::AlreadyRunning => String::from_str("Server is already running"),
            ServerError::Bind => String::from_str("could not bind the listening socket"),
            ServerError::AddressResolution => String::from_str("could not find the local network address"),
            ServerError::Encoding => String::from_str("could not encode the QR code"),
        }
    }
}

} // verus!
