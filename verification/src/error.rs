//! The failure taxonomy shared by every fallible operation of the library.
use vstd::prelude::*;

verus! {

#[verifier::external_type_specification]
#[verifier::external_body]
pub struct ExIoError(std::io::Error);

/// What can go wrong in a call. Failures raised by the network engine, the
/// request builder, the message codec and the timer are carried as the text
/// they were reported with.
#[derive(Debug)]
pub enum Error {
    Transport(String),
    Protocol(String),
    Codec(String),
    Service(String),
    Io(std::io::Error),
    Http(String),
    MessageTooLarge(usize),
    ConnectionClosed,
    SendError,
    ReceiveError,
    InvalidMetadataKey(String),
    InvalidMetadataValue(String),
    Encode(String),
    Decode(String),
    Elapsed(String),
}

} // verus!
