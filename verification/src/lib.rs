//! Client-side framing layer of a length-prefixed RPC wire protocol: the frame
//! codec, compression strategies, call metadata, connection limits and the
//! decisions of a unary call.
use vstd::prelude::*;

pub mod client;
pub mod codec;
pub mod error;
pub mod metadata;
pub mod transport;

pub use codec::{Frame, GrpcCodec};
pub use error::Error;
pub use metadata::Metadata;
pub use transport::Connection;

verus! {

/// The protocol version this library speaks.
pub const GRPC_VERSION: &'static str = "1.0.0";

/// The default bound on a message: 4 MiB.
pub const DEFAULT_MAX_MESSAGE_SIZE: usize = 4194304;

/// The flow-control window a peer assumes before any is advertised.
pub const DEFAULT_WINDOW_SIZE: u32 = 65_535;

/// The default bound on connecting, in seconds.
pub const DEFAULT_CONNECT_TIMEOUT_SECS: u64 = 5;

} // verus!
