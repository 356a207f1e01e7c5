//! The connection over a transport, the limit it enforces on what is sent, and
//! what a transport's delivery queue hands to a receiver.
use vstd::prelude::*;
use crate::error::Error;

pub mod connection;

pub use connection::Connection;

verus! {

/// What a receiver gets from the delivery queue: the next payload, the
/// failure that was queued in its place, or `None` once the queue has closed
/// and nothing more will arrive.
pub fn next_delivery<P>(next: Option<Result<P, Error>>) -> (r: Result<Option<P>, Error>)
    ensures
        r == match next {
            Some(Ok(payload)) => Ok::<Option<P>, Error>(Some(payload)),
            Some(Err(e)) => Err::<Option<P>, Error>(e),
            None => Ok::<Option<P>, Error>(None),
        },
{
    match next {
        Some(Ok(payload)) => Ok(Some(payload)),
        Some(Err(e)) => Err(e),
        None => Ok(None),
    }
}

} // verus!
