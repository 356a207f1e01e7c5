//! A connection owns one transport and refuses payloads over its frame limit
//! before they reach it.
use vstd::prelude::*;
use bytes::Bytes;
use crate::codec::buffer::bytes_content;
use crate::error::Error;

verus! {

/// One transport and the frame limit enforced in front of it.
#[derive(Debug)]
pub struct Connection<T> {
    transport: T,
    max_frame_size: usize,
}

impl<T> Connection<T> {
    /// The transport that the connection owns.
    pub closed spec fn transport(&self) -> T {
        self.transport
    }

    /// The longest payload that the connection hands to its transport.
    pub closed spec fn limit(&self) -> usize {
        self.max_frame_size
    }

    /// A connection over `transport` with the default frame limit.
    pub fn new(transport: T) -> (conn: Self)
        ensures
            conn.transport() == transport,
            conn.limit() == crate::client::DEFAULT_MAX_FRAME_SIZE,
    {
        Self { transport, max_frame_size: crate::client::DEFAULT_MAX_FRAME_SIZE }
    }

    /// The connection with its frame limit set to `size`.
    pub fn with_max_frame_size(self, size: usize) -> (conn: Self)
        ensures
            conn.transport() == self.transport(),
            conn.limit() == size,
    {
        Self { transport: self.transport, max_frame_size: size }
    }

    /// The frame limit in force.
    pub fn max_frame_size(&self) -> (size: usize)
        ensures
            size == self.limit(),
    {
        self.max_frame_size
    }

    /// Decides whether `data` may go out: a payload longer than the limit is
    /// refused with its length, any other is let through.
    pub fn check_outbound(&self, data: &Bytes) -> (r: Result<(), Error>)
        ensures
            bytes_content(*data).len() > self.limit() ==> r == Err::<(), Error>(
                Error::MessageTooLarge(bytes_content(*data).len() as usize),
            ),
            bytes_content(*data).len() <= self.limit() ==> r == Ok::<(), Error>(()),
    {
        if data.len() > self.max_frame_size {
            return Err(Error::MessageTooLarge(data.len()));
        }
        Ok(())
    }

    /// The transport, to send and receive on.
    pub fn transport_mut(&mut self) -> (t: &mut T)
        ensures
            *t == old(self).transport(),
            final(self).transport() == *final(t),
            final(self).limit() == old(self).limit(),
    {
        &mut self.transport
    }

    /// Gives the transport back.
    pub fn into_transport(self) -> (t: T)
        ensures
            t == self.transport(),
    {
        self.transport
    }
}

} // verus!
