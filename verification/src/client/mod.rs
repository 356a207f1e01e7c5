//! Connection-level settings, the checks made on an address before any
//! network attempt, and the framing decisions of a unary call.
use vstd::prelude::*;
use vstd::slice::{slice_subrange, slice_to_vec};
use vstd::string::{StrSliceExecFns, StringExecFns, StringSliceAdditionalSpecFns};
use http::Uri;
use std::str::FromStr;
use std::time::Duration;
use crate::codec::buffer::read_be_u32;
use crate::codec::frame::{front_payload, holds_frame, wire_form};
use crate::error::Error;
use crate::metadata::{pairs_seq, Metadata};
use crate::transport::connection::Connection;

verus! {

/// The default frame limit of codecs, connections and clients: 4 MiB.
pub const DEFAULT_MAX_FRAME_SIZE: usize = 4194304;

/// The nanoseconds that a duration spans.
pub uninterp spec fn duration_nanos(d: Duration) -> nat;

/// `Duration::from_secs`: a duration of that many whole seconds and nothing
/// beyond them.
pub assume_specification[ Duration::from_secs ](secs: u64) -> (d: Duration)
    ensures
        duration_nanos(d) == secs * 1_000_000_000,
;

/// `Duration::clone`: the same duration.
pub assume_specification[ <Duration as Clone>::clone ](d: &Duration) -> (r: Duration)
    ensures
        r == *d,
;

/// Connection-level settings.
#[derive(Clone, Debug)]
pub struct ClientConfig {
    pub max_message_size: usize,
    pub max_concurrent_streams: u32,
    pub enable_http2_keepalive: bool,
    pub http2_keepalive_interval: Duration,
    pub connect_timeout: Duration,
}

impl Default for ClientConfig {
    fn default() -> (config: Self)
        ensures
            config.max_message_size == DEFAULT_MAX_FRAME_SIZE,
            config.max_concurrent_streams == 100,
            config.enable_http2_keepalive,
            duration_nanos(config.http2_keepalive_interval) == 300_000_000_000,
            duration_nanos(config.connect_timeout) == 5_000_000_000,
    {
        Self {
            max_message_size: DEFAULT_MAX_FRAME_SIZE,
            max_concurrent_streams: 100,
            enable_http2_keepalive: true,
            http2_keepalive_interval: Duration::from_secs(300),
            connect_timeout: Duration::from_secs(5),
        }
    }
}

/// What the handshake advertises to the peer.
#[derive(Debug)]
pub struct HandshakeSettings {
    pub connection_window_size: u32,
    pub stream_window_size: u32,
    pub max_concurrent_streams: u32,
}

impl ClientConfig {
    /// The settings to advertise: both flow-control windows are the maximum
    /// message size, which must fit 32 bits, and the stream limit is the
    /// configured one.
    pub fn handshake_settings(&self) -> (r: Result<HandshakeSettings, Error>)
        ensures
            self.max_message_size <= u32::MAX ==> (r matches Ok(s) && s.connection_window_size
                == self.max_message_size && s.stream_window_size == self.max_message_size
                && s.max_concurrent_streams == self.max_concurrent_streams),
            self.max_message_size > u32::MAX ==> (r matches Err(Error::Protocol(m)) && m@
                == "Size conversion failed"@),
    {
        let connection_window_size = match window_size(self.max_message_size) {
            Ok(n) => n,
            Err(e) => {
                return Err(e);
            },
        };
        let stream_window_size = match window_size(self.max_message_size) {
            Ok(n) => n,
            Err(e) => {
                return Err(e);
            },
        };
        Ok(
            HandshakeSettings {
                connection_window_size,
                stream_window_size,
                max_concurrent_streams: self.max_concurrent_streams,
            },
        )
    }

    /// A connection over `transport` that lets through no payload longer than
    /// the maximum message size.
    pub fn connection_over<T>(&self, transport: T) -> (conn: Connection<T>)
        ensures
            conn.transport() == transport,
            conn.limit() == self.max_message_size,
    {
        Connection::new(transport).with_max_frame_size(self.max_message_size)
    }
}

/// Where to connect: the host of an address and its port.
#[derive(Debug)]
pub struct Endpoint {
    pub host: String,
    pub port: u16,
}

/// What an address that parsed as a URI holds of an authority.
#[derive(Debug)]
pub struct AddressParts {
    pub host: Option<String>,
    pub port: Option<u16>,
}

/// What parsing an address as a URI yields: nothing where it is no URI, else
/// the host and the port of its authority, each where the address has one.
pub uninterp spec fn uri_parts(addr: Seq<char>) -> Option<(Option<Seq<char>>, Option<u16>)>;

/// The parts of an address as plain values.
pub open spec fn parts_view(parts: Option<AddressParts>) -> Option<
    (Option<Seq<char>>, Option<u16>),
> {
    match parts {
        None => None,
        Some(parts) => Some(
            (
                match parts.host {
                    Some(host) => Some(host@),
                    None => None,
                },
                parts.port,
            ),
        ),
    }
}

/// Whether `s` begins with `p`.
pub open spec fn starts_with(s: Seq<char>, p: Seq<char>) -> bool {
    s.len() >= p.len() && s.subrange(0, p.len() as int) == p
}

/// Whether an address names one of the two schemes that are served.
pub open spec fn has_http_scheme(addr: Seq<char>) -> bool {
    starts_with(addr, "http://"@) || starts_with(addr, "https://"@)
}

/// The endpoint of an address, given what parsing it as a URI gave.
pub open spec fn endpoint_spec(
    addr: Seq<char>,
    parts: Option<(Option<Seq<char>>, Option<u16>)>,
) -> Result<(Seq<char>, u16), Seq<char>> {
    match parts {
        None => Err("Invalid URI: "@ + addr),
        Some(parts) => if !has_http_scheme(addr) {
            Err("URI must start with http:// or https://"@)
        } else {
            match parts.0 {
                None => Err("Missing host"@),
                Some(host) => Ok(
                    (
                        host,
                        match parts.1 {
                            Some(port) => port,
                            None => 80u16,
                        },
                    ),
                ),
            }
        },
    }
}

/// Whether `r` is the outcome that `expected` describes: the endpoint with
/// that host and port, or a protocol error with that message.
pub open spec fn is_outcome(
    r: Result<Endpoint, Error>,
    expected: Result<(Seq<char>, u16), Seq<char>>,
) -> bool {
    match expected {
        Ok((host, port)) => r matches Ok(ep) && ep.host@ == host && ep.port == port,
        Err(message) => r matches Err(Error::Protocol(m)) && m@ == message,
    }
}

/// `Uri::from_str`, then `Uri::host` and `Uri::port_u16` of what it gave:
/// `None` where the address is no URI, else the host and the port that the
/// parsed URI reports. The outcome depends on the address alone.
#[verifier::external_body]
fn address_parts(addr: &str) -> (r: Option<AddressParts>)
    ensures
        parts_view(r) == uri_parts(addr@),
{
    match Uri::from_str(addr) {
        Ok(uri) => Some(AddressParts { host: uri.host().map(String::from), port: uri.port_u16() }),
        Err(_) => None,
    }
}

/// Whether `s` begins with `p`.
fn has_prefix(s: &str, p: &str) -> (b: bool)
    ensures
        b == starts_with(s@, p@),
{
    let n = p.unicode_len();
    let m = s.unicode_len();
    if m < n {
        return false;
    }
    let mut i: usize = 0;
    while i < n
        invariant
            n == p@.len(),
            m == s@.len(),
            n <= m,
            i <= n,
            forall|j: int| 0 <= j < i ==> s@[j] == p@[j],
        decreases n - i,
    {
        if s.get_char(i) != p.get_char(i) {
            assert(s@.subrange(0, n as int)[i as int] == s@[i as int]);
            return false;
        }
        i += 1;
    }
    assert(s@.subrange(0, n as int) =~= p@);
    true
}

/// Decides where to connect, from the address and from what parsing it as a
/// URI gave: an address that is no URI, that names no served scheme or that
/// has no host is refused as a protocol error; a port that is not written
/// is 80.
pub fn endpoint_of(addr: &str, parts: Option<AddressParts>) -> (r: Result<Endpoint, Error>)
    ensures
        is_outcome(r, endpoint_spec(addr@, parts_view(parts))),
{
    let parts = match parts {
        Some(parts) => parts,
        None => {
            return Err(Error::Protocol("Invalid URI: ".to_owned().concat(addr)));
        },
    };
    if !has_prefix(addr, "http://") && !has_prefix(addr, "https://") {
        return Err(Error::Protocol("URI must start with http:// or https://".to_owned()));
    }
    let host = match parts.host {
        Some(host) => host,
        None => {
            return Err(Error::Protocol("Missing host".to_owned()));
        },
    };
    let port = match parts.port {
        Some(port) => port,
        None => 80,
    };
    Ok(Endpoint { host, port })
}

/// Parses `addr` as a URI and decides where to connect. Whatever the parser
/// makes of the address, any failure is a protocol error, and an address
/// that names neither served scheme never yields an endpoint.
pub fn resolve(addr: &str) -> (r: Result<Endpoint, Error>)
    ensures
        is_outcome(r, endpoint_spec(addr@, uri_parts(addr@))),
        r matches Err(e) ==> e is Protocol,
        r is Ok ==> has_http_scheme(addr@),
{
    endpoint_of(addr, address_parts(addr))
}

/// The flow-control window to advertise for a maximum message size: the size
/// itself where it fits 32 bits, else a protocol error.
pub fn window_size(max_message_size: usize) -> (r: Result<u32, Error>)
    ensures
        max_message_size <= u32::MAX ==> r == Ok::<u32, Error>(max_message_size as u32),
        max_message_size > u32::MAX ==> (r matches Err(Error::Protocol(m)) && m@
            == "Size conversion failed"@),
{
    if max_message_size > 0xffff_ffff {
        return Err(Error::Protocol("Size conversion failed".to_owned()));
    }
    Ok(max_message_size as u32)
}

/// The headers of an outbound request: the content type, the trailer marker,
/// then the caller's textual metadata, one header for each entry.
pub fn request_headers(metadata: Option<&Metadata>) -> (r: Vec<(String, Vec<u8>)>)
    ensures
        pairs_seq(r@) == seq![
            ("content-type"@, "application/grpc".spec_bytes()),
            ("te"@, "trailers".spec_bytes()),
        ] + match metadata {
            Some(m) => m.entries(),
            None => Seq::empty(),
        },
{
    let mut headers: Vec<(String, Vec<u8>)> = Vec::new();
    headers.push(("content-type".to_owned(), slice_to_vec("application/grpc".as_bytes())));
    headers.push(("te".to_owned(), slice_to_vec("trailers".as_bytes())));
    let ghost fixed = pairs_seq(headers@);
    assert(fixed =~= seq![
        ("content-type"@, "application/grpc".spec_bytes()),
        ("te"@, "trailers".spec_bytes()),
    ]);
    if let Some(m) = metadata {
        let mut extra = m.iter();
        let ghost added = extra@;
        headers.append(&mut extra);
        assert(pairs_seq(headers@) =~= fixed + pairs_seq(added));
    } else {
        assert(pairs_seq(headers@) =~= fixed + Seq::empty());
    }
    headers
}

/// Wraps an encoded message as one uncompressed frame. A message whose
/// length does not fit the four-byte length field is refused as too large.
pub fn frame_message(message: &[u8]) -> (r: Result<Vec<u8>, Error>)
    ensures
        message@.len() <= u32::MAX ==> (r matches Ok(framed) && framed@ == wire_form(
            false,
            message@.len() as u32,
            message@,
        )),
        message@.len() > u32::MAX ==> r == Err::<Vec<u8>, Error>(
            Error::MessageTooLarge(message@.len() as usize),
        ),
{
    if message.len() > 0xffff_ffff {
        return Err(Error::MessageTooLarge(message.len()));
    }
    let n: u32 = message.len() as u32;
    let mut framed: Vec<u8> = Vec::new();
    framed.push(0);
    framed.push((n / 0x100_0000) as u8);
    framed.push(((n / 0x1_0000) % 0x100) as u8);
    framed.push(((n / 0x100) % 0x100) as u8);
    framed.push((n % 0x100) as u8);
    framed.extend_from_slice(message);
    assert(framed@ =~= wire_form(false, n, message@));
    Ok(framed)
}

/// The message that what was received carries: nothing received, fewer
/// than the five header bytes, or fewer bytes than the header declares are
/// protocol errors; else the declared number of bytes behind the header.
pub fn response_message<'a>(received: Option<&'a [u8]>) -> (r: Result<&'a [u8], Error>)
    ensures
        received is None ==> (r matches Err(Error::Protocol(m)) && m@ == "No response received"@),
        received matches Some(data) ==> {
            &&& data@.len() < 5 ==> (r matches Err(Error::Protocol(m)) && m@
                == "Invalid response frame"@)
            &&& data@.len() >= 5 && !holds_frame(data@) ==> (r matches Err(Error::Protocol(m))
                && m@ == "Incomplete response frame"@)
            &&& holds_frame(data@) ==> (r matches Ok(message) && message@ == front_payload(data@))
        },
{
    let data = match received {
        Some(data) => data,
        None => {
            return Err(Error::Protocol("No response received".to_owned()));
        },
    };
    if data.len() < 5 {
        return Err(Error::Protocol("Invalid response frame".to_owned()));
    }
    let length = read_be_u32(data[1], data[2], data[3], data[4]) as usize;
    if data.len() - 5 < length {
        return Err(Error::Protocol("Incomplete response frame".to_owned()));
    }
    Ok(slice_subrange(data, 5, 5 + length))
}

} // verus!
