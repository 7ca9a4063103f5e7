//! Transport configuration, faults, and the wire framing.
//!
//! The socket layer itself is an external collaborator; the core frames
//! and checks the bytes. A frame is a four-byte big-endian length followed
//! by that many payload bytes.

use vstd::prelude::*;

verus! {

use vstd::string::StringExecFns;

/// Faults reported by the transport.
#[derive(Debug)]
pub enum TransportError {
    ConnectionFailed(String),
    SendFailed(String),
    ReceiveFailed(String),
    TlsError(String),
    BindError(String),
    Timeout,
    ConnectionClosed,
}

/// Transport tuning.
#[derive(Clone, Debug)]
pub struct TransportConfig {
    pub bind_addr: String,
    pub keep_alive_secs: u64,
    pub idle_timeout_secs: u64,
    pub max_concurrent_streams: u32,
    pub stream_window_size: u32,
}

impl Default for TransportConfig {
    fn default() -> (r: Self)
        ensures
            r.bind_addr@ == "0.0.0.0:8080"@,
            r.keep_alive_secs == 30,
            r.idle_timeout_secs == 300,
            r.max_concurrent_streams == 1000,
            r.stream_window_size == 10485760,
    {
        TransportConfig {
            bind_addr: String::from_str("0.0.0.0:8080"),
            keep_alive_secs: 30,
            idle_timeout_secs: 300,
            max_concurrent_streams: 1000,
            stream_window_size: 10485760,
        }
    }
}

/// Counters over one transport's life.
#[derive(Clone, Copy, Debug)]
pub struct TransportStats {
    pub active_connections: u64,
    pub bytes_sent: u64,
    pub bytes_received: u64,
    pub messages_sent: u64,
    pub messages_received: u64,
}

impl Default for TransportStats {
    fn default() -> (r: Self)
        ensures
            r.active_connections == 0,
            r.bytes_sent == 0,
            r.bytes_received == 0,
            r.messages_sent == 0,
            r.messages_received == 0,
    {
        TransportStats {
            active_connections: 0,
            bytes_sent: 0,
            bytes_received: 0,
            messages_sent: 0,
            messages_received: 0,
        }
    }
}

/// A length in big-endian bytes, highest first.
pub open spec fn spec_u32_be(x: u32) -> Seq<u8> {
    seq![
        (x >> 24) as u8,
        ((x >> 16) & 0xff) as u8,
        ((x >> 8) & 0xff) as u8,
        (x & 0xff) as u8,
    ]
}

pub open spec fn spec_u32_from_be(b0: u8, b1: u8, b2: u8, b3: u8) -> u32 {
    ((b0 as u32) << 24) | ((b1 as u32) << 16) | ((b2 as u32) << 8) | (b3 as u32)
}

proof fn lemma_u32_be_round_trip(x: u32)
    ensures
        spec_u32_from_be(
            spec_u32_be(x)[0],
            spec_u32_be(x)[1],
            spec_u32_be(x)[2],
            spec_u32_be(x)[3],
        ) == x,
{
    assert((((x >> 24) as u8 as u32) << 24) | ((((x >> 16) & 0xff) as u8 as u32) << 16) | ((((x
        >> 8) & 0xff) as u8 as u32) << 8) | ((x & 0xff) as u8 as u32) == x) by (bit_vector);
}

/// A framed message: the payload's length in four big-endian bytes, then
/// the payload.
pub open spec fn spec_frame(data: Seq<u8>) -> Seq<u8>
    recommends
        data.len() <= u32::MAX,
{
    spec_u32_be(data.len() as u32) + data
}

/// What reading one frame from the front of a buffer yields: the payload
/// and the bytes after it.
pub open spec fn spec_read_frame(s: Seq<u8>) -> Option<(Seq<u8>, Seq<u8>)> {
    if s.len() >= 4 {
        let n = spec_u32_from_be(s[0], s[1], s[2], s[3]) as int;
        if s.len() - 4 >= n {
            Some((s.subrange(4, 4 + n), s.skip(4 + n)))
        } else {
            None
        }
    } else {
        None
    }
}

/// Reading a frame undoes framing.
pub proof fn lemma_frame_round_trip(data: Seq<u8>, rest: Seq<u8>)
    requires
        data.len() <= u32::MAX,
    ensures
        spec_read_frame(spec_frame(data) + rest) == Some((data, rest)),
{
    let s = spec_frame(data) + rest;
    lemma_u32_be_round_trip(data.len() as u32);
    assert(s[0] == spec_u32_be(data.len() as u32)[0]);
    assert(s[1] == spec_u32_be(data.len() as u32)[1]);
    assert(s[2] == spec_u32_be(data.len() as u32)[2]);
    assert(s[3] == spec_u32_be(data.len() as u32)[3]);
    assert(s.subrange(4, 4 + data.len() as int) =~= data);
    assert(s.skip(4 + data.len() as int) =~= rest);
}

/// Frame a payload for the wire.
pub fn encode_frame(data: &[u8]) -> (r: Vec<u8>)
    requires
        data@.len() <= u32::MAX,
    ensures
        r@ == spec_frame(data@),
{
    let len: u32 = data.len() as u32;
    let mut out: Vec<u8> = Vec::new();
    out.push((len >> 24) as u8);
    out.push(((len >> 16) & 0xff) as u8);
    out.push(((len >> 8) & 0xff) as u8);
    out.push((len & 0xff) as u8);
    out.extend_from_slice(data);
    proof {
        assert(out@ =~= spec_frame(data@));
    }
    out
}

/// Read one frame from the front of a buffer: the payload and the offset
/// after it, or nothing when the buffer holds no complete frame.
pub fn decode_frame(data: &Vec<u8>) -> (r: Option<(Vec<u8>, usize)>)
    ensures
        match spec_read_frame(data@) {
            Some(p) => (r matches Some(q) && q.0@ == p.0 && q.1 <= data@.len() && data@.skip(
                q.1 as int,
            ) == p.1),
            None => r is None,
        },
{
    if data.len() < 4 {
        return None;
    }
    let n: u32 = ((data[0] as u32) << 24) | ((data[1] as u32) << 16) | ((data[2] as u32) << 8) | (
    data[3] as u32);
    if (n as u64) > (data.len() - 4) as u64 {
        return None;
    }
    let n = n as usize;
    let payload = vstd::slice::slice_to_vec(
        vstd::slice::slice_subrange(data.as_slice(), 4, 4 + n),
    );
    proof {
        assert(payload@ =~= data@.subrange(4, 4 + n as int));
    }
    Some((payload, 4 + n))
}

} // verus!
