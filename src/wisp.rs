//! The Wisp tunnel: frame codec, target policy and the per-frame
//! decisions of a session.
//!
//! Every frame is one type byte, a little-endian 32-bit stream id and a
//! payload whose shape depends on the type.
use vstd::prelude::*;
use vstd::utf8::{decode_utf8, encode_utf8, valid_utf8};
use crate::security::is_blocked_host;

verus! {

broadcast use vstd::utf8::group_utf8_lib;

/// Buffer size the server advertises in every CONTINUE frame.
pub const INITIAL_BUFFER: u32 = 128;

/// Largest chunk read from a relayed TCP connection at once.
pub const RELAY_CHUNK: usize = 16384;

#[derive(Clone, Copy, Debug, PartialEq, Eq, Structural)]
pub enum WispPacketType {
    Connect,
    Data,
    Continue,
    Close,
}

/// Why a stream was closed.
#[derive(Clone, Copy, Debug, PartialEq, Eq, Structural)]
pub enum CloseReason {
    Voluntary,
    NetworkError,
    InvalidData,
    Forbidden,
    ServerRefused,
}

/// The destination of a CONNECT frame.
#[derive(Debug, Clone)]
pub struct ConnectPayload {
    pub port: u16,
    pub hostname: String,
}

/// The wire byte of each frame type.
pub open spec fn type_byte(t: WispPacketType) -> u8 {
    match t {
        WispPacketType::Connect => 1,
        WispPacketType::Data => 2,
        WispPacketType::Continue => 3,
        WispPacketType::Close => 4,
    }
}

/// The frame type a wire byte stands for.
pub open spec fn type_of_byte(b: u8) -> Option<WispPacketType> {
    if b == 1 {
        Some(WispPacketType::Connect)
    } else if b == 2 {
        Some(WispPacketType::Data)
    } else if b == 3 {
        Some(WispPacketType::Continue)
    } else if b == 4 {
        Some(WispPacketType::Close)
    } else {
        None
    }
}

/// The wire byte of each close reason.
pub open spec fn reason_byte(r: CloseReason) -> u8 {
    match r {
        CloseReason::Voluntary => 0x02,
        CloseReason::NetworkError => 0x03,
        CloseReason::InvalidData => 0x41,
        CloseReason::Forbidden => 0x43,
        CloseReason::ServerRefused => 0x44,
    }
}

/// Little-endian bytes of a 32-bit value.
pub open spec fn le32(v: u32) -> Seq<u8> {
    seq![(v % 256) as u8, ((v / 256) % 256) as u8, ((v / 65536) % 256) as u8, (v / 16777216) as u8]
}

/// The value of four little-endian bytes.
pub open spec fn le32_value(b: Seq<u8>) -> u32 {
    (b[0] + 256 * (b[1] + 256 * (b[2] + 256 * b[3]))) as u32
}

/// Little-endian bytes of a 16-bit value.
pub open spec fn le16(v: u16) -> Seq<u8> {
    seq![(v % 256) as u8, (v / 256) as u8]
}

/// The value of two little-endian bytes.
pub open spec fn le16_value(b: Seq<u8>) -> u16 {
    (b[0] + 256 * b[1]) as u16
}

/// A frame: type byte, stream id, payload.
pub open spec fn frame(t: WispPacketType, stream_id: u32, payload: Seq<u8>) -> Seq<u8> {
    seq![type_byte(t)] + le32(stream_id) + payload
}

/// What a frame holds: its type, stream id and payload; `None` when it is
/// shorter than the header or its type is unknown.
pub open spec fn parsed(data: Seq<u8>) -> Option<(WispPacketType, u32, Seq<u8>)> {
    if data.len() < 5 {
        None
    } else {
        match type_of_byte(data[0]) {
            Some(t) => Some((t, le32_value(data.subrange(1, 5)), data.skip(5))),
            None => None,
        }
    }
}

/// The payload of a CONNECT frame: stream type TCP, port, host name.
pub open spec fn connect_payload(port: u16, host: Seq<char>) -> Seq<u8> {
    seq![1u8] + le16(port) + encode_utf8(host)
}

/// The port and host a CONNECT payload names; `None` unless it asks for
/// TCP and the host is UTF-8.
pub open spec fn connect_of(p: Seq<u8>) -> Option<(u16, Seq<char>)> {
    if p.len() >= 3 && p[0] == 1 && valid_utf8(p.skip(3)) {
        Some((le16_value(p.subrange(1, 3)), decode_utf8(p.skip(3))))
    } else {
        None
    }
}

/// The buffer size a CONTINUE payload announces.
pub open spec fn continue_of(p: Seq<u8>) -> Option<u32> {
    if p.len() >= 4 { Some(le32_value(p.take(4))) } else { None }
}

/// The reason byte of a CLOSE payload.
pub open spec fn close_of(p: Seq<u8>) -> Option<u8> {
    if p.len() >= 1 { Some(p[0]) } else { None }
}

proof fn lemma_le32(v: u32)
    ensures
        le32_value(le32(v)) == v,
{
    let b = le32(v);
    assert(v == v % 256 + 256 * (v / 256));
    assert(v / 256 == (v / 256) % 256 + 256 * (v / 65536));
    assert(v / 65536 == (v / 65536) % 256 + 256 * (v / 16777216));
}

proof fn lemma_le16(v: u16)
    ensures
        le16_value(le16(v)) == v,
{
    assert(v == v % 256 + 256 * (v / 256));
}

fn push_le32(out: &mut Vec<u8>, v: u32)
    ensures
        final(out)@ == old(out)@ + le32(v),
{
    out.push((v % 256) as u8);
    out.push(((v / 256) % 256) as u8);
    out.push(((v / 65536) % 256) as u8);
    out.push((v / 16777216) as u8);
    assert(final(out)@ =~= old(out)@ + le32(v));
}

fn read_le32(b: &[u8], at: usize) -> (r: u32)
    requires
        at + 4 <= b@.len(),
    ensures
        r == le32_value(b@.subrange(at as int, at + 4)),
{
    let v: u64 = b[at] as u64 + 256 * (b[at + 1] as u64 + 256 * (b[at + 2] as u64 + 256 * b[at + 3] as u64));
    v as u32
}

fn copy_from(b: &[u8], at: usize) -> (r: Vec<u8>)
    requires
        at <= b@.len(),
    ensures
        r@ == b@.skip(at as int),
{
    let mut r: Vec<u8> = Vec::new();
    let mut i: usize = at;
    while i < b.len()
        invariant
            at <= i <= b@.len(),
            r@ == b@.subrange(at as int, i as int),
        decreases b.len() - i,
    {
        r.push(b[i]);
        i = i + 1;
        assert(r@ =~= b@.subrange(at as int, i as int));
    }
    assert(r@ =~= b@.skip(at as int));
    r
}

fn type_of_byte_exec(b: u8) -> (r: Option<WispPacketType>)
    ensures
        r == type_of_byte(b),
{
    if b == 1 {
        Some(WispPacketType::Connect)
    } else if b == 2 {
        Some(WispPacketType::Data)
    } else if b == 3 {
        Some(WispPacketType::Continue)
    } else if b == 4 {
        Some(WispPacketType::Close)
    } else {
        None
    }
}

fn type_byte_exec(t: WispPacketType) -> (r: u8)
    ensures
        r == type_byte(t),
{
    match t {
        WispPacketType::Connect => 1,
        WispPacketType::Data => 2,
        WispPacketType::Continue => 3,
        WispPacketType::Close => 4,
    }
}

impl CloseReason {
    /// The reason's wire byte.
    pub fn code(&self) -> (r: u8)
        ensures
            r == reason_byte(*self),
    {
        match self {
            CloseReason::Voluntary => 0x02,
            CloseReason::NetworkError => 0x03,
            CloseReason::InvalidData => 0x41,
            CloseReason::Forbidden => 0x43,
            CloseReason::ServerRefused => 0x44,
        }
    }
}

/// Splits a frame into type, stream id and payload; `None` for a frame
/// shorter than its header or of unknown type.
pub fn parse_packet(data: &[u8]) -> (r: Option<(WispPacketType, u32, Vec<u8>)>)
    ensures
        match r {
            Some((t, s, p)) => parsed(data@) == Some((t, s, p@)),
            None => parsed(data@).is_none(),
        },
{
    if data.len() < 5 {
        return None;
    }
    match type_of_byte_exec(data[0]) {
        Some(t) => {
            let s = read_le32(data, 1);
            let p = copy_from(data, 5);
            Some((t, s, p))
        },
        None => None,
    }
}

fn make_packet(t: WispPacketType, stream_id: u32, payload: &[u8]) -> (r: Vec<u8>)
    ensures
        r@ == frame(t, stream_id, payload@),
{
    let mut out: Vec<u8> = Vec::new();
    out.push(type_byte_exec(t));
    push_le32(&mut out, stream_id);
    let mut i: usize = 0;
    while i < payload.len()
        invariant
            i <= payload@.len(),
            out@ == seq![type_byte(t)] + le32(stream_id) + payload@.take(i as int),
        decreases payload.len() - i,
    {
        out.push(payload[i]);
        i = i + 1;
        assert(out@ =~= seq![type_byte(t)] + le32(stream_id) + payload@.take(i as int));
    }
    assert(payload@.take(payload@.len() as int) =~= payload@);
    out
}

/// A DATA frame carrying `data` on `stream_id`.
pub fn make_data_packet(stream_id: u32, data: &[u8]) -> (r: Vec<u8>)
    ensures
        r@ == frame(WispPacketType::Data, stream_id, data@),
{
    make_packet(WispPacketType::Data, stream_id, data)
}

/// A CONTINUE frame announcing `buffer_remaining`.
pub fn make_continue_packet(stream_id: u32, buffer_remaining: u32) -> (r: Vec<u8>)
    ensures
        r@ == frame(WispPacketType::Continue, stream_id, le32(buffer_remaining)),
{
    let mut p: Vec<u8> = Vec::new();
    push_le32(&mut p, buffer_remaining);
    assert(p@ =~= le32(buffer_remaining));
    make_packet(WispPacketType::Continue, stream_id, p.as_slice())
}

/// A CLOSE frame giving `reason`.
pub fn make_close_packet(stream_id: u32, reason: CloseReason) -> (r: Vec<u8>)
    ensures
        r@ == frame(WispPacketType::Close, stream_id, seq![reason_byte(reason)]),
{
    let mut p: Vec<u8> = Vec::new();
    p.push(reason.code());
    make_packet(WispPacketType::Close, stream_id, p.as_slice())
}

/// A CONNECT frame asking for a TCP stream to `hostname:port`.
pub fn make_connect_packet(stream_id: u32, port: u16, hostname: &str) -> (r: Vec<u8>)
    ensures
        r@ == frame(WispPacketType::Connect, stream_id, connect_payload(port, hostname@)),
{
    let mut p: Vec<u8> = Vec::new();
    p.push(1u8);
    p.push((port % 256) as u8);
    p.push((port / 256) as u8);
    let hb = hostname.as_bytes();
    let mut i: usize = 0;
    while i < hb.len()
        invariant
            i <= hb@.len(),
            hb@ == encode_utf8(hostname@),
            p@ == seq![1u8] + le16(port) + hb@.take(i as int),
        decreases hb.len() - i,
    {
        p.push(hb[i]);
        i = i + 1;
        assert(p@ =~= seq![1u8] + le16(port) + hb@.take(i as int));
    }
    assert(hb@.take(hb@.len() as int) =~= hb@);
    make_packet(WispPacketType::Connect, stream_id, p.as_slice())
}

/// Relies on `String::from_utf8`: it succeeds exactly on valid UTF-8 and
/// then holds the characters those bytes encode.
#[verifier::external_body]
fn utf8_string(bytes: Vec<u8>) -> (r: Option<String>)
    ensures
        r.is_some() == valid_utf8(bytes@),
        r matches Some(s) ==> encode_utf8(s@) == bytes@,
{
    String::from_utf8(bytes).ok()
}

/// Reads a CONNECT payload; `None` unless it asks for TCP, holds a port
/// and names the host in UTF-8.
pub fn parse_connect(payload: &[u8]) -> (r: Option<ConnectPayload>)
    ensures
        match r {
            Some(c) => connect_of(payload@) == Some((c.port, c.hostname@)),
            None => connect_of(payload@).is_none(),
        },
{
    if payload.len() < 3 || payload[0] != 1 {
        return None;
    }
    let port: u16 = (payload[1] as u16) + 256 * (payload[2] as u16);
    assert(port == le16_value(payload@.subrange(1, 3)));
    let rest = copy_from(payload, 3);
    match utf8_string(rest) {
        Some(h) => {
            assert(decode_utf8(payload@.skip(3)) == h@);
            Some(ConnectPayload { port, hostname: h })
        },
        None => None,
    }
}

/// Reads the buffer size of a CONTINUE payload.
pub fn parse_continue(payload: &[u8]) -> (r: Option<u32>)
    ensures
        r == continue_of(payload@),
{
    if payload.len() < 4 {
        return None;
    }
    let v = read_le32(payload, 0);
    assert(payload@.subrange(0, 4) =~= payload@.take(4));
    Some(v)
}

/// Reads the reason byte of a CLOSE payload.
pub fn parse_close(payload: &[u8]) -> (r: Option<u8>)
    ensures
        r == close_of(payload@),
{
    if payload.len() < 1 {
        None
    } else {
        Some(payload[0])
    }
}

/// A tunnel target is acceptable: a host that is not blocked, and a port
/// other than zero.
pub open spec fn is_valid_target(host: Seq<char>, port: u16) -> bool {
    !is_blocked_host(host) && port != 0
}

/// Refuses empty, local, private, loopback and link-local destinations
/// and port zero.
pub fn validate_wisp_target(host: &str, port: u16) -> (r: Result<(), String>)
    ensures
        r.is_ok() == is_valid_target(host@, port),
{
    let cs = crate::text::chars_of(host);
    if crate::security::is_blocked_host_of(&cs) {
        return Err(String::from_str("Forbidden host"));
    }
    if port == 0 {
        return Err(String::from_str("Invalid port"));
    }
    Ok(())
}

// ---------------------------------------------------------------------------
// Codec laws

/// A DATA frame reads back as the stream id and bytes it was made from.
pub proof fn lemma_data_round_trip(stream_id: u32, data: Seq<u8>)
    ensures
        parsed(frame(WispPacketType::Data, stream_id, data)) == Some((WispPacketType::Data, stream_id, data)),
{
    lemma_frame_round_trip(WispPacketType::Data, stream_id, data);
}

/// Any frame reads back as its type, stream id and payload.
pub proof fn lemma_frame_round_trip(t: WispPacketType, stream_id: u32, payload: Seq<u8>)
    ensures
        parsed(frame(t, stream_id, payload)) == Some((t, stream_id, payload)),
{
    let f = frame(t, stream_id, payload);
    lemma_le32(stream_id);
    assert(f.subrange(1, 5) =~= le32(stream_id));
    assert(f.skip(5) =~= payload);
}

/// A CONNECT frame reads back as its stream id, port and host.
pub proof fn lemma_connect_round_trip(stream_id: u32, port: u16, host: Seq<char>)
    ensures
        parsed(frame(WispPacketType::Connect, stream_id, connect_payload(port, host)))
            == Some((WispPacketType::Connect, stream_id, connect_payload(port, host))),
        connect_of(connect_payload(port, host)) == Some((port, host)),
{
    lemma_frame_round_trip(WispPacketType::Connect, stream_id, connect_payload(port, host));
    let p = connect_payload(port, host);
    lemma_le16(port);
    assert(p.subrange(1, 3) =~= le16(port));
    assert(p.skip(3) =~= encode_utf8(host));
}

/// A CONTINUE frame reads back as its stream id and buffer size.
pub proof fn lemma_continue_round_trip(stream_id: u32, buffer_remaining: u32)
    ensures
        parsed(frame(WispPacketType::Continue, stream_id, le32(buffer_remaining)))
            == Some((WispPacketType::Continue, stream_id, le32(buffer_remaining))),
        continue_of(le32(buffer_remaining)) == Some(buffer_remaining),
{
    lemma_frame_round_trip(WispPacketType::Continue, stream_id, le32(buffer_remaining));
    lemma_le32(buffer_remaining);
    assert(le32(buffer_remaining).take(4) =~= le32(buffer_remaining));
}

/// A CLOSE frame reads back as its stream id and reason.
pub proof fn lemma_close_round_trip(stream_id: u32, reason: CloseReason)
    ensures
        parsed(frame(WispPacketType::Close, stream_id, seq![reason_byte(reason)]))
            == Some((WispPacketType::Close, stream_id, seq![reason_byte(reason)])),
        close_of(seq![reason_byte(reason)]) == Some(reason_byte(reason)),
{
    lemma_frame_round_trip(WispPacketType::Close, stream_id, seq![reason_byte(reason)]);
}


// ---------------------------------------------------------------------------
// Session decisions

/// What a session does with one frame from the client.
#[derive(Debug)]
pub enum SessionAction {
    /// Nothing: a malformed frame, an unknown type, or flow control.
    Ignore,
    /// Send this frame back to the client.
    Reply(Vec<u8>),
    /// Dial the target for a new stream.
    Open { stream_id: u32, target: ConnectPayload },
    /// Write these bytes to the stream's TCP connection, if it is open.
    Forward { stream_id: u32, data: Vec<u8> },
    /// Close and forget the stream's TCP connection.
    CloseStream { stream_id: u32 },
}

/// The frame a session sends first: CONTINUE on stream 0.
pub fn handshake_packet() -> (r: Vec<u8>)
    ensures
        r@ == frame(WispPacketType::Continue, 0, le32(INITIAL_BUFFER)),
{
    make_continue_packet(0, INITIAL_BUFFER)
}

/// The frame that acknowledges an opened stream.
pub fn connect_accepted(stream_id: u32) -> (r: Vec<u8>)
    ensures
        r@ == frame(WispPacketType::Continue, stream_id, le32(INITIAL_BUFFER)),
{
    make_continue_packet(stream_id, INITIAL_BUFFER)
}

/// The frame sent when the target could not be dialled.
pub fn connect_refused(stream_id: u32) -> (r: Vec<u8>)
    ensures
        r@ == frame(WispPacketType::Close, stream_id, seq![reason_byte(CloseReason::ServerRefused)]),
{
    make_close_packet(stream_id, CloseReason::ServerRefused)
}

/// Decides what to do with one binary frame from the client: a CONNECT
/// that cannot be read is answered with CLOSE(InvalidData), one to a
/// refused target with CLOSE(Forbidden), any other opens the stream; DATA
/// is forwarded, CLOSE closes the stream, CONTINUE and malformed frames
/// are ignored.
pub fn on_frame(data: &[u8]) -> (r: SessionAction)
    ensures
        match parsed(data@) {
            None => r is Ignore,
            Some((t, s, p)) => match t {
                WispPacketType::Connect => match connect_of(p) {
                    None => r is Reply && r->Reply_0@ == frame(
                        WispPacketType::Close, s, seq![reason_byte(CloseReason::InvalidData)]),
                    Some((port, host)) => if is_valid_target(host, port) {
                        r is Open && r->Open_stream_id == s && r->Open_target.port == port
                            && r->Open_target.hostname@ == host
                    } else {
                        r is Reply && r->Reply_0@ == frame(
                            WispPacketType::Close, s, seq![reason_byte(CloseReason::Forbidden)])
                    },
                },
                WispPacketType::Data => r is Forward && r->Forward_stream_id == s && r->Forward_data@ == p,
                WispPacketType::Close => r is CloseStream && r->CloseStream_stream_id == s,
                WispPacketType::Continue => r is Ignore,
            },
        },
{
    let (t, s, p) = match parse_packet(data) {
        Some(x) => x,
        None => return SessionAction::Ignore,
    };
    match t {
        WispPacketType::Connect => {
            match parse_connect(p.as_slice()) {
                None => SessionAction::Reply(make_close_packet(s, CloseReason::InvalidData)),
                Some(c) => {
                    if validate_wisp_target(c.hostname.as_str(), c.port).is_ok() {
                        SessionAction::Open { stream_id: s, target: c }
                    } else {
                        SessionAction::Reply(make_close_packet(s, CloseReason::Forbidden))
                    }
                },
            }
        },
        WispPacketType::Data => SessionAction::Forward { stream_id: s, data: p },
        WispPacketType::Close => SessionAction::CloseStream { stream_id: s },
        WispPacketType::Continue => SessionAction::Ignore,
    }
}

/// The frame relaying bytes read from a stream's TCP connection; nothing
/// for an empty read.
pub fn relay_chunk(stream_id: u32, bytes: &[u8]) -> (r: Option<Vec<u8>>)
    ensures
        bytes@.len() == 0 ==> r.is_none(),
        bytes@.len() > 0 ==> (r matches Some(f) && f@ == frame(WispPacketType::Data, stream_id, bytes@)),
{
    if bytes.len() == 0 {
        None
    } else {
        Some(make_data_packet(stream_id, bytes))
    }
}

/// The frame sent when a stream's TCP connection ends: CLOSE(Voluntary)
/// at end of input, CLOSE(NetworkError) after a read error.
pub fn relay_end(stream_id: u32, read_failed: bool) -> (r: Vec<u8>)
    ensures
        r@ == frame(WispPacketType::Close, stream_id, seq![reason_byte(
            if read_failed { CloseReason::NetworkError } else { CloseReason::Voluntary })]),
{
    if read_failed {
        make_close_packet(stream_id, CloseReason::NetworkError)
    } else {
        make_close_packet(stream_id, CloseReason::Voluntary)
    }
}

} // verus!
