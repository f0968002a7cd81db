use vstd::prelude::*;
use vstd::utf8::encode_utf8;
use embedded_websocket::{WebSocketClient, WebSocketKey, WebSocketOptions, WebSocketSendMessageType, WebSocketState};
use rand::rngs::StdRng;
use rand::SeedableRng;

verus! {

/// The protocol client of `embedded_websocket`, with its own generator.
/// Verus refuses a declaration of the client type (its bounds name outside
/// traits), so it is held here, out of Verus's sight. Only the wrappers
/// below touch it, and every write through them ends its message, so the
/// client never frames a continuation.
#[verifier::external_body]
pub struct ProtocolClient {
    inner: WebSocketClient<StdRng>,
}

#[verifier::external_type_specification]
#[verifier::external_body]
pub struct ExStdRng(StdRng);

#[verifier::external_type_specification]
#[verifier::external_body]
pub struct ExError(embedded_websocket::Error);

/// Whether a client's state is `Open`, i.e. its opening handshake completed.
pub uninterp spec fn client_open(c: ProtocolClient) -> bool;

/// Whether `response` completes the opening handshake of a client that sent
/// `key`, as `embedded_websocket` judges it: a complete HTTP response with
/// status 101 whose `Sec-WebSocket-Accept` headers carry the token derived
/// from `key` (base64 of the SHA-1 of the key and the protocol's GUID).
pub uninterp spec fn handshake_accepted(key: Seq<char>, response: Seq<u8>) -> bool;

/// The kind of data frame to send.
#[derive(Clone, Copy, Debug, PartialEq, Eq, Structural)]
pub enum FrameKind {
    Text,
    Binary,
}

/// Why a connection attempt or a send failed. Callers treat every variant as
/// fatal for the connection.
#[derive(Debug)]
pub enum WebSocketError {
    /// The host is not a valid address.
    InvalidAddress,
    /// The transport refused, reset or timed out.
    TcpError,
    /// The protocol layer refused: handshake rejected, frame too large, ...
    Underlying(embedded_websocket::Error),
    /// The frame buffer is too short for an opening handshake request.
    BufferTooSmall,
    /// A handshake response came with no request pending, or names a
    /// sub-protocol that was never asked for.
    UnexpectedResponse,
    /// A data frame was to be sent before the handshake completed.
    NotOpen,
}

/// Frame buffers shorter than this cannot hold every opening request.
pub const MAX_REQUEST_LEN: usize = 1024;

/// Bytes of an opening request besides the path and twice the host.
pub const REQUEST_OVERHEAD: usize = 148;

/// The opening handshake request for `path` on `host` with key `key`.
pub open spec fn request_text(path: Seq<char>, host: Seq<char>, key: Seq<char>) -> Seq<char> {
    "GET "@ + path + " HTTP/1.1\r\nHost: "@ + host
        + "\r\nUpgrade: websocket\r\nConnection: Upgrade\r\nSec-WebSocket-Key: "@ + key
        + "\r\nOrigin: "@ + host + "\r\nSec-WebSocket-Version: 13\r\n\r\n"@
}

/// Whether the request for `path` on `host` fits `MAX_REQUEST_LEN` bytes.
pub open spec fn request_fits(path: Seq<char>, host: Seq<char>) -> bool {
    encode_utf8(path).len() + 2 * encode_utf8(host).len() + REQUEST_OVERHEAD <= MAX_REQUEST_LEN
}

pub open spec fn opcode(kind: FrameKind) -> u8 {
    match kind {
        FrameKind::Text => 1,
        FrameKind::Binary => 2,
    }
}

/// Header bytes before the masking key of a client frame of `p` payload bytes.
pub open spec fn header_len(p: nat) -> nat {
    if p < 126 {
        2
    } else if p < 65535 {
        4
    } else {
        10
    }
}

/// Total bytes of a masked client frame of `p` payload bytes.
pub open spec fn frame_len(p: nat) -> nat {
    header_len(p) + 4 + p
}

/// The payload of a masked frame: each byte xor the masking key.
pub open spec fn unmasked(frame: Seq<u8>, p: nat) -> Seq<u8> {
    Seq::new(p, |i: int| frame[header_len(p) + 4 + i] ^ frame[header_len(p) + (i % 4)])
}

/// `frame` begins with one final, masked client frame of `kind` carrying
/// `payload`.
pub open spec fn frame_carries(frame: Seq<u8>, kind: FrameKind, payload: Seq<u8>) -> bool {
    let p = payload.len();
    &&& frame.len() >= frame_len(p)
    &&& frame[0] == 0x80 + opcode(kind)
    &&& frame[1] == (if p < 126 { (0x80 + p) as u8 } else if p < 65535 { 0xfeu8 } else { 0xffu8 })
    &&& (126 <= p < 65535 ==> frame[2] == (p / 256) as u8 && frame[3] == (p % 256) as u8)
    &&& unmasked(frame, p) == payload
}

pub open spec fn ascii_lower(b: u8) -> u8 {
    if 65 <= b <= 90 {
        (b + 32) as u8
    } else {
        b
    }
}

/// `sec-websocket-protocol`
pub open spec fn protocol_header() -> Seq<u8> {
    seq![115u8, 101, 99, 45, 119, 101, 98, 115, 111, 99, 107, 101, 116, 45, 112, 114, 111, 116, 111, 99, 111, 108]
}

pub open spec fn protocol_header_at(b: Seq<u8>, i: int) -> bool {
    &&& 0 <= i
    &&& i + 22 <= b.len()
    &&& forall|j: int| 0 <= j < 22 ==> #[trigger] ascii_lower(b[i + j]) == protocol_header()[j]
}

/// `b` holds the name of the sub-protocol header, in any letter case.
pub open spec fn names_subprotocol(b: Seq<u8>) -> bool {
    exists|i: int| protocol_header_at(b, i)
}

/// Relies on `SeedableRng::seed_from_u64` of rand's `StdRng`: a generator
/// seeded from `seed`.
#[verifier::external_body]
fn seeded_rng(seed: u64) -> StdRng {
    StdRng::seed_from_u64(seed)
}

/// Relies on `WebSocketClient::new_client`: a client in state `None`.
#[verifier::external_body]
fn ws_new_client(rng: StdRng) -> (c: ProtocolClient)
    ensures
        !client_open(c),
{
    ProtocolClient { inner: WebSocketClient::new_client(rng) }
}

/// Relies on the public `state` field of a client.
#[verifier::external_body]
fn ws_is_open(c: &ProtocolClient) -> (r: bool)
    ensures
        r == client_open(*c),
{
    c.inner.state == WebSocketState::Open
}

/// Relies on `WebSocketClient::client_connect` with `host` as origin and no
/// sub-protocols or extra headers: it writes the request built from a fresh
/// 24-character base64 key into `to` and returns its length and the key. It
/// fails when the request exceeds its 1024-byte scratch string, and panics
/// when `to` is shorter than the request, which `requires` leaves out.
#[verifier::external_body]
fn ws_client_connect(c: &mut ProtocolClient, host: &str, path: &str, to: &mut [u8])
    -> (r: Result<(usize, String), embedded_websocket::Error>)
    requires
        old(to)@.len() >= MAX_REQUEST_LEN,
    ensures
        final(to)@.len() == old(to)@.len(),
        client_open(*old(c)) ==> r is Err && client_open(*final(c)),
        !client_open(*old(c)) ==> !client_open(*final(c)) && (r is Ok <==> request_fits(path@, host@)),
        r is Err ==> final(to)@ == old(to)@,
        r is Ok ==> {
            let n = r->Ok_0.0;
            let key = r->Ok_0.1@;
            &&& key.len() == 24
            &&& encode_utf8(key).len() == 24
            &&& n <= MAX_REQUEST_LEN
            &&& final(to)@.subrange(0, n as int) == encode_utf8(request_text(path@, host@, key))
            &&& final(to)@.subrange(n as int, old(to)@.len() as int) == old(to)@.subrange(n as int, old(to)@.len() as int)
        },
{
    let options = WebSocketOptions { path, host, origin: host, sub_protocols: None, additional_headers: None };
    c.inner.client_connect(&options, to).map(|(n, key)| (n, String::from(key.as_str())))
}

/// Relies on `WebSocketClient::client_accept`: it refuses an open client,
/// else opens it exactly when `response` accepts `key`. It panics when the
/// key exceeds 24 bytes or a sub-protocol header value exceeds 24 bytes;
/// `requires` leaves both out.
#[verifier::external_body]
fn ws_client_accept(c: &mut ProtocolClient, key: &str, response: &[u8])
    -> (r: Result<(), embedded_websocket::Error>)
    requires
        encode_utf8(key@).len() <= 24,
        !names_subprotocol(response@),
    ensures
        client_open(*old(c)) ==> r is Err && client_open(*final(c)),
        !client_open(*old(c)) ==> (r is Ok <==> handshake_accepted(key@, response@))
            && (client_open(*final(c)) <==> r is Ok),
{
    c.inner.client_accept(&WebSocketKey::from(key), response).map(|_| ())
}

/// Relies on `WebSocket::write` with `end_of_message` set, on an open
/// client whose writes all ended their messages: it frames and masks
/// `payload` into `to` with the opcode of `kind`, or fails without touching
/// `to` when the frame does not fit.
#[verifier::external_body]
fn ws_write(c: &mut ProtocolClient, kind: FrameKind, payload: &[u8], to: &mut [u8])
    -> (r: Result<usize, embedded_websocket::Error>)
    requires
        client_open(*old(c)),
    ensures
        client_open(*final(c)),
        final(to)@.len() == old(to)@.len(),
        r is Ok <==> frame_len(payload@.len()) <= old(to)@.len(),
        r is Err ==> final(to)@ == old(to)@,
        r is Ok ==> {
            let n = r->Ok_0;
            &&& n == frame_len(payload@.len())
            &&& frame_carries(final(to)@, kind, payload@)
            &&& final(to)@.subrange(n as int, old(to)@.len() as int) == old(to)@.subrange(n as int, old(to)@.len() as int)
        },
{
    let message_type = match kind {
        FrameKind::Text => WebSocketSendMessageType::Text,
        FrameKind::Binary => WebSocketSendMessageType::Binary,
    };
    c.inner.write(message_type, true, payload, to)
}

/// Whether `b` holds the sub-protocol header's name, in any letter case.
fn mentions_subprotocol(b: &[u8]) -> (r: bool)
    ensures
        r == names_subprotocol(b@),
{
    let name: [u8; 22] = [115, 101, 99, 45, 119, 101, 98, 115, 111, 99, 107, 101, 116, 45, 112, 114, 111, 116, 111, 99, 111, 108];
    assert(name@ =~= protocol_header());
    let n = b.len();
    let mut i: usize = 0;
    while i < n && 22 <= n - i
        invariant
            i <= n,
            n == b@.len(),
            name@ == protocol_header(),
            forall|k: int| 0 <= k < i ==> !protocol_header_at(b@, k),
        decreases n - i,
    {
        let mut j: usize = 0;
        let mut same = true;
        while j < 22 && same
            invariant
                n == b@.len(),
                i + 22 <= n,
                j <= 22,
                name@ == protocol_header(),
                same == forall|jj: int| 0 <= jj < j ==> #[trigger] ascii_lower(b@[i + jj]) == protocol_header()[jj],
            decreases 22 - j,
        {
            let c = b[i + j];
            let lower = if 65 <= c && c <= 90 { c + 32 } else { c };
            if lower != name[j] {
                same = false;
                assert(ascii_lower(b@[i + j as int]) != protocol_header()[j as int]);
            }
            j = j + 1;
        }
        if same {
            assert(protocol_header_at(b@, i as int));
            return true;
        }
        i = i + 1;
    }
    proof {
        assert forall|k: int| !protocol_header_at(b@, k) by {
            if protocol_header_at(b@, k) {
                assert(k < i);
            }

        }
    }
    false
}

/// The byte buffers one connection works in: the transport's receive and
/// transmit buffers and the frame buffer for handshake and data frames.
/// They are made once and reused across reconnects.
pub struct WebSocketBuffers<const BUFSIZE: usize> {
    pub tcp_rx: [u8; BUFSIZE],
    pub tcp_tx: [u8; BUFSIZE],
    pub ws_frame: [u8; BUFSIZE],
}

impl<const BUFSIZE: usize> WebSocketBuffers<BUFSIZE> {
    /// Three zero-filled buffers of `BUFSIZE` bytes each.
    pub fn new() -> (b: Self)
        ensures
            b.tcp_rx@ == Seq::new(BUFSIZE as nat, |i: int| 0u8),
            b.tcp_tx@ == Seq::new(BUFSIZE as nat, |i: int| 0u8),
            b.ws_frame@ == Seq::new(BUFSIZE as nat, |i: int| 0u8),
    {
        let b = WebSocketBuffers { tcp_rx: [0u8; BUFSIZE], tcp_tx: [0u8; BUFSIZE], ws_frame: [0u8; BUFSIZE] };
        assert(b.tcp_rx@ =~= Seq::new(BUFSIZE as nat, |i: int| 0u8));
        assert(b.tcp_tx@ =~= Seq::new(BUFSIZE as nat, |i: int| 0u8));
        assert(b.ws_frame@ =~= Seq::new(BUFSIZE as nat, |i: int| 0u8));
        b
    }
}

/// What sending `payload` as one `kind` frame through a connection that was
/// `open` leaves: the result `r`, and the frame buffer changed from `before`
/// to `after`.
pub open spec fn send_outcome(
    open: bool,
    kind: FrameKind,
    payload: Seq<u8>,
    before: Seq<u8>,
    after: Seq<u8>,
    r: Result<usize, WebSocketError>,
) -> bool {
    &&& after.len() == before.len()
    &&& !open ==> r is Err && r->Err_0 is NotOpen
    &&& open ==> (r is Ok <==> frame_len(payload.len()) <= before.len())
    &&& open && r is Err ==> r->Err_0 is Underlying
    &&& r is Err ==> after == before
    &&& r is Ok ==> {
        let n = r->Ok_0;
        &&& n == frame_len(payload.len())
        &&& frame_carries(after, kind, payload)
        &&& after.subrange(n as int, before.len() as int) == before.subrange(n as int, before.len() as int)
    }
}

/// On a connection whose handshake did not complete, every send fails with
/// `NotOpen` and leaves the frame buffer as it was: no bytes go out.
pub proof fn lemma_closed_sends_nothing(
    kind: FrameKind,
    payload: Seq<u8>,
    before: Seq<u8>,
    after: Seq<u8>,
    r: Result<usize, WebSocketError>,
)
    requires
        send_outcome(false, kind, payload, before, after, r),
    ensures
        r is Err && r->Err_0 is NotOpen,
        after == before,
{
}

/// The client side of one WebSocket connection: builds the opening
/// handshake request, checks the server's response, and frames text and
/// binary messages. The transport that carries the bytes is the caller's.
pub struct WebSocket {
    client: ProtocolClient,
    key: Option<String>,
}

impl WebSocket {
    /// The opening handshake completed.
    pub closed spec fn open(&self) -> bool {
        client_open(self.client)
    }

    /// The key of the handshake request sent, if any.
    pub closed spec fn key(&self) -> Option<Seq<char>> {
        match self.key {
            Some(k) => Some(k@),
            None => None,
        }
    }

    pub open spec fn wf(&self) -> bool {
        &&& self.key() is Some ==> encode_utf8(self.key()->Some_0).len() == 24
        &&& self.open() ==> self.key() is Some
    }

    /// A fresh connection whose masking and key bytes come from a generator
    /// seeded with `seed`.
    pub fn new(seed: u64) -> (ws: WebSocket)
        ensures
            ws.wf(),
            !ws.open(),
            ws.key() is None,
    {
        WebSocket { client: ws_new_client(seeded_rng(seed)), key: None }
    }

    /// Whether the opening handshake completed.
    pub fn is_open(&self) -> (r: bool)
        ensures
            r == self.open(),
    {
        ws_is_open(&self.client)
    }

    /// Writes the opening handshake request for `endpoint` on `host` into
    /// `frame` and returns its length.
    pub fn handshake_request(&mut self, host: &str, endpoint: &str, frame: &mut [u8]) -> (r: Result<usize, WebSocketError>)
        requires
            old(self).wf(),
        ensures
            final(self).wf(),
            final(frame)@.len() == old(frame)@.len(),
            old(frame)@.len() < MAX_REQUEST_LEN ==> r is Err && r->Err_0 is BufferTooSmall
                && *final(self) == *old(self),
            old(frame)@.len() >= MAX_REQUEST_LEN && old(self).open() ==> r is Err && r->Err_0 is Underlying
                && final(self).open() && final(self).key() == old(self).key(),
            old(frame)@.len() >= MAX_REQUEST_LEN && !old(self).open() ==> !final(self).open()
                && (r is Ok <==> request_fits(endpoint@, host@))
                && (r is Err ==> r->Err_0 is Underlying && final(self).key() == old(self).key()),
            r is Err ==> final(frame)@ == old(frame)@,
            r is Ok ==> {
                let n = r->Ok_0;
                let len = old(frame)@.len() as int;
                &&& final(self).key() is Some
                &&& final(frame)@.subrange(0, n as int) == encode_utf8(request_text(endpoint@, host@, final(self).key()->Some_0))
                &&& final(frame)@.subrange(n as int, len) == old(frame)@.subrange(n as int, len)
            },
    {
        if frame.len() < MAX_REQUEST_LEN {
            return Err(WebSocketError::BufferTooSmall);
        }
        match ws_client_connect(&mut self.client, host, endpoint, frame) {
            Ok((n, key)) => {
                self.key = Some(key);
                Ok(n)
            }
            Err(e) => Err(WebSocketError::Underlying(e)),
        }
    }

    /// Checks the server's response to the handshake request; the
    /// connection is open exactly when this returns `Ok`.
    pub fn accept_response(&mut self, response: &[u8]) -> (r: Result<(), WebSocketError>)
        requires
            old(self).wf(),
        ensures
            final(self).wf(),
            final(self).key() == old(self).key(),
            old(self).open() ==> r is Err && final(self).open(),
            !old(self).open() && (old(self).key() is None || names_subprotocol(response@)) ==>
                r is Err && r->Err_0 is UnexpectedResponse && !final(self).open(),
            !old(self).open() && old(self).key() is Some && !names_subprotocol(response@) ==>
                (r is Ok <==> handshake_accepted(old(self).key()->Some_0, response@))
                && (r is Err ==> r->Err_0 is Underlying),
            !old(self).open() ==> (final(self).open() <==> r is Ok),
    {
        let key = match &self.key {
            Some(k) => k,
            None => {
                return Err(WebSocketError::UnexpectedResponse);
            },
        };
        if mentions_subprotocol(response) {
            return Err(WebSocketError::UnexpectedResponse);
        }
        match ws_client_accept(&mut self.client, key.as_str(), response) {
            Ok(()) => Ok(()),
            Err(e) => Err(WebSocketError::Underlying(e)),
        }
    }

    fn send_frame(&mut self, kind: FrameKind, payload: &[u8], frame: &mut [u8]) -> (r: Result<usize, WebSocketError>)
        requires
            old(self).wf(),
        ensures
            final(self).wf(),
            final(self).open() == old(self).open(),
            final(self).key() == old(self).key(),
            send_outcome(old(self).open(), kind, payload@, old(frame)@, final(frame)@, r),
    {
        if !ws_is_open(&self.client) {
            return Err(WebSocketError::NotOpen);
        }
        match ws_write(&mut self.client, kind, payload, frame) {
            Ok(n) => Ok(n),
            Err(e) => Err(WebSocketError::Underlying(e)),
        }
    }

    /// Frames `text` as one text message into `frame` and returns the
    /// frame's length; nothing is framed before the handshake completed.
    pub fn send_text(&mut self, text: &str, frame: &mut [u8]) -> (r: Result<usize, WebSocketError>)
        requires
            old(self).wf(),
        ensures
            final(self).wf(),
            final(self).open() == old(self).open(),
            final(self).key() == old(self).key(),
            send_outcome(old(self).open(), FrameKind::Text, encode_utf8(text@), old(frame)@, final(frame)@, r),
    {
        self.send_frame(FrameKind::Text, text.as_bytes(), frame)
    }

    /// Frames `buf` as one binary message into `frame` and returns the
    /// frame's length; nothing is framed before the handshake completed.
    pub fn send_binary(&mut self, buf: &[u8], frame: &mut [u8]) -> (r: Result<usize, WebSocketError>)
        requires
            old(self).wf(),
        ensures
            final(self).wf(),
            final(self).open() == old(self).open(),
            final(self).key() == old(self).key(),
            send_outcome(old(self).open(), FrameKind::Binary, buf@, old(frame)@, final(frame)@, r),
    {
        self.send_frame(FrameKind::Binary, buf, frame)
    }
}

} // verus!
