use vstd::prelude::*;
use vstd::utf8::encode_utf8;
use crate::buffer::SampleBuffer;
use crate::codec::{batch_bytes, encode};
use crate::ws::{
    frame_carries, frame_len, handshake_accepted, names_subprotocol, request_fits, request_text,
    FrameKind, WebSocket, MAX_REQUEST_LEN,
};

verus! {

/// Where a device sends its telemetry and how it names itself; set once at
/// startup.
pub struct AppConfig {
    pub ws_host: &'static str,
    pub ws_port: u16,
    pub ws_endpoint: &'static str,
    pub device_id: &'static str,
}

/// Most samples drained and sent in one streaming cycle.
pub const BATCH_SIZE: usize = 32;

/// Phase of the streaming session manager.
#[derive(Clone, Copy, Debug, PartialEq, Eq, Structural)]
pub enum SessionState {
    AwaitingLink,
    AwaitingAddress,
    Handshaking,
    Identifying,
    Streaming,
}

/// Outcome of the outside work a `Command` asked for.
#[derive(Clone, Copy, Debug, PartialEq, Eq, Structural)]
pub enum Event {
    /// Whether the network link is up.
    LinkUp(bool),
    /// Whether an address is assigned.
    AddressAssigned(bool),
    /// The transport connection to the collector opened.
    Connected,
    /// The frame of a `Send` was written and flushed.
    Sent,
    /// The transport failed: refused, reset, timed out, or a write failed.
    Failed,
}

/// The outside work to do next.
#[derive(Clone, Copy, Debug, PartialEq, Eq, Structural)]
pub enum Command {
    /// Report at once whether the link is up.
    PollLink,
    /// Wait the poll interval, then report whether the link is up.
    PollLinkLater,
    /// Report at once whether an address is assigned.
    PollAddress,
    /// Wait the poll interval, then report whether an address is assigned.
    PollAddressLater,
    /// Resolve the configured host and open a transport connection to it.
    Connect,
    /// Call `start_handshake`.
    StartHandshake,
    /// Write and flush the first `n` frame-buffer bytes, read the reply and
    /// hand it to `finish_handshake`.
    Exchange(usize),
    /// Write and flush the first `n` frame-buffer bytes.
    Send(usize),
    /// Call `next_batch` at once.
    NextBatch,
    /// Wait the send interval, then call `next_batch`.
    NextBatchLater,
}

/// Whether `e` is an outcome the manager can receive in state `s`.
pub open spec fn event_fits(s: SessionState, e: Event) -> bool {
    match e {
        Event::LinkUp(_) => s == SessionState::AwaitingLink,
        Event::AddressAssigned(_) => s == SessionState::AwaitingAddress,
        Event::Connected => s == SessionState::Handshaking,
        Event::Sent => s == SessionState::Identifying || s == SessionState::Streaming,
        Event::Failed => s == SessionState::Handshaking || s == SessionState::Identifying
            || s == SessionState::Streaming,
    }
}

/// The restart-from-scratch policy: the next state and command after event
/// `e` in state `s`.
pub open spec fn transition(s: SessionState, e: Event) -> (SessionState, Command) {
    match e {
        Event::LinkUp(true) => (SessionState::AwaitingAddress, Command::PollAddress),
        Event::LinkUp(false) => (SessionState::AwaitingLink, Command::PollLinkLater),
        Event::AddressAssigned(true) => (SessionState::Handshaking, Command::Connect),
        Event::AddressAssigned(false) => (SessionState::AwaitingAddress, Command::PollAddressLater),
        Event::Connected => (SessionState::Handshaking, Command::StartHandshake),
        Event::Sent => if s == SessionState::Identifying {
            (SessionState::Streaming, Command::NextBatch)
        } else {
            (SessionState::Streaming, Command::NextBatchLater)
        },
        Event::Failed => (SessionState::AwaitingLink, Command::PollLink),
    }
}

/// Supervises one device's connection to the collector: waits for link and
/// address, opens a session, identifies the device, then streams batches;
/// any failure drops the session and starts over from `AwaitingLink`.
pub struct SessionManager {
    state: SessionState,
    session: Option<WebSocket>,
}

impl SessionManager {
    pub closed spec fn phase(&self) -> SessionState {
        self.state
    }

    /// A session exists (it is dropped on every restart).
    pub closed spec fn holds_session(&self) -> bool {
        self.session is Some
    }

    /// The session completed its opening handshake.
    pub closed spec fn session_open(&self) -> bool {
        self.session is Some && self.session->Some_0.open()
    }

    /// The key of the handshake request the session sent, if any.
    pub closed spec fn request_key(&self) -> Option<Seq<char>> {
        match self.session {
            Some(ws) => ws.key(),
            None => None,
        }
    }

    pub closed spec fn wf(&self) -> bool {
        &&& self.session is Some ==> self.session->Some_0.wf()
        &&& (self.state == SessionState::AwaitingLink || self.state == SessionState::AwaitingAddress)
            ==> self.session is None
        &&& self.state == SessionState::Handshaking ==> !self.session_open()
        &&& (self.state == SessionState::Identifying || self.state == SessionState::Streaming)
            ==> self.session_open()
    }

    /// A manager waiting for the link, with no session.
    pub fn new() -> (m: SessionManager)
        ensures
            m.wf(),
            m.phase() == SessionState::AwaitingLink,
            !m.holds_session(),
    {
        SessionManager { state: SessionState::AwaitingLink, session: None }
    }

    /// The current phase.
    pub fn state(&self) -> (s: SessionState)
        ensures
            s == self.phase(),
    {
        self.state
    }

    /// Whether `event` is an outcome `handle` takes in the current phase.
    pub fn accepts(&self, event: Event) -> (r: bool)
        ensures
            r == event_fits(self.phase(), event),
    {
        match event {
            Event::LinkUp(_) => self.state == SessionState::AwaitingLink,
            Event::AddressAssigned(_) => self.state == SessionState::AwaitingAddress,
            Event::Connected => self.state == SessionState::Handshaking,
            Event::Sent => self.state == SessionState::Identifying || self.state == SessionState::Streaming,
            Event::Failed => self.state == SessionState::Handshaking || self.state == SessionState::Identifying
                || self.state == SessionState::Streaming,
        }
    }

    /// Whether a session exists.
    pub fn has_session(&self) -> (r: bool)
        ensures
            r == self.holds_session(),
    {
        self.session.is_some()
    }

    fn restart(&mut self) -> (c: Command)
        ensures
            final(self).wf(),
            final(self).phase() == SessionState::AwaitingLink,
            !final(self).holds_session(),
            c == Command::PollLink,
    {
        self.session = None;
        self.state = SessionState::AwaitingLink;
        Command::PollLink
    }

    /// Takes the outcome of the last command and decides the next one; the
    /// session is dropped on every return to `AwaitingLink`.
    pub fn handle(&mut self, event: Event) -> (c: Command)
        requires
            old(self).wf(),
            event_fits(old(self).phase(), event),
        ensures
            final(self).wf(),
            (final(self).phase(), c) == transition(old(self).phase(), event),
            final(self).phase() == SessionState::AwaitingLink ==> !final(self).holds_session(),
            final(self).phase() != SessionState::AwaitingLink ==> final(self).session_open() == old(self).session_open()
                && final(self).holds_session() == old(self).holds_session()
                && final(self).request_key() == old(self).request_key(),
    {
        match event {
            Event::LinkUp(up) => {
                if up {
                    self.state = SessionState::AwaitingAddress;
                    Command::PollAddress
                } else {
                    Command::PollLinkLater
                }
            },
            Event::AddressAssigned(assigned) => {
                if assigned {
                    self.state = SessionState::Handshaking;
                    Command::Connect
                } else {
                    Command::PollAddressLater
                }
            },
            Event::Connected => Command::StartHandshake,
            Event::Sent => {
                if self.state == SessionState::Identifying {
                    self.state = SessionState::Streaming;
                    Command::NextBatch
                } else {
                    Command::NextBatchLater
                }
            },
            Event::Failed => self.restart(),
        }
    }

    /// Opens a session whose generator is seeded with `seed` and writes its
    /// handshake request into `frame`; a request that cannot be built ends
    /// the attempt.
    pub fn start_handshake(&mut self, seed: u64, config: &AppConfig, frame: &mut [u8]) -> (c: Command)
        requires
            old(self).wf(),
            old(self).phase() == SessionState::Handshaking,
        ensures
            final(self).wf(),
            final(frame)@.len() == old(frame)@.len(),
            old(frame)@.len() >= MAX_REQUEST_LEN && request_fits(config.ws_endpoint@, config.ws_host@) ==> {
                let n = c->Exchange_0;
                &&& c is Exchange
                &&& final(self).phase() == SessionState::Handshaking
                &&& final(self).holds_session() && !final(self).session_open()
                &&& final(self).request_key() is Some
                &&& final(frame)@.subrange(0, n as int) == encode_utf8(
                    request_text(config.ws_endpoint@, config.ws_host@, final(self).request_key()->Some_0))
            },
            !(old(frame)@.len() >= MAX_REQUEST_LEN && request_fits(config.ws_endpoint@, config.ws_host@)) ==> {
                &&& c == Command::PollLink
                &&& final(self).phase() == SessionState::AwaitingLink
                &&& !final(self).holds_session()
                &&& final(frame)@ == old(frame)@
            },
    {
        let mut ws = WebSocket::new(seed);
        match ws.handshake_request(config.ws_host, config.ws_endpoint, frame) {
            Ok(n) => {
                self.session = Some(ws);
                Command::Exchange(n)
            },
            Err(_) => self.restart(),
        }
    }

    /// Checks the server's handshake response; once it is accepted, frames
    /// the device identifier as one text message into `frame`. Anything else
    /// ends the attempt, and then nothing is framed.
    pub fn finish_handshake(&mut self, response: &[u8], config: &AppConfig, frame: &mut [u8]) -> (c: Command)
        requires
            old(self).wf(),
            old(self).phase() == SessionState::Handshaking,
        ensures
            final(self).wf(),
            final(frame)@.len() == old(frame)@.len(),
            ({
                let accepted = old(self).request_key() is Some && !names_subprotocol(response@)
                    && handshake_accepted(old(self).request_key()->Some_0, response@);
                let id = encode_utf8(config.device_id@);
                &&& accepted && frame_len(id.len()) <= old(frame)@.len() ==> {
                    &&& c == Command::Send(frame_len(id.len()) as usize)
                    &&& final(self).phase() == SessionState::Identifying
                    &&& final(self).session_open()
                    &&& frame_carries(final(frame)@, FrameKind::Text, id)
                }
                &&& !(accepted && frame_len(id.len()) <= old(frame)@.len()) ==> {
                    &&& c == Command::PollLink
                    &&& final(self).phase() == SessionState::AwaitingLink
                    &&& !final(self).holds_session()
                }
                &&& !accepted ==> final(frame)@ == old(frame)@
            }),
    {
        let mut ws = match self.session.take() {
            Some(ws) => ws,
            None => {
                return self.restart();
            },
        };
        if ws.accept_response(response).is_err() {
            return self.restart();
        }
        match ws.send_text(config.device_id, frame) {
            Ok(n) => {
                self.session = Some(ws);
                self.state = SessionState::Identifying;
                Command::Send(n)
            },
            Err(_) => self.restart(),
        }
    }

    /// One streaming cycle: drains up to `BATCH_SIZE` of the oldest samples,
    /// encodes them as one batch and frames it as one binary message into
    /// `frame`. When the frame does not fit, the session ends (the drained
    /// samples go with it).
    pub fn next_batch(&mut self, buffer: &mut SampleBuffer, frame: &mut [u8]) -> (c: Command)
        requires
            old(self).wf(),
            old(self).phase() == SessionState::Streaming,
            old(buffer).wf(),
        ensures
            final(self).wf(),
            final(buffer).wf(),
            final(buffer).cap() == old(buffer).cap(),
            final(frame)@.len() == old(frame)@.len(),
            ({
                let k = if old(buffer)@.len() <= BATCH_SIZE { old(buffer)@.len() as int } else { BATCH_SIZE as int };
                let payload = batch_bytes(old(buffer)@.take(k));
                &&& final(buffer)@ == old(buffer)@.skip(k)
                &&& frame_len(payload.len()) <= old(frame)@.len() ==> {
                    &&& c == Command::Send(frame_len(payload.len()) as usize)
                    &&& final(self).phase() == SessionState::Streaming
                    &&& final(self).session_open()
                    &&& frame_carries(final(frame)@, FrameKind::Binary, payload)
                }
                &&& frame_len(payload.len()) > old(frame)@.len() ==> {
                    &&& c == Command::PollLink
                    &&& final(self).phase() == SessionState::AwaitingLink
                    &&& !final(self).holds_session()
                    &&& final(frame)@ == old(frame)@
                }
            }),
    {
        let samples = buffer.drain_up_to(BATCH_SIZE);
        let data = match encode(samples.as_slice()) {
            Ok(d) => d,
            Err(_) => {
                return self.restart();
            },
        };
        let mut ws = match self.session.take() {
            Some(ws) => ws,
            None => {
                return self.restart();
            },
        };
        match ws.send_binary(data.as_slice(), frame) {
            Ok(n) => {
                self.session = Some(ws);
                Command::Send(n)
            },
            Err(_) => self.restart(),
        }
    }
}

/// A transport failure while handshaking, identifying or streaming always
/// sends the manager back to `AwaitingLink`, where it polls the link again
/// (and `handle` drops the session on the way).
pub proof fn lemma_failure_restarts(s: SessionState)
    requires
        s == SessionState::Handshaking || s == SessionState::Identifying || s == SessionState::Streaming,
    ensures
        event_fits(s, Event::Failed),
        transition(s, Event::Failed) == (SessionState::AwaitingLink, Command::PollLink),
{
}

} // verus!
