use eos_sensor::buffer::SampleBuffer;
use eos_sensor::codec::decode;
use eos_sensor::sample::{Axes, Sample};
use eos_sensor::sampling::{record_tick, sample_data};
use eos_sensor::session::{AppConfig, Command, Event, SessionManager, SessionState};
use embedded_websocket::{WebSocketKey, WebSocketServer};

const CONFIG: AppConfig = AppConfig { ws_host: "192.168.1.20", ws_port: 8000, ws_endpoint: "/", device_id: "Eos" };

fn request_key(request: &[u8]) -> String {
    let text = std::str::from_utf8(request).unwrap();
    let start = text.find("Sec-WebSocket-Key: ").unwrap() + "Sec-WebSocket-Key: ".len();
    text[start..start + 24].to_string()
}

fn server_response(key: &str) -> Vec<u8> {
    let mut server = WebSocketServer::new_server();
    let mut buf = [0u8; 1024];
    let n = server.server_accept(&WebSocketKey::from(key), None, &mut buf).unwrap();
    buf[..n].to_vec()
}

fn unmask(frame: &[u8]) -> (u8, Vec<u8>) {
    let short = (frame[1] & 0x7f) as usize;
    let (len, mut at) = match short {
        126 => (u16::from_be_bytes([frame[2], frame[3]]) as usize, 4),
        n => (n, 2),
    };
    let mask = [frame[at], frame[at + 1], frame[at + 2], frame[at + 3]];
    at += 4;
    (frame[0], (0..len).map(|i| frame[at + i] ^ mask[i % 4]).collect())
}

fn seconds(ms: u32) -> u32 {
    (ms as f32 / 1000.0).to_bits()
}

fn axes(x: f32, y: f32, z: f32) -> Axes {
    Axes { x: x.to_bits(), y: y.to_bits(), z: z.to_bits() }
}

/// Drives a manager from `AwaitingLink` to `Streaming`; returns the frame
/// buffer with the identity frame still in it and that frame's length.
fn bring_up(m: &mut SessionManager) -> (Vec<u8>, usize) {
    let mut frame = vec![0u8; 4096];
    assert_eq!(m.handle(Event::LinkUp(true)), Command::PollAddress);
    assert_eq!(m.handle(Event::AddressAssigned(true)), Command::Connect);
    assert_eq!(m.handle(Event::Connected), Command::StartHandshake);
    let n = match m.start_handshake(5, &CONFIG, &mut frame) {
        Command::Exchange(n) => n,
        other => panic!("unexpected {:?}", other),
    };
    let response = server_response(&request_key(&frame[..n]));
    let id_len = match m.finish_handshake(&response, &CONFIG, &mut frame) {
        Command::Send(n) => n,
        other => panic!("unexpected {:?}", other),
    };
    assert_eq!(m.state(), SessionState::Identifying);
    (frame, id_len)
}

#[test]
fn link_and_address_polling() {
    let mut m = SessionManager::new();
    assert_eq!(m.state(), SessionState::AwaitingLink);
    assert_eq!(m.handle(Event::LinkUp(false)), Command::PollLinkLater);
    assert_eq!(m.state(), SessionState::AwaitingLink);
    assert_eq!(m.handle(Event::LinkUp(true)), Command::PollAddress);
    assert_eq!(m.handle(Event::AddressAssigned(false)), Command::PollAddressLater);
    assert_eq!(m.state(), SessionState::AwaitingAddress);
    assert_eq!(m.handle(Event::AddressAssigned(true)), Command::Connect);
    assert_eq!(m.state(), SessionState::Handshaking);
    assert!(!m.has_session());
}

#[test]
fn failure_while_handshaking_restarts() {
    let mut m = SessionManager::new();
    m.handle(Event::LinkUp(true));
    m.handle(Event::AddressAssigned(true));
    assert_eq!(m.handle(Event::Failed), Command::PollLink);
    assert_eq!(m.state(), SessionState::AwaitingLink);
    // a session whose request went out is dropped too
    m.handle(Event::LinkUp(true));
    m.handle(Event::AddressAssigned(true));
    m.handle(Event::Connected);
    let mut frame = vec![0u8; 2048];
    assert!(matches!(m.start_handshake(1, &CONFIG, &mut frame), Command::Exchange(_)));
    assert!(m.has_session());
    assert_eq!(m.handle(Event::Failed), Command::PollLink);
    assert_eq!(m.state(), SessionState::AwaitingLink);
    assert!(!m.has_session());
}

#[test]
fn failure_while_identifying_restarts() {
    let mut m = SessionManager::new();
    bring_up(&mut m);
    assert_eq!(m.handle(Event::Failed), Command::PollLink);
    assert_eq!(m.state(), SessionState::AwaitingLink);
    assert!(!m.has_session());
    // and the whole path works again afterwards
    bring_up(&mut m);
    assert!(m.has_session());
}

#[test]
fn failure_while_streaming_restarts() {
    let mut m = SessionManager::new();
    bring_up(&mut m);
    assert_eq!(m.handle(Event::Sent), Command::NextBatch);
    assert_eq!(m.state(), SessionState::Streaming);
    assert_eq!(m.handle(Event::Failed), Command::PollLink);
    assert_eq!(m.state(), SessionState::AwaitingLink);
    assert!(!m.has_session());
}

#[test]
fn small_frame_buffer_ends_handshake() {
    let mut m = SessionManager::new();
    m.handle(Event::LinkUp(true));
    m.handle(Event::AddressAssigned(true));
    m.handle(Event::Connected);
    let mut frame = vec![0u8; 100];
    assert_eq!(m.start_handshake(1, &CONFIG, &mut frame), Command::PollLink);
    assert_eq!(m.state(), SessionState::AwaitingLink);
    assert!(!m.has_session());
}

#[test]
fn rejected_handshake_restarts_without_identity() {
    let mut m = SessionManager::new();
    m.handle(Event::LinkUp(true));
    m.handle(Event::AddressAssigned(true));
    m.handle(Event::Connected);
    let mut frame = vec![0u8; 2048];
    let n = match m.start_handshake(2, &CONFIG, &mut frame) {
        Command::Exchange(n) => n,
        other => panic!("unexpected {:?}", other),
    };
    let mut response = server_response(&request_key(&frame[..n]));
    let text = String::from_utf8(response.clone()).unwrap();
    let at = text.find("Sec-WebSocket-Accept: ").unwrap() + "Sec-WebSocket-Accept: ".len() + 3;
    response[at] = if response[at] == b'x' { b'y' } else { b'x' };
    let before = frame.clone();
    assert_eq!(m.finish_handshake(&response, &CONFIG, &mut frame), Command::PollLink);
    assert_eq!(frame, before);
    assert_eq!(m.state(), SessionState::AwaitingLink);
    assert!(!m.has_session());
}

#[test]
fn end_to_end_three_ticks_one_batch() {
    let mut m = SessionManager::new();
    let mut buffer = SampleBuffer::new(512);
    let (frame, id_len) = bring_up(&mut m);
    assert_eq!(unmask(&frame[..id_len]), (0x81, b"Eos".to_vec()));
    assert_eq!(m.handle(Event::Sent), Command::NextBatch);

    let mut expected = Vec::new();
    for tick in 0..3u32 {
        let t = seconds(tick * 100);
        let acc = axes(0.1 * tick as f32, 0.0, 9.8);
        let gyro = axes(1.0, 2.0, 3.0);
        let mag = axes(-0.3, 0.2, tick as f32);
        assert!(record_tick(&mut buffer, t, Some(acc), Some(gyro), Some(mag)));
        expected.push(Sample { time: t, acceleration: acc, gyroscope: gyro, magnetometer: mag });
    }
    assert_eq!(f32::from_bits(expected[1].time), 0.1);
    assert_eq!(f32::from_bits(expected[2].time), 0.2);

    let mut frame = vec![0u8; 4096];
    let n = match m.next_batch(&mut buffer, &mut frame) {
        Command::Send(n) => n,
        other => panic!("unexpected {:?}", other),
    };
    let (first, payload) = unmask(&frame[..n]);
    assert_eq!(first, 0x82);
    assert_eq!(n, 2 + 4 + 3 + 3 * 40);
    assert_eq!(decode(&payload).unwrap(), expected);
    assert_eq!(buffer.len(), 0);
    assert_eq!(m.handle(Event::Sent), Command::NextBatchLater);
    assert_eq!(m.state(), SessionState::Streaming);
}

#[test]
fn failed_read_skips_tick() {
    let mut buffer = SampleBuffer::new(512);
    let a = axes(1.0, 2.0, 3.0);
    assert!(record_tick(&mut buffer, seconds(0), Some(a), Some(a), Some(a)));
    assert!(!record_tick(&mut buffer, seconds(100), Some(a), None, Some(a)));
    assert!(record_tick(&mut buffer, seconds(200), Some(a), Some(a), Some(a)));
    let out = buffer.drain_up_to(32);
    assert_eq!(out.len(), 2);
    assert_eq!(f32::from_bits(out[0].time), 0.0);
    assert_eq!(f32::from_bits(out[1].time), 0.2);
}

#[test]
fn sample_needs_all_three_reads() {
    let a = axes(1.0, 2.0, 3.0);
    let s = sample_data(7, Some(a), Some(a), Some(a)).unwrap();
    assert_eq!(s, Sample { time: 7, acceleration: a, gyroscope: a, magnetometer: a });
    assert_eq!(sample_data(7, None, Some(a), Some(a)), None);
    assert_eq!(sample_data(7, Some(a), None, Some(a)), None);
    assert_eq!(sample_data(7, Some(a), Some(a), None), None);
}

#[test]
fn send_failure_keeps_later_samples_up_to_capacity() {
    let mut m = SessionManager::new();
    let mut buffer = SampleBuffer::new(8);
    bring_up(&mut m);
    m.handle(Event::Sent);
    let a = axes(0.0, 0.0, 1.0);
    for t in 0..40u32 {
        record_tick(&mut buffer, t, Some(a), Some(a), Some(a));
    }
    let mut frame = vec![0u8; 4096];
    assert!(matches!(m.next_batch(&mut buffer, &mut frame), Command::Send(_)));
    assert_eq!(buffer.len(), 0);
    // the write of that frame fails
    assert_eq!(m.handle(Event::Failed), Command::PollLink);
    assert_eq!(m.state(), SessionState::AwaitingLink);
    for t in 100..120u32 {
        record_tick(&mut buffer, t, Some(a), Some(a), Some(a));
    }
    assert_eq!(buffer.len(), 8);
    let kept: Vec<u32> = buffer.drain_up_to(8).iter().map(|s| s.time).collect();
    assert_eq!(kept, (112..120).collect::<Vec<u32>>());
}

#[test]
fn batch_is_bounded() {
    let mut m = SessionManager::new();
    let mut buffer = SampleBuffer::new(512);
    bring_up(&mut m);
    m.handle(Event::Sent);
    let a = axes(0.0, 0.0, 1.0);
    for t in 0..50u32 {
        record_tick(&mut buffer, t, Some(a), Some(a), Some(a));
    }
    let mut frame = vec![0u8; 4096];
    let n = match m.next_batch(&mut buffer, &mut frame) {
        Command::Send(n) => n,
        other => panic!("unexpected {:?}", other),
    };
    let batch = decode(&unmask(&frame[..n]).1).unwrap();
    assert_eq!(batch.len(), 32);
    assert_eq!(batch[0].time, 0);
    assert_eq!(buffer.len(), 18);
}

#[test]
fn batch_too_large_for_frame_restarts() {
    let mut m = SessionManager::new();
    let mut buffer = SampleBuffer::new(512);
    bring_up(&mut m);
    m.handle(Event::Sent);
    let a = axes(0.0, 0.0, 1.0);
    record_tick(&mut buffer, 1, Some(a), Some(a), Some(a));
    let mut frame = vec![0u8; 20];
    assert_eq!(m.next_batch(&mut buffer, &mut frame), Command::PollLink);
    assert_eq!(frame, vec![0u8; 20]);
    assert_eq!(m.state(), SessionState::AwaitingLink);
    assert!(!m.has_session());
}

#[test]
fn empty_buffer_sends_empty_batch() {
    let mut m = SessionManager::new();
    let mut buffer = SampleBuffer::new(4);
    bring_up(&mut m);
    m.handle(Event::Sent);
    let mut frame = vec![0u8; 64];
    assert_eq!(m.next_batch(&mut buffer, &mut frame), Command::Send(2 + 4 + 3));
    assert_eq!(unmask(&frame[..9]), (0x82, vec![1, 0, 0]));
}
