use std::any::TypeId;

use durian::errors::{
    ConnectionErrorKind, ReceiveErrorKind, RegistrationError, SendErrorKind,
};
use durian::frame::{encode_frame, frame_boundary_bytes, split_buffer, Reassembler, FRAME_BOUNDARY_LEN};
use durian::manager::{collect_decoded, decode_frames, Packet, PacketBuilder, PacketManager};
use durian::negotiate::{background_accepts, bind_incoming, AcceptPlan};
use durian::receive::{QueueEvent, ReceiveSession, ReceiveStep};
use durian::registry::PacketDirection;

#[derive(Debug, Clone, Copy, PartialEq, Eq)]
struct Test {
    id: i32,
}

impl Packet for Test {
    fn to_bytes(self) -> Vec<u8> {
        self.id.to_be_bytes().to_vec()
    }
}

#[derive(Clone, Copy)]
struct TestBuilder;

impl PacketBuilder<Test> for TestBuilder {
    fn read(&self, bytes: Vec<u8>) -> Option<Test> {
        let arr: [u8; 4] = bytes.as_slice().try_into().ok()?;
        Some(Test { id: i32::from_be_bytes(arr) })
    }
}

#[derive(Debug, Clone, PartialEq, Eq)]
struct Other {
    name: String,
    id: i32,
}

impl Packet for Other {
    fn to_bytes(self) -> Vec<u8> {
        let mut v = self.name.into_bytes();
        v.extend_from_slice(&self.id.to_be_bytes());
        v
    }
}

#[derive(Clone, Copy)]
struct OtherBuilder;

impl PacketBuilder<Other> for OtherBuilder {
    fn read(&self, bytes: Vec<u8>) -> Option<Other> {
        if bytes.len() < 4 {
            return None;
        }
        let (name, id) = bytes.split_at(bytes.len() - 4);
        Some(Other {
            name: String::from_utf8(name.to_vec()).ok()?,
            id: i32::from_be_bytes(id.try_into().ok()?),
        })
    }
}

#[derive(Debug, Clone, Copy, PartialEq, Eq)]
struct Ping {
    id: u32,
}

impl Packet for Ping {
    fn to_bytes(self) -> Vec<u8> {
        self.id.to_be_bytes().to_vec()
    }
}

#[derive(Clone, Copy)]
struct PingBuilder;

impl PacketBuilder<Ping> for PingBuilder {
    fn read(&self, bytes: Vec<u8>) -> Option<Ping> {
        let arr: [u8; 4] = bytes.as_slice().try_into().ok()?;
        Some(Ping { id: u32::from_be_bytes(arr) })
    }
}

const BOUNDARY: &[u8] = b"AAAAAA031320050421";

fn drain(session: &mut ReceiveSession, queue: &mut Vec<Vec<u8>>, closed: bool) -> ReceiveStep {
    let mut step = session.next_step();
    while step != ReceiveStep::Done {
        let ev = if queue.is_empty() {
            if closed {
                QueueEvent::Closed
            } else {
                QueueEvent::Empty
            }
        } else {
            QueueEvent::Frame(queue.remove(0))
        };
        step = session.on_event(ev);
    }
    step
}

#[test]
fn test_register_send_packet() {
    let mut manager = PacketManager::new();
    let key = TypeId::of::<Test>();
    assert!(manager.validate_packet_is_new(&key, PacketDirection::Send).is_ok());
    assert!(manager.register_send_packet::<Test>().is_ok());
    assert!(manager.validate_packet_is_new(&key, PacketDirection::Send).is_err());
    assert!(manager.register_send_packet::<Test>().is_err());
}

#[test]
fn packet_test_register_send_packet() {
    let mut manager = PacketManager::new();
    let key = TypeId::of::<Test>();
    assert!(manager.validate_packet_is_new(&key, PacketDirection::Send).is_ok());
    assert!(manager.register_send_packet::<Test>().is_ok());
    assert!(manager.validate_packet_is_new(&key, PacketDirection::Send).is_err());
    assert!(manager.register_send_packet::<Test>().is_err());
}

#[test]
fn boundary_bytes_are_the_sentinel() {
    assert_eq!(frame_boundary_bytes(), BOUNDARY.to_vec());
    assert_eq!(FRAME_BOUNDARY_LEN, 18);
}

#[test]
fn encode_frame_appends_boundary() {
    let f = encode_frame(&vec![1, 2, 3]);
    let mut expected = vec![1u8, 2, 3];
    expected.extend_from_slice(BOUNDARY);
    assert_eq!(f, expected);
    let empty = encode_frame(&vec![]);
    assert_eq!(empty, BOUNDARY.to_vec());
}

#[test]
fn split_buffer_frames_and_rest() {
    let mut b = b"ab".to_vec();
    b.extend_from_slice(BOUNDARY);
    b.extend_from_slice(b"cde");
    b.extend_from_slice(BOUNDARY);
    b.extend_from_slice(b"AAAA");
    let (frames, rest) = split_buffer(&b);
    assert_eq!(frames, vec![b"ab".to_vec(), b"cde".to_vec()]);
    assert_eq!(rest, b"AAAA".to_vec());
}

#[test]
fn split_buffer_drops_empty_frames() {
    let mut b = BOUNDARY.to_vec();
    b.extend_from_slice(BOUNDARY);
    b.extend_from_slice(b"x");
    b.extend_from_slice(BOUNDARY);
    let (frames, rest) = split_buffer(&b);
    assert_eq!(frames, vec![b"x".to_vec()]);
    assert!(rest.is_empty());
}

#[test]
fn split_buffer_without_boundary_keeps_everything() {
    let b = b"no boundary here".to_vec();
    let (frames, rest) = split_buffer(&b);
    assert!(frames.is_empty());
    assert_eq!(rest, b);
    let (frames, rest) = split_buffer(&vec![]);
    assert!(frames.is_empty());
    assert!(rest.is_empty());
}

#[test]
fn frame_integrity_every_cut() {
    let msgs: Vec<Vec<u8>> = vec![b"hello".to_vec(), vec![0, 1, 2, 255], b"A".to_vec(), b"AAAAA0".to_vec()];
    let mut stream = Vec::new();
    for m in &msgs {
        stream.extend_from_slice(&encode_frame(m));
    }
    for cut1 in 0..=stream.len() {
        for cut2 in [cut1, (cut1 + 7).min(stream.len()), stream.len()] {
            let mut r = Reassembler::new();
            let mut got = Vec::new();
            got.extend(r.push_chunk(&stream[..cut1].to_vec()));
            got.extend(r.push_chunk(&stream[cut1..cut2].to_vec()));
            got.extend(r.push_chunk(&stream[cut2..].to_vec()));
            assert_eq!(got, msgs, "cuts at {} and {}", cut1, cut2);
            assert!(r.pending().is_empty());
        }
    }
}

#[test]
fn frame_integrity_byte_by_byte() {
    let msgs: Vec<Vec<u8>> = vec![b"one".to_vec(), b"two".to_vec(), b"three".to_vec()];
    let mut stream = Vec::new();
    for m in &msgs {
        stream.extend_from_slice(&encode_frame(m));
    }
    let mut r = Reassembler::new();
    let mut got = Vec::new();
    for b in stream {
        got.extend(r.push_chunk(&vec![b]));
    }
    assert_eq!(got, msgs);
    assert!(r.pending().is_empty());
}

#[test]
fn reassembler_holds_partial_frame() {
    let mut r = Reassembler::new();
    let out = r.push_chunk(&b"partAAAAAA0313".to_vec());
    assert!(out.is_empty());
    assert_eq!(r.pending(), &b"partAAAAAA0313".to_vec());
    let out = r.push_chunk(&b"20050421next".to_vec());
    assert_eq!(out, vec![b"part".to_vec()]);
    assert_eq!(r.pending(), &b"next".to_vec());
}

#[test]
fn registration_uniqueness_keeps_first_channel() {
    let mut m = PacketManager::new();
    assert_eq!(m.register_send_packet::<Test>(), Ok(0));
    assert_eq!(m.register_send_packet::<Other>(), Ok(1));
    assert_eq!(m.register_send_packet::<Test>(), Err(RegistrationError::DuplicateRegistration));
    let out = m.plan_send(&TypeId::of::<Test>(), &vec![9]).unwrap();
    assert_eq!(out.channel, 0);
    let out = m.plan_send(&TypeId::of::<Other>(), &vec![9]).unwrap();
    assert_eq!(out.channel, 1);
}

#[test]
fn receive_registration_needs_streams() {
    let mut m = PacketManager::new();
    assert_eq!(m.register_receive_packet::<Test>(), Err(RegistrationError::StreamNotReady));
    m.set_stream_counts(2, 2);
    assert_eq!(m.num_incoming_streams(), 2);
    assert_eq!(m.num_outgoing_streams(), 2);
    assert_eq!(m.register_receive_packet::<Test>(), Ok(0));
    assert_eq!(m.register_receive_packet::<Test>(), Err(RegistrationError::DuplicateRegistration));
    assert_eq!(m.register_receive_packet::<Other>(), Ok(1));
    assert_eq!(m.register_receive_packet::<Ping>(), Err(RegistrationError::StreamNotReady));
    assert_eq!(m.validate_for_received(&TypeId::of::<Other>()), Ok(1));
}

#[test]
fn send_and_receive_need_registration() {
    let m = PacketManager::new();
    let e = m.send(Test { id: 1 }).unwrap_err();
    assert_eq!(e.kind, SendErrorKind::NotRegistered);
    let e = m.received_channel::<Test>().unwrap_err();
    assert_eq!(e.kind, ReceiveErrorKind::NotRegistered);
    let e = m.received_all_channel::<Test>().unwrap_err();
    assert_eq!(e.kind, ReceiveErrorKind::NotRegistered);
    assert!(m.validate_packet_was_registered(&TypeId::of::<Test>(), PacketDirection::Send).is_err());
}

#[test]
fn channel_independence_interleaved() {
    let mut sender = PacketManager::new();
    sender.connected_to_server();
    sender.register_send_packet::<Test>().unwrap();
    sender.register_send_packet::<Other>().unwrap();
    let mut receiver = PacketManager::new();
    receiver.set_stream_counts(2, 2);
    receiver.register_receive_packet::<Test>().unwrap();
    receiver.register_receive_packet::<Other>().unwrap();

    let mut streams: Vec<Vec<u8>> = vec![Vec::new(), Vec::new()];
    let a1 = sender.send(Test { id: 1 }).unwrap();
    let b2 = sender.send(Other { name: "b".to_string(), id: 2 }).unwrap();
    let a3 = sender.send(Test { id: 3 }).unwrap();
    for o in [a1, b2, a3] {
        assert_eq!(o.targets, vec![0]);
        streams[o.channel as usize].extend_from_slice(&o.frame);
    }
    let ca = receiver.received_channel::<Test>().unwrap() as usize;
    let cb = receiver.received_channel::<Other>().unwrap() as usize;
    assert_ne!(ca, cb);
    let fa = Reassembler::new().push_chunk(&streams[ca]);
    let fb = Reassembler::new().push_chunk(&streams[cb]);
    assert_eq!(decode_frames(&TestBuilder, fa).unwrap(), Some(vec![Test { id: 1 }, Test { id: 3 }]));
    assert_eq!(
        decode_frames(&OtherBuilder, fb).unwrap(),
        Some(vec![Other { name: "b".to_string(), id: 2 }])
    );
}

#[test]
fn cardinality_guard_two_clients() {
    let mut m = PacketManager::new();
    m.register_send_packet::<Test>().unwrap();
    m.set_stream_counts(1, 1);
    m.register_receive_packet::<Test>().unwrap();
    assert_eq!(m.send(Test { id: 1 }).unwrap().targets, Vec::<u32>::new());
    assert_eq!(m.add_client("127.0.0.1:5001".to_string()), Ok(0));
    assert!(!m.has_more_than_one_remote());
    assert_eq!(m.send(Test { id: 1 }).unwrap().targets, vec![0]);
    assert_eq!(m.received_channel::<Test>(), Ok(0));
    assert_eq!(m.add_client("127.0.0.1:5002".to_string()), Ok(1));
    assert!(m.has_more_than_one_remote());
    assert_eq!(m.send(Test { id: 1 }).unwrap_err().kind, SendErrorKind::MoreThanOneRemote);
    assert_eq!(m.validate_for_send().unwrap_err().kind, SendErrorKind::MoreThanOneRemote);
    assert_eq!(m.received_channel::<Test>().unwrap_err().kind, ReceiveErrorKind::MoreThanOneRemote);
    assert_eq!(m.broadcast(Test { id: 1 }).unwrap().targets, vec![0, 1]);
    assert_eq!(m.received_all_channel::<Test>(), Ok(0));
}

#[test]
fn client_directory() {
    let mut m = PacketManager::new();
    assert_eq!(m.add_client("10.0.0.1:1".to_string()), Ok(0));
    assert_eq!(m.add_client("10.0.0.2:1".to_string()), Ok(1));
    let e = m.add_client("10.0.0.1:1".to_string()).unwrap_err();
    assert_eq!(e.kind, ConnectionErrorKind::DuplicatePeer);
    assert_eq!(m.get_num_clients(), 2);
    assert_eq!(m.get_client_id(&"10.0.0.2:1".to_string()), Some(1));
    assert_eq!(m.get_client_id(&"10.0.0.3:1".to_string()), None);
}

#[test]
fn send_to_one_client() {
    let mut m = PacketManager::new();
    m.register_send_packet::<Ping>().unwrap();
    m.add_client("a".to_string()).unwrap();
    m.add_client("b".to_string()).unwrap();
    let o = m.send_to(&"b".to_string(), Ping { id: 1 }).unwrap();
    assert_eq!(o.targets, vec![1]);
    assert_eq!(o.frame, encode_frame(&vec![0, 0, 0, 1]));
    let e = m.send_to(&"c".to_string(), Ping { id: 1 }).unwrap_err();
    assert_eq!(e.kind, SendErrorKind::UnknownPeer);
}

#[test]
fn round_trip_ping() {
    let mut client = PacketManager::new();
    let mut server = PacketManager::new();
    client.set_stream_counts(1, 1);
    server.set_stream_counts(1, 1);
    client.connected_to_server();
    server.add_client("127.0.0.1:5001".to_string()).unwrap();
    for m in [&mut client, &mut server] {
        m.register_send_packet::<Ping>().unwrap();
        m.register_receive_packet::<Ping>().unwrap();
    }
    let out = client.send(Ping { id: 7 }).unwrap();
    assert_eq!(out.targets, vec![0]);
    let channel = server.received_channel::<Ping>().unwrap();
    assert_eq!(channel, out.channel);
    let mut queue = Reassembler::new().push_chunk(&out.frame);
    let mut session = ReceiveSession::new(true);
    drain(&mut session, &mut queue, false);
    let frames = session.finish().unwrap();
    assert_eq!(decode_frames(&PingBuilder, frames).unwrap(), Some(vec![Ping { id: 7 }]));
}

#[test]
fn broadcast_reaches_each_client_once() {
    let mut server = PacketManager::new();
    server.register_send_packet::<Ping>().unwrap();
    for a in ["c1", "c2", "c3"] {
        server.add_client(a.to_string()).unwrap();
    }
    let out = server.broadcast(Ping { id: 4 }).unwrap();
    assert_eq!(out.targets, vec![0, 1, 2]);
    for _ in &out.targets {
        let frames = Reassembler::new().push_chunk(&out.frame);
        assert_eq!(decode_frames(&PingBuilder, frames).unwrap(), Some(vec![Ping { id: 4 }]));
    }
}

#[test]
fn blocking_receive_waits_then_drains_all() {
    let mut s = ReceiveSession::new(true);
    assert_eq!(s.next_step(), ReceiveStep::WaitForFrame);
    assert_eq!(s.on_event(QueueEvent::Empty), ReceiveStep::WaitForFrame);
    assert_eq!(s.on_event(QueueEvent::Frame(vec![1])), ReceiveStep::PollFrame);
    assert_eq!(s.on_event(QueueEvent::Frame(vec![2])), ReceiveStep::PollFrame);
    assert_eq!(s.on_event(QueueEvent::Empty), ReceiveStep::Done);
    assert_eq!(s.finish().unwrap(), vec![vec![1], vec![2]]);
}

#[test]
fn nonblocking_receive_on_empty_queue() {
    let mut s = ReceiveSession::new(false);
    assert_eq!(s.next_step(), ReceiveStep::PollFrame);
    assert_eq!(s.on_event(QueueEvent::Empty), ReceiveStep::Done);
    let frames = s.finish().unwrap();
    assert!(frames.is_empty());
    assert_eq!(decode_frames(&PingBuilder, frames).unwrap(), None);
}

#[test]
fn closed_stream_fails_receive() {
    let mut r = Reassembler::new();
    let mut queue = r.push_chunk(&b"\x00\x00\x00\x05AAAAAA031320050421\x00\x00".to_vec());
    assert_eq!(queue.len(), 1);
    let mut s = ReceiveSession::new(true);
    drain(&mut s, &mut queue, true);
    assert_eq!(s.finish().unwrap_err().kind, ReceiveErrorKind::ChannelClosed);
    let mut s = ReceiveSession::new(false);
    assert_eq!(s.on_event(QueueEvent::Closed), ReceiveStep::Done);
    assert_eq!(s.finish().unwrap_err().kind, ReceiveErrorKind::ChannelClosed);
}

#[test]
fn empty_frame_fails_receive() {
    let mut s = ReceiveSession::new(false);
    assert_eq!(s.on_event(QueueEvent::Frame(vec![])), ReceiveStep::Done);
    assert_eq!(s.finish().unwrap_err().kind, ReceiveErrorKind::EmptyFrame);
}

#[test]
fn decode_frames_errors() {
    let e = decode_frames(&PingBuilder, vec![vec![0, 0, 0, 1], vec![]]).unwrap_err();
    assert_eq!(e.kind, ReceiveErrorKind::EmptyFrame);
    let e = decode_frames(&PingBuilder, vec![vec![0, 0, 0, 1], vec![1, 2]]).unwrap_err();
    assert_eq!(e.kind, ReceiveErrorKind::Decode);
    assert_eq!(
        decode_frames(&PingBuilder, vec![vec![0, 0, 0, 1], vec![0, 0, 1, 0]]).unwrap(),
        Some(vec![Ping { id: 1 }, Ping { id: 256 }])
    );
}

#[test]
fn bind_incoming_streams() {
    assert_eq!(bind_incoming(&vec![2, 0, 1]).unwrap(), vec![1, 2, 0]);
    assert_eq!(bind_incoming(&vec![]).unwrap(), Vec::<usize>::new());
    assert_eq!(bind_incoming(&vec![0, 3, 1]).unwrap_err().kind, ConnectionErrorKind::UnexpectedChannel);
    assert_eq!(bind_incoming(&vec![1, 1, 0]).unwrap_err().kind, ConnectionErrorKind::DuplicateChannel);
}

#[test]
fn background_accept_plan() {
    assert_eq!(background_accepts(1, None), AcceptPlan::Unbounded);
    assert_eq!(background_accepts(1, Some(4)), AcceptPlan::Count(3));
    assert_eq!(background_accepts(4, Some(4)), AcceptPlan::NoMore);
    assert_eq!(background_accepts(5, Some(2)), AcceptPlan::NoMore);
}

#[test]
fn error_messages() {
    assert!(!RegistrationError::DuplicateRegistration.message().is_empty());
    let e = durian::errors::SendError::new(SendErrorKind::Write);
    assert!(e.message().contains("writing"));
}

#[test]
fn collect_decoded_outcomes() {
    assert_eq!(collect_decoded::<u8>(vec![]).unwrap(), None);
    assert_eq!(collect_decoded(vec![Some(3u8), Some(1), Some(2)]).unwrap(), Some(vec![3, 1, 2]));
    let e = collect_decoded(vec![Some(3u8), None, Some(2)]).unwrap_err();
    assert_eq!(e.kind, ReceiveErrorKind::Decode);
    let e = collect_decoded::<u8>(vec![None]).unwrap_err();
    assert_eq!(e.kind, ReceiveErrorKind::Decode);
}

#[test]
fn decode_frames_keeps_arrival_order() {
    let frames = vec![vec![0, 0, 0, 9], vec![0, 0, 0, 2], vec![0, 0, 0, 5]];
    assert_eq!(
        decode_frames(&PingBuilder, frames).unwrap(),
        Some(vec![Ping { id: 9 }, Ping { id: 2 }, Ping { id: 5 }])
    );
}

#[test]
fn channel_id_exhaustion_message() {
    assert!(RegistrationError::ChannelIdsExhausted.message().contains("channel id"));
}
