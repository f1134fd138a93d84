use netcore::messages::{
    decode_fast, decode_steady, encode_fast, encode_steady, receive_fast, receive_steady,
    SteadyReceive,
};
use netcore::geometry::Vec3;
use netcore::packet::{FastPacket, SteadyPacket, SteadyPacketData};
use netcore::transport::{
    frame_payload, open_datagram, seal_datagram, FastOrderFilter, LocalChannel, StreamReceiver,
};

fn steady_sequence() -> Vec<SteadyPacketData> {
    (0..5)
        .map(|i| SteadyPacketData {
            packet: if i % 2 == 0 {
                SteadyPacket::ChatMessage("a".to_string(), format!("m{i}"))
            } else {
                SteadyPacket::RemoveEntity(i)
            },
            uuid: format!("p{i}"),
        })
        .collect()
}

#[test]
fn local_channel_keeps_send_order() {
    let mut ch: LocalChannel<SteadyPacketData> = LocalChannel::new();
    assert_eq!(ch.try_receive(), None);
    let sent = steady_sequence();
    for d in sent.clone() {
        ch.send(d);
    }
    assert_eq!(ch.len(), 5);
    let mut got = Vec::new();
    while let Some(d) = ch.try_receive() {
        got.push(d);
    }
    assert_eq!(got, sent);
}

#[test]
fn local_channel_interleaved_send_and_receive() {
    let mut ch: LocalChannel<u32> = LocalChannel::new();
    ch.send(1);
    ch.send(2);
    assert_eq!(ch.try_receive(), Some(1));
    ch.send(3);
    assert_eq!(ch.try_receive(), Some(2));
    assert_eq!(ch.try_receive(), Some(3));
    assert_eq!(ch.try_receive(), None);
}

#[test]
fn stream_frames_arrive_in_order_in_any_chunking() {
    let sent = steady_sequence();
    let mut stream = Vec::new();
    for d in &sent {
        stream.extend(frame_payload(&encode_steady(d)));
    }
    for chunk in [1usize, 3, 7, 1000] {
        let mut rx = StreamReceiver::new();
        let mut got = Vec::new();
        for piece in stream.chunks(chunk) {
            rx.receive_bytes(piece);
            while let Some(payload) = rx.next_frame() {
                got.push(decode_steady(&payload).unwrap());
            }
        }
        assert_eq!(got, sent);
    }
}

#[test]
fn incomplete_frame_waits() {
    let mut rx = StreamReceiver::new();
    let framed = frame_payload(&[9, 8, 7]);
    assert_eq!(framed, vec![3, 0, 0, 0, 0, 0, 0, 0, 9, 8, 7]);
    rx.receive_bytes(&framed[..10]);
    assert_eq!(rx.next_frame(), None);
    rx.receive_bytes(&framed[10..]);
    assert_eq!(rx.next_frame(), Some(vec![9, 8, 7]));
    assert_eq!(rx.next_frame(), None);
}

#[test]
fn datagram_round_trip_and_partial_drop() {
    let p = FastPacket::ChangePosition(4, Vec3 { x: 1, y: -2, z: 3 });
    let d = seal_datagram(77, &encode_fast(&p));
    let (seq, payload) = open_datagram(&d).unwrap();
    assert_eq!(seq, 77);
    assert_eq!(decode_fast(&payload), Some(p));
    for k in 0..d.len() {
        assert_eq!(open_datagram(&d[..k]), None);
    }
    let mut longer = d.clone();
    longer.push(0);
    assert_eq!(open_datagram(&longer), None);
}

#[test]
fn stale_datagrams_are_dropped() {
    let mut f = FastOrderFilter::new();
    assert!(f.accept(5));
    assert!(!f.accept(5));
    assert!(!f.accept(3));
    assert!(f.accept(9));
    assert_eq!(f.newest, Some(9));
}

#[test]
fn fast_receive_drops_garbage_and_stale() {
    let p = FastPacket::ChangeScale(2, Vec3 { x: 4, y: 4, z: 4 });
    let mut f = FastOrderFilter::new();
    let d5 = seal_datagram(5, &encode_fast(&p));
    let d4 = seal_datagram(4, &encode_fast(&p));
    let junk = seal_datagram(9, &[200, 1, 2]);
    assert_eq!(receive_fast(&mut f, &junk), None);
    assert_eq!(f.newest, None);
    assert_eq!(receive_fast(&mut f, &d5[..d5.len() - 1]), None);
    assert_eq!(receive_fast(&mut f, &d5), Some(p.clone()));
    assert_eq!(receive_fast(&mut f, &d4), None);
    assert_eq!(receive_fast(&mut f, &d5), None);
    assert_eq!(f.newest, Some(5));
}

#[test]
fn steady_receive_reports_malformed_frames() {
    let mut rx = StreamReceiver::new();
    assert!(matches!(receive_steady(&mut rx), SteadyReceive::Nothing));
    let d = SteadyPacketData { packet: SteadyPacket::Ping, uuid: "p".to_string() };
    rx.receive_bytes(&frame_payload(&encode_steady(&d)));
    rx.receive_bytes(&frame_payload(&[1, 0]));
    match receive_steady(&mut rx) {
        SteadyReceive::Message(got) => assert_eq!(got, d),
        _ => panic!("expected a message"),
    }
    assert!(matches!(receive_steady(&mut rx), SteadyReceive::Malformed));
    assert!(matches!(receive_steady(&mut rx), SteadyReceive::Nothing));
}
