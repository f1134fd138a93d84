use netcore::geometry::{Quat, Vec3};
use netcore::messages::{
    decode_fast, decode_steady, decode_update, encode_fast, encode_steady, encode_update,
};
use netcore::packet::{
    Entity, FastPacket, MovementInfo, NameRejectionReason, ParamUpdate, PlayerComponent,
    SteadyPacket, SteadyPacketData, Transform, WorldUpdate,
};

fn v(x: i64, y: i64, z: i64) -> Vec3 {
    Vec3 { x, y, z }
}

fn q(w: i64, x: i64, y: i64, z: i64) -> Quat {
    Quat { w, x, y, z }
}

fn sample_entity() -> Entity {
    Entity {
        uid: 42,
        name: "crate ü".to_string(),
        transform: Some(Transform {
            position: v(-1, 0, i64::MAX),
            rotation: q(1000, 0, 0, 0),
            scale: v(1000, 1000, 1000),
        }),
        player: Some(PlayerComponent {
            uuid: "abc".to_string(),
            name: "muten".to_string(),
            position: v(0, 2000, 0),
            rotation: q(1000, 0, -5, 0),
            head_rotation: q(0, 0, 0, 1000),
            speed: -3,
            strafe: i64::MIN,
        }),
    }
}

fn all_fast() -> Vec<FastPacket> {
    vec![
        FastPacket::ChangePosition(1, v(i64::MIN, 0, -7)),
        FastPacket::ChangeRotation(u64::MAX, q(1, 2, 3, 4)),
        FastPacket::ChangeScale(0, v(0, 0, 0)),
        FastPacket::PlayerMoved(9, v(1, 2, 3), q(-1, -2, -3, -4), q(5, 6, 7, 8)),
        FastPacket::EntitySetParameter(3, ParamUpdate::TransformPosition(v(1, 1, 1))),
        FastPacket::EntitySetParameter(3, ParamUpdate::TransformRotation(q(1, 1, 1, 1))),
        FastPacket::EntitySetParameter(3, ParamUpdate::TransformScale(v(2, 2, 2))),
        FastPacket::EntitySetParameter(3, ParamUpdate::PlayerSpeed(-9)),
        FastPacket::EntitySetParameter(3, ParamUpdate::PlayerStrafe(9)),
        FastPacket::PlayerMove(
            "player-1".to_string(),
            v(0, 0, 0),
            v(5000, 0, 0),
            q(1000, 0, 0, 0),
            q(1000, 0, 0, 0),
            None,
        ),
        FastPacket::PlayerMove(
            String::new(),
            v(-1, -1, -1),
            v(0, 0, 0),
            q(0, 0, 0, 0),
            q(0, 0, 0, 0),
            Some(MovementInfo { jumped: true, sprinting: false }),
        ),
        FastPacket::PlayerJump("j".to_string()),
        FastPacket::PlayerFuckYouMoveHere(v(1000, 0, 0)),
        FastPacket::PlayerCheckPosition("c".to_string(), v(3, 4, 5)),
        FastPacket::PlayerFuckYouSetRotation(q(0, 1, 0, 0)),
    ]
}

fn all_steady() -> Vec<SteadyPacket> {
    vec![
        SteadyPacket::InitialiseEntity(42, sample_entity()),
        SteadyPacket::InitialiseEntity(
            7,
            Entity { uid: 7, name: String::new(), transform: None, player: None },
        ),
        SteadyPacket::RemoveEntity(u64::MAX),
        SteadyPacket::FinaliseMapLoad,
        SteadyPacket::InitialisePlayer(
            "u".to_string(),
            5,
            "name".to_string(),
            v(0, 2000, 0),
            q(1000, 0, 0, 0),
            v(1000, 1000, 1000),
        ),
        SteadyPacket::Message("hello".to_string()),
        SteadyPacket::ChatMessage("a".to_string(), "hi".to_string()),
        SteadyPacket::SetName("a".to_string(), "新しい".to_string()),
        SteadyPacket::NameRejected(NameRejectionReason::IllegalWord),
        SteadyPacket::NameRejected(NameRejectionReason::Taken),
        SteadyPacket::Respawn(v(0, 0, 0)),
        SteadyPacket::ThrowThrowAballll("ball".to_string(), v(1, 2, 3), v(-4, 5, -6)),
        SteadyPacket::Ping,
    ]
}

#[test]
fn fast_packets_round_trip() {
    for p in all_fast() {
        let bytes = encode_fast(&p);
        assert_eq!(decode_fast(&bytes), Some(p));
    }
}

#[test]
fn steady_packets_round_trip() {
    for (i, p) in all_steady().into_iter().enumerate() {
        let d = SteadyPacketData { packet: p, uuid: format!("id-{i}") };
        let bytes = encode_steady(&d);
        assert_eq!(decode_steady(&bytes), Some(d));
    }
}

#[test]
fn world_updates_round_trip() {
    let updates = vec![
        WorldUpdate::InitEntity(42, sample_entity()),
        WorldUpdate::SetPosition(1, v(1, 2, 3)),
        WorldUpdate::SetRotation(2, q(1, 0, 0, 0)),
        WorldUpdate::SetScale(3, v(-1, -1, -1)),
        WorldUpdate::MovePlayerEntity(4, v(0, 0, 0), q(0, 0, 0, 1), q(0, 0, 1, 0)),
        WorldUpdate::EntityNoLongerExists(5),
    ];
    for u in updates {
        let bytes = encode_update(&u);
        assert_eq!(decode_update(&bytes), Some(u));
    }
}

#[test]
fn fast_encoding_is_tag_then_fields() {
    let bytes = encode_fast(&FastPacket::PlayerFuckYouMoveHere(v(1, 0, -1)));
    let mut expected = vec![7u8];
    expected.extend_from_slice(&1u64.to_le_bytes());
    expected.extend_from_slice(&0u64.to_le_bytes());
    expected.extend_from_slice(&u64::MAX.to_le_bytes());
    assert_eq!(bytes, expected);
}

#[test]
fn text_is_length_prefixed_utf8() {
    let bytes = encode_fast(&FastPacket::PlayerJump("é".to_string()));
    assert_eq!(bytes, vec![6u8, 2, 0, 0, 0, 0, 0, 0, 0, 0xc3, 0xa9]);
}

#[test]
fn truncated_and_padded_buffers_are_rejected() {
    for p in all_fast() {
        let bytes = encode_fast(&p);
        for k in 0..bytes.len() {
            assert_eq!(decode_fast(&bytes[..k]), None);
        }
        let mut longer = bytes.clone();
        longer.push(0);
        assert_eq!(decode_fast(&longer), None);
    }
}

#[test]
fn unknown_tag_and_bad_utf8_are_rejected() {
    assert_eq!(decode_fast(&[10u8]), None);
    assert_eq!(decode_fast(&[255u8]), None);
    assert_eq!(decode_fast(&[6u8, 1, 0, 0, 0, 0, 0, 0, 0, 0xff]), None);
    assert_eq!(decode_update(&[6u8, 0, 0, 0, 0, 0, 0, 0, 0]), None);
}

#[test]
fn steady_version_is_checked() {
    let d = SteadyPacketData { packet: SteadyPacket::Ping, uuid: "x".to_string() };
    let mut bytes = encode_steady(&d);
    assert_eq!(bytes[0], 1);
    bytes[0] = 2;
    assert_eq!(decode_steady(&bytes), None);
}
