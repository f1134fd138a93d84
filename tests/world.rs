use netcore::client::{fold_intents, ping_due, ClientEvent, WorldMachine, ClientUpdate, LocalPlayer};
use netcore::geometry::{Quat, Vec3};
use netcore::packet::{
    Entity, FastPacket, MovementInfo, NameRejectionReason, ParamUpdate, PlayerComponent,
    SteadyPacket, Transform,
};
use netcore::world::World;

fn v(x: i64, y: i64, z: i64) -> Vec3 {
    Vec3 { x, y, z }
}

fn q(w: i64) -> Quat {
    Quat { w, x: 0, y: 0, z: 0 }
}

fn boxed(uid: u64) -> Entity {
    Entity {
        uid,
        name: format!("box{uid}"),
        transform: Some(Transform { position: v(0, 0, 0), rotation: q(1000), scale: v(1, 1, 1) }),
        player: None,
    }
}

fn player_entity(uid: u64, uuid: &str, name: &str) -> Entity {
    Entity {
        uid,
        name: name.to_string(),
        transform: None,
        player: Some(PlayerComponent {
            uuid: uuid.to_string(),
            name: name.to_string(),
            position: v(0, 0, 0),
            rotation: q(1000),
            head_rotation: q(1000),
            speed: 0,
            strafe: 0,
        }),
    }
}

#[test]
fn fast_updates_latest_wins_and_unknown_ignored() {
    let mut w = World::new("m".to_string());
    w.upsert_entity(boxed(1));
    w.upsert_entity(boxed(2));
    let packets = vec![
        FastPacket::ChangePosition(1, v(5, 5, 5)),
        FastPacket::ChangePosition(99, v(7, 7, 7)),
        FastPacket::ChangeScale(2, v(3, 3, 3)),
        FastPacket::ChangePosition(1, v(6, 6, 6)),
        FastPacket::EntitySetParameter(2, ParamUpdate::TransformScale(v(4, 4, 4))),
        FastPacket::PlayerMoved(1, v(1, 1, 1), q(1), q(1)),
    ];
    for p in &packets {
        w.apply_fast(p);
    }
    w.apply_fast(&packets[3]);
    assert_eq!(w.entities.len(), 2);
    assert_eq!(w.entities[0].transform.unwrap().position, v(6, 6, 6));
    assert_eq!(w.entities[1].transform.unwrap().scale, v(4, 4, 4));
    assert_eq!(w.entities[0].player, None);
}

#[test]
fn reapplying_initialise_entity_does_not_duplicate() {
    let mut c = WorldMachine::new(World::new("m".to_string()));
    let e = boxed(3);
    c.apply_steady(SteadyPacket::InitialiseEntity(3, e.clone()));
    c.apply_steady(SteadyPacket::InitialiseEntity(3, e.clone()));
    assert_eq!(c.world.entities, vec![e]);
    c.apply_steady(SteadyPacket::RemoveEntity(3));
    assert!(c.world.entities.is_empty());
    c.apply_steady(SteadyPacket::RemoveEntity(3));
    assert!(c.world.entities.is_empty());
}

#[test]
fn client_ignores_own_entity_and_snaps_on_correction() {
    let mut c = WorldMachine::new(World::new("m".to_string()));
    c.apply_steady(SteadyPacket::InitialisePlayer(
        "me".to_string(),
        10,
        "me".to_string(),
        v(0, 2000, 0),
        q(1000),
        v(1000, 1000, 1000),
    ));
    c.apply_steady(SteadyPacket::InitialiseEntity(10, player_entity(10, "me", "me")));
    assert!(c.world.entities.is_empty());
    c.apply_steady(SteadyPacket::FinaliseMapLoad);
    assert!(c.map_loaded);
    c.apply_fast(&FastPacket::PlayerFuckYouMoveHere(v(1000, 0, 0)));
    assert_eq!(c.player.as_ref().unwrap().position, v(1000, 0, 0));
    c.apply_steady(SteadyPacket::Respawn(v(0, 0, 0)));
    assert_eq!(c.player.as_ref().unwrap().position, v(0, 0, 0));
    c.apply_fast(&FastPacket::PlayerFuckYouSetRotation(q(7)));
    assert_eq!(c.player.as_ref().unwrap().head_rotation, q(7));
}

#[test]
fn client_chat_and_names() {
    let mut c = WorldMachine::new(World::new("m".to_string()));
    c.apply_steady(SteadyPacket::InitialisePlayer(
        "me".to_string(),
        10,
        "me".to_string(),
        v(0, 0, 0),
        q(1000),
        v(1, 1, 1),
    ));
    c.apply_steady(SteadyPacket::InitialiseEntity(11, player_entity(11, "other", "olga")));
    c.apply_steady(SteadyPacket::ChatMessage("me".to_string(), "echo".to_string()));
    c.apply_steady(SteadyPacket::ChatMessage("other".to_string(), "hi".to_string()));
    c.apply_steady(SteadyPacket::ChatMessage("ghost".to_string(), "boo".to_string()));
    c.apply_steady(SteadyPacket::SetName("other".to_string(), "oleg".to_string()));
    c.apply_steady(SteadyPacket::NameRejected(NameRejectionReason::Taken));
    assert_eq!(
        c.events,
        vec![
            ClientEvent::PlayerJoined,
            ClientEvent::Chat("olga".to_string(), "hi".to_string()),
            ClientEvent::Chat("ghost".to_string(), "boo".to_string()),
            ClientEvent::Renamed("olga".to_string(), "oleg".to_string()),
            ClientEvent::NameRejected(NameRejectionReason::Taken),
        ]
    );
    assert_eq!(c.world.entities[0].player.as_ref().unwrap().name, "oleg");
}

#[test]
fn projectiles_are_not_duplicated() {
    let mut c = WorldMachine::new(World::new("m".to_string()));
    let t = SteadyPacket::ThrowThrowAballll("b1".to_string(), v(1, 1, 1), v(0, 5, 0));
    c.apply_steady(t.clone());
    c.apply_steady(t);
    assert_eq!(c.projectiles.len(), 1);
}

#[test]
fn intents_fold_into_one_move() {
    let p = LocalPlayer {
        uuid: "me".to_string(),
        name: "me".to_string(),
        position: v(1, 2, 3),
        rotation: q(5),
        head_rotation: q(6),
        scale: v(1, 1, 1),
    };
    let info = MovementInfo { jumped: false, sprinting: true };
    let intents = vec![
        ClientUpdate::IDisplaced(v(1, 0, 0), None),
        ClientUpdate::IJumped,
        ClientUpdate::IDisplaced(v(2, 0, 0), Some(info)),
        ClientUpdate::IThrewtball,
        ClientUpdate::IJumped,
        ClientUpdate::IDisplaced(v(3, 0, 0), None),
        ClientUpdate::IThrewtball,
    ];
    let out = fold_intents(&p, &intents);
    assert_eq!(
        out.fast,
        vec![
            FastPacket::PlayerMove("me".to_string(), v(1, 2, 3), v(3, 0, 0), q(5), q(6), Some(info)),
            FastPacket::PlayerJump("me".to_string()),
        ]
    );
    assert_eq!(out.steady.len(), 2);
    let looked = fold_intents(&p, &vec![ClientUpdate::IDisplaced(v(3, 0, 0), None), ClientUpdate::ILooked(q(9))]);
    assert_eq!(
        looked.fast,
        vec![FastPacket::PlayerMove("me".to_string(), v(1, 2, 3), v(0, 0, 0), q(5), q(6), None)]
    );
    assert!(fold_intents(&p, &vec![]).fast.is_empty());
}

#[test]
fn ping_schedule() {
    assert!(!ping_due(10, 15));
    assert!(ping_due(10, 16));
    assert!(!ping_due(20, 10));
}

#[test]
fn request_builders() {
    let c = WorldMachine::new(World::new("m".to_string()));
    assert_eq!(c.set_name("bob".to_string()), SteadyPacket::SetName(String::new(), "bob".to_string()));
    assert_eq!(
        c.send_chat_message("yo".to_string()),
        SteadyPacket::ChatMessage(String::new(), "yo".to_string())
    );
    assert_eq!(
        c.throw_tball(),
        SteadyPacket::ThrowThrowAballll(String::new(), v(0, 0, 0), v(0, 0, 0))
    );
    assert_eq!(c.get_entity_index(1), None);
    let d = netcore::client::stamp(SteadyPacket::Ping);
    assert_eq!(d.uuid.len(), 36);
    assert_ne!(d.uuid, netcore::client::stamp(SteadyPacket::Ping).uuid);
}

#[test]
fn any_order_with_drops_converges_to_last_applied() {
    let packets = vec![
        FastPacket::ChangePosition(1, v(1, 0, 0)),
        FastPacket::ChangePosition(2, v(2, 0, 0)),
        FastPacket::ChangePosition(1, v(3, 0, 0)),
        FastPacket::ChangeRotation(1, q(9)),
        FastPacket::ChangePosition(42, v(4, 0, 0)),
    ];
    let n = packets.len();
    // Every ordering of every subset, as a sequence of indices.
    let mut orders: Vec<Vec<usize>> = vec![vec![]];
    for _ in 0..n {
        let mut next = Vec::new();
        for o in &orders {
            for i in 0..n {
                if !o.contains(&i) {
                    let mut o2 = o.clone();
                    o2.push(i);
                    next.push(o2);
                }
            }
        }
        orders.extend(next.into_iter());
        orders.sort();
        orders.dedup();
    }
    for order in orders {
        let mut w = World::new("m".to_string());
        w.upsert_entity(boxed(1));
        w.upsert_entity(boxed(2));
        let mut expect_pos = [v(0, 0, 0), v(0, 0, 0)];
        let mut expect_rot = q(1000);
        for &i in &order {
            w.apply_fast(&packets[i]);
            match &packets[i] {
                FastPacket::ChangePosition(id, p) if *id == 1 || *id == 2 => expect_pos[*id as usize - 1] = *p,
                FastPacket::ChangeRotation(1, r) => expect_rot = *r,
                _ => {}
            }
        }
        assert_eq!(w.entities.len(), 2);
        assert_eq!(w.entities[0].transform.unwrap().position, expect_pos[0]);
        assert_eq!(w.entities[1].transform.unwrap().position, expect_pos[1]);
        assert_eq!(w.entities[0].transform.unwrap().rotation, expect_rot);
    }
}
