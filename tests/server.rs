use netcore::geometry::{Quat, Vec3};
use netcore::packet::{Entity, FastPacket, NameRejectionReason, SteadyPacket, Transform, WorldUpdate};
use netcore::registry::{ConnectionRegistry, LIVENESS_TIMEOUT};
use netcore::server::{reconcile, Server};
use netcore::transport::LocalChannel;
use netcore::world::World;

fn v(x: i64, y: i64, z: i64) -> Vec3 {
    Vec3 { x, y, z }
}

fn ident() -> Quat {
    Quat { w: 1000, x: 0, y: 0, z: 0 }
}

fn join(server: &mut Server, uuid: &str, now: u64) -> (Vec<SteadyPacket>, u64) {
    let uuid = uuid.to_string();
    let j = server
        .begin_connection(&uuid, &"player".to_string(), v(0, 2000, 0), ident(), v(1000, 1000, 1000))
        .unwrap();
    let id = j.entity.uid;
    server.activate(uuid, j.entity, now);
    (j.snapshot, id)
}

#[test]
fn chat_reaches_the_other_connection_only() {
    let mut server = Server::new(World::new("map".to_string()));
    let mut a_in: LocalChannel<SteadyPacket> = LocalChannel::new();
    let mut b_in: LocalChannel<SteadyPacket> = LocalChannel::new();
    join(&mut server, "A", 0);
    join(&mut server, "B", 0);
    let out = server.on_steady(
        &"A".to_string(),
        SteadyPacket::ChatMessage(String::new(), "hi".to_string()),
        0,
    );
    for (to, p) in out {
        if to == "A" {
            a_in.send(p);
        } else if to == "B" {
            b_in.send(p);
        }
    }
    assert_eq!(
        b_in.try_receive(),
        Some(SteadyPacket::ChatMessage("A".to_string(), "hi".to_string()))
    );
    assert_eq!(b_in.try_receive(), None);
    assert_eq!(a_in.try_receive(), None);
}

#[test]
fn clamped_move_gets_one_correction() {
    let mut server = Server::new(World::new("map".to_string()));
    join(&mut server, "c", 0);
    let r = server.on_player_move(&"c".to_string(), v(0, 0, 0), v(5, 0, 0), ident(), ident(), v(1, 0, 0));
    assert_eq!(r, Some(FastPacket::PlayerFuckYouMoveHere(v(1, 0, 0))));
    assert_eq!(server.player_position(&"c".to_string()), Some(v(1, 0, 0)));
    assert_eq!(
        server.pending.last(),
        Some(&WorldUpdate::MovePlayerEntity(0, v(1, 0, 0), ident(), ident()))
    );
}

#[test]
fn legal_move_gets_no_correction() {
    assert_eq!(reconcile(v(0, 0, 0), v(5, 0, 0), v(5, 0, 0)), None);
    assert_eq!(reconcile(v(1, 2, 3), v(-1, -2, -3), v(0, 0, 0)), None);
    let blocked = reconcile(v(0, 0, 0), v(5, 0, 0), v(0, 0, 0));
    assert_eq!(blocked, Some(FastPacket::PlayerFuckYouMoveHere(v(0, 0, 0))));
    assert_eq!(
        reconcile(v(i64::MAX, 0, 0), v(1, 0, 0), v(i64::MIN, 0, 0)),
        Some(FastPacket::PlayerFuckYouMoveHere(v(i64::MIN, 0, 0)))
    );
}

#[test]
fn check_position_corrects_drift() {
    let mut server = Server::new(World::new("map".to_string()));
    join(&mut server, "c", 0);
    assert_eq!(server.on_check_position(&"c".to_string(), v(0, 2000, 0)), None);
    assert_eq!(
        server.on_check_position(&"c".to_string(), v(0, 1999, 0)),
        Some(FastPacket::PlayerFuckYouMoveHere(v(0, 2000, 0)))
    );
    assert_eq!(server.on_check_position(&"unknown".to_string(), v(0, 0, 0)), None);
}

#[test]
fn snapshot_lists_entities_then_player_then_marker() {
    let mut world = World::new("map".to_string());
    world.upsert_entity(Entity { uid: 100, name: "tree".to_string(), transform: None, player: None });
    world.upsert_entity(Entity {
        uid: 101,
        name: "rock".to_string(),
        transform: Some(Transform { position: v(1, 1, 1), rotation: ident(), scale: v(1, 1, 1) }),
        player: None,
    });
    let mut server = Server::new(world);
    let (snap, id) = join(&mut server, "n", 0);
    assert_eq!(snap.len(), 4);
    assert!(matches!(&snap[0], SteadyPacket::InitialiseEntity(100, e) if e.name == "tree"));
    assert!(matches!(&snap[1], SteadyPacket::InitialiseEntity(101, e) if e.name == "rock"));
    assert_eq!(
        snap[2],
        SteadyPacket::InitialisePlayer(
            "n".to_string(),
            id,
            "player".to_string(),
            v(0, 2000, 0),
            ident(),
            v(1000, 1000, 1000)
        )
    );
    assert_eq!(snap[3], SteadyPacket::FinaliseMapLoad);
    let (snap2, _) = join(&mut server, "m", 0);
    assert_eq!(snap2.len(), 5);
    assert!(matches!(&snap2[2], SteadyPacket::InitialiseEntity(i, _) if *i == id));
}

#[test]
fn silent_connection_is_evicted_once_and_announced() {
    let mut server = Server::new(World::new("map".to_string()));
    let (_, a_id) = join(&mut server, "A", 0);
    join(&mut server, "B", 0);
    server.tick();
    server.on_steady(&"B".to_string(), SteadyPacket::Ping, 50);
    assert_eq!(server.evict_stale(LIVENESS_TIMEOUT).len(), 0);
    let gone = server.evict_stale(LIVENESS_TIMEOUT + 1);
    assert_eq!(gone.len(), 1);
    assert_eq!(gone[0].uuid, "A");
    assert!(!server.world.contains(a_id));
    assert_eq!(server.evict_stale(LIVENESS_TIMEOUT + 2).len(), 0);
    let out = server.tick();
    assert_eq!(out.steady, vec![("B".to_string(), SteadyPacket::RemoveEntity(a_id))]);
}

#[test]
fn name_change_is_rejected_when_taken() {
    let mut server = Server::new(World::new("map".to_string()));
    join(&mut server, "A", 0);
    join(&mut server, "B", 0);
    let out = server.on_steady(&"B".to_string(), SteadyPacket::SetName(String::new(), "player".to_string()), 0);
    assert_eq!(out, vec![("B".to_string(), SteadyPacket::NameRejected(NameRejectionReason::Taken))]);
    let out = server.on_steady(&"B".to_string(), SteadyPacket::SetName(String::new(), "bob".to_string()), 0);
    assert_eq!(out.len(), 2);
    assert!(out.iter().all(|(_, p)| *p == SteadyPacket::SetName("B".to_string(), "bob".to_string())));
}

#[test]
fn tick_coalesces_movements_per_entity() {
    let mut server = Server::new(World::new("map".to_string()));
    join(&mut server, "A", 0);
    server.tick();
    server.pending.push(WorldUpdate::MovePlayerEntity(7, v(1, 0, 0), ident(), ident()));
    server.pending.push(WorldUpdate::SetPosition(8, v(9, 9, 9)));
    server.pending.push(WorldUpdate::MovePlayerEntity(6, v(5, 0, 0), ident(), ident()));
    server.pending.push(WorldUpdate::MovePlayerEntity(7, v(2, 0, 0), ident(), ident()));
    server.pending.push(WorldUpdate::EntityNoLongerExists(3));
    let out = server.tick();
    assert_eq!(
        out.fast,
        vec![
            ("A".to_string(), FastPacket::ChangePosition(8, v(9, 9, 9))),
            ("A".to_string(), FastPacket::PlayerMoved(7, v(2, 0, 0), ident(), ident())),
            ("A".to_string(), FastPacket::PlayerMoved(6, v(5, 0, 0), ident(), ident())),
        ]
    );
    assert_eq!(out.steady, vec![("A".to_string(), SteadyPacket::RemoveEntity(3))]);
    assert!(server.pending.is_empty());
}

#[test]
fn disconnect_removes_player_and_queues_removal() {
    let mut server = Server::new(World::new("map".to_string()));
    let (_, id) = join(&mut server, "A", 0);
    server.tick();
    assert!(server.disconnect(&"A".to_string()));
    assert!(!server.disconnect(&"A".to_string()));
    assert!(!server.world.contains(id));
    assert_eq!(server.pending, vec![WorldUpdate::EntityNoLongerExists(id)]);
}

#[test]
fn registry_register_ping_and_unregister() {
    let mut r = ConnectionRegistry::new();
    assert_eq!(r.register("a".to_string(), 1, 0), 0);
    assert_eq!(r.register("b".to_string(), 2, 0), 1);
    assert_eq!(r.register("a".to_string(), 3, 5), 0);
    assert_eq!(r.len(), 2);
    assert!(r.record_ping(&"b".to_string(), 10));
    assert!(!r.record_ping(&"z".to_string(), 10));
    assert_eq!(r.list_all(), vec!["a".to_string(), "b".to_string()]);
    assert_eq!(r.list_affected(v(1, 2, 3)), vec!["a".to_string(), "b".to_string()]);
    let stale = r.take_stale(66);
    assert_eq!(stale.len(), 1);
    assert_eq!(stale[0].entity_id, 3);
    assert_eq!(r.unregister(&"b".to_string()), Some(2));
    assert_eq!(r.unregister(&"b".to_string()), None);
    assert_eq!(r.len(), 0);
}

#[test]
fn throw_is_announced_to_everyone_when_ready() {
    let mut server = Server::new(World::new("map".to_string()));
    join(&mut server, "A", 0);
    join(&mut server, "B", 0);
    let pk = SteadyPacket::ThrowThrowAballll("ball".to_string(), v(1, 2, 3), v(0, 5, 0));
    let out = server.on_throw(true, "ball".to_string(), v(1, 2, 3), v(0, 5, 0));
    assert_eq!(out, vec![("A".to_string(), pk.clone()), ("B".to_string(), pk)]);
    assert!(server.on_throw(false, "b2".to_string(), v(0, 0, 0), v(0, 0, 0)).is_empty());
}

#[test]
fn fallen_player_respawns_at_origin() {
    let mut server = Server::new(World::new("map".to_string()));
    join(&mut server, "A", 0);
    assert_eq!(server.respawn_if_fallen(&"A".to_string()), None);
    server.on_player_move(&"A".to_string(), v(0, 2000, 0), v(0, -30000, 0), ident(), ident(), v(0, -28000, 0));
    assert_eq!(server.respawn_if_fallen(&"A".to_string()), Some(SteadyPacket::Respawn(v(0, 0, 0))));
    assert_eq!(server.player_position(&"A".to_string()), Some(v(0, 0, 0)));
    assert_eq!(server.respawn_if_fallen(&"nobody".to_string()), None);
}

#[test]
fn world_updates_fan_out_to_all_connections() {
    let mut server = Server::new(World::new("map".to_string()));
    join(&mut server, "A", 0);
    join(&mut server, "B", 0);
    let e = Entity { uid: 50, name: "lamp".to_string(), transform: None, player: None };
    let updates = vec![
        WorldUpdate::InitEntity(50, e.clone()),
        WorldUpdate::SetRotation(50, ident()),
        WorldUpdate::SetScale(50, v(2, 2, 2)),
    ];
    let out = server.handle_world_updates(&updates);
    assert_eq!(
        out.steady,
        vec![
            ("A".to_string(), SteadyPacket::InitialiseEntity(50, e.clone())),
            ("B".to_string(), SteadyPacket::InitialiseEntity(50, e)),
        ]
    );
    assert_eq!(out.fast.len(), 4);
    assert_eq!(out.fast[1], ("B".to_string(), FastPacket::ChangeRotation(50, ident())));
    assert_eq!(out.fast[3], ("B".to_string(), FastPacket::ChangeScale(50, v(2, 2, 2))));
    server.queue_update(WorldUpdate::EntityNoLongerExists(50));
    assert_eq!(server.pending.last(), Some(&WorldUpdate::EntityNoLongerExists(50)));
}
