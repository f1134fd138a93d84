//! The authoritative server's decisions.
//!
//! The server owns the world, the registry of connections and the queue of
//! pending world updates. Each method takes what arrived (a packet, the time,
//! what physics computed) and returns the packets to send; sending them, and
//! the loops around it, belong to the embedding program.
use vstd::prelude::*;
use crate::fanout::{fan_out, Outgoing};
use crate::geometry::{Quat, Vec3, UNIT};
use crate::packet::{
    ConnectionUUID, Entity, EntityId, FastPacket, NameRejectionReason, PlayerComponent,
    SteadyPacket, WorldUpdate,
};
use crate::registry::{find_spec, is_stale, ConnectionEntry, ConnectionRegistry};
use crate::world::{
    ids_unique, index_of, lemma_index_of, lemma_present, lemma_present_after_remove,
    lemma_remove_unique, move_player, present, remove_id, upsert, World,
};

verus! {

// ---- snapshot ----

/// What a joining connection is sent: every entity, then its own player,
/// then the end-of-map marker.
pub open spec fn snapshot_spec(es: Seq<Entity>, player: SteadyPacket) -> Seq<SteadyPacket> {
    Seq::new(es.len(), |i: int| SteadyPacket::InitialiseEntity(es[i].uid, es[i])) + seq![
        player,
        SteadyPacket::FinaliseMapLoad,
    ]
}

/// A snapshot announces every entity of the world before the player, and
/// holds exactly one player announcement followed by exactly one
/// end-of-map marker, which is last.
pub proof fn lemma_snapshot_complete(es: Seq<Entity>, player: SteadyPacket)
    requires
        player is InitialisePlayer,
    ensures
        ({
            let r = snapshot_spec(es, player);
            let n = es.len() as int;
            &&& r.len() == n + 2
            &&& forall|i: int| 0 <= i < n ==> #[trigger] r[i] == SteadyPacket::InitialiseEntity(es[i].uid, es[i])
            &&& forall|j: int| 0 <= j < r.len() && (#[trigger] r[j] is InitialisePlayer) ==> j == n
            &&& forall|j: int| 0 <= j < r.len() && (#[trigger] r[j] is FinaliseMapLoad) ==> j == n + 1
            &&& r[n] == player
            &&& r[n + 1] == SteadyPacket::FinaliseMapLoad
        }),
{
}

// ---- sending to many ----

/// The packet for every registered connection but `from`.
pub open spec fn to_others(es: Seq<ConnectionEntry>, from: Seq<char>, pk: SteadyPacket) -> Seq<(ConnectionUUID, SteadyPacket)>
    decreases es.len(),
{
    if es.len() == 0 {
        Seq::empty()
    } else {
        to_others(es.drop_last(), from, pk) + if es.last().uuid@ != from {
            seq![(es.last().uuid, pk)]
        } else {
            Seq::empty()
        }
    }
}

/// The packet for every registered connection.
pub open spec fn to_everyone(es: Seq<ConnectionEntry>, pk: SteadyPacket) -> Seq<(ConnectionUUID, SteadyPacket)> {
    Seq::new(es.len(), |i: int| (es[i].uuid, pk))
}

/// A message sent to the others reaches every registered connection but the
/// sender, and never the sender.
pub proof fn lemma_to_others(es: Seq<ConnectionEntry>, from: Seq<char>, pk: SteadyPacket)
    ensures
        forall|k: int| 0 <= k < to_others(es, from, pk).len() ==> (#[trigger] to_others(es, from, pk)[k]).0@
            != from && to_others(es, from, pk)[k].1 == pk,
        forall|i: int| 0 <= i < es.len() && (#[trigger] es[i]).uuid@ != from ==> to_others(es, from, pk).contains(
            (es[i].uuid, pk),
        ),
    decreases es.len(),
{
    if es.len() > 0 {
        let prev = es.drop_last();
        lemma_to_others(prev, from, pk);
        let a = to_others(prev, from, pk);
        let out = to_others(es, from, pk);
        assert forall|i: int| 0 <= i < es.len() && (#[trigger] es[i]).uuid@ != from implies out.contains(
            (es[i].uuid, pk),
        ) by {
            if i == es.len() - 1 {
                assert(out[out.len() - 1] == (es[i].uuid, pk));
            } else {
                assert(prev[i] == es[i]);
                assert(a.contains((es[i].uuid, pk)));
                let k = choose|k: int| 0 <= k < a.len() && a[k] == (es[i].uuid, pk);
                assert(out[k] == a[k]);
            }
        }
        assert forall|k: int| 0 <= k < out.len() implies (#[trigger] out[k]).0@ != from && out[k].1
            == pk by {
            if k < a.len() {
                assert(out[k] == a[k]);
            }
        }
    }
}

fn send_to_others(
    out: &mut Vec<(ConnectionUUID, SteadyPacket)>,
    es: &Vec<ConnectionEntry>,
    from: &String,
    pk: &SteadyPacket,
)
    ensures
        final(out)@ == old(out)@ + to_others(es@, from@, *pk),
{
    let mut i: usize = 0;
    while i < es.len()
        invariant
            i <= es@.len(),
            out@ == old(out)@ + to_others(es@.take(i as int), from@, *pk),
        decreases es@.len() - i,
    {
        proof {
            assert(es@.take(i + 1).drop_last() =~= es@.take(i as int));
        }
        if es[i].uuid != *from {
            out.push((es[i].uuid.clone(), pk.duplicate()));
        }
        assert(out@ =~= old(out)@ + to_others(es@.take(i + 1), from@, *pk));
        i = i + 1;
    }
    assert(es@.take(i as int) =~= es@);
}

fn send_to_everyone(out: &mut Vec<(ConnectionUUID, SteadyPacket)>, es: &Vec<ConnectionEntry>, pk: &SteadyPacket)
    ensures
        final(out)@ == old(out)@ + to_everyone(es@, *pk),
{
    let mut i: usize = 0;
    while i < es.len()
        invariant
            i <= es@.len(),
            out@ =~= old(out)@ + to_everyone(es@, *pk).take(i as int),
        decreases es@.len() - i,
    {
        out.push((es[i].uuid.clone(), pk.duplicate()));
        i = i + 1;
    }
    assert(to_everyone(es@, *pk).take(i as int) =~= to_everyone(es@, *pk));
}

// ---- names ----

pub open spec fn has_name(e: Entity, name: Seq<char>) -> bool {
    match e.player {
        Some(p) => p.name@ == name,
        None => false,
    }
}

/// Some player in the world already goes by `name`.
pub open spec fn name_taken(es: Seq<Entity>, name: Seq<char>) -> bool {
    exists|i: int| 0 <= i < es.len() && has_name(#[trigger] es[i], name)
}

fn is_name_taken(es: &Vec<Entity>, name: &String) -> (r: bool)
    ensures
        r == name_taken(es@, name@),
{
    let mut i: usize = 0;
    while i < es.len()
        invariant
            i <= es@.len(),
            forall|k: int| 0 <= k < i ==> !has_name(#[trigger] es@[k], name@),
        decreases es@.len() - i,
    {
        match &es[i].player {
            Some(p) => {
                if p.name == *name {
                    return true;
                }
            },
            None => {},
        }
        i = i + 1;
    }
    false
}

/// The entity with its player's name changed; an entity without a player
/// component is left as it is.
pub open spec fn renamed(e: Entity, name: String) -> Entity {
    match e.player {
        Some(p) => Entity { player: Some(PlayerComponent { name, ..p }), ..e },
        None => e,
    }
}

// ---- movement ----

/// The client's claimed destination is where physics put the player.
pub open spec fn lands_at(claimed: Vec3, displacement: Vec3, result: Vec3) -> bool {
    result.x == claimed.x + displacement.x && result.y == claimed.y + displacement.y && result.z
        == claimed.z + displacement.z
}

/// Decides a movement claim against what physics computed: an accepted claim
/// gets no answer, any other gets one correction to the physics position.
pub fn reconcile(claimed: Vec3, displacement: Vec3, physics_result: Vec3) -> (r: Option<FastPacket>)
    ensures
        lands_at(claimed, displacement, physics_result) ==> r is None,
        !lands_at(claimed, displacement, physics_result) ==> r == Some(
            FastPacket::PlayerFuckYouMoveHere(physics_result),
        ),
{
    let ok = physics_result.x as i128 == claimed.x as i128 + displacement.x as i128
        && physics_result.y as i128 == claimed.y as i128 + displacement.y as i128
        && physics_result.z as i128 == claimed.z as i128 + displacement.z as i128;
    if ok {
        None
    } else {
        Some(FastPacket::PlayerFuckYouMoveHere(physics_result))
    }
}

/// The server's side of one connection's world.
pub struct Server {
    pub world: World,
    pub registry: ConnectionRegistry,
    /// World updates waiting for the next fan-out.
    pub pending: Vec<WorldUpdate>,
}

/// A joining connection's player and the snapshot it must be sent.
pub struct Joining {
    pub entity: Entity,
    pub snapshot: Vec<SteadyPacket>,
}

/// The player entity a joining connection gets.
pub open spec fn new_player(id: EntityId, uuid: String, name: String, position: Vec3, rotation: Quat) -> Entity {
    Entity {
        uid: id,
        name,
        transform: None,
        player: Some(
            PlayerComponent {
                uuid,
                name,
                position,
                rotation,
                head_rotation: rotation,
                speed: 0,
                strafe: 0,
            },
        ),
    }
}

/// What evicting or disconnecting the given entries leaves queued: one
/// removal announcement per player entity that was in the world.
pub open spec fn evict_spec(ws: Seq<Entity>, es: Seq<ConnectionEntry>) -> (Seq<Entity>, Seq<WorldUpdate>)
    decreases es.len(),
{
    if es.len() == 0 {
        (ws, Seq::empty())
    } else {
        let (w, us) = evict_spec(ws, es.drop_last());
        let id = es.last().entity_id;
        if index_of(w, id) >= 0 {
            (remove_id(w, id), us.push(WorldUpdate::EntityNoLongerExists(id)))
        } else {
            (w, us)
        }
    }
}

/// Below this height a player has fallen out of the world.
pub const FALL_LIMIT: i64 = -20 * UNIT;

/// Every evicted connection whose player was in the world has that player's
/// removal queued.
pub proof fn lemma_evictions_announced(ws: Seq<Entity>, es: Seq<ConnectionEntry>)
    ensures
        forall|i: int| 0 <= i < es.len() && present(ws, (#[trigger] es[i]).entity_id) ==> evict_spec(ws, es).1.contains(
            WorldUpdate::EntityNoLongerExists(es[i].entity_id),
        ),
        forall|id: EntityId| present(ws, id) && !present(#[trigger] evict_spec(ws, es).0, id) ==> evict_spec(ws, es).1.contains(
            WorldUpdate::EntityNoLongerExists(id),
        ),
    decreases es.len(),
{
    if es.len() > 0 {
        let prev = es.drop_last();
        lemma_evictions_announced(ws, prev);
        let (w, us) = evict_spec(ws, prev);
        let id = es.last().entity_id;
        lemma_present(w, id);
        let (w2, us2) = evict_spec(ws, es);
        assert forall|x: EntityId| present(ws, x) && !present(#[trigger] evict_spec(ws, es).0, x) implies evict_spec(ws, es).1.contains(
            WorldUpdate::EntityNoLongerExists(x),
        ) by {
            if index_of(w, id) >= 0 {
                if x != id {
                    lemma_present_after_remove(w, x, id);
                    assert(us.contains(WorldUpdate::EntityNoLongerExists(x)));
                    let k = choose|k: int| 0 <= k < us.len() && us[k] == WorldUpdate::EntityNoLongerExists(x);
                    assert(us2[k] == us[k]);
                } else {
                    assert(us2[us.len() as int] == WorldUpdate::EntityNoLongerExists(x));
                }
            }
        }
        assert forall|i: int| 0 <= i < es.len() && present(ws, (#[trigger] es[i]).entity_id) implies evict_spec(ws, es).1.contains(
            WorldUpdate::EntityNoLongerExists(es[i].entity_id),
        ) by {
            let x = es[i].entity_id;
            if i == es.len() - 1 {
                if index_of(w, id) >= 0 {
                    assert(us2[us.len() as int] == WorldUpdate::EntityNoLongerExists(x));
                } else {
                    assert(us.contains(WorldUpdate::EntityNoLongerExists(x)));
                }
            } else {
                assert(prev[i] == es[i]);
                assert(us.contains(WorldUpdate::EntityNoLongerExists(x)));
                let k = choose|k: int| 0 <= k < us.len() && us[k] == WorldUpdate::EntityNoLongerExists(x);
                if index_of(w, id) >= 0 {
                    assert(us2[k] == us[k]);
                }
            }
        }
    }
}

/// When identifiers are unique, no evicted player is left in the world, and
/// identifiers stay unique.
pub proof fn lemma_evictions_remove(ws: Seq<Entity>, es: Seq<ConnectionEntry>)
    requires
        ids_unique(ws),
    ensures
        ids_unique(evict_spec(ws, es).0),
        forall|i: int| 0 <= i < es.len() ==> !present(evict_spec(ws, es).0, (#[trigger] es[i]).entity_id),
    decreases es.len(),
{
    if es.len() > 0 {
        let prev = es.drop_last();
        lemma_evictions_remove(ws, prev);
        let (w, us) = evict_spec(ws, prev);
        let id = es.last().entity_id;
        lemma_present(w, id);
        lemma_remove_unique(w, id);
        let w2 = evict_spec(ws, es).0;
        assert forall|i: int| 0 <= i < es.len() implies !present(w2, (#[trigger] es[i]).entity_id) by {
            let x = es[i].entity_id;
            if i < es.len() - 1 {
                assert(prev[i] == es[i]);
                if x != id {
                    lemma_present_after_remove(w, x, id);
                }
            }
        }
    }
}

impl Server {
    pub open spec fn wf(&self) -> bool {
        self.registry.wf()
    }

    pub fn new(world: World) -> (r: Self)
        ensures
            r.wf(),
            r.world == world,
            r.registry.entries@.len() == 0,
            r.pending@.len() == 0,
    {
        Server { world, registry: ConnectionRegistry::new(), pending: Vec::new() }
    }

    /// Every entity announced, then the player, then the end-of-map marker.
    pub fn snapshot(&self, player: SteadyPacket) -> (r: Vec<SteadyPacket>)
        ensures
            r@ == snapshot_spec(self.world.entities@, player),
    {
        let mut out: Vec<SteadyPacket> = Vec::new();
        let mut i: usize = 0;
        let ghost es = self.world.entities@;
        while i < self.world.entities.len()
            invariant
                es == self.world.entities@,
                i <= es.len(),
                out@ =~= Seq::new(es.len(), |k: int| SteadyPacket::InitialiseEntity(es[k].uid, es[k])).take(i as int),
            decreases es.len() - i,
        {
            let e = self.world.entities[i].duplicate();
            out.push(SteadyPacket::InitialiseEntity(e.uid, e));
            i = i + 1;
        }
        out.push(player);
        out.push(SteadyPacket::FinaliseMapLoad);
        assert(out@ =~= snapshot_spec(es, player));
        out
    }

    /// Starts a connection: gives it a player entity and the snapshot of the
    /// world as it is before that player joins. `None` when no entity
    /// identifier is left.
    pub fn begin_connection(&mut self, uuid: &String, name: &String, position: Vec3, rotation: Quat, scale: Vec3) -> (r: Option<Joining>)
        requires
            old(self).wf(),
        ensures
            final(self).wf(),
            final(self).world.entities == old(self).world.entities,
            final(self).registry == old(self).registry,
            final(self).pending == old(self).pending,
            old(self).world.eid_manager == u64::MAX <==> r is None,
            r matches Some(j) ==> {
                let id = old(self).world.eid_manager;
                &&& j.entity == new_player(id, *uuid, *name, position, rotation)
                &&& j.snapshot@ == snapshot_spec(
                    old(self).world.entities@,
                    SteadyPacket::InitialisePlayer(*uuid, id, *name, position, rotation, scale),
                )
            },
    {
        let id = match self.world.allocate_id() {
            Some(id) => id,
            None => return None,
        };
        let entity = Entity {
            uid: id,
            name: name.clone(),
            transform: None,
            player: Some(
                PlayerComponent {
                    uuid: uuid.clone(),
                    name: name.clone(),
                    position,
                    rotation,
                    head_rotation: rotation,
                    speed: 0,
                    strafe: 0,
                },
            ),
        };
        let snapshot = self.snapshot(
            SteadyPacket::InitialisePlayer(uuid.clone(), id, name.clone(), position, rotation, scale),
        );
        Some(Joining { entity, snapshot })
    }

    /// Makes a connection active once its snapshot went out: its player
    /// enters the world, is announced to everyone, and the connection is
    /// registered.
    pub fn activate(&mut self, uuid: ConnectionUUID, entity: Entity, now: u64)
        requires
            old(self).wf(),
        ensures
            final(self).wf(),
            final(self).world.entities@ == upsert(old(self).world.entities@, entity),
            final(self).pending@ == old(self).pending@.push(WorldUpdate::InitEntity(entity.uid, entity)),
            find_spec(old(self).registry.entries@, uuid@) == -1 ==> final(self).registry.entries@
                == old(self).registry.entries@.push(
                ConnectionEntry { uuid, entity_id: entity.uid, last_ping: now },
            ),
            find_spec(old(self).registry.entries@, uuid@) >= 0 ==> final(self).registry.entries@
                == old(self).registry.entries@.update(
                find_spec(old(self).registry.entries@, uuid@),
                ConnectionEntry { uuid, entity_id: entity.uid, last_ping: now },
            ),
    {
        let id = entity.uid;
        let copy = entity.duplicate();
        self.world.upsert_entity(entity);
        self.pending.push(WorldUpdate::InitEntity(id, copy));
        self.registry.register(uuid, id, now);
    }

    /// Handles a steady packet from connection `from`; returns the steady
    /// packets to send and to whom.
    pub fn on_steady(&mut self, from: &String, packet: SteadyPacket, now: u64) -> (r: Vec<(ConnectionUUID, SteadyPacket)>)
        requires
            old(self).wf(),
        ensures
            final(self).wf(),
            final(self).pending == old(self).pending,
            match packet {
                SteadyPacket::ChatMessage(_, m) => r@ == to_others(
                    old(self).registry.entries@,
                    from@,
                    SteadyPacket::ChatMessage(*from, m),
                ) && final(self).world == old(self).world && final(self).registry == old(self).registry,
                SteadyPacket::SetName(_, n) => if name_taken(old(self).world.entities@, n@) {
                    r@ == seq![(*from, SteadyPacket::NameRejected(NameRejectionReason::Taken))]
                        && final(self).world == old(self).world
                        && final(self).registry == old(self).registry
                } else {
                    r@ == to_everyone(old(self).registry.entries@, SteadyPacket::SetName(*from, n))
                        && final(self).registry == old(self).registry
                        && final(self).world.entities@ == {
                        let s = old(self).world.entities@;
                        let k = find_spec(old(self).registry.entries@, from@);
                        let i = if k >= 0 {
                            index_of(s, old(self).registry.entries@[k].entity_id)
                        } else {
                            -1
                        };
                        if i >= 0 {
                            s.update(i, renamed(s[i], n))
                        } else {
                            s
                        }
                    }
                },
                SteadyPacket::Ping => r@.len() == 0 && final(self).world == old(self).world && {
                    let k = find_spec(old(self).registry.entries@, from@);
                    if k >= 0 {
                        final(self).registry.entries@ == old(self).registry.entries@.update(
                            k,
                            ConnectionEntry { last_ping: now, ..old(self).registry.entries@[k] },
                        )
                    } else {
                        final(self).registry.entries@ == old(self).registry.entries@
                    }
                },
                _ => r@.len() == 0 && final(self).world == old(self).world && final(self).registry
                    == old(self).registry,
            },
    {
        let mut out: Vec<(ConnectionUUID, SteadyPacket)> = Vec::new();
        match packet {
            SteadyPacket::ChatMessage(_, m) => {
                let pk = SteadyPacket::ChatMessage(from.clone(), m);
                send_to_others(&mut out, &self.registry.entries, from, &pk);
                assert(out@ =~= to_others(self.registry.entries@, from@, pk));
            },
            SteadyPacket::SetName(_, n) => {
                if is_name_taken(&self.world.entities, &n) {
                    out.push((from.clone(), SteadyPacket::NameRejected(NameRejectionReason::Taken)));
                } else {
                    proof {
                        lemma_index_of(self.world.entities@, 0);
                    }
                    match self.registry.find(from) {
                        Some(k) => {
                            let id = self.registry.entries[k].entity_id;
                            proof {
                                lemma_index_of(self.world.entities@, id);
                            }
                            match self.world.get_entity_index(id) {
                                Some(i) => {
                                    let mut e = self.world.entities.remove(i);
                                    let ghost before = e;
                                    if let Some(p) = &mut e.player {
                                        p.name = n.clone();
                                    }
                                    assert(e == renamed(before, n));
                                    self.world.entities.insert(i, e);
                                    assert(self.world.entities@ =~= old(self).world.entities@.update(
                                        i as int,
                                        renamed(old(self).world.entities@[i as int], n),
                                    ));
                                },
                                None => {},
                            }
                        },
                        None => {},
                    }
                    let pk = SteadyPacket::SetName(from.clone(), n);
                    send_to_everyone(&mut out, &self.registry.entries, &pk);
                }
            },
            SteadyPacket::Ping => {
                self.registry.record_ping(from, now);
            },
            _ => {},
        }
        out
    }

    /// A movement claim from connection `from`, with the position physics
    /// reached from the server's own state. The player's entity takes that
    /// position and the claimed rotations, the movement is queued for the
    /// others, and a correction is returned when the claim was wrong.
    pub fn on_player_move(
        &mut self,
        from: &String,
        claimed: Vec3,
        displacement: Vec3,
        rotation: Quat,
        head_rotation: Quat,
        physics_result: Vec3,
    ) -> (r: Option<FastPacket>)
        requires
            old(self).wf(),
        ensures
            final(self).wf(),
            final(self).registry == old(self).registry,
            lands_at(claimed, displacement, physics_result) ==> r is None,
            !lands_at(claimed, displacement, physics_result) ==> r == Some(
                FastPacket::PlayerFuckYouMoveHere(physics_result),
            ),
            ({
                let k = find_spec(old(self).registry.entries@, from@);
                let s = old(self).world.entities@;
                if k >= 0 {
                    let id = old(self).registry.entries@[k].entity_id;
                    let i = index_of(s, id);
                    &&& final(self).pending@ == old(self).pending@.push(
                        WorldUpdate::MovePlayerEntity(id, physics_result, rotation, head_rotation),
                    )
                    &&& final(self).world.entities@ == if i >= 0 {
                        s.update(i, move_player(s[i], physics_result, rotation, head_rotation))
                    } else {
                        s
                    }
                } else {
                    final(self).pending == old(self).pending && final(self).world == old(self).world
                }
            }),
    {
        match self.registry.find(from) {
            Some(k) => {
                let id = self.registry.entries[k].entity_id;
                proof {
                    lemma_index_of(self.world.entities@, id);
                }
                match self.world.get_entity_index(id) {
                    Some(i) => {
                        let mut e = self.world.entities.remove(i);
                        let ghost before = e;
                        if let Some(p) = &mut e.player {
                            p.position = physics_result;
                            p.rotation = rotation;
                            p.head_rotation = head_rotation;
                        }
                        assert(e == move_player(before, physics_result, rotation, head_rotation));
                        self.world.entities.insert(i, e);
                        assert(self.world.entities@ =~= old(self).world.entities@.update(
                            i as int,
                            move_player(old(self).world.entities@[i as int], physics_result, rotation, head_rotation),
                        ));
                    },
                    None => {},
                }
                self.pending.push(WorldUpdate::MovePlayerEntity(id, physics_result, rotation, head_rotation));
            },
            None => {},
        }
        reconcile(claimed, displacement, physics_result)
    }

    /// The server's position of the player of connection `from`.
    pub fn player_position(&self, from: &String) -> (r: Option<Vec3>)
        requires
            self.wf(),
        ensures
            ({
                let k = find_spec(self.registry.entries@, from@);
                let s = self.world.entities@;
                let i = if k >= 0 { index_of(s, self.registry.entries@[k].entity_id) } else { -1 };
                if i >= 0 && s[i].player is Some {
                    r == Some(s[i].player->0.position)
                } else {
                    r is None
                }
            }),
    {
        match self.registry.find(from) {
            Some(k) => {
                let id = self.registry.entries[k].entity_id;
                proof {
                    lemma_index_of(self.world.entities@, id);
                }
                match self.world.get_entity_index(id) {
                    Some(i) => match &self.world.entities[i].player {
                        Some(p) => Some(p.position),
                        None => None,
                    },
                    None => None,
                }
            },
            None => None,
        }
    }

    /// A periodic position check: a correction when the server has the
    /// player elsewhere than the client says.
    pub fn on_check_position(&self, from: &String, position: Vec3) -> (r: Option<FastPacket>)
        requires
            self.wf(),
        ensures
            ({
                let k = find_spec(self.registry.entries@, from@);
                let s = self.world.entities@;
                let i = if k >= 0 { index_of(s, self.registry.entries@[k].entity_id) } else { -1 };
                if i >= 0 && s[i].player is Some && s[i].player->0.position != position {
                    r == Some(FastPacket::PlayerFuckYouMoveHere(s[i].player->0.position))
                } else {
                    r is None
                }
            }),
    {
        match self.player_position(from) {
            Some(p) => if p != position {
                Some(FastPacket::PlayerFuckYouMoveHere(p))
            } else {
                None
            },
            None => None,
        }
    }

    /// Queues a world update for the next fan-out.
    pub fn queue_update(&mut self, update: WorldUpdate)
        ensures
            final(self).pending@ == old(self).pending@.push(update),
            final(self).world == old(self).world,
            final(self).registry == old(self).registry,
    {
        self.pending.push(update);
    }

    /// The packets the given updates become for every registered
    /// connection.
    pub fn handle_world_updates(&self, updates: &Vec<WorldUpdate>) -> (r: Outgoing)
        ensures
            r.steady@ == crate::fanout::steady_fan(updates@, self.registry.entries@.map_values(|e: ConnectionEntry| e.uuid)),
            r.fast@ == crate::fanout::fast_fan(updates@, self.registry.entries@.map_values(|e: ConnectionEntry| e.uuid))
                + crate::fanout::moves_fan(
                crate::fanout::coalesce(updates@),
                self.registry.entries@.map_values(|e: ConnectionEntry| e.uuid),
            ),
    {
        let cs = self.registry.list_all();
        assert(cs@ =~= self.registry.entries@.map_values(|e: ConnectionEntry| e.uuid));
        fan_out(updates, &cs)
    }

    /// Takes the pending updates, oldest first, and turns them into the
    /// packets for every registered connection.
    pub fn tick(&mut self) -> (r: Outgoing)
        requires
            old(self).wf(),
        ensures
            final(self).wf(),
            final(self).world == old(self).world,
            final(self).registry == old(self).registry,
            final(self).pending@.len() == 0,
            r.steady@ == crate::fanout::steady_fan(old(self).pending@, old(self).registry.entries@.map_values(|e: ConnectionEntry| e.uuid)),
            r.fast@ == crate::fanout::fast_fan(old(self).pending@, old(self).registry.entries@.map_values(|e: ConnectionEntry| e.uuid))
                + crate::fanout::moves_fan(
                crate::fanout::coalesce(old(self).pending@),
                old(self).registry.entries@.map_values(|e: ConnectionEntry| e.uuid),
            ),
    {
        let mut updates: Vec<WorldUpdate> = Vec::new();
        std::mem::swap(&mut updates, &mut self.pending);
        self.handle_world_updates(&updates)
    }

    fn evict_entries(&mut self, gone: &Vec<ConnectionEntry>)
        ensures
            final(self).registry == old(self).registry,
            final(self).world.entities@ == evict_spec(old(self).world.entities@, gone@).0,
            final(self).pending@ == old(self).pending@ + evict_spec(old(self).world.entities@, gone@).1,
    {
        let mut i: usize = 0;
        while i < gone.len()
            invariant
                i <= gone@.len(),
                self.registry == old(self).registry,
                self.world.entities@ == evict_spec(old(self).world.entities@, gone@.take(i as int)).0,
                self.pending@ == old(self).pending@ + evict_spec(old(self).world.entities@, gone@.take(i as int)).1,
            decreases gone@.len() - i,
        {
            proof {
                assert(gone@.take(i + 1).drop_last() =~= gone@.take(i as int));
                lemma_index_of(self.world.entities@, gone@[i as int].entity_id);
            }
            let id = gone[i].entity_id;
            if self.world.remove_entity(id) {
                self.pending.push(WorldUpdate::EntityNoLongerExists(id));
            }
            assert(self.pending@ =~= old(self).pending@ + evict_spec(old(self).world.entities@, gone@.take(i + 1)).1);
            i = i + 1;
        }
        assert(gone@.take(i as int) =~= gone@);
    }

    /// Evicts every connection that went more than the timeout without a
    /// ping: it leaves the registry, its player leaves the world, and the
    /// removal is queued for everyone left. Returns the evicted entries.
    pub fn evict_stale(&mut self, now: u64) -> (r: Vec<ConnectionEntry>)
        requires
            old(self).wf(),
        ensures
            final(self).wf(),
            r@ == old(self).registry.entries@.filter(|e: ConnectionEntry| is_stale(e, now)),
            final(self).registry.entries@ == old(self).registry.entries@.filter(
                |e: ConnectionEntry| !is_stale(e, now),
            ),
            final(self).world.entities@ == evict_spec(old(self).world.entities@, r@).0,
            final(self).pending@ == old(self).pending@ + evict_spec(old(self).world.entities@, r@).1,
            forall|i: int| 0 <= i < final(self).registry.entries@.len() ==> !is_stale(
                #[trigger] final(self).registry.entries@[i],
                now,
            ),
    {
        let gone = self.registry.take_stale(now);
        proof {
            broadcast use vstd::seq_lib::group_filter_ensures;
        }
        self.evict_entries(&gone);
        gone
    }

    /// A projectile thrown by a player whose cooldown allowed it: announced
    /// to every connection, the thrower included.
    pub fn on_throw(&self, ready: bool, projectile: String, position: Vec3, velocity: Vec3) -> (r: Vec<(ConnectionUUID, SteadyPacket)>)
        ensures
            ready ==> r@ == to_everyone(
                self.registry.entries@,
                SteadyPacket::ThrowThrowAballll(projectile, position, velocity),
            ),
            !ready ==> r@.len() == 0,
    {
        let mut out: Vec<(ConnectionUUID, SteadyPacket)> = Vec::new();
        if ready {
            let pk = SteadyPacket::ThrowThrowAballll(projectile, position, velocity);
            send_to_everyone(&mut out, &self.registry.entries, &pk);
            assert(out@ =~= to_everyone(self.registry.entries@, pk));
        }
        out
    }

    /// A player below the fall limit is put back at the origin, outside the
    /// normal reconciliation, and told so.
    pub fn respawn_if_fallen(&mut self, uuid: &String) -> (r: Option<SteadyPacket>)
        requires
            old(self).wf(),
        ensures
            final(self).wf(),
            final(self).registry == old(self).registry,
            ({
                let k = find_spec(old(self).registry.entries@, uuid@);
                let s = old(self).world.entities@;
                let id = old(self).registry.entries@[k].entity_id;
                let i = if k >= 0 { index_of(s, id) } else { -1 };
                let origin = Vec3 { x: 0, y: 0, z: 0 };
                if i >= 0 && s[i].player is Some && s[i].player->0.position.y < FALL_LIMIT {
                    let p = s[i].player->0;
                    &&& r == Some(SteadyPacket::Respawn(origin))
                    &&& final(self).world.entities@ == s.update(
                        i,
                        move_player(s[i], origin, p.rotation, p.head_rotation),
                    )
                    &&& final(self).pending@ == old(self).pending@.push(
                        WorldUpdate::MovePlayerEntity(id, origin, p.rotation, p.head_rotation),
                    )
                } else {
                    r is None && final(self).world == old(self).world && final(self).pending == old(self).pending
                }
            }),
    {
        let k = match self.registry.find(uuid) {
            Some(k) => k,
            None => return None,
        };
        let id = self.registry.entries[k].entity_id;
        proof {
            lemma_index_of(self.world.entities@, id);
        }
        let i = match self.world.get_entity_index(id) {
            Some(i) => i,
            None => return None,
        };
        let (rotation, head_rotation) = match &self.world.entities[i].player {
            Some(p) => {
                if p.position.y >= FALL_LIMIT {
                    return None;
                }
                (p.rotation, p.head_rotation)
            },
            None => return None,
        };
        let origin = Vec3 { x: 0, y: 0, z: 0 };
        let mut e = self.world.entities.remove(i);
        let ghost before = e;
        if let Some(p) = &mut e.player {
            p.position = origin;
        }
        assert(e == move_player(before, origin, rotation, head_rotation));
        self.world.entities.insert(i, e);
        assert(self.world.entities@ =~= old(self).world.entities@.update(
            i as int,
            move_player(old(self).world.entities@[i as int], origin, rotation, head_rotation),
        ));
        self.pending.push(WorldUpdate::MovePlayerEntity(id, origin, rotation, head_rotation));
        Some(SteadyPacket::Respawn(origin))
    }

    /// Tears a connection down after a steady-channel failure or an explicit
    /// removal; says whether it was registered.
    pub fn disconnect(&mut self, uuid: &String) -> (r: bool)
        requires
            old(self).wf(),
        ensures
            final(self).wf(),
            r == (find_spec(old(self).registry.entries@, uuid@) >= 0),
            r ==> {
                let k = find_spec(old(self).registry.entries@, uuid@);
                &&& final(self).registry.entries@ == old(self).registry.entries@.remove(k)
                &&& final(self).world.entities@ == evict_spec(
                    old(self).world.entities@,
                    seq![old(self).registry.entries@[k]],
                ).0
                &&& final(self).pending@ == old(self).pending@ + evict_spec(
                    old(self).world.entities@,
                    seq![old(self).registry.entries@[k]],
                ).1
            },
            !r ==> final(self).registry == old(self).registry && final(self).world == old(self).world
                && final(self).pending == old(self).pending,
    {
        let k = self.registry.find(uuid);
        match k {
            Some(k) => {
                let entry_uuid = self.registry.entries[k].uuid.clone();
                let entity_id = self.registry.entries[k].entity_id;
                let last_ping = self.registry.entries[k].last_ping;
                self.registry.unregister(uuid);
                let gone = vec![ConnectionEntry { uuid: entry_uuid, entity_id, last_ping }];
                assert(gone@ =~= seq![old(self).registry.entries@[k as int]]);
                self.evict_entries(&gone);
                true
            },
            None => false,
        }
    }
}

} // verus!
