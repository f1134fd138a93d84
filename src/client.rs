//! The client's side: applying what the server sends, and folding the
//! local player's intents of one tick into the packets that go out.
use vstd::prelude::*;
use crate::geometry::{Quat, Vec3};
use crate::packet::{generate_uuid, ConnectionUUID, Entity, EntityId, FastPacket, MovementInfo, NameRejectionReason, SteadyPacket, SteadyPacketData};
use crate::registry::PING_INTERVAL;
use crate::world::{
    apply_fast_spec, fast_entity, index_of, lemma_index_of, remove_id, upsert, World,
};

verus! {

/// The local player as the client predicts it.
pub struct LocalPlayer {
    pub uuid: ConnectionUUID,
    pub name: String,
    pub position: Vec3,
    pub rotation: Quat,
    pub head_rotation: Quat,
    pub scale: Vec3,
}

/// A projectile the client knows of.
#[derive(Clone, Debug, PartialEq, Eq)]
pub struct Projectile {
    pub uuid: String,
    pub position: Vec3,
    pub velocity: Vec3,
}

/// Something the presentation layer should show.
#[derive(Clone, Debug, PartialEq, Eq)]
pub enum ClientEvent {
    Chat(String, String),
    Renamed(String, String),
    NameRejected(NameRejectionReason),
    ServerMessage(String),
    PlayerJoined,
}

/// An intent of the local player during one tick.
#[derive(Clone, Copy, Debug, PartialEq, Eq, Structural)]
pub enum ClientUpdate {
    IDisplaced(Vec3, Option<MovementInfo>),
    ILooked(Quat),
    IJumped,
    IThrewtball,
}

pub struct WorldMachine {
    pub world: World,
    /// The entity of the local player, whose updates the client ignores.
    pub own_entity: Option<EntityId>,
    pub player: Option<LocalPlayer>,
    pub projectiles: Vec<Projectile>,
    pub events: Vec<ClientEvent>,
    pub map_loaded: bool,
}

/// A fast packet about the local player's own entity is ignored.
pub open spec fn about_own(own: Option<EntityId>, p: FastPacket) -> bool {
    own is Some && fast_entity(p) == own
}

/// Where the client's world stands after a fast packet.
pub open spec fn client_fast_world(own: Option<EntityId>, s: Seq<Entity>, p: FastPacket) -> Seq<Entity> {
    if about_own(own, p) {
        s
    } else {
        apply_fast_spec(s, p)
    }
}

/// Position of the first player entity of connection `who`, or -1.
pub open spec fn player_idx(s: Seq<Entity>, who: Seq<char>) -> int
    decreases s.len(),
{
    if s.len() == 0 {
        -1
    } else {
        let i = player_idx(s.drop_last(), who);
        if i >= 0 {
            i
        } else if s.last().player matches Some(p) && p.uuid@ == who {
            s.len() - 1
        } else {
            -1
        }
    }
}

/// The name a chat line from `who` shows: its player's name if known.
pub open spec fn display_name(s: Seq<Entity>, who: String) -> String {
    let i = player_idx(s, who@);
    if i >= 0 {
        s[i].player->0.name
    } else {
        who
    }
}

pub open spec fn has_projectile(ps: Seq<Projectile>, uuid: Seq<char>) -> bool {
    exists|i: int| 0 <= i < ps.len() && (#[trigger] ps[i]).uuid@ == uuid
}

/// The client's state after a steady packet, one clause per part.
pub open spec fn steady_effect(c: WorldMachine, d: WorldMachine, p: SteadyPacket) -> bool {
    let own_ignored = |id: EntityId| c.own_entity == Some(id);
    match p {
        SteadyPacket::InitialiseEntity(id, e) => if own_ignored(id) {
            d.world.entities@ == c.world.entities@ && d.events@ == c.events@
        } else {
            &&& d.world.entities@ == upsert(c.world.entities@, Entity { uid: id, ..e })
            &&& d.events@ == if e.player is Some {
                c.events@.push(ClientEvent::PlayerJoined)
            } else {
                c.events@
            }
        },
        SteadyPacket::RemoveEntity(id) => d.events@ == c.events@ && d.world.entities@ == if own_ignored(id) {
            c.world.entities@
        } else {
            remove_id(c.world.entities@, id)
        },
        SteadyPacket::ChatMessage(who, m) => d.world.entities@ == c.world.entities@ && d.events@ == if c.player matches Some(pl) && pl.uuid@ == who@ {
            c.events@
        } else {
            c.events@.push(ClientEvent::Chat(display_name(c.world.entities@, who), m))
        },
        SteadyPacket::SetName(who, n) => {
            let i = player_idx(c.world.entities@, who@);
            &&& d.world.entities@ == if i >= 0 {
                c.world.entities@.update(i, crate::server::renamed(c.world.entities@[i], n))
            } else {
                c.world.entities@
            }
            &&& d.events@ == c.events@.push(ClientEvent::Renamed(display_name(c.world.entities@, who), n))
        },
        SteadyPacket::NameRejected(r) => d.world.entities@ == c.world.entities@ && d.events@ == c.events@.push(ClientEvent::NameRejected(r)),
        SteadyPacket::Message(m) => d.world.entities@ == c.world.entities@ && d.events@ == c.events@.push(ClientEvent::ServerMessage(m)),
        _ => d.world.entities@ == c.world.entities@ && d.events@ == c.events@,
    }
}

/// Inserting the same entity twice leaves one copy.
pub proof fn lemma_upsert_idempotent(s: Seq<Entity>, e: Entity)
    ensures
        upsert(upsert(s, e), e) == upsert(s, e),
{
    lemma_index_of(s, e.uid);
    let i = index_of(s, e.uid);
    let t = upsert(s, e);
    if i >= 0 {
        crate::world::lemma_index_of_same_ids(s, t, e.uid);
        assert(t.update(i, e) =~= t);
    } else {
        lemma_index_of(t, e.uid);
        assert(t[s.len() as int].uid == e.uid);
        assert forall|j: int| 0 <= j < s.len() implies #[trigger] t[j].uid != e.uid by {
            assert(t[j] == s[j]);
        }
        assert(index_of(t, e.uid) == s.len());
        assert(t.update(s.len() as int, e) =~= t);
    }
}

/// Of the intents, the ones that move or turn the player.
pub open spec fn is_movement(u: ClientUpdate) -> bool {
    u is IDisplaced || u is ILooked
}

pub open spec fn has_movement(s: Seq<ClientUpdate>) -> bool {
    exists|i: int| 0 <= i < s.len() && is_movement(#[trigger] s[i])
}

/// The displacement the movement of a tick carries: that of the last
/// movement intent, none if it was a look.
pub open spec fn last_displacement(s: Seq<ClientUpdate>) -> Vec3
    decreases s.len(),
{
    if s.len() == 0 {
        Vec3 { x: 0, y: 0, z: 0 }
    } else {
        match s.last() {
            ClientUpdate::IDisplaced(d, _) => d,
            ClientUpdate::ILooked(_) => Vec3 { x: 0, y: 0, z: 0 },
            _ => last_displacement(s.drop_last()),
        }
    }
}

/// The first movement extras given during the tick.
pub open spec fn first_info(s: Seq<ClientUpdate>) -> Option<MovementInfo>
    decreases s.len(),
{
    if s.len() == 0 {
        None
    } else {
        match first_info(s.drop_last()) {
            Some(i) => Some(i),
            None => match s.last() {
                ClientUpdate::IDisplaced(_, i) => i,
                _ => None,
            },
        }
    }
}

pub open spec fn jumped(s: Seq<ClientUpdate>) -> bool {
    exists|i: int| 0 <= i < s.len() && s[i] is IJumped
}

pub open spec fn throw_count(s: Seq<ClientUpdate>) -> nat
    decreases s.len(),
{
    if s.len() == 0 {
        0
    } else {
        throw_count(s.drop_last()) + if s.last() is IThrewtball {
            1nat
        } else {
            0nat
        }
    }
}

/// The packets of one tick's intents.
pub struct IntentPackets {
    /// At most one movement, then at most one jump.
    pub fast: Vec<FastPacket>,
    /// One throw announcement per throw.
    pub steady: Vec<SteadyPacket>,
}

/// The fast packets a tick's intents become.
pub open spec fn intent_fast(p: LocalPlayer, s: Seq<ClientUpdate>) -> Seq<FastPacket> {
    (if has_movement(s) {
        seq![
            FastPacket::PlayerMove(
                p.uuid,
                p.position,
                last_displacement(s),
                p.rotation,
                p.head_rotation,
                first_info(s),
            ),
        ]
    } else {
        Seq::empty()
    }) + (if jumped(s) {
        seq![FastPacket::PlayerJump(p.uuid)]
    } else {
        Seq::empty()
    })
}

/// The announcement of a throw; the server fills in where and how fast.
pub open spec fn throw_packet(name: String) -> SteadyPacket {
    SteadyPacket::ThrowThrowAballll(
        name,
        Vec3 { x: 0, y: 0, z: 0 },
        Vec3 { x: 0, y: 0, z: 0 },
    )
}

/// Folds one tick's intents: every movement and look becomes one movement
/// claim carrying the player's latest state, jumps become one jump, and each
/// throw is announced once.
pub fn fold_intents(player: &LocalPlayer, intents: &Vec<ClientUpdate>) -> (r: IntentPackets)
    ensures
        r.fast@ == intent_fast(*player, intents@),
        r.steady@.len() == throw_count(intents@),
        forall|i: int| 0 <= i < r.steady@.len() ==> (#[trigger] r.steady@[i]) is ThrowThrowAballll
            && r.steady@[i] == throw_packet(r.steady@[i]->ThrowThrowAballll_0)
            && r.steady@[i]->ThrowThrowAballll_0@.len() == 0,
{
    let mut moved = false;
    let mut displacement = Vec3 { x: 0, y: 0, z: 0 };
    let mut info: Option<MovementInfo> = None;
    let mut jump = false;
    let mut steady: Vec<SteadyPacket> = Vec::new();
    let mut i: usize = 0;
    while i < intents.len()
        invariant
            i <= intents@.len(),
            moved == has_movement(intents@.take(i as int)),
            displacement == last_displacement(intents@.take(i as int)),
            info == first_info(intents@.take(i as int)),
            jump == jumped(intents@.take(i as int)),
            steady@.len() == throw_count(intents@.take(i as int)),
            forall|k: int| 0 <= k < steady@.len() ==> (#[trigger] steady@[k]) is ThrowThrowAballll
                && steady@[k] == throw_packet(steady@[k]->ThrowThrowAballll_0)
                && steady@[k]->ThrowThrowAballll_0@.len() == 0,
        decreases intents@.len() - i,
    {
        let ghost t = intents@.take(i + 1);
        proof {
            assert(t.drop_last() =~= intents@.take(i as int));
            assert(t.last() == intents@[i as int]);
        }
        match intents[i] {
            ClientUpdate::IDisplaced(d, m) => {
                moved = true;
                displacement = d;
                if info.is_none() {
                    info = m;
                }
            },
            ClientUpdate::ILooked(_) => {
                moved = true;
                displacement = Vec3 { x: 0, y: 0, z: 0 };
            },
            ClientUpdate::IJumped => {
                jump = true;
            },
            ClientUpdate::IThrewtball => {
                steady.push(
                    SteadyPacket::ThrowThrowAballll(
                        String::new(),
                        Vec3 { x: 0, y: 0, z: 0 },
                        Vec3 { x: 0, y: 0, z: 0 },
                    ),
                );
            },
        }
        proof {
            if is_movement(t.last()) {
                assert(is_movement(t[i as int]));
            }
            if t.last() is IJumped {
                assert(t[i as int] is IJumped);
            }
            assert forall|k: int| 0 <= k < i as int + 1 && is_movement(#[trigger] t[k]) implies k == i
                || has_movement(intents@.take(i as int)) by {
                if k < i {
                    assert(intents@.take(i as int)[k] == t[k]);
                }
            }
            assert forall|k: int| 0 <= k < i as int + 1 && (#[trigger] t[k]) is IJumped implies k == i
                || jumped(intents@.take(i as int)) by {
                if k < i {
                    assert(intents@.take(i as int)[k] == t[k]);
                }
            }
            if has_movement(intents@.take(i as int)) {
                let k = choose|k: int| 0 <= k < i && is_movement(#[trigger] intents@.take(i as int)[k]);
                assert(t[k] == intents@.take(i as int)[k]);
            }
            if jumped(intents@.take(i as int)) {
                let k = choose|k: int| 0 <= k < i && (#[trigger] intents@.take(i as int)[k]) is IJumped;
                assert(t[k] == intents@.take(i as int)[k]);
            }
        }
        i = i + 1;
    }
    proof {
        assert(intents@.take(i as int) =~= intents@);
    }
    let mut fast: Vec<FastPacket> = Vec::new();
    if moved {
        fast.push(
            FastPacket::PlayerMove(
                player.uuid.clone(),
                player.position,
                displacement,
                player.rotation,
                player.head_rotation,
                info,
            ),
        );
    }
    if jump {
        fast.push(FastPacket::PlayerJump(player.uuid.clone()));
    }
    assert(fast@ =~= intent_fast(*player, intents@));
    IntentPackets { fast, steady }
}

/// A steady packet ready to send, with a fresh identifier.
pub fn stamp(packet: SteadyPacket) -> (r: SteadyPacketData)
    ensures
        r.packet == packet,
        r.uuid@.len() == 36,
{
    SteadyPacketData { packet, uuid: generate_uuid() }
}

/// A ping is due when more than the ping interval passed since the last one.
pub fn ping_due(last_ping: u64, now: u64) -> (r: bool)
    ensures
        r == (now > last_ping + PING_INTERVAL),
{
    now > last_ping && now - last_ping > PING_INTERVAL
}

impl WorldMachine {
    pub fn new(world: World) -> (r: Self)
        ensures
            r.world == world,
            r.own_entity is None,
            r.player is None,
            r.projectiles@.len() == 0,
            r.events@.len() == 0,
            !r.map_loaded,
    {
        WorldMachine {
            world,
            own_entity: None,
            player: None,
            projectiles: Vec::new(),
            events: Vec::new(),
            map_loaded: false,
        }
    }

    /// The request to be known by a new name.
    pub fn set_name(&self, name: String) -> (r: SteadyPacket)
        ensures
            r matches SteadyPacket::SetName(u, n) && u@.len() == 0 && n == name,
    {
        SteadyPacket::SetName(String::new(), name)
    }

    /// A chat line for everyone else; the server fills in the sender.
    pub fn send_chat_message(&self, message: String) -> (r: SteadyPacket)
        ensures
            r matches SteadyPacket::ChatMessage(u, m) && u@.len() == 0 && m == message,
    {
        SteadyPacket::ChatMessage(String::new(), message)
    }

    /// The announcement of a throw; the server fills in where and how fast.
    pub fn throw_tball(&self) -> (r: SteadyPacket)
        ensures
            r == throw_packet(r->ThrowThrowAballll_0) && r->ThrowThrowAballll_0@.len() == 0,
    {
        SteadyPacket::ThrowThrowAballll(String::new(), Vec3 { x: 0, y: 0, z: 0 }, Vec3 { x: 0, y: 0, z: 0 })
    }

    pub fn get_entity_index(&self, id: EntityId) -> (r: Option<usize>)
        ensures
            index_of(self.world.entities@, id) >= 0 ==> r == Some(index_of(self.world.entities@, id) as usize),
            index_of(self.world.entities@, id) < 0 ==> r is None,
    {
        self.world.get_entity_index(id)
    }

    /// Applies a fast packet from the server. Packets about the local
    /// player's own entity, or about entities the client does not know, are
    /// dropped; a correction moves the local player unconditionally.
    pub fn apply_fast(&mut self, p: &FastPacket)
        ensures
            final(self).world.entities@ == client_fast_world(old(self).own_entity, old(self).world.entities@, *p),
            final(self).own_entity == old(self).own_entity,
            final(self).projectiles == old(self).projectiles,
            final(self).events == old(self).events,
            final(self).map_loaded == old(self).map_loaded,
            match *p {
                FastPacket::PlayerFuckYouMoveHere(pos) => match old(self).player {
                    Some(pl) => final(self).player == Some(LocalPlayer { position: pos, ..pl }),
                    None => final(self).player is None,
                },
                FastPacket::PlayerFuckYouSetRotation(q) => match old(self).player {
                    Some(pl) => final(self).player == Some(
                        LocalPlayer { rotation: q, head_rotation: q, ..pl },
                    ),
                    None => final(self).player is None,
                },
                _ => final(self).player == old(self).player,
            },
    {
        match p {
            FastPacket::PlayerFuckYouMoveHere(pos) => {
                if let Some(pl) = &mut self.player {
                    pl.position = *pos;
                }
                return;
            },
            FastPacket::PlayerFuckYouSetRotation(q) => {
                if let Some(pl) = &mut self.player {
                    pl.rotation = *q;
                    pl.head_rotation = *q;
                }
                return;
            },
            _ => {},
        }
        let target = match p {
            FastPacket::ChangePosition(id, _) => Some(*id),
            FastPacket::ChangeRotation(id, _) => Some(*id),
            FastPacket::ChangeScale(id, _) => Some(*id),
            FastPacket::PlayerMoved(id, _, _, _) => Some(*id),
            FastPacket::EntitySetParameter(id, _) => Some(*id),
            _ => None,
        };
        let own = match (target, self.own_entity) {
            (Some(t), Some(o)) => t == o,
            _ => false,
        };
        if !own {
            self.world.apply_fast(p);
        }
    }

    fn find_player(&self, who: &String) -> (r: Option<usize>)
        ensures
            player_idx(self.world.entities@, who@) >= 0 ==> (r matches Some(i) && i == player_idx(self.world.entities@, who@)),
            player_idx(self.world.entities@, who@) < 0 ==> r is None,
            r matches Some(i) ==> i < self.world.entities@.len() && self.world.entities@[i as int].player is Some,
            -1 <= player_idx(self.world.entities@, who@) < self.world.entities@.len(),
    {
        let ghost s = self.world.entities@;
        let mut found: Option<usize> = None;
        let mut i: usize = 0;
        while i < self.world.entities.len()
            invariant
                s == self.world.entities@,
                i <= s.len(),
                -1 <= player_idx(s.take(i as int), who@) < i,
                player_idx(s.take(i as int), who@) >= 0 ==> (found matches Some(f) && f == player_idx(s.take(i as int), who@)
                    && s[player_idx(s.take(i as int), who@)].player is Some),
                player_idx(s.take(i as int), who@) < 0 ==> found is None,
            decreases s.len() - i,
        {
            proof {
                assert(s.take(i + 1).drop_last() =~= s.take(i as int));
                assert(s.take(i + 1).last() == s[i as int]);
                let k = player_idx(s.take(i as int), who@);
                if k >= 0 {
                    assert(s.take(i as int)[k] == s[k]);
                }
            }
            if found.is_none() {
                match &self.world.entities[i].player {
                    Some(p) => {
                        if p.uuid == *who {
                            found = Some(i);
                        }
                    },
                    None => {},
                }
            }
            i = i + 1;
        }
        proof {
            assert(s.take(i as int) =~= s);
        }
        found
    }

    fn name_for(&self, who: &String) -> (r: String)
        ensures
            r == display_name(self.world.entities@, *who),
    {
        match self.find_player(who) {
            Some(i) => match &self.world.entities[i].player {
                Some(p) => p.name.clone(),
                None => who.clone(),
            },
            None => who.clone(),
        }
    }

    /// Applies a steady packet from the server. Announcing an entity again
    /// replaces it, never duplicates it; a respawn moves the local player
    /// whatever its prediction.
    pub fn apply_steady(&mut self, p: SteadyPacket)
        ensures
            steady_effect(*old(self), *final(self), p),
            match p {
                SteadyPacket::InitialisePlayer(u, id, n, pos, rot, sc) => final(self).own_entity == Some(id)
                    && final(self).player == Some(
                    LocalPlayer { uuid: u, name: n, position: pos, rotation: rot, head_rotation: rot, scale: sc },
                ),
                SteadyPacket::Respawn(pos) => final(self).own_entity == old(self).own_entity && match old(self).player {
                    Some(pl) => final(self).player == Some(LocalPlayer { position: pos, ..pl }),
                    None => final(self).player is None,
                },
                _ => final(self).own_entity == old(self).own_entity && final(self).player == old(self).player,
            },
            p is FinaliseMapLoad ==> final(self).map_loaded,
            !(p is FinaliseMapLoad) ==> final(self).map_loaded == old(self).map_loaded,
            match p {
                SteadyPacket::ThrowThrowAballll(u, pos, v) => final(self).projectiles@ == if has_projectile(old(self).projectiles@, u@) {
                    old(self).projectiles@
                } else {
                    old(self).projectiles@.push(Projectile { uuid: u, position: pos, velocity: v })
                },
                _ => final(self).projectiles == old(self).projectiles,
            },
    {
        match p {
            SteadyPacket::InitialiseEntity(id, e) => {
                let own = match self.own_entity {
                    Some(o) => o == id,
                    None => false,
                };
                if !own {
                    let joined = e.player.is_some();
                    self.world.upsert_entity(Entity { uid: id, ..e });
                    if joined {
                        self.events.push(ClientEvent::PlayerJoined);
                    }
                }
            },
            SteadyPacket::RemoveEntity(id) => {
                let own = match self.own_entity {
                    Some(o) => o == id,
                    None => false,
                };
                if !own {
                    self.world.remove_entity(id);
                }
            },
            SteadyPacket::FinaliseMapLoad => {
                self.map_loaded = true;
            },
            SteadyPacket::InitialisePlayer(u, id, n, pos, rot, sc) => {
                self.own_entity = Some(id);
                self.player = Some(
                    LocalPlayer { uuid: u, name: n, position: pos, rotation: rot, head_rotation: rot, scale: sc },
                );
            },
            SteadyPacket::Message(m) => {
                self.events.push(ClientEvent::ServerMessage(m));
            },
            SteadyPacket::ChatMessage(who, m) => {
                let mine = match &self.player {
                    Some(pl) => pl.uuid == who,
                    None => false,
                };
                if !mine {
                    let name = self.name_for(&who);
                    self.events.push(ClientEvent::Chat(name, m));
                }
            },
            SteadyPacket::SetName(who, n) => {
                let old_name = self.name_for(&who);
                match self.find_player(&who) {
                    Some(i) => {
                        let mut e = self.world.entities.remove(i);
                        let ghost before = e;
                        if let Some(pc) = &mut e.player {
                            pc.name = n.clone();
                        }
                        assert(e == crate::server::renamed(before, n));
                        self.world.entities.insert(i, e);
                        assert(self.world.entities@ =~= old(self).world.entities@.update(
                            i as int,
                            crate::server::renamed(old(self).world.entities@[i as int], n),
                        ));
                    },
                    None => {},
                }
                self.events.push(ClientEvent::Renamed(old_name, n));
            },
            SteadyPacket::NameRejected(r) => {
                self.events.push(ClientEvent::NameRejected(r));
            },
            SteadyPacket::Respawn(pos) => {
                if let Some(pl) = &mut self.player {
                    pl.position = pos;
                }
            },
            SteadyPacket::ThrowThrowAballll(u, pos, v) => {
                let mut known = false;
                let mut i: usize = 0;
                while i < self.projectiles.len()
                    invariant
                        i <= self.projectiles@.len(),
                        self.projectiles == old(self).projectiles,
                        known == exists|k: int| 0 <= k < i && (#[trigger] self.projectiles@[k]).uuid@ == u@,
                    decreases self.projectiles@.len() - i,
                {
                    if self.projectiles[i].uuid == u {
                        known = true;
                    }
                    i = i + 1;
                }
                if !known {
                    self.projectiles.push(Projectile { uuid: u, position: pos, velocity: v });
                }
            },
            SteadyPacket::Ping => {},
        }
    }
}

} // verus!
