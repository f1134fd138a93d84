//! The packet model: messages of the fast and steady channels, the
//! server's pending world updates, and the entity data they carry.
//!
//! Each type that holds text has a view in which every `String` is replaced
//! by its characters; two values are the same message when their views agree.
use vstd::prelude::*;
use crate::geometry::{Quat, Vec3};

verus! {

/// Unique identifier of one world entity.
pub type EntityId = u64;

/// Identifier of one live connection, and of the player bound to it.
pub type ConnectionUUID = String;

/// Identifier generated for every outgoing steady message.
pub type PacketUUID = String;

/// Relies on uuid::Uuid::new_v4 and its `Display`: a random version 4 UUID
/// written in the hyphenated form, which is always 36 characters long.
#[verifier::external_body]
pub fn generate_uuid() -> (r: PacketUUID)
    ensures
        r@.len() == 36,
{
    uuid::Uuid::new_v4().to_string()
}

/// Extra facts a client attaches to a movement claim.
#[derive(Clone, Copy, Debug, Default, PartialEq, Eq, Structural)]
pub struct MovementInfo {
    pub jumped: bool,
    pub sprinting: bool,
}

/// The transform component: where an entity is, how it faces, its size.
#[derive(Clone, Copy, Debug, PartialEq, Eq, Structural)]
pub struct Transform {
    pub position: Vec3,
    pub rotation: Quat,
    pub scale: Vec3,
}

impl Transform {
    pub fn new(position: Vec3, rotation: Quat, scale: Vec3) -> (r: Transform)
        ensures
            r == (Transform { position, rotation, scale }),
    {
        Transform { position, rotation, scale }
    }
}

/// The player component of a player entity.
#[derive(Clone, Debug, PartialEq, Eq)]
pub struct PlayerComponent {
    pub uuid: ConnectionUUID,
    pub name: String,
    pub position: Vec3,
    pub rotation: Quat,
    pub head_rotation: Quat,
    pub speed: i64,
    pub strafe: i64,
}

impl PlayerComponent {
    /// An equal copy.
    pub fn duplicate(&self) -> (r: PlayerComponent)
        ensures
            r == *self,
    {
        PlayerComponent {
            uuid: self.uuid.clone(),
            name: self.name.clone(),
            position: self.position,
            rotation: self.rotation,
            head_rotation: self.head_rotation,
            speed: self.speed,
            strafe: self.strafe,
        }
    }
}

pub struct PlayerModel {
    pub uuid: Seq<char>,
    pub name: Seq<char>,
    pub position: Vec3,
    pub rotation: Quat,
    pub head_rotation: Quat,
    pub speed: i64,
    pub strafe: i64,
}

impl View for PlayerComponent {
    type V = PlayerModel;

    open spec fn view(&self) -> PlayerModel {
        PlayerModel {
            uuid: self.uuid@,
            name: self.name@,
            position: self.position,
            rotation: self.rotation,
            head_rotation: self.head_rotation,
            speed: self.speed,
            strafe: self.strafe,
        }
    }
}

/// A world entity: an identifier, a name and a fixed set of optional
/// component slots.
#[derive(Clone, Debug, PartialEq, Eq)]
pub struct Entity {
    pub uid: EntityId,
    pub name: String,
    pub transform: Option<Transform>,
    pub player: Option<PlayerComponent>,
}

impl Entity {
    /// An equal copy.
    pub fn duplicate(&self) -> (r: Entity)
        ensures
            r == *self,
    {
        Entity {
            uid: self.uid,
            name: self.name.clone(),
            transform: self.transform,
            player: match &self.player {
                Some(p) => Some(p.duplicate()),
                None => None,
            },
        }
    }
}

pub struct EntityModel {
    pub uid: EntityId,
    pub name: Seq<char>,
    pub transform: Option<Transform>,
    pub player: Option<PlayerModel>,
}

pub open spec fn player_view(p: Option<PlayerComponent>) -> Option<PlayerModel> {
    match p {
        Some(c) => Some(c@),
        None => None,
    }
}

impl View for Entity {
    type V = EntityModel;

    open spec fn view(&self) -> EntityModel {
        EntityModel {
            uid: self.uid,
            name: self.name@,
            transform: self.transform,
            player: player_view(self.player),
        }
    }
}

/// One parameter of one component, with its new value.
#[derive(Clone, Copy, Debug, PartialEq, Eq, Structural)]
pub enum ParamUpdate {
    TransformPosition(Vec3),
    TransformRotation(Quat),
    TransformScale(Vec3),
    PlayerSpeed(i64),
    PlayerStrafe(i64),
}

/// Best-effort, unordered messages of the fast channel.
#[derive(Clone, Debug, PartialEq, Eq)]
pub enum FastPacket {
    ChangePosition(EntityId, Vec3),
    ChangeRotation(EntityId, Quat),
    ChangeScale(EntityId, Vec3),
    PlayerMoved(EntityId, Vec3, Quat, Quat),
    EntitySetParameter(EntityId, ParamUpdate),
    /// uuid, claimed position, displacement, rotation, head rotation, extras
    PlayerMove(ConnectionUUID, Vec3, Vec3, Quat, Quat, Option<MovementInfo>),
    PlayerJump(ConnectionUUID),
    /// The authoritative position the client must snap to.
    PlayerFuckYouMoveHere(Vec3),
    PlayerCheckPosition(ConnectionUUID, Vec3),
    PlayerFuckYouSetRotation(Quat),
}

pub enum FastModel {
    ChangePosition(EntityId, Vec3),
    ChangeRotation(EntityId, Quat),
    ChangeScale(EntityId, Vec3),
    PlayerMoved(EntityId, Vec3, Quat, Quat),
    EntitySetParameter(EntityId, ParamUpdate),
    PlayerMove(Seq<char>, Vec3, Vec3, Quat, Quat, Option<MovementInfo>),
    PlayerJump(Seq<char>),
    PlayerFuckYouMoveHere(Vec3),
    PlayerCheckPosition(Seq<char>, Vec3),
    PlayerFuckYouSetRotation(Quat),
}

impl View for FastPacket {
    type V = FastModel;

    open spec fn view(&self) -> FastModel {
        match *self {
            FastPacket::ChangePosition(e, v) => FastModel::ChangePosition(e, v),
            FastPacket::ChangeRotation(e, q) => FastModel::ChangeRotation(e, q),
            FastPacket::ChangeScale(e, v) => FastModel::ChangeScale(e, v),
            FastPacket::PlayerMoved(e, p, r, h) => FastModel::PlayerMoved(e, p, r, h),
            FastPacket::EntitySetParameter(e, u) => FastModel::EntitySetParameter(e, u),
            FastPacket::PlayerMove(u, p, d, r, h, m) => FastModel::PlayerMove(u@, p, d, r, h, m),
            FastPacket::PlayerJump(u) => FastModel::PlayerJump(u@),
            FastPacket::PlayerFuckYouMoveHere(p) => FastModel::PlayerFuckYouMoveHere(p),
            FastPacket::PlayerCheckPosition(u, p) => FastModel::PlayerCheckPosition(u@, p),
            FastPacket::PlayerFuckYouSetRotation(q) => FastModel::PlayerFuckYouSetRotation(q),
        }
    }
}

impl FastPacket {
    /// An equal copy.
    pub fn duplicate(&self) -> (r: FastPacket)
        ensures
            r == *self,
    {
        match self {
            FastPacket::ChangePosition(e, v) => FastPacket::ChangePosition(*e, *v),
            FastPacket::ChangeRotation(e, q) => FastPacket::ChangeRotation(*e, *q),
            FastPacket::ChangeScale(e, v) => FastPacket::ChangeScale(*e, *v),
            FastPacket::PlayerMoved(e, p, r, h) => FastPacket::PlayerMoved(*e, *p, *r, *h),
            FastPacket::EntitySetParameter(e, u) => FastPacket::EntitySetParameter(*e, *u),
            FastPacket::PlayerMove(u, p, d, r, h, m) => FastPacket::PlayerMove(
                u.clone(),
                *p,
                *d,
                *r,
                *h,
                *m,
            ),
            FastPacket::PlayerJump(u) => FastPacket::PlayerJump(u.clone()),
            FastPacket::PlayerFuckYouMoveHere(p) => FastPacket::PlayerFuckYouMoveHere(*p),
            FastPacket::PlayerCheckPosition(u, p) => FastPacket::PlayerCheckPosition(u.clone(), *p),
            FastPacket::PlayerFuckYouSetRotation(q) => FastPacket::PlayerFuckYouSetRotation(*q),
        }
    }
}

/// A fast message as it travels; `None` is an empty datagram.
#[derive(Clone, Debug, PartialEq, Eq)]
pub struct FastPacketData {
    pub packet: Option<FastPacket>,
}

/// Why a requested name was refused.
#[derive(Clone, Copy, Debug, PartialEq, Eq, Structural)]
pub enum NameRejectionReason {
    IllegalWord,
    Taken,
}

/// Ordered, reliable messages of the steady channel.
#[derive(Clone, Debug, PartialEq, Eq)]
pub enum SteadyPacket {
    InitialiseEntity(EntityId, Entity),
    RemoveEntity(EntityId),
    FinaliseMapLoad,
    /// uuid, entity id, name, position, rotation, scale of the joining player
    InitialisePlayer(ConnectionUUID, EntityId, String, Vec3, Quat, Vec3),
    Message(String),
    ChatMessage(ConnectionUUID, String),
    SetName(ConnectionUUID, String),
    NameRejected(NameRejectionReason),
    Respawn(Vec3),
    /// projectile uuid, position, initial velocity
    ThrowThrowAballll(String, Vec3, Vec3),
    Ping,
}

pub enum SteadyModel {
    InitialiseEntity(EntityId, EntityModel),
    RemoveEntity(EntityId),
    FinaliseMapLoad,
    InitialisePlayer(Seq<char>, EntityId, Seq<char>, Vec3, Quat, Vec3),
    Message(Seq<char>),
    ChatMessage(Seq<char>, Seq<char>),
    SetName(Seq<char>, Seq<char>),
    NameRejected(NameRejectionReason),
    Respawn(Vec3),
    ThrowThrowAballll(Seq<char>, Vec3, Vec3),
    Ping,
}

impl View for SteadyPacket {
    type V = SteadyModel;

    open spec fn view(&self) -> SteadyModel {
        match *self {
            SteadyPacket::InitialiseEntity(id, e) => SteadyModel::InitialiseEntity(id, e@),
            SteadyPacket::RemoveEntity(id) => SteadyModel::RemoveEntity(id),
            SteadyPacket::FinaliseMapLoad => SteadyModel::FinaliseMapLoad,
            SteadyPacket::InitialisePlayer(u, id, n, p, r, s) => SteadyModel::InitialisePlayer(
                u@,
                id,
                n@,
                p,
                r,
                s,
            ),
            SteadyPacket::Message(m) => SteadyModel::Message(m@),
            SteadyPacket::ChatMessage(u, m) => SteadyModel::ChatMessage(u@, m@),
            SteadyPacket::SetName(u, n) => SteadyModel::SetName(u@, n@),
            SteadyPacket::NameRejected(r) => SteadyModel::NameRejected(r),
            SteadyPacket::Respawn(p) => SteadyModel::Respawn(p),
            SteadyPacket::ThrowThrowAballll(u, p, v) => SteadyModel::ThrowThrowAballll(u@, p, v),
            SteadyPacket::Ping => SteadyModel::Ping,
        }
    }
}

impl SteadyPacket {
    /// An equal copy.
    pub fn duplicate(&self) -> (r: SteadyPacket)
        ensures
            r == *self,
    {
        match self {
            SteadyPacket::InitialiseEntity(id, e) => SteadyPacket::InitialiseEntity(*id, e.duplicate()),
            SteadyPacket::RemoveEntity(id) => SteadyPacket::RemoveEntity(*id),
            SteadyPacket::FinaliseMapLoad => SteadyPacket::FinaliseMapLoad,
            SteadyPacket::InitialisePlayer(u, id, n, p, r, s) => SteadyPacket::InitialisePlayer(
                u.clone(),
                *id,
                n.clone(),
                *p,
                *r,
                *s,
            ),
            SteadyPacket::Message(m) => SteadyPacket::Message(m.clone()),
            SteadyPacket::ChatMessage(u, m) => SteadyPacket::ChatMessage(u.clone(), m.clone()),
            SteadyPacket::SetName(u, n) => SteadyPacket::SetName(u.clone(), n.clone()),
            SteadyPacket::NameRejected(r) => SteadyPacket::NameRejected(*r),
            SteadyPacket::Respawn(p) => SteadyPacket::Respawn(*p),
            SteadyPacket::ThrowThrowAballll(u, p, v) => SteadyPacket::ThrowThrowAballll(
                u.clone(),
                *p,
                *v,
            ),
            SteadyPacket::Ping => SteadyPacket::Ping,
        }
    }
}

/// A steady message as it travels, with its own identifier.
#[derive(Clone, Debug, PartialEq, Eq)]
pub struct SteadyPacketData {
    pub packet: SteadyPacket,
    pub uuid: PacketUUID,
}

pub struct SteadyDataModel {
    pub packet: SteadyModel,
    pub uuid: Seq<char>,
}

impl View for SteadyPacketData {
    type V = SteadyDataModel;

    open spec fn view(&self) -> SteadyDataModel {
        SteadyDataModel { packet: self.packet@, uuid: self.uuid@ }
    }
}

/// A change of the server's world waiting to be fanned out.
#[derive(Clone, Debug, PartialEq, Eq)]
pub enum WorldUpdate {
    InitEntity(EntityId, Entity),
    SetPosition(EntityId, Vec3),
    SetRotation(EntityId, Quat),
    SetScale(EntityId, Vec3),
    MovePlayerEntity(EntityId, Vec3, Quat, Quat),
    EntityNoLongerExists(EntityId),
}

pub enum UpdateModel {
    InitEntity(EntityId, EntityModel),
    SetPosition(EntityId, Vec3),
    SetRotation(EntityId, Quat),
    SetScale(EntityId, Vec3),
    MovePlayerEntity(EntityId, Vec3, Quat, Quat),
    EntityNoLongerExists(EntityId),
}

impl View for WorldUpdate {
    type V = UpdateModel;

    open spec fn view(&self) -> UpdateModel {
        match *self {
            WorldUpdate::InitEntity(id, e) => UpdateModel::InitEntity(id, e@),
            WorldUpdate::SetPosition(id, p) => UpdateModel::SetPosition(id, p),
            WorldUpdate::SetRotation(id, q) => UpdateModel::SetRotation(id, q),
            WorldUpdate::SetScale(id, s) => UpdateModel::SetScale(id, s),
            WorldUpdate::MovePlayerEntity(id, p, r, h) => UpdateModel::MovePlayerEntity(id, p, r, h),
            WorldUpdate::EntityNoLongerExists(id) => UpdateModel::EntityNoLongerExists(id),
        }
    }
}

} // verus!
