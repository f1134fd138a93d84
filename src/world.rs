//! The shared entity store and the pure rules that change it.
//!
//! The world is a sequence of entities; an entity is found by the first
//! position that holds its identifier. The rules are stated as spec functions
//! over that sequence, and the executable methods are proved to follow them.
use vstd::prelude::*;
use crate::geometry::{Quat, Vec3};
use crate::packet::{Entity, EntityId, FastPacket, ParamUpdate, PlayerComponent, Transform};

verus! {

/// Position of the first entity with identifier `id`, or -1.
pub open spec fn index_of(s: Seq<Entity>, id: EntityId) -> int
    decreases s.len(),
{
    if s.len() == 0 {
        -1
    } else {
        let i = index_of(s.drop_last(), id);
        if i >= 0 {
            i
        } else if s.last().uid == id {
            s.len() - 1
        } else {
            -1
        }
    }
}

pub proof fn lemma_index_of(s: Seq<Entity>, id: EntityId)
    ensures
        -1 <= index_of(s, id) < s.len(),
        index_of(s, id) >= 0 ==> s[index_of(s, id)].uid == id,
        index_of(s, id) >= 0 ==> forall|j: int| 0 <= j < index_of(s, id) ==> #[trigger] s[j].uid != id,
        index_of(s, id) == -1 <==> forall|j: int| 0 <= j < s.len() ==> #[trigger] s[j].uid != id,
    decreases s.len(),
{
    if s.len() > 0 {
        lemma_index_of(s.drop_last(), id);
        let i = index_of(s.drop_last(), id);
        if i < 0 && s.last().uid != id {
            assert forall|j: int| 0 <= j < s.len() implies #[trigger] s[j].uid != id by {
                if j < s.len() - 1 {
                    assert(s.drop_last()[j] == s[j]);
                }
            }
        }
        if i >= 0 {
            assert(s.drop_last()[i] == s[i]);
            assert forall|j: int| 0 <= j < i implies #[trigger] s[j].uid != id by {
                assert(s.drop_last()[j] == s[j]);
            }
        }
        if i < 0 && s.last().uid == id {
            assert forall|j: int| 0 <= j < s.len() - 1 implies #[trigger] s[j].uid != id by {
                assert(s.drop_last()[j] == s[j]);
            }
        }
    }
}

/// The first position of `id` is fixed by where the identifiers stand.
pub proof fn lemma_index_of_same_ids(s: Seq<Entity>, t: Seq<Entity>, id: EntityId)
    requires
        s.len() == t.len(),
        forall|j: int| 0 <= j < s.len() ==> #[trigger] s[j].uid == t[j].uid,
    ensures
        index_of(s, id) == index_of(t, id),
{
    lemma_index_of(s, id);
    lemma_index_of(t, id);
    let i = index_of(s, id);
    let k = index_of(t, id);
    if i >= 0 && k >= 0 {
        if i < k {
            assert(t[i].uid != id);
        }
        if k < i {
            assert(s[k].uid != id);
        }
    }
    if i >= 0 && k < 0 {
        assert(t[i].uid != id);
    }
    if k >= 0 && i < 0 {
        assert(s[k].uid != id);
    }
}

/// The world holds an entity with this identifier.
pub open spec fn present(s: Seq<Entity>, id: EntityId) -> bool {
    exists|j: int| 0 <= j < s.len() && (#[trigger] s[j]).uid == id
}

pub proof fn lemma_present(s: Seq<Entity>, id: EntityId)
    ensures
        present(s, id) == (index_of(s, id) >= 0),
{
    lemma_index_of(s, id);
    if index_of(s, id) >= 0 {
        assert(s[index_of(s, id)].uid == id);
    }
}

pub proof fn lemma_present_after_remove(s: Seq<Entity>, id: EntityId, other: EntityId)
    requires
        id != other,
    ensures
        present(remove_id(s, other), id) == present(s, id),
{
    lemma_index_of(s, other);
    let k = index_of(s, other);
    if k >= 0 {
        let t = s.remove(k);
        if present(s, id) {
            let j = choose|j: int| 0 <= j < s.len() && (#[trigger] s[j]).uid == id;
            assert(j != k);
            if j < k {
                assert(t[j] == s[j]);
            } else {
                assert(t[j - 1] == s[j]);
            }
        }
        if present(t, id) {
            let j = choose|j: int| 0 <= j < t.len() && (#[trigger] t[j]).uid == id;
            if j < k {
                assert(t[j] == s[j]);
            } else {
                assert(t[j] == s[j + 1]);
            }
        }
    }
}

/// No two entities share an identifier.
pub open spec fn ids_unique(s: Seq<Entity>) -> bool {
    forall|i: int, j: int| 0 <= i < j < s.len() ==> #[trigger] s[i].uid != #[trigger] s[j].uid
}

/// Removing keeps identifiers unique, and with unique identifiers the
/// removed one is gone.
pub proof fn lemma_remove_unique(s: Seq<Entity>, id: EntityId)
    requires
        ids_unique(s),
    ensures
        ids_unique(remove_id(s, id)),
        !present(remove_id(s, id), id),
{
    lemma_index_of(s, id);
    let k = index_of(s, id);
    let t = remove_id(s, id);
    assert forall|i: int, j: int| 0 <= i < j < t.len() implies #[trigger] t[i].uid != #[trigger] t[j].uid by {
        if k >= 0 {
            let i0 = if i < k { i } else { i + 1 };
            let j0 = if j < k { j } else { j + 1 };
            assert(t[i] == s[i0] && t[j] == s[j0]);
        }
    }
    if present(t, id) {
        let j = choose|j: int| 0 <= j < t.len() && (#[trigger] t[j]).uid == id;
        if k >= 0 {
            let j0 = if j < k { j } else { j + 1 };
            assert(t[j] == s[j0]);
            assert(s[k].uid == id);
        } else {
            assert(t[j] == s[j]);
        }
    }
}

/// Inserting or replacing keeps identifiers unique.
pub proof fn lemma_upsert_unique(s: Seq<Entity>, e: Entity)
    requires
        ids_unique(s),
    ensures
        ids_unique(upsert(s, e)),
{
    lemma_index_of(s, e.uid);
    let t = upsert(s, e);
    assert forall|i: int, j: int| 0 <= i < j < t.len() implies #[trigger] t[i].uid != #[trigger] t[j].uid by {
        if index_of(s, e.uid) < 0 && j == s.len() {
            assert(t[i] == s[i]);
        } else if index_of(s, e.uid) >= 0 {
            let k = index_of(s, e.uid);
            if i == k {
                assert(s[j].uid != s[k].uid);
            } else if j == k {
                assert(s[i].uid != s[k].uid);
            }
        }
    }
}

/// Inserts an entity, or replaces the one with the same identifier.
pub open spec fn upsert(s: Seq<Entity>, e: Entity) -> Seq<Entity> {
    let i = index_of(s, e.uid);
    if i >= 0 {
        s.update(i, e)
    } else {
        s.push(e)
    }
}

/// Removes the entity with identifier `id`, if there is one.
pub open spec fn remove_id(s: Seq<Entity>, id: EntityId) -> Seq<Entity> {
    let i = index_of(s, id);
    if i >= 0 {
        s.remove(i)
    } else {
        s
    }
}

/// One parameter of one component set to a new value; an entity without
/// that component is left as it is.
pub open spec fn set_param(e: Entity, u: ParamUpdate) -> Entity {
    match u {
        ParamUpdate::TransformPosition(v) => match e.transform {
            Some(t) => Entity { transform: Some(Transform { position: v, ..t }), ..e },
            None => e,
        },
        ParamUpdate::TransformRotation(q) => match e.transform {
            Some(t) => Entity { transform: Some(Transform { rotation: q, ..t }), ..e },
            None => e,
        },
        ParamUpdate::TransformScale(v) => match e.transform {
            Some(t) => Entity { transform: Some(Transform { scale: v, ..t }), ..e },
            None => e,
        },
        ParamUpdate::PlayerSpeed(x) => match e.player {
            Some(p) => Entity { player: Some(PlayerComponent { speed: x, ..p }), ..e },
            None => e,
        },
        ParamUpdate::PlayerStrafe(x) => match e.player {
            Some(p) => Entity { player: Some(PlayerComponent { strafe: x, ..p }), ..e },
            None => e,
        },
    }
}

/// A player entity moved: its player component takes the new position and
/// rotations.
pub open spec fn move_player(e: Entity, pos: Vec3, rot: Quat, head: Quat) -> Entity {
    match e.player {
        Some(p) => Entity {
            player: Some(PlayerComponent { position: pos, rotation: rot, head_rotation: head, ..p }),
            ..e
        },
        None => e,
    }
}

/// The entity a fast packet changes in the world, if any.
pub open spec fn fast_entity(p: FastPacket) -> Option<EntityId> {
    match p {
        FastPacket::ChangePosition(id, _) => Some(id),
        FastPacket::ChangeRotation(id, _) => Some(id),
        FastPacket::ChangeScale(id, _) => Some(id),
        FastPacket::PlayerMoved(id, _, _, _) => Some(id),
        FastPacket::EntitySetParameter(id, _) => Some(id),
        _ => None,
    }
}

/// The field a fast packet sets: the two packets set the same thing when
/// this and `fast_entity` agree.
pub open spec fn fast_field(p: FastPacket) -> int {
    match p {
        FastPacket::ChangePosition(..) => 0,
        FastPacket::ChangeRotation(..) => 1,
        FastPacket::ChangeScale(..) => 2,
        FastPacket::PlayerMoved(..) => 5,
        FastPacket::EntitySetParameter(_, u) => match u {
            ParamUpdate::TransformPosition(_) => 0,
            ParamUpdate::TransformRotation(_) => 1,
            ParamUpdate::TransformScale(_) => 2,
            ParamUpdate::PlayerSpeed(_) => 3,
            ParamUpdate::PlayerStrafe(_) => 4,
        },
        _ => -1,
    }
}

/// What a fast packet does to one entity.
pub open spec fn fast_effect(e: Entity, p: FastPacket) -> Entity {
    match p {
        FastPacket::ChangePosition(_, v) => set_param(e, ParamUpdate::TransformPosition(v)),
        FastPacket::ChangeRotation(_, q) => set_param(e, ParamUpdate::TransformRotation(q)),
        FastPacket::ChangeScale(_, v) => set_param(e, ParamUpdate::TransformScale(v)),
        FastPacket::PlayerMoved(_, pos, rot, head) => move_player(e, pos, rot, head),
        FastPacket::EntitySetParameter(_, u) => set_param(e, u),
        _ => e,
    }
}

/// What a fast packet does to the world: packets for an unknown entity, or
/// that change no entity, leave it as it is.
pub open spec fn apply_fast_spec(s: Seq<Entity>, p: FastPacket) -> Seq<Entity> {
    match fast_entity(p) {
        Some(id) => {
            let i = index_of(s, id);
            if i >= 0 {
                s.update(i, fast_effect(s[i], p))
            } else {
                s
            }
        },
        None => s,
    }
}

proof fn lemma_fast_effect_keeps_uid(e: Entity, p: FastPacket)
    ensures
        fast_effect(e, p).uid == e.uid,
{
}

/// Applying a fast packet keeps every identifier where it stands.
pub proof fn lemma_apply_fast_same_ids(s: Seq<Entity>, p: FastPacket)
    ensures
        apply_fast_spec(s, p).len() == s.len(),
        forall|j: int| 0 <= j < s.len() ==> #[trigger] apply_fast_spec(s, p)[j].uid == s[j].uid,
{
    lemma_index_of(s, fast_entity(p)->0);
}

/// Fast packets: applying one twice is applying it once, and of two that set
/// the same field of the same entity only the later one shows.
pub proof fn lemma_fast_latest_wins(s: Seq<Entity>, p1: FastPacket, p2: FastPacket)
    requires
        fast_entity(p1) == fast_entity(p2),
        fast_field(p1) == fast_field(p2),
    ensures
        apply_fast_spec(apply_fast_spec(s, p1), p2) == apply_fast_spec(s, p2),
{
    lemma_apply_fast_same_ids(s, p1);
    let t = apply_fast_spec(s, p1);
    if let Some(id) = fast_entity(p1) {
        lemma_index_of_same_ids(s, t, id);
        lemma_index_of(s, id);
        let i = index_of(s, id);
        if i >= 0 {
            assert(fast_effect(fast_effect(s[i], p1), p2) == fast_effect(s[i], p2));
            assert(t.update(i, fast_effect(t[i], p2)) =~= s.update(i, fast_effect(s[i], p2)));
        }
    }
}

/// The same fast packet applied twice changes nothing more.
pub proof fn lemma_fast_idempotent(s: Seq<Entity>, p: FastPacket)
    ensures
        apply_fast_spec(apply_fast_spec(s, p), p) == apply_fast_spec(s, p),
{
    lemma_fast_latest_wins(s, p, p);
}

/// Errors of loading a map.
#[derive(Clone, Debug, PartialEq, Eq)]
pub enum MapLoadError {
    FolderNotFound(String),
}

/// The entities of one map.
pub struct World {
    pub entities: Vec<Entity>,
    /// The next identifier to hand out.
    pub eid_manager: EntityId,
    pub current_map: String,
}

/// A world stored under a name.
pub struct WorldDef {
    pub name: String,
    pub world: World,
}

impl World {
    pub fn new(map_name: String) -> (r: World)
        ensures
            r.entities@ == Seq::<Entity>::empty(),
            r.eid_manager == 0,
            r.current_map == map_name,
    {
        World { entities: Vec::new(), eid_manager: 0, current_map: map_name }
    }

    /// A fresh identifier: one more than the last one handed out.
    pub fn allocate_id(&mut self) -> (r: Option<EntityId>)
        ensures
            final(self).entities == old(self).entities,
            final(self).current_map == old(self).current_map,
            old(self).eid_manager < u64::MAX ==> r == Some(old(self).eid_manager) && final(self).eid_manager == old(self).eid_manager + 1,
            old(self).eid_manager == u64::MAX ==> r is None && final(self).eid_manager == old(self).eid_manager,
    {
        if self.eid_manager == u64::MAX {
            return None;
        }
        let id = self.eid_manager;
        self.eid_manager = self.eid_manager + 1;
        Some(id)
    }

    pub fn get_entity_index(&self, id: EntityId) -> (r: Option<usize>)
        ensures
            index_of(self.entities@, id) >= 0 ==> r == Some(index_of(self.entities@, id) as usize),
            index_of(self.entities@, id) < 0 ==> r is None,
            r matches Some(i) ==> i < self.entities@.len() && self.entities@[i as int].uid == id,
    {
        let mut i: usize = 0;
        proof {
            lemma_index_of(self.entities@, id);
        }
        while i < self.entities.len()
            invariant
                i <= self.entities@.len(),
                forall|j: int| 0 <= j < i ==> #[trigger] self.entities@[j].uid != id,
                -1 <= index_of(self.entities@, id) < self.entities@.len(),
                index_of(self.entities@, id) >= 0 ==> self.entities@[index_of(self.entities@, id)].uid == id
                    && forall|j: int| 0 <= j < index_of(self.entities@, id) ==> #[trigger] self.entities@[j].uid != id,
                index_of(self.entities@, id) == -1 <==> forall|j: int|
                    0 <= j < self.entities@.len() ==> #[trigger] self.entities@[j].uid != id,
            decreases self.entities@.len() - i,
        {
            if self.entities[i].uid == id {
                return Some(i);
            }
            i = i + 1;
        }
        None
    }

    pub fn contains(&self, id: EntityId) -> (r: bool)
        ensures
            r == (index_of(self.entities@, id) >= 0),
    {
        self.get_entity_index(id).is_some()
    }

    /// Inserts the entity, or replaces the one with its identifier: applying
    /// the same entity again never makes a second copy.
    pub fn upsert_entity(&mut self, e: Entity)
        ensures
            final(self).entities@ == upsert(old(self).entities@, e),
            final(self).current_map == old(self).current_map,
            final(self).eid_manager == old(self).eid_manager,
            ids_unique(old(self).entities@) ==> ids_unique(final(self).entities@),
    {
        proof {
            lemma_index_of(self.entities@, e.uid);
            if ids_unique(self.entities@) {
                lemma_upsert_unique(self.entities@, e);
            }
        }
        match self.get_entity_index(e.uid) {
            Some(i) => {
                self.entities.set(i, e);
            },
            None => {
                self.entities.push(e);
            },
        }
    }

    /// Removes the entity with this identifier; says whether there was one.
    pub fn remove_entity(&mut self, id: EntityId) -> (r: bool)
        ensures
            final(self).entities@ == remove_id(old(self).entities@, id),
            r == (index_of(old(self).entities@, id) >= 0),
            final(self).current_map == old(self).current_map,
            final(self).eid_manager == old(self).eid_manager,
            ids_unique(old(self).entities@) ==> ids_unique(final(self).entities@) && !present(
                final(self).entities@,
                id,
            ),
    {
        proof {
            lemma_index_of(self.entities@, id);
            if ids_unique(self.entities@) {
                lemma_remove_unique(self.entities@, id);
            }
        }
        match self.get_entity_index(id) {
            Some(i) => {
                self.entities.remove(i);
                true
            },
            None => false,
        }
    }

    /// Applies a fast packet; one for an unknown entity is dropped.
    pub fn apply_fast(&mut self, p: &FastPacket)
        ensures
            final(self).entities@ == apply_fast_spec(old(self).entities@, *p),
            final(self).current_map == old(self).current_map,
            final(self).eid_manager == old(self).eid_manager,
    {
        let id = match p {
            FastPacket::ChangePosition(id, _) => *id,
            FastPacket::ChangeRotation(id, _) => *id,
            FastPacket::ChangeScale(id, _) => *id,
            FastPacket::PlayerMoved(id, _, _, _) => *id,
            FastPacket::EntitySetParameter(id, _) => *id,
            _ => return,
        };
        proof {
            lemma_index_of(self.entities@, id);
        }
        let i = match self.get_entity_index(id) {
            Some(i) => i,
            None => return,
        };
        let mut e = self.entities.remove(i);
        let ghost before = e;
        match p {
            FastPacket::ChangePosition(_, v) => {
                if let Some(t) = e.transform {
                    e.transform = Some(Transform { position: *v, ..t });
                }
            },
            FastPacket::ChangeRotation(_, q) => {
                if let Some(t) = e.transform {
                    e.transform = Some(Transform { rotation: *q, ..t });
                }
            },
            FastPacket::ChangeScale(_, v) => {
                if let Some(t) = e.transform {
                    e.transform = Some(Transform { scale: *v, ..t });
                }
            },
            FastPacket::PlayerMoved(_, pos, rot, head) => {
                if let Some(pc) = &mut e.player {
                    pc.position = *pos;
                    pc.rotation = *rot;
                    pc.head_rotation = *head;
                }
            },
            FastPacket::EntitySetParameter(_, u) => {
                match u {
                    ParamUpdate::TransformPosition(v) => {
                        if let Some(t) = e.transform {
                            e.transform = Some(Transform { position: *v, ..t });
                        }
                    },
                    ParamUpdate::TransformRotation(q) => {
                        if let Some(t) = e.transform {
                            e.transform = Some(Transform { rotation: *q, ..t });
                        }
                    },
                    ParamUpdate::TransformScale(v) => {
                        if let Some(t) = e.transform {
                            e.transform = Some(Transform { scale: *v, ..t });
                        }
                    },
                    ParamUpdate::PlayerSpeed(x) => {
                        if let Some(pc) = &mut e.player {
                            pc.speed = *x;
                        }
                    },
                    ParamUpdate::PlayerStrafe(x) => {
                        if let Some(pc) = &mut e.player {
                            pc.strafe = *x;
                        }
                    },
                }
            },
            _ => {},
        }
        assert(e == fast_effect(before, *p));
        self.entities.insert(i, e);
        assert(self.entities@ =~= apply_fast_spec(old(self).entities@, *p));
    }
}

} // verus!
