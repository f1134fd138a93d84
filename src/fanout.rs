//! Turning a tick's world updates into packets for the connections.
//!
//! Creations and removals go out on the steady channel, transform changes on
//! the fast channel. Player movements are coalesced first: each moving entity
//! is announced once per tick, with its latest position and rotations, in the
//! order in which the entities first moved.
use vstd::prelude::*;
use crate::geometry::{Quat, Vec3};
use crate::packet::{ConnectionUUID, EntityId, FastPacket, SteadyPacket, WorldUpdate};

verus! {

/// The latest movement of one player entity within a tick.
#[derive(Clone, Copy, Debug, PartialEq, Eq, Structural)]
pub struct Movement {
    pub entity: EntityId,
    pub position: Vec3,
    pub rotation: Quat,
    pub head_rotation: Quat,
}

pub open spec fn moves_unique(ms: Seq<Movement>) -> bool {
    forall|i: int, j: int| 0 <= i < j < ms.len() ==> #[trigger] ms[i].entity != #[trigger] ms[j].entity
}

/// Position of the movement of `id`, or -1.
pub open spec fn move_index(ms: Seq<Movement>, id: EntityId) -> int {
    if exists|k: int| 0 <= k < ms.len() && #[trigger] ms[k].entity == id {
        choose|k: int| 0 <= k < ms.len() && #[trigger] ms[k].entity == id
    } else {
        -1
    }
}

pub open spec fn movement_of(u: WorldUpdate) -> Option<Movement> {
    match u {
        WorldUpdate::MovePlayerEntity(id, p, r, h) => Some(
            Movement { entity: id, position: p, rotation: r, head_rotation: h },
        ),
        _ => None,
    }
}

pub open spec fn coalesce_step(ms: Seq<Movement>, u: WorldUpdate) -> Seq<Movement> {
    match movement_of(u) {
        Some(m) => {
            let k = move_index(ms, m.entity);
            if k >= 0 {
                ms.update(k, m)
            } else {
                ms.push(m)
            }
        },
        None => ms,
    }
}

/// The movements of a tick, one per entity.
pub open spec fn coalesce(us: Seq<WorldUpdate>) -> Seq<Movement>
    decreases us.len(),
{
    if us.len() == 0 {
        Seq::empty()
    } else {
        coalesce_step(coalesce(us.drop_last()), us.last())
    }
}

/// The last movement of `id` among the updates.
pub open spec fn last_move(us: Seq<WorldUpdate>, id: EntityId) -> Option<Movement>
    decreases us.len(),
{
    if us.len() == 0 {
        None
    } else {
        match movement_of(us.last()) {
            Some(m) => if m.entity == id {
                Some(m)
            } else {
                last_move(us.drop_last(), id)
            },
            None => last_move(us.drop_last(), id),
        }
    }
}

proof fn lemma_move_index(ms: Seq<Movement>, id: EntityId)
    requires
        moves_unique(ms),
    ensures
        -1 <= move_index(ms, id) < ms.len(),
        move_index(ms, id) >= 0 ==> ms[move_index(ms, id)].entity == id,
        move_index(ms, id) == -1 ==> forall|k: int| 0 <= k < ms.len() ==> #[trigger] ms[k].entity != id,
        forall|k: int| 0 <= k < ms.len() && #[trigger] ms[k].entity == id ==> k == move_index(ms, id),
{
    if move_index(ms, id) >= 0 {
        let c = move_index(ms, id);
        assert forall|k: int| 0 <= k < ms.len() && #[trigger] ms[k].entity == id implies k == c by {
            if k < c {
                assert(ms[k].entity != ms[c].entity);
            } else if k > c {
                assert(ms[c].entity != ms[k].entity);
            }
        }
    }
}

/// Coalescing keeps one movement per entity, and it is that entity's last
/// movement of the tick; every entity that moved is there.
pub proof fn lemma_coalesce(us: Seq<WorldUpdate>)
    ensures
        moves_unique(coalesce(us)),
        forall|k: int| 0 <= k < coalesce(us).len() ==> last_move(us, #[trigger] coalesce(us)[k].entity)
            == Some(coalesce(us)[k]),
        forall|id: EntityId| #[trigger] last_move(us, id) is Some ==> move_index(coalesce(us), id) >= 0,
    decreases us.len(),
{
    if us.len() > 0 {
        let prev = us.drop_last();
        lemma_coalesce(prev);
        let ms = coalesce(prev);
        let out = coalesce(us);
        match movement_of(us.last()) {
            Some(m) => {
                lemma_move_index(ms, m.entity);
                let k = move_index(ms, m.entity);
                assert forall|i: int, j: int| 0 <= i < j < out.len() implies #[trigger] out[i].entity
                    != #[trigger] out[j].entity by {
                    if k < 0 && j == ms.len() {
                    } else {
                        assert(ms[i].entity != ms[j].entity);
                    }
                }
                assert forall|i: int| 0 <= i < out.len() implies last_move(us, #[trigger] out[i].entity)
                    == Some(out[i]) by {
                    if i < ms.len() && i != k {
                        assert(out[i] == ms[i]);
                    }
                }
                assert forall|id: EntityId| #[trigger] last_move(us, id) is Some implies move_index(
                    out,
                    id,
                ) >= 0 by {
                    if id == m.entity {
                        if k >= 0 {
                            assert(out[k].entity == id);
                        } else {
                            assert(out[ms.len() as int].entity == id);
                        }
                    } else {
                        assert(last_move(prev, id) is Some);
                        lemma_move_index(ms, id);
                        let c = move_index(ms, id);
                        assert(out[c].entity == id);
                    }
                }
            },
            None => {
                assert forall|id: EntityId| #[trigger] last_move(us, id) is Some implies move_index(
                    out,
                    id,
                ) >= 0 by {
                    assert(last_move(prev, id) is Some);
                }
            },
        }
    }
}

/// One packet for each connection.
pub open spec fn to_all<P>(cs: Seq<ConnectionUUID>, pk: P) -> Seq<(ConnectionUUID, P)> {
    Seq::new(cs.len(), |i: int| (cs[i], pk))
}

/// The steady packet an update becomes, if any.
pub open spec fn steady_of(u: WorldUpdate) -> Option<SteadyPacket> {
    match u {
        WorldUpdate::InitEntity(id, e) => Some(SteadyPacket::InitialiseEntity(id, e)),
        WorldUpdate::EntityNoLongerExists(id) => Some(SteadyPacket::RemoveEntity(id)),
        _ => None,
    }
}

/// The fast packet an update other than a movement becomes, if any.
pub open spec fn fast_of(u: WorldUpdate) -> Option<FastPacket> {
    match u {
        WorldUpdate::SetPosition(id, v) => Some(FastPacket::ChangePosition(id, v)),
        WorldUpdate::SetRotation(id, q) => Some(FastPacket::ChangeRotation(id, q)),
        WorldUpdate::SetScale(id, v) => Some(FastPacket::ChangeScale(id, v)),
        _ => None,
    }
}

pub open spec fn steady_fan(us: Seq<WorldUpdate>, cs: Seq<ConnectionUUID>) -> Seq<(ConnectionUUID, SteadyPacket)>
    decreases us.len(),
{
    if us.len() == 0 {
        Seq::empty()
    } else {
        steady_fan(us.drop_last(), cs) + match steady_of(us.last()) {
            Some(p) => to_all(cs, p),
            None => Seq::empty(),
        }
    }
}

pub open spec fn fast_fan(us: Seq<WorldUpdate>, cs: Seq<ConnectionUUID>) -> Seq<(ConnectionUUID, FastPacket)>
    decreases us.len(),
{
    if us.len() == 0 {
        Seq::empty()
    } else {
        fast_fan(us.drop_last(), cs) + match fast_of(us.last()) {
            Some(p) => to_all(cs, p),
            None => Seq::empty(),
        }
    }
}

pub open spec fn moved_packet(m: Movement) -> FastPacket {
    FastPacket::PlayerMoved(m.entity, m.position, m.rotation, m.head_rotation)
}

pub open spec fn moves_fan(ms: Seq<Movement>, cs: Seq<ConnectionUUID>) -> Seq<(ConnectionUUID, FastPacket)>
    decreases ms.len(),
{
    if ms.len() == 0 {
        Seq::empty()
    } else {
        moves_fan(ms.drop_last(), cs) + to_all(cs, moved_packet(ms.last()))
    }
}

/// A removal among the updates is announced to every connection.
pub proof fn lemma_removal_announced(us: Seq<WorldUpdate>, cs: Seq<ConnectionUUID>, j: int, c: int)
    requires
        0 <= j < us.len(),
        us[j] is EntityNoLongerExists,
        0 <= c < cs.len(),
    ensures
        steady_fan(us, cs).contains((cs[c], SteadyPacket::RemoveEntity(us[j]->EntityNoLongerExists_0))),
    decreases us.len(),
{
    let pk = SteadyPacket::RemoveEntity(us[j]->EntityNoLongerExists_0);
    let prev = steady_fan(us.drop_last(), cs);
    if j == us.len() - 1 {
        let tail = to_all(cs, pk);
        assert(steady_fan(us, cs)[prev.len() + c] == tail[c]);
    } else {
        assert(us.drop_last()[j] == us[j]);
        lemma_removal_announced(us.drop_last(), cs, j, c);
        let k = choose|k: int| 0 <= k < prev.len() && prev[k] == (cs[c], pk);
        assert(steady_fan(us, cs)[k] == prev[k]);
    }
}

/// The packets of one tick, by channel.
pub struct Outgoing {
    pub fast: Vec<(ConnectionUUID, FastPacket)>,
    pub steady: Vec<(ConnectionUUID, SteadyPacket)>,
}

fn push_steady_to_all(
    out: &mut Vec<(ConnectionUUID, SteadyPacket)>,
    cs: &Vec<ConnectionUUID>,
    pk: &SteadyPacket,
)
    ensures
        final(out)@ == old(out)@ + to_all(cs@, *pk),
{
    let mut i: usize = 0;
    while i < cs.len()
        invariant
            i <= cs@.len(),
            out@ =~= old(out)@ + to_all(cs@, *pk).take(i as int),
        decreases cs@.len() - i,
    {
        out.push((cs[i].clone(), pk.duplicate()));
        i = i + 1;
    }
    assert(to_all(cs@, *pk).take(i as int) =~= to_all(cs@, *pk));
}

fn push_fast_to_all(out: &mut Vec<(ConnectionUUID, FastPacket)>, cs: &Vec<ConnectionUUID>, pk: &FastPacket)
    ensures
        final(out)@ == old(out)@ + to_all(cs@, *pk),
{
    let mut i: usize = 0;
    while i < cs.len()
        invariant
            i <= cs@.len(),
            out@ =~= old(out)@ + to_all(cs@, *pk).take(i as int),
        decreases cs@.len() - i,
    {
        out.push((cs[i].clone(), pk.duplicate()));
        i = i + 1;
    }
    assert(to_all(cs@, *pk).take(i as int) =~= to_all(cs@, *pk));
}

fn find_move(ms: &Vec<Movement>, id: EntityId) -> (r: Option<usize>)
    requires
        moves_unique(ms@),
    ensures
        move_index(ms@, id) >= 0 ==> r == Some(move_index(ms@, id) as usize),
        move_index(ms@, id) < 0 ==> r is None,
{
    proof {
        lemma_move_index(ms@, id);
    }
    let mut i: usize = 0;
    while i < ms.len()
        invariant
            i <= ms@.len(),
            moves_unique(ms@),
            forall|k: int| 0 <= k < i ==> #[trigger] ms@[k].entity != id,
        decreases ms@.len() - i,
    {
        if ms[i].entity == id {
            proof {
                lemma_move_index(ms@, id);
            }
            return Some(i);
        }
        i = i + 1;
    }
    None
}

/// The packets a tick's updates become, for the given connections.
#[verifier::spinoff_prover]
pub fn fan_out(updates: &Vec<WorldUpdate>, connections: &Vec<ConnectionUUID>) -> (r: Outgoing)
    ensures
        r.steady@ == steady_fan(updates@, connections@),
        r.fast@ == fast_fan(updates@, connections@) + moves_fan(coalesce(updates@), connections@),
{
    let mut steady: Vec<(ConnectionUUID, SteadyPacket)> = Vec::new();
    let mut fast: Vec<(ConnectionUUID, FastPacket)> = Vec::new();
    let mut moves: Vec<Movement> = Vec::new();
    let mut i: usize = 0;
    while i < updates.len()
        invariant
            i <= updates@.len(),
            steady@ == steady_fan(updates@.take(i as int), connections@),
            fast@ == fast_fan(updates@.take(i as int), connections@),
            moves@ == coalesce(updates@.take(i as int)),
        decreases updates@.len() - i,
    {
        let ghost t = updates@.take(i + 1);
        let ghost old_moves = moves@;
        proof {
            assert(t.drop_last() =~= updates@.take(i as int));
            assert(t.last() == updates@[i as int]);
            lemma_coalesce(updates@.take(i as int));
            assert(coalesce(t) == coalesce_step(old_moves, updates@[i as int]));
        }
        match &updates[i] {
            WorldUpdate::InitEntity(id, e) => {
                push_steady_to_all(&mut steady, connections, &SteadyPacket::InitialiseEntity(*id, e.duplicate()));
            },
            WorldUpdate::EntityNoLongerExists(id) => {
                push_steady_to_all(&mut steady, connections, &SteadyPacket::RemoveEntity(*id));
            },
            WorldUpdate::SetPosition(id, v) => {
                push_fast_to_all(&mut fast, connections, &FastPacket::ChangePosition(*id, *v));
            },
            WorldUpdate::SetRotation(id, q) => {
                push_fast_to_all(&mut fast, connections, &FastPacket::ChangeRotation(*id, *q));
            },
            WorldUpdate::SetScale(id, v) => {
                push_fast_to_all(&mut fast, connections, &FastPacket::ChangeScale(*id, *v));
            },
            WorldUpdate::MovePlayerEntity(id, p, r, h) => {
                let m = Movement { entity: *id, position: *p, rotation: *r, head_rotation: *h };
                proof {
                    lemma_move_index(old_moves, *id);
                }
                match find_move(&moves, *id) {
                    Some(k) => {
                        moves.set(k, m);
                    },
                    None => {
                        moves.push(m);
                    },
                }
                assert(moves@ == coalesce_step(old_moves, updates@[i as int]));
            },
        }
        assert(steady@ =~= steady_fan(t, connections@));
        assert(fast@ =~= fast_fan(t, connections@));
        assert(moves@ =~= coalesce(t));
        i = i + 1;
    }
    proof {
        assert(updates@.take(i as int) =~= updates@);
    }
    let ghost before = fast@;
    let mut k: usize = 0;
    while k < moves.len()
        invariant
            k <= moves@.len(),
            fast@ == before + moves_fan(moves@.take(k as int), connections@),
        decreases moves@.len() - k,
    {
        proof {
            assert(moves@.take(k + 1).drop_last() =~= moves@.take(k as int));
        }
        let m = moves[k];
        push_fast_to_all(
            &mut fast,
            connections,
            &FastPacket::PlayerMoved(m.entity, m.position, m.rotation, m.head_rotation),
        );
        assert(fast@ =~= before + moves_fan(moves@.take(k + 1), connections@));
        k = k + 1;
    }
    proof {
        assert(moves@.take(k as int) =~= moves@);
    }
    Outgoing { fast, steady }
}

} // verus!
