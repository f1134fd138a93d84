//! The wire format of the pieces messages are made of: movement extras,
//! component parameters, transforms, player components and entities.
//!
//! A value is written as its variant tag (one byte) followed by its fields
//! in order. `*_bytes` is the encoding, `parse_*` the reading; the lemmas show
//! that reading the encoding of a value gives that value back, and the
//! executable readers and writers are proved to follow the two.
use vstd::prelude::*;
use crate::packet::{Entity, EntityModel, MovementInfo, ParamUpdate, PlayerComponent, PlayerModel, Transform};
use crate::prefix::{at, enc_u64, lemma_at_concat, lemma_u64_len};
use crate::wire::{
    enc_bool, enc_i64, enc_quat, enc_text, enc_vec3, lemma_bool, lemma_byte, lemma_i64,
    lemma_quat, lemma_text, lemma_u64, lemma_vec3, parse_bool, parse_byte, parse_i64,
    parse_quat, parse_text, parse_u64, parse_vec3, read_bool, read_byte, read_i64, read_quat,
    read_text, read_u64, read_vec3, write_bool, write_i64, write_quat, write_text, write_u64,
    write_vec3,
};

verus! {

broadcast use lemma_at_concat, lemma_u64_len;

// ---- movement extras ----

pub open spec fn movement_bytes(m: Option<MovementInfo>) -> Seq<u8> {
    match m {
        None => seq![0u8],
        Some(i) => seq![1u8] + enc_bool(i.jumped) + enc_bool(i.sprinting),
    }
}

pub open spec fn parse_movement(b: Seq<u8>, pos: int) -> Option<(Option<MovementInfo>, int)> {
    match parse_byte(b, pos) {
        None => None,
        Some((t, p)) => if t == 0 {
            Some((None, p))
        } else if t == 1 {
            match parse_bool(b, p) {
                None => None,
                Some((j, p2)) => match parse_bool(b, p2) {
                    None => None,
                    Some((s, p3)) => Some((Some(MovementInfo { jumped: j, sprinting: s }), p3)),
                },
            }
        } else {
            None
        },
    }
}

pub proof fn lemma_movement(b: Seq<u8>, pos: int, m: Option<MovementInfo>)
    requires
        at(b, pos, movement_bytes(m)),
    ensures
        parse_movement(b, pos) == Some((m, pos + movement_bytes(m).len())),
{
    match m {
        None => lemma_byte(b, pos, 0),
        Some(i) => {
            lemma_byte(b, pos, 1);
            lemma_bool(b, pos + 1, i.jumped);
            lemma_bool(b, pos + 2, i.sprinting);
        },
    }
}

pub fn write_movement(out: &mut Vec<u8>, m: Option<MovementInfo>)
    ensures
        final(out)@ == old(out)@ + movement_bytes(m),
{
    match m {
        None => out.push(0u8),
        Some(i) => {
            out.push(1u8);
            write_bool(out, i.jumped);
            write_bool(out, i.sprinting);
        },
    }
    assert(final(out)@ =~= old(out)@ + movement_bytes(m));
}

pub fn read_movement(b: &[u8], pos: usize) -> (r: Option<(Option<MovementInfo>, usize)>)
    ensures
        match parse_movement(b@, pos as int) {
            None => r is None,
            Some((m, q)) => r matches Some((w, q2)) && w == m && q2 == q,
        },
{
    let (t, p) = match read_byte(b, pos) { Some(x) => x, None => return None };
    if t == 0 {
        Some((None, p))
    } else if t == 1 {
        let (j, p2) = match read_bool(b, p) { Some(x) => x, None => return None };
        let (s, p3) = match read_bool(b, p2) { Some(x) => x, None => return None };
        Some((Some(MovementInfo { jumped: j, sprinting: s }), p3))
    } else {
        None
    }
}

// ---- component parameters ----

pub open spec fn param_bytes(u: ParamUpdate) -> Seq<u8> {
    match u {
        ParamUpdate::TransformPosition(v) => seq![0u8] + enc_vec3(v),
        ParamUpdate::TransformRotation(q) => seq![1u8] + enc_quat(q),
        ParamUpdate::TransformScale(v) => seq![2u8] + enc_vec3(v),
        ParamUpdate::PlayerSpeed(x) => seq![3u8] + enc_i64(x),
        ParamUpdate::PlayerStrafe(x) => seq![4u8] + enc_i64(x),
    }
}

pub open spec fn parse_param(b: Seq<u8>, pos: int) -> Option<(ParamUpdate, int)> {
    match parse_byte(b, pos) {
        None => None,
        Some((t, p)) => if t == 0 || t == 2 {
            match parse_vec3(b, p) {
                None => None,
                Some((v, q)) => Some(
                    (
                        if t == 0 {
                            ParamUpdate::TransformPosition(v)
                        } else {
                            ParamUpdate::TransformScale(v)
                        },
                        q,
                    ),
                ),
            }
        } else if t == 1 {
            match parse_quat(b, p) {
                None => None,
                Some((v, q)) => Some((ParamUpdate::TransformRotation(v), q)),
            }
        } else if t == 3 || t == 4 {
            match parse_i64(b, p) {
                None => None,
                Some((x, q)) => Some(
                    (
                        if t == 3 {
                            ParamUpdate::PlayerSpeed(x)
                        } else {
                            ParamUpdate::PlayerStrafe(x)
                        },
                        q,
                    ),
                ),
            }
        } else {
            None
        },
    }
}

pub proof fn lemma_param(b: Seq<u8>, pos: int, u: ParamUpdate)
    requires
        at(b, pos, param_bytes(u)),
    ensures
        parse_param(b, pos) == Some((u, pos + param_bytes(u).len())),
{
    match u {
        ParamUpdate::TransformPosition(v) => {
            lemma_byte(b, pos, 0);
            lemma_vec3(b, pos + 1, v);
        },
        ParamUpdate::TransformRotation(q) => {
            lemma_byte(b, pos, 1);
            lemma_quat(b, pos + 1, q);
        },
        ParamUpdate::TransformScale(v) => {
            lemma_byte(b, pos, 2);
            lemma_vec3(b, pos + 1, v);
        },
        ParamUpdate::PlayerSpeed(x) => {
            lemma_byte(b, pos, 3);
            lemma_i64(b, pos + 1, x);
        },
        ParamUpdate::PlayerStrafe(x) => {
            lemma_byte(b, pos, 4);
            lemma_i64(b, pos + 1, x);
        },
    }
}

pub fn write_param(out: &mut Vec<u8>, u: ParamUpdate)
    ensures
        final(out)@ == old(out)@ + param_bytes(u),
{
    match u {
        ParamUpdate::TransformPosition(v) => {
            out.push(0u8);
            write_vec3(out, v);
        },
        ParamUpdate::TransformRotation(q) => {
            out.push(1u8);
            write_quat(out, q);
        },
        ParamUpdate::TransformScale(v) => {
            out.push(2u8);
            write_vec3(out, v);
        },
        ParamUpdate::PlayerSpeed(x) => {
            out.push(3u8);
            write_i64(out, x);
        },
        ParamUpdate::PlayerStrafe(x) => {
            out.push(4u8);
            write_i64(out, x);
        },
    }
    assert(final(out)@ =~= old(out)@ + param_bytes(u));
}

pub fn read_param(b: &[u8], pos: usize) -> (r: Option<(ParamUpdate, usize)>)
    ensures
        match parse_param(b@, pos as int) {
            None => r is None,
            Some((u, q)) => r matches Some((w, q2)) && w == u && q2 == q,
        },
{
    let (t, p) = match read_byte(b, pos) { Some(x) => x, None => return None };
    if t == 0 || t == 2 {
        let (v, q) = match read_vec3(b, p) { Some(x) => x, None => return None };
        Some((if t == 0 { ParamUpdate::TransformPosition(v) } else { ParamUpdate::TransformScale(v) }, q))
    } else if t == 1 {
        let (v, q) = match read_quat(b, p) { Some(x) => x, None => return None };
        Some((ParamUpdate::TransformRotation(v), q))
    } else if t == 3 || t == 4 {
        let (x, q) = match read_i64(b, p) { Some(x) => x, None => return None };
        Some((if t == 3 { ParamUpdate::PlayerSpeed(x) } else { ParamUpdate::PlayerStrafe(x) }, q))
    } else {
        None
    }
}


// ---- entities ----

pub open spec fn transform_bytes(t: Option<Transform>) -> Seq<u8> {
    match t {
        None => seq![0u8],
        Some(t) => seq![1u8] + enc_vec3(t.position) + enc_quat(t.rotation) + enc_vec3(t.scale),
    }
}

pub open spec fn parse_transform(b: Seq<u8>, pos: int) -> Option<(Option<Transform>, int)> {
    match parse_byte(b, pos) {
        None => None,
        Some((t, p)) => if t == 0 {
            Some((None, p))
        } else if t == 1 {
            match parse_vec3(b, p) {
                None => None,
                Some((position, p2)) => match parse_quat(b, p2) {
                    None => None,
                    Some((rotation, p3)) => match parse_vec3(b, p3) {
                        None => None,
                        Some((scale, p4)) => Some(
                            (Some(Transform { position, rotation, scale }), p4),
                        ),
                    },
                },
            }
        } else {
            None
        },
    }
}

pub proof fn lemma_transform(b: Seq<u8>, pos: int, t: Option<Transform>)
    requires
        at(b, pos, transform_bytes(t)),
    ensures
        parse_transform(b, pos) == Some((t, pos + transform_bytes(t).len())),
{
    match t {
        None => lemma_byte(b, pos, 0),
        Some(t) => {
            lemma_byte(b, pos, 1);
            lemma_vec3(b, pos + 1, t.position);
            lemma_quat(b, pos + 25, t.rotation);
            lemma_vec3(b, pos + 57, t.scale);
        },
    }
}

pub fn write_transform(out: &mut Vec<u8>, t: Option<Transform>)
    ensures
        final(out)@ == old(out)@ + transform_bytes(t),
{
    match t {
        None => out.push(0u8),
        Some(t) => {
            out.push(1u8);
            write_vec3(out, t.position);
            write_quat(out, t.rotation);
            write_vec3(out, t.scale);
        },
    }
    assert(final(out)@ =~= old(out)@ + transform_bytes(t));
}

pub fn read_transform(b: &[u8], pos: usize) -> (r: Option<(Option<Transform>, usize)>)
    ensures
        match parse_transform(b@, pos as int) {
            None => r is None,
            Some((t, q)) => r matches Some((w, q2)) && w == t && q2 == q,
        },
{
    let (t, p) = match read_byte(b, pos) { Some(x) => x, None => return None };
    if t == 0 {
        Some((None, p))
    } else if t == 1 {
        let (position, p2) = match read_vec3(b, p) { Some(x) => x, None => return None };
        let (rotation, p3) = match read_quat(b, p2) { Some(x) => x, None => return None };
        let (scale, p4) = match read_vec3(b, p3) { Some(x) => x, None => return None };
        Some((Some(Transform { position, rotation, scale }), p4))
    } else {
        None
    }
}

pub open spec fn player_bytes(c: PlayerModel) -> Seq<u8> {
    enc_text(c.uuid) + enc_text(c.name) + enc_vec3(c.position) + enc_quat(c.rotation) + enc_quat(
        c.head_rotation,
    ) + enc_i64(c.speed) + enc_i64(c.strafe)
}

pub open spec fn parse_player(b: Seq<u8>, pos: int) -> Option<(PlayerModel, int)> {
    match parse_text(b, pos) {
        None => None,
        Some((uuid, p1)) => match parse_text(b, p1) {
            None => None,
            Some((name, p2)) => match parse_vec3(b, p2) {
                None => None,
                Some((position, p3)) => match parse_quat(b, p3) {
                    None => None,
                    Some((rotation, p4)) => match parse_quat(b, p4) {
                        None => None,
                        Some((head_rotation, p5)) => match parse_i64(b, p5) {
                            None => None,
                            Some((speed, p6)) => match parse_i64(b, p6) {
                                None => None,
                                Some((strafe, p7)) => Some(
                                    (
                                        PlayerModel {
                                            uuid,
                                            name,
                                            position,
                                            rotation,
                                            head_rotation,
                                            speed,
                                            strafe,
                                        },
                                        p7,
                                    ),
                                ),
                            },
                        },
                    },
                },
            },
        },
    }
}

pub proof fn lemma_player(b: Seq<u8>, pos: int, c: PlayerModel)
    requires
        at(b, pos, player_bytes(c)),
        b.len() <= u64::MAX,
    ensures
        parse_player(b, pos) == Some((c, pos + player_bytes(c).len())),
{
    let p1 = pos + enc_text(c.uuid).len();
    let p2 = p1 + enc_text(c.name).len();
    lemma_text(b, pos, c.uuid);
    lemma_text(b, p1, c.name);
    lemma_vec3(b, p2, c.position);
    lemma_quat(b, p2 + 24, c.rotation);
    lemma_quat(b, p2 + 56, c.head_rotation);
    lemma_i64(b, p2 + 88, c.speed);
    lemma_i64(b, p2 + 96, c.strafe);
}

pub fn write_player(out: &mut Vec<u8>, c: &PlayerComponent)
    ensures
        final(out)@ == old(out)@ + player_bytes(c@),
{
    write_text(out, &c.uuid);
    write_text(out, &c.name);
    write_vec3(out, c.position);
    write_quat(out, c.rotation);
    write_quat(out, c.head_rotation);
    write_i64(out, c.speed);
    write_i64(out, c.strafe);
    assert(final(out)@ =~= old(out)@ + player_bytes(c@));
}

pub fn read_player(b: &[u8], pos: usize) -> (r: Option<(PlayerComponent, usize)>)
    ensures
        match parse_player(b@, pos as int) {
            None => r is None,
            Some((c, q)) => r matches Some((w, q2)) && w@ == c && q2 == q,
        },
{
    let (uuid, p1) = match read_text(b, pos) { Some(x) => x, None => return None };
    let (name, p2) = match read_text(b, p1) { Some(x) => x, None => return None };
    let (position, p3) = match read_vec3(b, p2) { Some(x) => x, None => return None };
    let (rotation, p4) = match read_quat(b, p3) { Some(x) => x, None => return None };
    let (head_rotation, p5) = match read_quat(b, p4) { Some(x) => x, None => return None };
    let (speed, p6) = match read_i64(b, p5) { Some(x) => x, None => return None };
    let (strafe, p7) = match read_i64(b, p6) { Some(x) => x, None => return None };
    Some((PlayerComponent { uuid, name, position, rotation, head_rotation, speed, strafe }, p7))
}

pub open spec fn opt_player_bytes(c: Option<PlayerModel>) -> Seq<u8> {
    match c {
        None => seq![0u8],
        Some(c) => seq![1u8] + player_bytes(c),
    }
}

pub open spec fn parse_opt_player(b: Seq<u8>, pos: int) -> Option<(Option<PlayerModel>, int)> {
    match parse_byte(b, pos) {
        None => None,
        Some((t, p)) => if t == 0 {
            Some((None, p))
        } else if t == 1 {
            match parse_player(b, p) {
                None => None,
                Some((c, q)) => Some((Some(c), q)),
            }
        } else {
            None
        },
    }
}

pub open spec fn entity_bytes(e: EntityModel) -> Seq<u8> {
    enc_u64(e.uid) + enc_text(e.name) + transform_bytes(e.transform) + opt_player_bytes(e.player)
}

pub open spec fn parse_entity(b: Seq<u8>, pos: int) -> Option<(EntityModel, int)> {
    match parse_u64(b, pos) {
        None => None,
        Some((uid, p1)) => match parse_text(b, p1) {
            None => None,
            Some((name, p2)) => match parse_transform(b, p2) {
                None => None,
                Some((transform, p3)) => match parse_opt_player(b, p3) {
                    None => None,
                    Some((player, p4)) => Some((EntityModel { uid, name, transform, player }, p4)),
                },
            },
        },
    }
}

pub proof fn lemma_entity(b: Seq<u8>, pos: int, e: EntityModel)
    requires
        at(b, pos, entity_bytes(e)),
        b.len() <= u64::MAX,
    ensures
        parse_entity(b, pos) == Some((e, pos + entity_bytes(e).len())),
{
    let p2 = pos + 8 + enc_text(e.name).len();
    let p3 = p2 + transform_bytes(e.transform).len();
    lemma_u64(b, pos, e.uid);
    lemma_text(b, pos + 8, e.name);
    lemma_transform(b, p2, e.transform);
    match e.player {
        None => lemma_byte(b, p3, 0),
        Some(c) => {
            lemma_byte(b, p3, 1);
            lemma_player(b, p3 + 1, c);
        },
    }
}

pub fn write_entity(out: &mut Vec<u8>, e: &Entity)
    ensures
        final(out)@ == old(out)@ + entity_bytes(e@),
{
    write_u64(out, e.uid);
    write_text(out, &e.name);
    write_transform(out, e.transform);
    match &e.player {
        None => out.push(0u8),
        Some(c) => {
            out.push(1u8);
            write_player(out, c);
        },
    }
    assert(final(out)@ =~= old(out)@ + entity_bytes(e@));
}

pub fn read_entity(b: &[u8], pos: usize) -> (r: Option<(Entity, usize)>)
    ensures
        match parse_entity(b@, pos as int) {
            None => r is None,
            Some((e, q)) => r matches Some((w, q2)) && w@ == e && q2 == q,
        },
{
    let (uid, p1) = match read_u64(b, pos) { Some(x) => x, None => return None };
    let (name, p2) = match read_text(b, p1) { Some(x) => x, None => return None };
    let (transform, p3) = match read_transform(b, p2) { Some(x) => x, None => return None };
    let (t, p4) = match read_byte(b, p3) { Some(x) => x, None => return None };
    if t == 0 {
        Some((Entity { uid, name, transform, player: None }, p4))
    } else if t == 1 {
        let (c, p5) = match read_player(b, p4) { Some(x) => x, None => return None };
        Some((Entity { uid, name, transform, player: Some(c) }, p5))
    } else {
        None
    }
}

} // verus!
