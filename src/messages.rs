//! Encoding and decoding of whole messages: fast packets, steady packets
//! with their identifier and protocol version, and world updates.
//!
//! `decode_*` reads a buffer that must hold exactly one message; the
//! round-trip lemmas state that decoding an encoding gives the value back.
use vstd::prelude::*;
use crate::codec::{
    entity_bytes, lemma_entity, lemma_movement, lemma_param, movement_bytes, param_bytes,
    parse_entity, parse_movement, parse_param, read_entity, read_movement, read_param,
    write_entity, write_movement, write_param,
};
use crate::packet::{FastModel, FastPacket, NameRejectionReason, SteadyDataModel, SteadyModel, SteadyPacket, SteadyPacketData, UpdateModel, WorldUpdate};
use crate::prefix::{at, enc_u64, lemma_at_concat, lemma_u64_len};
use crate::transport::{open_datagram, open_datagram_spec, pop_frame_spec, FastOrderFilter, StreamReceiver};
use crate::wire::{
    enc_quat, enc_text, enc_vec3, lemma_byte, lemma_quat, lemma_text, lemma_u64, lemma_vec3,
    parse_byte, parse_quat, parse_text, parse_u64, parse_vec3, read_byte, read_quat, read_text,
    read_u64, read_vec3, write_quat, write_text, write_u64, write_vec3,
};

verus! {

broadcast use lemma_at_concat, lemma_u64_len;

// ---- fast packets ----

pub open spec fn fast_bytes(m: FastModel) -> Seq<u8> {
    match m {
        FastModel::ChangePosition(e, v) => seq![0u8] + enc_u64(e) + enc_vec3(v),
        FastModel::ChangeRotation(e, q) => seq![1u8] + enc_u64(e) + enc_quat(q),
        FastModel::ChangeScale(e, v) => seq![2u8] + enc_u64(e) + enc_vec3(v),
        FastModel::PlayerMoved(e, p, r, h) => seq![3u8] + enc_u64(e) + enc_vec3(p) + enc_quat(r)
            + enc_quat(h),
        FastModel::EntitySetParameter(e, u) => seq![4u8] + enc_u64(e) + param_bytes(u),
        FastModel::PlayerMove(u, p, d, r, h, m) => seq![5u8] + enc_text(u) + enc_vec3(p) + enc_vec3(
            d,
        ) + enc_quat(r) + enc_quat(h) + movement_bytes(m),
        FastModel::PlayerJump(u) => seq![6u8] + enc_text(u),
        FastModel::PlayerFuckYouMoveHere(p) => seq![7u8] + enc_vec3(p),
        FastModel::PlayerCheckPosition(u, p) => seq![8u8] + enc_text(u) + enc_vec3(p),
        FastModel::PlayerFuckYouSetRotation(q) => seq![9u8] + enc_quat(q),
    }
}

/// Reads the fields of the fast packet with tag `t` from `p` on.
pub open spec fn parse_fast_body(b: Seq<u8>, t: u8, p: int) -> Option<(FastModel, int)> {
    if t == 0 || t == 2 {
        match parse_u64(b, p) {
            None => None,
            Some((e, p1)) => match parse_vec3(b, p1) {
                None => None,
                Some((v, p2)) => Some(
                    (
                        if t == 0 {
                            FastModel::ChangePosition(e, v)
                        } else {
                            FastModel::ChangeScale(e, v)
                        },
                        p2,
                    ),
                ),
            },
        }
    } else if t == 1 {
        match parse_u64(b, p) {
            None => None,
            Some((e, p1)) => match parse_quat(b, p1) {
                None => None,
                Some((q, p2)) => Some((FastModel::ChangeRotation(e, q), p2)),
            },
        }
    } else if t == 3 {
        match parse_u64(b, p) {
            None => None,
            Some((e, p1)) => match parse_vec3(b, p1) {
                None => None,
                Some((v, p2)) => match parse_quat(b, p2) {
                    None => None,
                    Some((r, p3)) => match parse_quat(b, p3) {
                        None => None,
                        Some((h, p4)) => Some((FastModel::PlayerMoved(e, v, r, h), p4)),
                    },
                },
            },
        }
    } else if t == 4 {
        match parse_u64(b, p) {
            None => None,
            Some((e, p1)) => match parse_param(b, p1) {
                None => None,
                Some((u, p2)) => Some((FastModel::EntitySetParameter(e, u), p2)),
            },
        }
    } else if t == 5 {
        match parse_text(b, p) {
            None => None,
            Some((u, p1)) => match parse_vec3(b, p1) {
                None => None,
                Some((v, p2)) => match parse_vec3(b, p2) {
                    None => None,
                    Some((d, p3)) => match parse_quat(b, p3) {
                        None => None,
                        Some((r, p4)) => match parse_quat(b, p4) {
                            None => None,
                            Some((h, p5)) => match parse_movement(b, p5) {
                                None => None,
                                Some((m, p6)) => Some(
                                    (FastModel::PlayerMove(u, v, d, r, h, m), p6),
                                ),
                            },
                        },
                    },
                },
            },
        }
    } else if t == 6 {
        match parse_text(b, p) {
            None => None,
            Some((u, p1)) => Some((FastModel::PlayerJump(u), p1)),
        }
    } else if t == 7 {
        match parse_vec3(b, p) {
            None => None,
            Some((v, p1)) => Some((FastModel::PlayerFuckYouMoveHere(v), p1)),
        }
    } else if t == 8 {
        match parse_text(b, p) {
            None => None,
            Some((u, p1)) => match parse_vec3(b, p1) {
                None => None,
                Some((v, p2)) => Some((FastModel::PlayerCheckPosition(u, v), p2)),
            },
        }
    } else if t == 9 {
        match parse_quat(b, p) {
            None => None,
            Some((q, p1)) => Some((FastModel::PlayerFuckYouSetRotation(q), p1)),
        }
    } else {
        None
    }
}

pub open spec fn parse_fast(b: Seq<u8>, pos: int) -> Option<(FastModel, int)> {
    match parse_byte(b, pos) {
        None => None,
        Some((t, p)) => parse_fast_body(b, t, p),
    }
}

#[verifier::spinoff_prover]
#[verifier::rlimit(60)]
pub proof fn lemma_fast(b: Seq<u8>, pos: int, m: FastModel)
    requires
        at(b, pos, fast_bytes(m)),
        b.len() <= u64::MAX,
    ensures
        parse_fast(b, pos) == Some((m, pos + fast_bytes(m).len())),
{
    let p = pos + 1;
    match m {
        FastModel::ChangePosition(e, v) => {
            lemma_byte(b, pos, 0);
            lemma_u64(b, p, e);
            lemma_vec3(b, p + 8, v);
        },
        FastModel::ChangeRotation(e, q) => {
            lemma_byte(b, pos, 1);
            lemma_u64(b, p, e);
            lemma_quat(b, p + 8, q);
        },
        FastModel::ChangeScale(e, v) => {
            lemma_byte(b, pos, 2);
            lemma_u64(b, p, e);
            lemma_vec3(b, p + 8, v);
        },
        FastModel::PlayerMoved(e, v, r, h) => {
            lemma_byte(b, pos, 3);
            lemma_u64(b, p, e);
            lemma_vec3(b, p + 8, v);
            lemma_quat(b, p + 32, r);
            lemma_quat(b, p + 64, h);
        },
        FastModel::EntitySetParameter(e, u) => {
            lemma_byte(b, pos, 4);
            lemma_u64(b, p, e);
            lemma_param(b, p + 8, u);
        },
        FastModel::PlayerMove(u, v, d, r, h, mi) => {
            let p1 = p + enc_text(u).len();
            lemma_byte(b, pos, 5);
            lemma_text(b, p, u);
            lemma_vec3(b, p1, v);
            lemma_vec3(b, p1 + 24, d);
            lemma_quat(b, p1 + 48, r);
            lemma_quat(b, p1 + 80, h);
            lemma_movement(b, p1 + 112, mi);
        },
        FastModel::PlayerJump(u) => {
            lemma_byte(b, pos, 6);
            lemma_text(b, p, u);
        },
        FastModel::PlayerFuckYouMoveHere(v) => {
            lemma_byte(b, pos, 7);
            lemma_vec3(b, p, v);
        },
        FastModel::PlayerCheckPosition(u, v) => {
            lemma_byte(b, pos, 8);
            lemma_text(b, p, u);
            lemma_vec3(b, p + enc_text(u).len(), v);
        },
        FastModel::PlayerFuckYouSetRotation(q) => {
            lemma_byte(b, pos, 9);
            lemma_quat(b, p, q);
        },
    }
}

pub fn write_fast(out: &mut Vec<u8>, pk: &FastPacket)
    ensures
        final(out)@ == old(out)@ + fast_bytes(pk@),
{
    match pk {
        FastPacket::ChangePosition(e, v) => {
            out.push(0u8);
            write_u64(out, *e);
            write_vec3(out, *v);
        },
        FastPacket::ChangeRotation(e, q) => {
            out.push(1u8);
            write_u64(out, *e);
            write_quat(out, *q);
        },
        FastPacket::ChangeScale(e, v) => {
            out.push(2u8);
            write_u64(out, *e);
            write_vec3(out, *v);
        },
        FastPacket::PlayerMoved(e, v, r, h) => {
            out.push(3u8);
            write_u64(out, *e);
            write_vec3(out, *v);
            write_quat(out, *r);
            write_quat(out, *h);
        },
        FastPacket::EntitySetParameter(e, u) => {
            out.push(4u8);
            write_u64(out, *e);
            write_param(out, *u);
        },
        FastPacket::PlayerMove(u, v, d, r, h, m) => {
            out.push(5u8);
            write_text(out, u);
            write_vec3(out, *v);
            write_vec3(out, *d);
            write_quat(out, *r);
            write_quat(out, *h);
            write_movement(out, *m);
        },
        FastPacket::PlayerJump(u) => {
            out.push(6u8);
            write_text(out, u);
        },
        FastPacket::PlayerFuckYouMoveHere(v) => {
            out.push(7u8);
            write_vec3(out, *v);
        },
        FastPacket::PlayerCheckPosition(u, v) => {
            out.push(8u8);
            write_text(out, u);
            write_vec3(out, *v);
        },
        FastPacket::PlayerFuckYouSetRotation(q) => {
            out.push(9u8);
            write_quat(out, *q);
        },
    }
    assert(final(out)@ =~= old(out)@ + fast_bytes(pk@));
}

pub fn read_fast(b: &[u8], pos: usize) -> (r: Option<(FastPacket, usize)>)
    ensures
        match parse_fast(b@, pos as int) {
            None => r is None,
            Some((m, q)) => r matches Some((w, q2)) && w@ == m && q2 == q,
        },
{
    let (t, p) = match read_byte(b, pos) { Some(x) => x, None => return None };
    if t == 0 || t == 2 {
        let (e, p1) = match read_u64(b, p) { Some(x) => x, None => return None };
        let (v, p2) = match read_vec3(b, p1) { Some(x) => x, None => return None };
        Some((if t == 0 { FastPacket::ChangePosition(e, v) } else { FastPacket::ChangeScale(e, v) }, p2))
    } else if t == 1 {
        let (e, p1) = match read_u64(b, p) { Some(x) => x, None => return None };
        let (q, p2) = match read_quat(b, p1) { Some(x) => x, None => return None };
        Some((FastPacket::ChangeRotation(e, q), p2))
    } else if t == 3 {
        let (e, p1) = match read_u64(b, p) { Some(x) => x, None => return None };
        let (v, p2) = match read_vec3(b, p1) { Some(x) => x, None => return None };
        let (r, p3) = match read_quat(b, p2) { Some(x) => x, None => return None };
        let (h, p4) = match read_quat(b, p3) { Some(x) => x, None => return None };
        Some((FastPacket::PlayerMoved(e, v, r, h), p4))
    } else if t == 4 {
        let (e, p1) = match read_u64(b, p) { Some(x) => x, None => return None };
        let (u, p2) = match read_param(b, p1) { Some(x) => x, None => return None };
        Some((FastPacket::EntitySetParameter(e, u), p2))
    } else if t == 5 {
        let (u, p1) = match read_text(b, p) { Some(x) => x, None => return None };
        let (v, p2) = match read_vec3(b, p1) { Some(x) => x, None => return None };
        let (d, p3) = match read_vec3(b, p2) { Some(x) => x, None => return None };
        let (r, p4) = match read_quat(b, p3) { Some(x) => x, None => return None };
        let (h, p5) = match read_quat(b, p4) { Some(x) => x, None => return None };
        let (m, p6) = match read_movement(b, p5) { Some(x) => x, None => return None };
        Some((FastPacket::PlayerMove(u, v, d, r, h, m), p6))
    } else if t == 6 {
        let (u, p1) = match read_text(b, p) { Some(x) => x, None => return None };
        Some((FastPacket::PlayerJump(u), p1))
    } else if t == 7 {
        let (v, p1) = match read_vec3(b, p) { Some(x) => x, None => return None };
        Some((FastPacket::PlayerFuckYouMoveHere(v), p1))
    } else if t == 8 {
        let (u, p1) = match read_text(b, p) { Some(x) => x, None => return None };
        let (v, p2) = match read_vec3(b, p1) { Some(x) => x, None => return None };
        Some((FastPacket::PlayerCheckPosition(u, v), p2))
    } else if t == 9 {
        let (q, p1) = match read_quat(b, p) { Some(x) => x, None => return None };
        Some((FastPacket::PlayerFuckYouSetRotation(q), p1))
    } else {
        None
    }
}


/// A buffer that holds exactly one fast packet, read.
pub open spec fn decode_fast_spec(b: Seq<u8>) -> Option<FastModel> {
    match parse_fast(b, 0) {
        Some((m, q)) => if q == b.len() {
            Some(m)
        } else {
            None
        },
        None => None,
    }
}

/// Decoding the encoding of a fast packet gives that packet back.
pub proof fn lemma_fast_round_trip(m: FastModel)
    requires
        fast_bytes(m).len() <= u64::MAX,
    ensures
        decode_fast_spec(fast_bytes(m)) == Some(m),
{
    let b = fast_bytes(m);
    assert(b.subrange(0, b.len() as int) =~= b);
    lemma_fast(b, 0, m);
}

pub fn encode_fast(pk: &FastPacket) -> (r: Vec<u8>)
    ensures
        r@ == fast_bytes(pk@),
{
    let mut out: Vec<u8> = Vec::new();
    write_fast(&mut out, pk);
    assert(out@ =~= fast_bytes(pk@));
    out
}

pub fn decode_fast(b: &[u8]) -> (r: Option<FastPacket>)
    ensures
        match decode_fast_spec(b@) {
            None => r is None,
            Some(m) => r matches Some(p) && p@ == m,
        },
        forall|p: FastPacket| #[trigger] fast_bytes(p@) == b@ ==> (r matches Some(q) && q@ == p@),
{
    let len = b.len();
    proof {
        assert forall|p: FastPacket| #[trigger] fast_bytes(p@) == b@ implies decode_fast_spec(b@)
            == Some(p@) by {
            lemma_fast_round_trip(p@);
        }
    }
    match read_fast(b, 0) {
        Some((p, q)) => if q == len {
            Some(p)
        } else {
            None
        },
        None => None,
    }
}

// ---- steady packets ----

pub open spec fn reason_byte(r: NameRejectionReason) -> u8 {
    match r {
        NameRejectionReason::IllegalWord => 0,
        NameRejectionReason::Taken => 1,
    }
}

pub open spec fn steady_bytes(m: SteadyModel) -> Seq<u8> {
    match m {
        SteadyModel::InitialiseEntity(id, e) => seq![0u8] + enc_u64(id) + entity_bytes(e),
        SteadyModel::RemoveEntity(id) => seq![1u8] + enc_u64(id),
        SteadyModel::FinaliseMapLoad => seq![2u8],
        SteadyModel::InitialisePlayer(u, id, n, p, r, s) => seq![3u8] + enc_text(u) + enc_u64(id)
            + enc_text(n) + enc_vec3(p) + enc_quat(r) + enc_vec3(s),
        SteadyModel::Message(t) => seq![4u8] + enc_text(t),
        SteadyModel::ChatMessage(u, t) => seq![5u8] + enc_text(u) + enc_text(t),
        SteadyModel::SetName(u, t) => seq![6u8] + enc_text(u) + enc_text(t),
        SteadyModel::NameRejected(r) => seq![7u8, reason_byte(r)],
        SteadyModel::Respawn(p) => seq![8u8] + enc_vec3(p),
        SteadyModel::ThrowThrowAballll(u, p, v) => seq![9u8] + enc_text(u) + enc_vec3(p)
            + enc_vec3(v),
        SteadyModel::Ping => seq![10u8],
    }
}

/// The steady packets whose tag is below 5.
pub open spec fn parse_steady_low(b: Seq<u8>, t: u8, p: int) -> Option<(SteadyModel, int)> {
    if t == 0 {
        match parse_u64(b, p) {
            None => None,
            Some((id, p1)) => match parse_entity(b, p1) {
                None => None,
                Some((e, p2)) => Some((SteadyModel::InitialiseEntity(id, e), p2)),
            },
        }
    } else if t == 1 {
        match parse_u64(b, p) {
            None => None,
            Some((id, p1)) => Some((SteadyModel::RemoveEntity(id), p1)),
        }
    } else if t == 2 {
        Some((SteadyModel::FinaliseMapLoad, p))
    } else if t == 3 {
        match parse_text(b, p) {
            None => None,
            Some((u, p1)) => match parse_u64(b, p1) {
                None => None,
                Some((id, p2)) => match parse_text(b, p2) {
                    None => None,
                    Some((n, p3)) => match parse_vec3(b, p3) {
                        None => None,
                        Some((pos, p4)) => match parse_quat(b, p4) {
                            None => None,
                            Some((r, p5)) => match parse_vec3(b, p5) {
                                None => None,
                                Some((s, p6)) => Some(
                                    (SteadyModel::InitialisePlayer(u, id, n, pos, r, s), p6),
                                ),
                            },
                        },
                    },
                },
            },
        }
    } else {
        match parse_text(b, p) {
            None => None,
            Some((t, p1)) => Some((SteadyModel::Message(t), p1)),
        }
    }
}

/// The steady packets whose tag is 5 or more.
pub open spec fn parse_steady_high(b: Seq<u8>, t: u8, p: int) -> Option<(SteadyModel, int)> {
    if t == 5 || t == 6 {
        match parse_text(b, p) {
            None => None,
            Some((u, p1)) => match parse_text(b, p1) {
                None => None,
                Some((x, p2)) => Some(
                    (
                        if t == 5 {
                            SteadyModel::ChatMessage(u, x)
                        } else {
                            SteadyModel::SetName(u, x)
                        },
                        p2,
                    ),
                ),
            },
        }
    } else if t == 7 {
        match parse_byte(b, p) {
            None => None,
            Some((r, p1)) => if r == 0 {
                Some((SteadyModel::NameRejected(NameRejectionReason::IllegalWord), p1))
            } else if r == 1 {
                Some((SteadyModel::NameRejected(NameRejectionReason::Taken), p1))
            } else {
                None
            },
        }
    } else if t == 8 {
        match parse_vec3(b, p) {
            None => None,
            Some((v, p1)) => Some((SteadyModel::Respawn(v), p1)),
        }
    } else if t == 9 {
        match parse_text(b, p) {
            None => None,
            Some((u, p1)) => match parse_vec3(b, p1) {
                None => None,
                Some((v, p2)) => match parse_vec3(b, p2) {
                    None => None,
                    Some((w, p3)) => Some((SteadyModel::ThrowThrowAballll(u, v, w), p3)),
                },
            },
        }
    } else if t == 10 {
        Some((SteadyModel::Ping, p))
    } else {
        None
    }
}

pub open spec fn parse_steady(b: Seq<u8>, pos: int) -> Option<(SteadyModel, int)> {
    match parse_byte(b, pos) {
        None => None,
        Some((t, p)) => if t < 5 {
            parse_steady_low(b, t, p)
        } else {
            parse_steady_high(b, t, p)
        },
    }
}

spec fn is_low_steady(m: SteadyModel) -> bool {
    m is InitialiseEntity || m is RemoveEntity || m is FinaliseMapLoad || m is InitialisePlayer
        || m is Message
}

#[verifier::spinoff_prover]
#[verifier::rlimit(60)]
proof fn lemma_steady_low(b: Seq<u8>, pos: int, m: SteadyModel)
    requires
        at(b, pos, steady_bytes(m)),
        b.len() <= u64::MAX,
        is_low_steady(m),
    ensures
        parse_steady(b, pos) == Some((m, pos + steady_bytes(m).len())),
{
    let p = pos + 1;
    match m {
        SteadyModel::InitialiseEntity(id, e) => {
            lemma_byte(b, pos, 0);
            lemma_u64(b, p, id);
            lemma_entity(b, p + 8, e);
        },
        SteadyModel::RemoveEntity(id) => {
            lemma_byte(b, pos, 1);
            lemma_u64(b, p, id);
        },
        SteadyModel::FinaliseMapLoad => {
            lemma_byte(b, pos, 2);
        },
        SteadyModel::InitialisePlayer(u, id, n, v, r, s) => {
            let p1 = p + enc_text(u).len();
            let p3 = p1 + 8 + enc_text(n).len();
            lemma_byte(b, pos, 3);
            lemma_text(b, p, u);
            lemma_u64(b, p1, id);
            lemma_text(b, p1 + 8, n);
            lemma_vec3(b, p3, v);
            lemma_quat(b, p3 + 24, r);
            lemma_vec3(b, p3 + 56, s);
        },
        SteadyModel::Message(t) => {
            lemma_byte(b, pos, 4);
            lemma_text(b, p, t);
        },
        _ => {},
    }
}

#[verifier::spinoff_prover]
#[verifier::rlimit(60)]
proof fn lemma_steady_high(b: Seq<u8>, pos: int, m: SteadyModel)
    requires
        at(b, pos, steady_bytes(m)),
        b.len() <= u64::MAX,
        !is_low_steady(m),
    ensures
        parse_steady(b, pos) == Some((m, pos + steady_bytes(m).len())),
{
    let p = pos + 1;
    match m {
        SteadyModel::ChatMessage(u, t) => {
            lemma_byte(b, pos, 5);
            lemma_text(b, p, u);
            lemma_text(b, p + enc_text(u).len(), t);
        },
        SteadyModel::SetName(u, t) => {
            lemma_byte(b, pos, 6);
            lemma_text(b, p, u);
            lemma_text(b, p + enc_text(u).len(), t);
        },
        SteadyModel::NameRejected(r) => {
            assert(seq![7u8, reason_byte(r)] =~= seq![7u8] + seq![reason_byte(r)]);
            lemma_byte(b, pos, 7);
            lemma_byte(b, p, reason_byte(r));
        },
        SteadyModel::Respawn(v) => {
            lemma_byte(b, pos, 8);
            lemma_vec3(b, p, v);
        },
        SteadyModel::ThrowThrowAballll(u, v, w) => {
            let p1 = p + enc_text(u).len();
            lemma_byte(b, pos, 9);
            lemma_text(b, p, u);
            lemma_vec3(b, p1, v);
            lemma_vec3(b, p1 + 24, w);
        },
        SteadyModel::Ping => {
            lemma_byte(b, pos, 10);
        },
        _ => {},
    }
}

pub proof fn lemma_steady(b: Seq<u8>, pos: int, m: SteadyModel)
    requires
        at(b, pos, steady_bytes(m)),
        b.len() <= u64::MAX,
    ensures
        parse_steady(b, pos) == Some((m, pos + steady_bytes(m).len())),
{
    if is_low_steady(m) {
        lemma_steady_low(b, pos, m);
    } else {
        lemma_steady_high(b, pos, m);
    }
}

pub fn write_steady(out: &mut Vec<u8>, pk: &SteadyPacket)
    ensures
        final(out)@ == old(out)@ + steady_bytes(pk@),
{
    match pk {
        SteadyPacket::InitialiseEntity(id, e) => {
            out.push(0u8);
            write_u64(out, *id);
            write_entity(out, e);
        },
        SteadyPacket::RemoveEntity(id) => {
            out.push(1u8);
            write_u64(out, *id);
        },
        SteadyPacket::FinaliseMapLoad => {
            out.push(2u8);
        },
        SteadyPacket::InitialisePlayer(u, id, n, v, r, s) => {
            out.push(3u8);
            write_text(out, u);
            write_u64(out, *id);
            write_text(out, n);
            write_vec3(out, *v);
            write_quat(out, *r);
            write_vec3(out, *s);
        },
        SteadyPacket::Message(t) => {
            out.push(4u8);
            write_text(out, t);
        },
        SteadyPacket::ChatMessage(u, t) => {
            out.push(5u8);
            write_text(out, u);
            write_text(out, t);
        },
        SteadyPacket::SetName(u, t) => {
            out.push(6u8);
            write_text(out, u);
            write_text(out, t);
        },
        SteadyPacket::NameRejected(r) => {
            out.push(7u8);
            out.push(
                match r {
                    NameRejectionReason::IllegalWord => 0u8,
                    NameRejectionReason::Taken => 1u8,
                },
            );
        },
        SteadyPacket::Respawn(v) => {
            out.push(8u8);
            write_vec3(out, *v);
        },
        SteadyPacket::ThrowThrowAballll(u, v, w) => {
            out.push(9u8);
            write_text(out, u);
            write_vec3(out, *v);
            write_vec3(out, *w);
        },
        SteadyPacket::Ping => {
            out.push(10u8);
        },
    }
    assert(final(out)@ =~= old(out)@ + steady_bytes(pk@));
}

pub fn read_steady(b: &[u8], pos: usize) -> (r: Option<(SteadyPacket, usize)>)
    ensures
        match parse_steady(b@, pos as int) {
            None => r is None,
            Some((m, q)) => r matches Some((w, q2)) && w@ == m && q2 == q,
        },
{
    let (t, p) = match read_byte(b, pos) { Some(x) => x, None => return None };
    if t == 0 {
        let (id, p1) = match read_u64(b, p) { Some(x) => x, None => return None };
        let (e, p2) = match read_entity(b, p1) { Some(x) => x, None => return None };
        Some((SteadyPacket::InitialiseEntity(id, e), p2))
    } else if t == 1 {
        let (id, p1) = match read_u64(b, p) { Some(x) => x, None => return None };
        Some((SteadyPacket::RemoveEntity(id), p1))
    } else if t == 2 {
        Some((SteadyPacket::FinaliseMapLoad, p))
    } else if t == 3 {
        let (u, p1) = match read_text(b, p) { Some(x) => x, None => return None };
        let (id, p2) = match read_u64(b, p1) { Some(x) => x, None => return None };
        let (n, p3) = match read_text(b, p2) { Some(x) => x, None => return None };
        let (v, p4) = match read_vec3(b, p3) { Some(x) => x, None => return None };
        let (r, p5) = match read_quat(b, p4) { Some(x) => x, None => return None };
        let (s, p6) = match read_vec3(b, p5) { Some(x) => x, None => return None };
        Some((SteadyPacket::InitialisePlayer(u, id, n, v, r, s), p6))
    } else if t == 4 {
        let (x, p1) = match read_text(b, p) { Some(x) => x, None => return None };
        Some((SteadyPacket::Message(x), p1))
    } else if t == 5 || t == 6 {
        let (u, p1) = match read_text(b, p) { Some(x) => x, None => return None };
        let (x, p2) = match read_text(b, p1) { Some(x) => x, None => return None };
        Some((if t == 5 { SteadyPacket::ChatMessage(u, x) } else { SteadyPacket::SetName(u, x) }, p2))
    } else if t == 7 {
        let (r, p1) = match read_byte(b, p) { Some(x) => x, None => return None };
        if r == 0 {
            Some((SteadyPacket::NameRejected(NameRejectionReason::IllegalWord), p1))
        } else if r == 1 {
            Some((SteadyPacket::NameRejected(NameRejectionReason::Taken), p1))
        } else {
            None
        }
    } else if t == 8 {
        let (v, p1) = match read_vec3(b, p) { Some(x) => x, None => return None };
        Some((SteadyPacket::Respawn(v), p1))
    } else if t == 9 {
        let (u, p1) = match read_text(b, p) { Some(x) => x, None => return None };
        let (v, p2) = match read_vec3(b, p1) { Some(x) => x, None => return None };
        let (w, p3) = match read_vec3(b, p2) { Some(x) => x, None => return None };
        Some((SteadyPacket::ThrowThrowAballll(u, v, w), p3))
    } else if t == 10 {
        Some((SteadyPacket::Ping, p))
    } else {
        None
    }
}

// ---- steady messages as they travel ----

/// The version byte that starts every steady message.
pub const PROTOCOL_VERSION: u8 = 1;

pub open spec fn steady_data_bytes(d: SteadyDataModel) -> Seq<u8> {
    seq![PROTOCOL_VERSION] + enc_text(d.uuid) + steady_bytes(d.packet)
}

/// A buffer that holds exactly one steady message of this version, read.
pub open spec fn decode_steady_spec(b: Seq<u8>) -> Option<SteadyDataModel> {
    match parse_byte(b, 0) {
        None => None,
        Some((v, p)) => if v != PROTOCOL_VERSION {
            None
        } else {
            match parse_text(b, p) {
                None => None,
                Some((uuid, p1)) => match parse_steady(b, p1) {
                    None => None,
                    Some((packet, p2)) => if p2 == b.len() {
                        Some(SteadyDataModel { packet, uuid })
                    } else {
                        None
                    },
                },
            }
        },
    }
}

/// Decoding the encoding of a steady message gives that message back.
pub proof fn lemma_steady_round_trip(d: SteadyDataModel)
    requires
        steady_data_bytes(d).len() <= u64::MAX,
    ensures
        decode_steady_spec(steady_data_bytes(d)) == Some(d),
{
    let b = steady_data_bytes(d);
    assert(b.subrange(0, b.len() as int) =~= b);
    assert(at(b, 0, seq![PROTOCOL_VERSION] + enc_text(d.uuid) + steady_bytes(d.packet)));
    lemma_byte(b, 0, PROTOCOL_VERSION);
    lemma_text(b, 1, d.uuid);
    lemma_steady(b, 1 + enc_text(d.uuid).len() as int, d.packet);
}

pub fn encode_steady(d: &SteadyPacketData) -> (r: Vec<u8>)
    ensures
        r@ == steady_data_bytes(d@),
{
    let mut out: Vec<u8> = Vec::new();
    out.push(PROTOCOL_VERSION);
    write_text(&mut out, &d.uuid);
    write_steady(&mut out, &d.packet);
    assert(out@ =~= steady_data_bytes(d@));
    out
}

pub fn decode_steady(b: &[u8]) -> (r: Option<SteadyPacketData>)
    ensures
        match decode_steady_spec(b@) {
            None => r is None,
            Some(m) => r matches Some(d) && d@ == m,
        },
        forall|d: SteadyPacketData| #[trigger] steady_data_bytes(d@) == b@ ==> (r matches Some(e)
            && e@ == d@),
{
    let len = b.len();
    proof {
        assert forall|d: SteadyPacketData| #[trigger] steady_data_bytes(d@) == b@ implies decode_steady_spec(
            b@,
        ) == Some(d@) by {
            lemma_steady_round_trip(d@);
        }
    }
    let (v, p) = match read_byte(b, 0) { Some(x) => x, None => return None };
    if v != PROTOCOL_VERSION {
        return None;
    }
    let (uuid, p1) = match read_text(b, p) { Some(x) => x, None => return None };
    let (packet, p2) = match read_steady(b, p1) { Some(x) => x, None => return None };
    if p2 == len {
        Some(SteadyPacketData { packet, uuid })
    } else {
        None
    }
}

// ---- world updates ----

pub open spec fn update_bytes(m: UpdateModel) -> Seq<u8> {
    match m {
        UpdateModel::InitEntity(id, e) => seq![0u8] + enc_u64(id) + entity_bytes(e),
        UpdateModel::SetPosition(id, v) => seq![1u8] + enc_u64(id) + enc_vec3(v),
        UpdateModel::SetRotation(id, q) => seq![2u8] + enc_u64(id) + enc_quat(q),
        UpdateModel::SetScale(id, v) => seq![3u8] + enc_u64(id) + enc_vec3(v),
        UpdateModel::MovePlayerEntity(id, v, r, h) => seq![4u8] + enc_u64(id) + enc_vec3(v)
            + enc_quat(r) + enc_quat(h),
        UpdateModel::EntityNoLongerExists(id) => seq![5u8] + enc_u64(id),
    }
}

pub open spec fn parse_update_body(b: Seq<u8>, t: u8, id: u64, p: int) -> Option<(UpdateModel, int)> {
    if t == 0 {
        match parse_entity(b, p) {
            None => None,
            Some((e, p1)) => Some((UpdateModel::InitEntity(id, e), p1)),
        }
    } else if t == 1 || t == 3 {
        match parse_vec3(b, p) {
            None => None,
            Some((v, p1)) => Some(
                (
                    if t == 1 {
                        UpdateModel::SetPosition(id, v)
                    } else {
                        UpdateModel::SetScale(id, v)
                    },
                    p1,
                ),
            ),
        }
    } else if t == 2 {
        match parse_quat(b, p) {
            None => None,
            Some((q, p1)) => Some((UpdateModel::SetRotation(id, q), p1)),
        }
    } else if t == 4 {
        match parse_vec3(b, p) {
            None => None,
            Some((v, p1)) => match parse_quat(b, p1) {
                None => None,
                Some((r, p2)) => match parse_quat(b, p2) {
                    None => None,
                    Some((h, p3)) => Some((UpdateModel::MovePlayerEntity(id, v, r, h), p3)),
                },
            },
        }
    } else if t == 5 {
        Some((UpdateModel::EntityNoLongerExists(id), p))
    } else {
        None
    }
}

/// Every world update starts with its tag and the entity it is about.
pub open spec fn parse_update(b: Seq<u8>, pos: int) -> Option<(UpdateModel, int)> {
    match parse_byte(b, pos) {
        None => None,
        Some((t, p)) => match parse_u64(b, p) {
            None => None,
            Some((id, p1)) => parse_update_body(b, t, id, p1),
        },
    }
}

#[verifier::spinoff_prover]
#[verifier::rlimit(60)]
pub proof fn lemma_update(b: Seq<u8>, pos: int, m: UpdateModel)
    requires
        at(b, pos, update_bytes(m)),
        b.len() <= u64::MAX,
    ensures
        parse_update(b, pos) == Some((m, pos + update_bytes(m).len())),
{
    let p = pos + 9;
    match m {
        UpdateModel::InitEntity(id, e) => {
            lemma_byte(b, pos, 0);
            lemma_u64(b, pos + 1, id);
            lemma_entity(b, p, e);
        },
        UpdateModel::SetPosition(id, v) => {
            lemma_byte(b, pos, 1);
            lemma_u64(b, pos + 1, id);
            lemma_vec3(b, p, v);
        },
        UpdateModel::SetRotation(id, q) => {
            lemma_byte(b, pos, 2);
            lemma_u64(b, pos + 1, id);
            lemma_quat(b, p, q);
        },
        UpdateModel::SetScale(id, v) => {
            lemma_byte(b, pos, 3);
            lemma_u64(b, pos + 1, id);
            lemma_vec3(b, p, v);
        },
        UpdateModel::MovePlayerEntity(id, v, r, h) => {
            lemma_byte(b, pos, 4);
            lemma_u64(b, pos + 1, id);
            lemma_vec3(b, p, v);
            lemma_quat(b, p + 24, r);
            lemma_quat(b, p + 56, h);
        },
        UpdateModel::EntityNoLongerExists(id) => {
            lemma_byte(b, pos, 5);
            lemma_u64(b, pos + 1, id);
        },
    }
}

/// A buffer that holds exactly one world update, read.
pub open spec fn decode_update_spec(b: Seq<u8>) -> Option<UpdateModel> {
    match parse_update(b, 0) {
        Some((m, q)) => if q == b.len() {
            Some(m)
        } else {
            None
        },
        None => None,
    }
}

/// Decoding the encoding of a world update gives that update back.
pub proof fn lemma_update_round_trip(m: UpdateModel)
    requires
        update_bytes(m).len() <= u64::MAX,
    ensures
        decode_update_spec(update_bytes(m)) == Some(m),
{
    let b = update_bytes(m);
    assert(b.subrange(0, b.len() as int) =~= b);
    lemma_update(b, 0, m);
}

pub fn encode_update(u: &WorldUpdate) -> (r: Vec<u8>)
    ensures
        r@ == update_bytes(u@),
{
    let mut out: Vec<u8> = Vec::new();
    match u {
        WorldUpdate::InitEntity(id, e) => {
            out.push(0u8);
            write_u64(&mut out, *id);
            write_entity(&mut out, e);
        },
        WorldUpdate::SetPosition(id, v) => {
            out.push(1u8);
            write_u64(&mut out, *id);
            write_vec3(&mut out, *v);
        },
        WorldUpdate::SetRotation(id, q) => {
            out.push(2u8);
            write_u64(&mut out, *id);
            write_quat(&mut out, *q);
        },
        WorldUpdate::SetScale(id, v) => {
            out.push(3u8);
            write_u64(&mut out, *id);
            write_vec3(&mut out, *v);
        },
        WorldUpdate::MovePlayerEntity(id, v, r, h) => {
            out.push(4u8);
            write_u64(&mut out, *id);
            write_vec3(&mut out, *v);
            write_quat(&mut out, *r);
            write_quat(&mut out, *h);
        },
        WorldUpdate::EntityNoLongerExists(id) => {
            out.push(5u8);
            write_u64(&mut out, *id);
        },
    }
    assert(out@ =~= update_bytes(u@));
    out
}

pub fn decode_update(b: &[u8]) -> (r: Option<WorldUpdate>)
    ensures
        match decode_update_spec(b@) {
            None => r is None,
            Some(m) => r matches Some(u) && u@ == m,
        },
        forall|u: WorldUpdate| #[trigger] update_bytes(u@) == b@ ==> (r matches Some(w) && w@ == u@),
{
    let len = b.len();
    proof {
        assert forall|u: WorldUpdate| #[trigger] update_bytes(u@) == b@ implies decode_update_spec(b@)
            == Some(u@) by {
            lemma_update_round_trip(u@);
        }
    }
    let (t, p) = match read_byte(b, 0) { Some(x) => x, None => return None };
    let (id, p1) = match read_u64(b, p) { Some(x) => x, None => return None };
    let r = if t == 0 {
        match read_entity(b, p1) {
            Some((e, q)) => Some((WorldUpdate::InitEntity(id, e), q)),
            None => None,
        }
    } else if t == 1 || t == 3 {
        match read_vec3(b, p1) {
            Some((v, q)) => Some((if t == 1 { WorldUpdate::SetPosition(id, v) } else { WorldUpdate::SetScale(id, v) }, q)),
            None => None,
        }
    } else if t == 2 {
        match read_quat(b, p1) {
            Some((v, q)) => Some((WorldUpdate::SetRotation(id, v), q)),
            None => None,
        }
    } else if t == 4 {
        let (v, p2) = match read_vec3(b, p1) { Some(x) => x, None => return None };
        let (r, p3) = match read_quat(b, p2) { Some(x) => x, None => return None };
        let (h, p4) = match read_quat(b, p3) { Some(x) => x, None => return None };
        Some((WorldUpdate::MovePlayerEntity(id, v, r, h), p4))
    } else if t == 5 {
        Some((WorldUpdate::EntityNoLongerExists(id), p1))
    } else {
        None
    };
    match r {
        Some((u, q)) => if q == len {
            Some(u)
        } else {
            None
        },
        None => None,
    }
}

// ---- the fast channel's receiving end ----

/// Takes one datagram off the fast channel. A datagram that is cut short,
/// padded, undecodable, or older than one already taken is dropped, and then
/// leaves the filter as it was.
pub fn receive_fast(filter: &mut FastOrderFilter, d: &[u8]) -> (r: Option<FastPacket>)
    ensures
        match open_datagram_spec(d@) {
            None => r is None && final(filter).newest == old(filter).newest,
            Some((s, p)) => match decode_fast_spec(p) {
                None => r is None && final(filter).newest == old(filter).newest,
                Some(m) => if old(filter).newest matches Some(n) && s <= n {
                    r is None && final(filter).newest == old(filter).newest
                } else {
                    r matches Some(pk) && pk@ == m && final(filter).newest == Some(s)
                },
            },
        },
{
    let (s, payload) = match open_datagram(d) {
        Some(x) => x,
        None => return None,
    };
    let packet = match decode_fast(payload.as_slice()) {
        Some(p) => p,
        None => return None,
    };
    if filter.accept(s) {
        Some(packet)
    } else {
        None
    }
}

/// What the steady channel's receiving end produced.
pub enum SteadyReceive {
    /// No complete frame yet.
    Nothing,
    Message(SteadyPacketData),
    /// A complete frame that is not a steady message: fatal for the
    /// connection.
    Malformed,
}

/// Takes the next steady message off a stream, if a whole one arrived.
pub fn receive_steady(rx: &mut StreamReceiver) -> (r: SteadyReceive)
    ensures
        match pop_frame_spec(old(rx)@) {
            None => r is Nothing && final(rx)@ == old(rx)@,
            Some((p, rest)) => final(rx)@ == rest && match decode_steady_spec(p) {
                None => r is Malformed,
                Some(m) => r matches SteadyReceive::Message(d) && d@ == m,
            },
        },
{
    match rx.next_frame() {
        None => SteadyReceive::Nothing,
        Some(frame) => match decode_steady(frame.as_slice()) {
            Some(d) => SteadyReceive::Message(d),
            None => SteadyReceive::Malformed,
        },
    }
}

} // verus!
