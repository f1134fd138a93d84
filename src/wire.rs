//! Primitive pieces of the wire format: fixed-width integers, booleans,
//! length-prefixed UTF-8 text and the fixed-point vectors.
//!
//! Every piece has three parts: `enc_*`, the bytes a value is written as;
//! `parse_*`, what a reader takes from a buffer at a position (the value and
//! the position after it); and `write_*` / `read_*`, the executable code,
//! proved to produce exactly `enc_*` and to read exactly `parse_*`.
use vstd::prelude::*;
use vstd::bytes::{lemma_auto_spec_u64_to_from_le_bytes, spec_u64_from_le_bytes, u64_from_le_bytes, u64_to_le_bytes};
use vstd::utf8::{decode_utf8, encode_utf8, valid_utf8};
use crate::geometry::{Quat, Vec3};
use crate::prefix::{at, enc_u64, lemma_at_concat, lemma_u64_len};

verus! {

broadcast use vstd::utf8::group_utf8_lib, lemma_at_concat, lemma_u64_len;

// ---- integers ----

pub open spec fn parse_u64(b: Seq<u8>, pos: int) -> Option<(u64, int)> {
    if 0 <= pos && pos + 8 <= b.len() {
        Some((spec_u64_from_le_bytes(b.subrange(pos, pos + 8)), pos + 8))
    } else {
        None
    }
}

pub proof fn lemma_u64(b: Seq<u8>, pos: int, x: u64)
    requires
        at(b, pos, enc_u64(x)),
    ensures
        enc_u64(x).len() == 8,
        parse_u64(b, pos) == Some((x, pos + 8)),
{
    lemma_auto_spec_u64_to_from_le_bytes();
}

pub fn write_u64(out: &mut Vec<u8>, x: u64)
    ensures
        final(out)@ == old(out)@ + enc_u64(x),
{
    let mut bytes = u64_to_le_bytes(x);
    out.append(&mut bytes);
}

pub fn read_u64(b: &[u8], pos: usize) -> (r: Option<(u64, usize)>)
    ensures
        match parse_u64(b@, pos as int) {
            None => r is None,
            Some((x, q)) => r matches Some((w, q2)) && w == x && q2 == q,
        },
{
    if pos > b.len() || b.len() - pos < 8 {
        return None;
    }
    let mut w: Vec<u8> = Vec::new();
    let mut i: usize = 0;
    while i < 8
        invariant
            pos + 8 <= b@.len(),
            b@.len() <= usize::MAX,
            i <= 8,
            w@ =~= b@.subrange(pos as int, pos + i),
        decreases 8 - i,
    {
        w.push(b[pos + i]);
        i = i + 1;
    }
    let x = u64_from_le_bytes(w.as_slice());
    Some((x, pos + 8))
}

pub open spec fn enc_i64(x: i64) -> Seq<u8> {
    enc_u64(#[verifier::truncate] (x as u64))
}

pub open spec fn parse_i64(b: Seq<u8>, pos: int) -> Option<(i64, int)> {
    match parse_u64(b, pos) {
        Some((u, q)) => Some((#[verifier::truncate] (u as i64), q)),
        None => None,
    }
}

pub proof fn lemma_i64(b: Seq<u8>, pos: int, x: i64)
    requires
        at(b, pos, enc_i64(x)),
    ensures
        enc_i64(x).len() == 8,
        parse_i64(b, pos) == Some((x, pos + 8)),
{
    let u = #[verifier::truncate] (x as u64);
    lemma_u64(b, pos, u);
    assert((#[verifier::truncate] (u as i64)) == x) by (bit_vector)
        requires
            u == #[verifier::truncate] (x as u64),
    ;
}

pub fn write_i64(out: &mut Vec<u8>, x: i64)
    ensures
        final(out)@ == old(out)@ + enc_i64(x),
{
    write_u64(out, x as u64);
}

pub fn read_i64(b: &[u8], pos: usize) -> (r: Option<(i64, usize)>)
    ensures
        match parse_i64(b@, pos as int) {
            None => r is None,
            Some((x, q)) => r matches Some((w, q2)) && w == x && q2 == q,
        },
{
    match read_u64(b, pos) {
        Some((u, q)) => Some((#[verifier::truncate] (u as i64), q)),
        None => None,
    }
}

// ---- booleans and tags ----

pub open spec fn enc_bool(v: bool) -> Seq<u8> {
    seq![if v { 1u8 } else { 0u8 }]
}

pub open spec fn parse_bool(b: Seq<u8>, pos: int) -> Option<(bool, int)> {
    if 0 <= pos < b.len() && b[pos] <= 1 {
        Some((b[pos] == 1, pos + 1))
    } else {
        None
    }
}

pub proof fn lemma_bool(b: Seq<u8>, pos: int, v: bool)
    requires
        at(b, pos, enc_bool(v)),
    ensures
        parse_bool(b, pos) == Some((v, pos + 1)),
{
    assert(b[pos] == b.subrange(pos, pos + 1)[0]);
}

pub fn write_bool(out: &mut Vec<u8>, v: bool)
    ensures
        final(out)@ == old(out)@ + enc_bool(v),
{
    out.push(if v { 1u8 } else { 0u8 });
}

pub fn read_bool(b: &[u8], pos: usize) -> (r: Option<(bool, usize)>)
    ensures
        match parse_bool(b@, pos as int) {
            None => r is None,
            Some((v, q)) => r matches Some((w, q2)) && w == v && q2 == q,
        },
{
    if pos < b.len() && b[pos] <= 1 {
        Some((b[pos] == 1, pos + 1))
    } else {
        None
    }
}

/// One byte; used for the variant tags of the tagged unions.
pub open spec fn parse_byte(b: Seq<u8>, pos: int) -> Option<(u8, int)> {
    if 0 <= pos < b.len() {
        Some((b[pos], pos + 1))
    } else {
        None
    }
}

pub proof fn lemma_byte(b: Seq<u8>, pos: int, t: u8)
    requires
        at(b, pos, seq![t]),
    ensures
        parse_byte(b, pos) == Some((t, pos + 1)),
{
    assert(b[pos] == b.subrange(pos, pos + 1)[0]);
}

pub fn read_byte(b: &[u8], pos: usize) -> (r: Option<(u8, usize)>)
    ensures
        match parse_byte(b@, pos as int) {
            None => r is None,
            Some((t, q)) => r matches Some((w, q2)) && w == t && q2 == q,
        },
{
    if pos < b.len() {
        Some((b[pos], pos + 1))
    } else {
        None
    }
}

// ---- text ----

/// Text: its UTF-8 byte length, then the bytes.
pub open spec fn enc_text(s: Seq<char>) -> Seq<u8> {
    enc_u64(encode_utf8(s).len() as u64) + encode_utf8(s)
}

pub open spec fn parse_text(b: Seq<u8>, pos: int) -> Option<(Seq<char>, int)> {
    match parse_u64(b, pos) {
        None => None,
        Some((n, q)) => {
            let body = b.subrange(q, q + n);
            if q + n <= b.len() && valid_utf8(body) {
                Some((decode_utf8(body), q + n))
            } else {
                None
            }
        },
    }
}

pub proof fn lemma_text(b: Seq<u8>, pos: int, s: Seq<char>)
    requires
        at(b, pos, enc_text(s)),
        b.len() <= u64::MAX,
    ensures
        parse_text(b, pos) == Some((s, pos + enc_text(s).len())),
{
    lemma_at_concat(b, pos, enc_u64(encode_utf8(s).len() as u64), encode_utf8(s));
    lemma_u64(b, pos, encode_utf8(s).len() as u64);
}

/// Relies on String::from_utf8: it succeeds exactly on well-formed UTF-8,
/// and the string then holds the characters those bytes encode.
#[verifier::external_body]
fn text_from_utf8(bytes: Vec<u8>) -> (r: Option<String>)
    ensures
        r is Some <==> valid_utf8(bytes@),
        r matches Some(s) ==> s@ == decode_utf8(bytes@),
{
    String::from_utf8(bytes).ok()
}

pub fn write_text(out: &mut Vec<u8>, s: &String)
    ensures
        final(out)@ == old(out)@ + enc_text(s@),
{
    let bytes = s.as_str().as_bytes();
    proof {
        assert(bytes@ == encode_utf8(s@));
    }
    write_u64(out, bytes.len() as u64);
    let ghost mid = out@;
    let mut i: usize = 0;
    while i < bytes.len()
        invariant
            i <= bytes@.len(),
            out@ =~= mid + bytes@.subrange(0, i as int),
        decreases bytes@.len() - i,
    {
        out.push(bytes[i]);
        i = i + 1;
    }
    proof {
        assert(bytes@.subrange(0, bytes@.len() as int) =~= bytes@);
        assert(out@ =~= old(out)@ + enc_text(s@));
    }
}

pub fn read_text(b: &[u8], pos: usize) -> (r: Option<(String, usize)>)
    ensures
        match parse_text(b@, pos as int) {
            None => r is None,
            Some((s, q)) => r matches Some((t, q2)) && t@ == s && q2 == q,
        },
{
    let (n, q) = match read_u64(b, pos) {
        Some(x) => x,
        None => return None,
    };
    if q > b.len() || ((b.len() - q) as u64) < n {
        return None;
    }
    let end = q + n as usize;
    let mut body: Vec<u8> = Vec::new();
    let mut i: usize = q;
    while i < end
        invariant
            q <= i <= end,
            end <= b@.len(),
            body@ =~= b@.subrange(q as int, i as int),
        decreases end - i,
    {
        body.push(b[i]);
        i = i + 1;
    }
    match text_from_utf8(body) {
        Some(s) => Some((s, end)),
        None => None,
    }
}

// ---- fixed-point vectors ----

pub open spec fn enc_vec3(v: Vec3) -> Seq<u8> {
    enc_i64(v.x) + enc_i64(v.y) + enc_i64(v.z)
}

pub open spec fn parse_vec3(b: Seq<u8>, pos: int) -> Option<(Vec3, int)> {
    match (parse_i64(b, pos), parse_i64(b, pos + 8), parse_i64(b, pos + 16)) {
        (Some((x, _)), Some((y, _)), Some((z, _))) => Some((Vec3 { x, y, z }, pos + 24)),
        _ => None,
    }
}

pub proof fn lemma_vec3(b: Seq<u8>, pos: int, v: Vec3)
    requires
        at(b, pos, enc_vec3(v)),
    ensures
        enc_vec3(v).len() == 24,
        parse_vec3(b, pos) == Some((v, pos + 24)),
{
    lemma_i64(b, pos, v.x);
    lemma_i64(b, pos + 8, v.y);
    lemma_i64(b, pos + 16, v.z);
}

pub fn write_vec3(out: &mut Vec<u8>, v: Vec3)
    ensures
        final(out)@ == old(out)@ + enc_vec3(v),
{
    write_i64(out, v.x);
    write_i64(out, v.y);
    write_i64(out, v.z);
    assert(final(out)@ =~= old(out)@ + enc_vec3(v));
}

pub fn read_vec3(b: &[u8], pos: usize) -> (r: Option<(Vec3, usize)>)
    ensures
        match parse_vec3(b@, pos as int) {
            None => r is None,
            Some((v, q)) => r matches Some((w, q2)) && w == v && q2 == q,
        },
{
    if pos > b.len() || b.len() - pos < 24 {
        return None;
    }
    let (x, _) = match read_i64(b, pos) { Some(t) => t, None => return None };
    let (y, _) = match read_i64(b, pos + 8) { Some(t) => t, None => return None };
    let (z, _) = match read_i64(b, pos + 16) { Some(t) => t, None => return None };
    Some((Vec3 { x, y, z }, pos + 24))
}

pub open spec fn enc_quat(q: Quat) -> Seq<u8> {
    enc_i64(q.w) + enc_i64(q.x) + enc_i64(q.y) + enc_i64(q.z)
}

pub open spec fn parse_quat(b: Seq<u8>, pos: int) -> Option<(Quat, int)> {
    match (parse_i64(b, pos), parse_i64(b, pos + 8), parse_i64(b, pos + 16), parse_i64(b, pos + 24)) {
        (Some((w, _)), Some((x, _)), Some((y, _)), Some((z, _))) => Some((Quat { w, x, y, z }, pos + 32)),
        _ => None,
    }
}

pub proof fn lemma_quat(b: Seq<u8>, pos: int, v: Quat)
    requires
        at(b, pos, enc_quat(v)),
    ensures
        enc_quat(v).len() == 32,
        parse_quat(b, pos) == Some((v, pos + 32)),
{
    lemma_i64(b, pos, v.w);
    lemma_i64(b, pos + 8, v.x);
    lemma_i64(b, pos + 16, v.y);
    lemma_i64(b, pos + 24, v.z);
}

pub fn write_quat(out: &mut Vec<u8>, v: Quat)
    ensures
        final(out)@ == old(out)@ + enc_quat(v),
{
    write_i64(out, v.w);
    write_i64(out, v.x);
    write_i64(out, v.y);
    write_i64(out, v.z);
    assert(final(out)@ =~= old(out)@ + enc_quat(v));
}

pub fn read_quat(b: &[u8], pos: usize) -> (r: Option<(Quat, usize)>)
    ensures
        match parse_quat(b@, pos as int) {
            None => r is None,
            Some((v, q)) => r matches Some((w, q2)) && w == v && q2 == q,
        },
{
    if pos > b.len() || b.len() - pos < 32 {
        return None;
    }
    let (w, _) = match read_i64(b, pos) { Some(t) => t, None => return None };
    let (x, _) = match read_i64(b, pos + 8) { Some(t) => t, None => return None };
    let (y, _) = match read_i64(b, pos + 16) { Some(t) => t, None => return None };
    let (z, _) = match read_i64(b, pos + 24) { Some(t) => t, None => return None };
    Some((Quat { w, x, y, z }, pos + 32))
}

} // verus!
