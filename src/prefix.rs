//! Where a byte string stands inside a buffer, and the facts about it that
//! the wire format's proofs use.
use vstd::prelude::*;
use vstd::bytes::{lemma_auto_spec_u64_to_from_le_bytes, spec_u64_to_le_bytes};

verus! {

/// The eight little-endian bytes of `x`.
pub open spec fn enc_u64(x: u64) -> Seq<u8> {
    spec_u64_to_le_bytes(x)
}

pub broadcast proof fn lemma_u64_len(x: u64)
    ensures
        #[trigger] enc_u64(x).len() == 8,
{
    lemma_auto_spec_u64_to_from_le_bytes();
}

/// `s` stands in `b` from position `pos` on.
pub open spec fn at(b: Seq<u8>, pos: int, s: Seq<u8>) -> bool {
    0 <= pos && pos + s.len() <= b.len() && b.subrange(pos, pos + s.len()) == s
}

pub broadcast proof fn lemma_at_concat(b: Seq<u8>, pos: int, s1: Seq<u8>, s2: Seq<u8>)
    ensures
        #[trigger] at(b, pos, s1 + s2) == (at(b, pos, s1) && at(b, pos + s1.len(), s2)),
{
    let n1 = s1.len() as int;
    let n2 = s2.len() as int;
    if at(b, pos, s1 + s2) {
        let w = b.subrange(pos, pos + n1 + n2);
        assert forall|i: int| 0 <= i < n1 implies b.subrange(pos, pos + n1)[i] == s1[i] by {
            assert(w[i] == (s1 + s2)[i]);
        }
        assert forall|i: int| 0 <= i < n2 implies b.subrange(pos + n1, pos + n1 + n2)[i]
            == s2[i] by {
            assert(w[n1 + i] == (s1 + s2)[n1 + i]);
        }
        assert(b.subrange(pos, pos + n1) =~= s1);
        assert(b.subrange(pos + n1, pos + n1 + n2) =~= s2);
    }
    if at(b, pos, s1) && at(b, pos + n1, s2) {
        let w1 = b.subrange(pos, pos + n1);
        let w2 = b.subrange(pos + n1, pos + n1 + n2);
        assert forall|i: int| 0 <= i < n1 + n2 implies b.subrange(pos, pos + n1 + n2)[i] == (s1
            + s2)[i] by {
            if i < n1 {
                assert(w1[i] == s1[i]);
            } else {
                assert(w2[i - n1] == s2[i - n1]);
            }
        }
        assert(b.subrange(pos, pos + n1 + n2) =~= s1 + s2);
    }
}

} // verus!
