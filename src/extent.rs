//! A run of up to fifteen cells packed in one byte: the start in the high
//! four bits, the length in the low four.
use vstd::prelude::*;

verus! {

#[derive(Clone, Copy, Debug, PartialEq, Eq, Structural)]
pub struct Extent(pub u8);

impl Extent {
    pub open spec fn start_spec(self) -> nat {
        (self.0 / 16) as nat
    }

    pub open spec fn extent_spec(self) -> nat {
        (self.0 % 16) as nat
    }

    /// Packs a run; only the low four bits of each part are kept.
    pub fn new(start: usize, extent: usize) -> (r: Extent)
        ensures
            r.start_spec() == start % 16,
            r.extent_spec() == extent % 16,
    {
        let s: u8 = (start % 16) as u8;
        let e: u8 = (extent % 16) as u8;
        let packed: u8 = (s << 4u8) | e;
        assert(packed / 16 == s && packed % 16 == e) by (bit_vector)
            requires
                s < 16,
                e < 16,
                packed == (s << 4u8) | e,
        ;
        Extent(packed)
    }

    pub fn start(self) -> (r: usize)
        ensures
            r == self.start_spec(),
    {
        let b = self.0;
        assert(b >> 4u8 == b / 16) by (bit_vector);
        (b >> 4u8) as usize
    }

    pub fn extent(self) -> (r: usize)
        ensures
            r == self.extent_spec(),
    {
        let b = self.0;
        assert(b & 15u8 == b % 16) by (bit_vector);
        (b & 15u8) as usize
    }

    pub fn end(self) -> (r: usize)
        ensures
            r == self.start_spec() + self.extent_spec(),
    {
        self.start() + self.extent()
    }
}

} // verus!
