//! The six faces of a cell, and a value for each face.
use vstd::prelude::*;

verus! {

#[derive(Clone, Copy, Debug, PartialEq, Eq, Structural)]
pub enum Side {
    NegX,
    PosX,
    NegY,
    PosY,
    NegZ,
    PosZ,
}

#[derive(Clone, Copy, Debug, Default, PartialEq, Eq, Hash)]
pub struct Sided<S> {
    pub neg_x: S,
    pub pos_x: S,
    pub neg_y: S,
    pub pos_y: S,
    pub neg_z: S,
    pub pos_z: S,
}

impl<S> Sided<S> {
    pub open spec fn spec_get(&self, side: Side) -> S {
        match side {
            Side::NegX => self.neg_x,
            Side::PosX => self.pos_x,
            Side::NegY => self.neg_y,
            Side::PosY => self.pos_y,
            Side::NegZ => self.neg_z,
            Side::PosZ => self.pos_z,
        }
    }

    pub fn get(&self, side: Side) -> (r: &S)
        ensures
            *r == self.spec_get(side),
    {
        match side {
            Side::NegX => &self.neg_x,
            Side::PosX => &self.pos_x,
            Side::NegY => &self.neg_y,
            Side::PosY => &self.pos_y,
            Side::NegZ => &self.neg_z,
            Side::PosZ => &self.pos_z,
        }
    }

    pub fn set(&mut self, side: Side, value: S)
        ensures
            final(self).spec_get(side) == value,
            forall|o: Side| o != side ==> final(self).spec_get(o) == old(self).spec_get(o),
    {
        match side {
            Side::NegX => self.neg_x = value,
            Side::PosX => self.pos_x = value,
            Side::NegY => self.neg_y = value,
            Side::PosY => self.pos_y = value,
            Side::NegZ => self.neg_z = value,
            Side::PosZ => self.pos_z = value,
        }
    }
}

impl<S: Copy> Sided<S> {
    /// The same value on every face.
    pub fn new(s: S) -> (r: Self)
        ensures
            forall|side: Side| r.spec_get(side) == s,
    {
        Sided { neg_x: s, pos_x: s, neg_y: s, pos_y: s, neg_z: s, pos_z: s }
    }
}

} // verus!
