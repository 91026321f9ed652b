use vstd::prelude::*;

use crate::junction::{junction_eq, Junction};

verus! {

/// The interior of a location: a path of at most eight junctions.
#[derive(Clone, Copy, Debug, PartialEq, Eq, PartialOrd, Ord)]
pub enum Junctions {
    Here,
    X1(Junction),
    X2(Junction, Junction),
    X3(Junction, Junction, Junction),
    X4(Junction, Junction, Junction, Junction),
    X5(Junction, Junction, Junction, Junction, Junction),
    X6(Junction, Junction, Junction, Junction, Junction, Junction),
    X7(Junction, Junction, Junction, Junction, Junction, Junction, Junction),
    X8(Junction, Junction, Junction, Junction, Junction, Junction, Junction, Junction),
}

/// The greatest number of junctions an interior can hold.
pub const MAX_JUNCTIONS: usize = 8;

impl Junctions {
    /// The junctions of the path, outermost first.
    pub open spec fn as_seq(self) -> Seq<Junction> {
        match self {
            Junctions::Here => seq![],
            Junctions::X1(a) => seq![a],
            Junctions::X2(a, b) => seq![a, b],
            Junctions::X3(a, b, c) => seq![a, b, c],
            Junctions::X4(a, b, c, d) => seq![a, b, c, d],
            Junctions::X5(a, b, c, d, e) => seq![a, b, c, d, e],
            Junctions::X6(a, b, c, d, e, f) => seq![a, b, c, d, e, f],
            Junctions::X7(a, b, c, d, e, f, g) => seq![a, b, c, d, e, f, g],
            Junctions::X8(a, b, c, d, e, f, g, h) => seq![a, b, c, d, e, f, g, h],
        }
    }

    /// The interior whose path is `s` (for paths of at most eight junctions).
    pub open spec fn from_seq(s: Seq<Junction>) -> Junctions
        recommends
            s.len() <= 8,
    {
        if s.len() == 0 {
            Junctions::Here
        } else if s.len() == 1 {
            Junctions::X1(s[0])
        } else if s.len() == 2 {
            Junctions::X2(s[0], s[1])
        } else if s.len() == 3 {
            Junctions::X3(s[0], s[1], s[2])
        } else if s.len() == 4 {
            Junctions::X4(s[0], s[1], s[2], s[3])
        } else if s.len() == 5 {
            Junctions::X5(s[0], s[1], s[2], s[3], s[4])
        } else if s.len() == 6 {
            Junctions::X6(s[0], s[1], s[2], s[3], s[4], s[5])
        } else if s.len() == 7 {
            Junctions::X7(s[0], s[1], s[2], s[3], s[4], s[5], s[6])
        } else {
            Junctions::X8(s[0], s[1], s[2], s[3], s[4], s[5], s[6], s[7])
        }
    }

    /// The number of junctions in the path.
    pub fn len(&self) -> (n: usize)
        ensures
            n == self.as_seq().len(),
            n <= MAX_JUNCTIONS,
    {
        match self {
            Junctions::Here => 0,
            Junctions::X1(..) => 1,
            Junctions::X2(..) => 2,
            Junctions::X3(..) => 3,
            Junctions::X4(..) => 4,
            Junctions::X5(..) => 5,
            Junctions::X6(..) => 6,
            Junctions::X7(..) => 7,
            Junctions::X8(..) => 8,
        }
    }

    /// The outermost junction, if any.
    pub fn first(&self) -> (r: Option<&Junction>)
        ensures
            r == (if self.as_seq().len() == 0 {
                None::<&Junction>
            } else {
                Some(&self.as_seq()[0])
            }),
    {
        match self {
            Junctions::Here => None,
            Junctions::X1(a) => Some(a),
            Junctions::X2(a, ..) => Some(a),
            Junctions::X3(a, ..) => Some(a),
            Junctions::X4(a, ..) => Some(a),
            Junctions::X5(a, ..) => Some(a),
            Junctions::X6(a, ..) => Some(a),
            Junctions::X7(a, ..) => Some(a),
            Junctions::X8(a, ..) => Some(a),
        }
    }

    /// Splits off the outermost junction: the rest of the path and the junction taken.
    pub fn split_first(self) -> (r: (Junctions, Option<Junction>))
        ensures
            r.0.as_seq() == (if self.as_seq().len() == 0 {
                self.as_seq()
            } else {
                self.as_seq().drop_first()
            }),
            r.1 == (if self.as_seq().len() == 0 {
                None::<Junction>
            } else {
                Some(self.as_seq()[0])
            }),
    {
        match self {
            Junctions::Here => (Junctions::Here, None),
            Junctions::X1(a) => (Junctions::Here, Some(a)),
            Junctions::X2(a, b) => (Junctions::X1(b), Some(a)),
            Junctions::X3(a, b, c) => (Junctions::X2(b, c), Some(a)),
            Junctions::X4(a, b, c, d) => (Junctions::X3(b, c, d), Some(a)),
            Junctions::X5(a, b, c, d, e) => (Junctions::X4(b, c, d, e), Some(a)),
            Junctions::X6(a, b, c, d, e, f) => (Junctions::X5(b, c, d, e, f), Some(a)),
            Junctions::X7(a, b, c, d, e, f, g) => (Junctions::X6(b, c, d, e, f, g), Some(a)),
            Junctions::X8(a, b, c, d, e, f, g, h) => (
                Junctions::X7(b, c, d, e, f, g, h),
                Some(a),
            ),
        }
    }

    /// Removes and returns the outermost junction, if any.
    pub fn take_first(&mut self) -> (r: Option<Junction>)
        ensures
            final(self).as_seq() == (if old(self).as_seq().len() == 0 {
                old(self).as_seq()
            } else {
                old(self).as_seq().drop_first()
            }),
            r == (if old(self).as_seq().len() == 0 {
                None::<Junction>
            } else {
                Some(old(self).as_seq()[0])
            }),
    {
        let (rest, first) = self.split_first();
        *self = rest;
        first
    }

    /// Equality of interiors.
    pub fn equals(&self, other: &Junctions) -> (r: bool)
        ensures
            r == (*self == *other),
    {
        match (self, other) {
            (Junctions::Here, Junctions::Here) => true,
            (Junctions::X1(a1), Junctions::X1(b1)) => junction_eq(a1, b1),
            (Junctions::X2(a1, a2), Junctions::X2(b1, b2)) => junction_eq(a1, b1) && junction_eq(
                a2,
                b2,
            ),
            (Junctions::X3(a1, a2, a3), Junctions::X3(b1, b2, b3)) => junction_eq(a1, b1)
                && junction_eq(a2, b2) && junction_eq(a3, b3),
            (Junctions::X4(a1, a2, a3, a4), Junctions::X4(b1, b2, b3, b4)) => junction_eq(a1, b1)
                && junction_eq(a2, b2) && junction_eq(a3, b3) && junction_eq(a4, b4),
            (Junctions::X5(a1, a2, a3, a4, a5), Junctions::X5(b1, b2, b3, b4, b5)) => junction_eq(
                a1,
                b1,
            ) && junction_eq(a2, b2) && junction_eq(a3, b3) && junction_eq(a4, b4) && junction_eq(
                a5,
                b5,
            ),
            (
                Junctions::X6(a1, a2, a3, a4, a5, a6),
                Junctions::X6(b1, b2, b3, b4, b5, b6),
            ) => junction_eq(a1, b1) && junction_eq(a2, b2) && junction_eq(a3, b3) && junction_eq(
                a4,
                b4,
            ) && junction_eq(a5, b5) && junction_eq(a6, b6),
            (
                Junctions::X7(a1, a2, a3, a4, a5, a6, a7),
                Junctions::X7(b1, b2, b3, b4, b5, b6, b7),
            ) => junction_eq(a1, b1) && junction_eq(a2, b2) && junction_eq(a3, b3) && junction_eq(
                a4,
                b4,
            ) && junction_eq(a5, b5) && junction_eq(a6, b6) && junction_eq(a7, b7),
            (
                Junctions::X8(a1, a2, a3, a4, a5, a6, a7, a8),
                Junctions::X8(b1, b2, b3, b4, b5, b6, b7, b8),
            ) => junction_eq(a1, b1) && junction_eq(a2, b2) && junction_eq(a3, b3) && junction_eq(
                a4,
                b4,
            ) && junction_eq(a5, b5) && junction_eq(a6, b6) && junction_eq(a7, b7) && junction_eq(
                a8,
                b8,
            ),
            _ => false,
        }
    }
}

/// An interior is determined by its path, and every path of at most eight junctions is one.
pub proof fn lemma_junctions_seq_roundtrip(j: Junctions, s: Seq<Junction>)
    ensures
        Junctions::from_seq(j.as_seq()) == j,
        s.len() <= 8 ==> Junctions::from_seq(s).as_seq() == s,
{
    if s.len() <= 8 {
        assert(Junctions::from_seq(s).as_seq() =~= s);
    }
}

/// A location relative to the current consensus system: go up `parents` levels,
/// then follow `interior` down.
#[derive(Clone, Copy, Debug, PartialEq, Eq, PartialOrd, Ord)]
pub struct MultiLocation {
    pub parents: u8,
    pub interior: Junctions,
}

impl MultiLocation {
    /// The location with the given number of parents and interior.
    pub fn new(parents: u8, interior: Junctions) -> (r: MultiLocation)
        ensures
            r == (MultiLocation { parents, interior }),
    {
        MultiLocation { parents, interior }
    }

    pub open spec fn spec_parent() -> MultiLocation {
        MultiLocation { parents: 1, interior: Junctions::Here }
    }

    pub open spec fn spec_here() -> MultiLocation {
        MultiLocation { parents: 0, interior: Junctions::Here }
    }

    /// The parent of the current consensus system: one level up, no interior.
    pub fn parent() -> (r: MultiLocation)
        ensures
            r == Self::spec_parent(),
    {
        MultiLocation { parents: 1, interior: Junctions::Here }
    }

    /// The current consensus system itself.
    pub fn here() -> (r: MultiLocation)
        ensures
            r == Self::spec_here(),
    {
        MultiLocation { parents: 0, interior: Junctions::Here }
    }

    /// The number of levels to go up.
    pub fn parent_count(&self) -> (r: u8)
        ensures
            r == self.parents,
    {
        self.parents
    }

    /// The outermost junction of the interior, if any.
    pub fn first_interior(&self) -> (r: Option<&Junction>)
        ensures
            r == (if self.interior.as_seq().len() == 0 {
                None::<&Junction>
            } else {
                Some(&self.interior.as_seq()[0])
            }),
    {
        self.interior.first()
    }

    /// Removes and returns the outermost junction of the interior, if any;
    /// the parents stay as they are.
    pub fn take_first_interior(&mut self) -> (r: Option<Junction>)
        ensures
            final(self).parents == old(self).parents,
            final(self).interior.as_seq() == (if old(self).interior.as_seq().len() == 0 {
                old(self).interior.as_seq()
            } else {
                old(self).interior.as_seq().drop_first()
            }),
            r == (if old(self).interior.as_seq().len() == 0 {
                None::<Junction>
            } else {
                Some(old(self).interior.as_seq()[0])
            }),
    {
        self.interior.take_first()
    }

    /// Equality of locations.
    pub fn equals(&self, other: &MultiLocation) -> (r: bool)
        ensures
            r == (*self == *other),
    {
        self.parents == other.parents && self.interior.equals(&other.interior)
    }
}

} // verus!
