use vstd::prelude::*;

verus! {

/// A 2D integer vector denoting a grid coordinate or an offset.
/// Immutable value semantics; equality is componentwise.
#[derive(Clone, Copy, PartialEq, Eq, Structural, Debug)]
pub struct Vec2(pub i64, pub i64);

impl Vec2 {
    /// Componentwise sum of two vectors.
    pub fn add(self, rhs: Vec2) -> (r: Vec2)
        requires
            i64::MIN <= self.0 + rhs.0 <= i64::MAX,
            i64::MIN <= self.1 + rhs.1 <= i64::MAX,
        ensures
            r.0 == self.0 + rhs.0,
            r.1 == self.1 + rhs.1,
    {
        Vec2(self.0 + rhs.0, self.1 + rhs.1)
    }

    /// Componentwise difference of two vectors.
    pub fn sub(self, rhs: Vec2) -> (r: Vec2)
        requires
            i64::MIN <= self.0 - rhs.0 <= i64::MAX,
            i64::MIN <= self.1 - rhs.1 <= i64::MAX,
        ensures
            r.0 == self.0 - rhs.0,
            r.1 == self.1 - rhs.1,
    {
        Vec2(self.0 - rhs.0, self.1 - rhs.1)
    }

    /// Both components scaled by an integer factor.
    pub fn mul(self, rhs: i64) -> (r: Vec2)
        requires
            i64::MIN <= self.0 * rhs <= i64::MAX,
            i64::MIN <= self.1 * rhs <= i64::MAX,
        ensures
            r.0 == self.0 * rhs,
            r.1 == self.1 * rhs,
    {
        Vec2(self.0 * rhs, self.1 * rhs)
    }

    /// Adds a vector in place.
    pub fn add_assign(&mut self, rhs: Vec2)
        requires
            i64::MIN <= old(self).0 + rhs.0 <= i64::MAX,
            i64::MIN <= old(self).1 + rhs.1 <= i64::MAX,
        ensures
            final(self).0 == old(self).0 + rhs.0,
            final(self).1 == old(self).1 + rhs.1,
    {
        *self = Vec2(self.0 + rhs.0, self.1 + rhs.1)
    }

    /// Subtracts a vector in place.
    pub fn sub_assign(&mut self, rhs: Vec2)
        requires
            i64::MIN <= old(self).0 - rhs.0 <= i64::MAX,
            i64::MIN <= old(self).1 - rhs.1 <= i64::MAX,
        ensures
            final(self).0 == old(self).0 - rhs.0,
            final(self).1 == old(self).1 - rhs.1,
    {
        *self = Vec2(self.0 - rhs.0, self.1 - rhs.1)
    }
}

} // verus!
