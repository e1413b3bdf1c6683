//! Positions and scales of houses.
use vstd::prelude::*;

verus! {

/// A point or a size in three dimensions.
#[derive(Clone, Copy, Debug, PartialEq, Eq)]
pub struct Vector3D {
    pub x: i64,
    pub y: i64,
    pub z: i64,
}

/// The third coordinate that `Vector3D::new` stores for `z`: zero when it is absent.
pub open spec fn z_or_zero(z: Option<i64>) -> i64 {
    match z {
        Some(v) => v,
        None => 0,
    }
}

impl Vector3D {
    /// A vector from its coordinates; a missing `z` is zero.
    pub fn new(x: i64, y: i64, z: Option<i64>) -> (v: Vector3D)
        ensures
            v == (Vector3D { x, y, z: z_or_zero(z) }),
            v.x == x,
            v.y == y,
            z matches Some(given) ==> v.z == given,
            z is None ==> v.z == 0,
    {
        match z {
            None => Vector3D { x, y, z: 0 },
            Some(z) => Vector3D { x, y, z },
        }
    }
}

/// Leaving out `z` is the same as giving zero for it.
pub proof fn lemma_missing_z_is_zero(x: i64, y: i64)
    ensures
        (Vector3D { x, y, z: z_or_zero(None) }) == (Vector3D { x, y, z: z_or_zero(Some(0i64)) }),
{
}

/// A given `z` is kept as it is, whatever its sign; only a missing one is zero.
pub proof fn lemma_given_z_is_kept(v: i64)
    ensures
        z_or_zero(Some(v)) == v,
        z_or_zero(None) == 0,
{
}

} // verus!
