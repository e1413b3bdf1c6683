//! A house placed in the town.
use vstd::prelude::*;
use crate::key::Key;
use crate::vector3d::Vector3D;

verus! {

/// A house: the NFT that stands for it, its owner, its kind and where it stands.
#[derive(Clone, Copy, Debug, PartialEq, Eq)]
pub struct Building {
    pub id: Key,
    pub owner: Key,
    pub house_variant: u8,
    pub position: Vector3D,
    pub scale: Vector3D,
}

impl Building {
    /// The number of bytes that one more house takes in the town's account.
    pub fn space() -> (n: usize)
        ensures
            n as nat == vstd::layout::size_of::<Building>(),
    {
        core::mem::size_of::<Building>()
    }

    /// A house from its parts.
    pub fn _new(id: Key, owner: Key, house_variant: u8, position: Vector3D, scale: Vector3D) -> (b: Building)
        ensures
            b == (Building { id, owner, house_variant, position, scale }),
    {
        Building { id, owner, house_variant, position, scale }
    }
}

} // verus!
