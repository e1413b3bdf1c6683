//! Verified core of a town-building program: a town holds houses, each
//! backed by one NFT, and the program decides how the town, the rent
//! vault and the lamport balances change on each instruction.

pub mod building;
pub mod custom_error;
pub mod key;
pub mod lamports;
pub mod rent;
pub mod town;
pub mod vector3d;
