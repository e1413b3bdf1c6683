//! The errors that the program's instructions end with.
use vstd::prelude::*;

verus! {

/// Why an instruction was refused.
#[derive(Clone, Copy, Debug, PartialEq, Eq)]
pub enum CustomError {
    /// The town holds no house with the given NFT.
    BuildingNotFound,
    /// An account holds fewer lamports than are to be taken from it.
    InsufficientVaultSol,
    /// The rent vault holds fewer tokens than the rent that is due.
    InsufficientRentVault,
    /// The signer does not own the asset.
    UnauthorizedSigner,
    /// The NFT vault does not hold exactly the one house NFT.
    InsufficientVaultAsset,
}

impl CustomError {
    /// The message that goes with the error.
    pub fn message(&self) -> (m: &'static str)
        ensures
            *self == CustomError::BuildingNotFound ==> m@ == "House not found in town"@,
            *self == CustomError::InsufficientVaultSol ==> m@ == "Not enough sol in vault"@,
            *self == CustomError::InsufficientRentVault ==> m@ == "Not enough tokens to pay rent"@,
            *self == CustomError::UnauthorizedSigner ==> m@ == "Asset not owned by signer"@,
            *self == CustomError::InsufficientVaultAsset ==> m@ == "Asset not present in vault"@,
    {
        match self {
            CustomError::BuildingNotFound => "House not found in town",
            CustomError::InsufficientVaultSol => "Not enough sol in vault",
            CustomError::InsufficientRentVault => "Not enough tokens to pay rent",
            CustomError::UnauthorizedSigner => "Asset not owned by signer",
            CustomError::InsufficientVaultAsset => "Asset not present in vault",
        }
    }
}

} // verus!
