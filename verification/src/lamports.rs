//! Balances of lamports and the size of the town's account.
use vstd::prelude::*;
use crate::custom_error::CustomError;
use crate::key::Key;

verus! {

/// Moves `amount_of_lamports` from the account `from_key`, holding
/// `from_lamports`, to the account `to_key`, holding `to_lamports`, and
/// returns the two new balances; `InsufficientVaultSol` when the first
/// account holds fewer lamports than that. The first balance is debited
/// before the second is credited, so an account paying itself keeps its
/// balance.
pub fn withdraw_lamport(from_key: Key, from_lamports: u64, to_key: Key, to_lamports: u64, amount_of_lamports: u64) -> (r: Result<(u64, u64), CustomError>)
    requires
        from_key@ == to_key@ ==> from_lamports == to_lamports,
        from_key@ != to_key@ && from_lamports >= amount_of_lamports ==> to_lamports + amount_of_lamports <= u64::MAX,
    ensures
        from_lamports < amount_of_lamports ==> r == Err::<(u64, u64), CustomError>(CustomError::InsufficientVaultSol),
        from_lamports >= amount_of_lamports && from_key@ != to_key@ ==> r == Ok::<(u64, u64), CustomError>(
            ((from_lamports - amount_of_lamports) as u64, (to_lamports + amount_of_lamports) as u64),
        ),
        from_lamports >= amount_of_lamports && from_key@ == to_key@ ==> r == Ok::<(u64, u64), CustomError>(
            (from_lamports, from_lamports),
        ),
        from_key@ != to_key@ ==> (r matches Ok((f, t)) ==> f + t == from_lamports + to_lamports),
{
    if from_lamports < amount_of_lamports {
        return Err(CustomError::InsufficientVaultSol);
    }
    let from_after = from_lamports - amount_of_lamports;
    if from_key.key_eq(&to_key) {
        let credited = from_after + amount_of_lamports;
        return Ok((credited, credited));
    }
    Ok((from_after, to_lamports + amount_of_lamports))
}

/// The size of the account after it grows by `space_to_add` bytes.
pub fn realloc_size(data_len: usize, space_to_add: usize) -> (n: usize)
    requires
        data_len + space_to_add <= usize::MAX,
    ensures
        n == data_len + space_to_add,
{
    data_len + space_to_add
}

/// The size of the account after it shrinks by `space_to_deduct` bytes.
pub fn dealloc_size(data_len: usize, space_to_deduct: usize) -> (n: usize)
    requires
        space_to_deduct <= data_len,
    ensures
        n == data_len - space_to_deduct,
{
    data_len - space_to_deduct
}

/// The lamports that the payer adds so that an account holding `lamports`
/// reaches the rent-exempt minimum `lamport_required` of its new size.
pub fn rent_top_up(lamport_required: u64, lamports: u64) -> (n: u64)
    requires
        lamports <= lamport_required,
    ensures
        n == lamport_required - lamports,
        n + lamports == lamport_required,
{
    lamport_required - lamports
}

/// Shrinking an account by the bytes it grew by gives back its size.
pub proof fn lemma_dealloc_undoes_realloc(data_len: usize, space: usize)
    requires
        data_len + space <= usize::MAX,
    ensures
        ((data_len + space) as usize) - space == data_len,
{
}

} // verus!
