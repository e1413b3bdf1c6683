//! The rent vault: what funding it moves and what a house owner may claim from it.
use vstd::prelude::*;
use vstd::arithmetic::power::{pow, lemma_pow0, lemma_pow_increases};
use crate::custom_error::CustomError;

verus! {

/// The smallest units of a token that `amount` whole tokens make, for a
/// token with `decimals` decimal places.
pub open spec fn in_base_units(amount: u64, decimals: u8) -> int {
    amount * pow(10, decimals as nat)
}

/// The rent that a house of kind `house_variant` owes for the slots from
/// `stake_slot` to `current_slot`, at `rent_per_slot` tokens a slot for each
/// unit of its kind.
pub open spec fn rent_owed(current_slot: u64, stake_slot: u64, house_variant: u8, rent_per_slot: u64) -> int {
    (current_slot - stake_slot) * rent_per_slot * house_variant
}

/// The tokens moved into the rent vault when `amount` whole tokens of a
/// token with `decimals` decimal places are funded.
pub fn fund_amount(amount: u64, decimals: u8) -> (total: u64)
    requires
        pow(10, decimals as nat) <= u64::MAX,
        in_base_units(amount, decimals) <= u64::MAX,
    ensures
        total == in_base_units(amount, decimals),
{
    let mut p: u64 = 1;
    let mut i: u8 = 0;
    proof {
        lemma_pow0(10);
    }
    while i < decimals
        invariant
            0 <= i <= decimals,
            p == pow(10, i as nat),
            pow(10, decimals as nat) <= u64::MAX,
        decreases decimals - i,
    {
        proof {
            reveal(pow);
            lemma_pow_increases(10, (i + 1) as nat, decimals as nat);
            assert(pow(10, (i + 1) as nat) == 10 * pow(10, i as nat));
        }
        p = p * 10;
        i = i + 1;
    }
    amount * p
}

/// The rent that a house owner claims from the vault: the rent owed, or
/// `InsufficientRentVault` when the vault holds fewer tokens (`vault_amount`).
pub fn claim_rent_amount(current_slot: u64, stake_slot: u64, house_variant: u8, rent_per_slot: u64, vault_amount: u64) -> (r: Result<u64, CustomError>)
    requires
        stake_slot <= current_slot,
        (current_slot - stake_slot) * rent_per_slot <= u64::MAX,
        rent_owed(current_slot, stake_slot, house_variant, rent_per_slot) <= u64::MAX,
    ensures
        rent_owed(current_slot, stake_slot, house_variant, rent_per_slot) > vault_amount ==>
            r == Err::<u64, CustomError>(CustomError::InsufficientRentVault),
        rent_owed(current_slot, stake_slot, house_variant, rent_per_slot) <= vault_amount ==>
            r == Ok::<u64, CustomError>(rent_owed(current_slot, stake_slot, house_variant, rent_per_slot) as u64),
{
    let slot_diff = current_slot - stake_slot;
    let per_unit = slot_diff * rent_per_slot;
    let rent_total = per_unit * (house_variant as u64);
    if rent_total > vault_amount {
        return Err(CustomError::InsufficientRentVault);
    }
    Ok(rent_total)
}

/// Over no slots nothing is owed.
pub proof fn lemma_rent_no_slots(slot: u64, house_variant: u8, rent_per_slot: u64)
    ensures
        rent_owed(slot, slot, house_variant, rent_per_slot) == 0,
{
    assert(0 * rent_per_slot * house_variant == 0) by (nonlinear_arith);
}

/// For a house of kind one at one token a slot, the rent is the number of slots.
pub proof fn lemma_rent_unit(current_slot: u64, stake_slot: u64)
    requires
        stake_slot <= current_slot,
    ensures
        rent_owed(current_slot, stake_slot, 1u8, 1u64) == current_slot - stake_slot,
{
}

/// The rent is proportional to the rent per slot and to the house's kind.
pub proof fn lemma_rent_proportional(current_slot: u64, stake_slot: u64, house_variant: u8, rent_per_slot: u64)
    ensures
        rent_owed(current_slot, stake_slot, house_variant, rent_per_slot)
            == rent_owed(current_slot, stake_slot, house_variant, 1u64) * rent_per_slot,
        rent_owed(current_slot, stake_slot, house_variant, rent_per_slot)
            == rent_owed(current_slot, stake_slot, 1u8, rent_per_slot) * house_variant,
{
    let d = current_slot - stake_slot;
    assert(d * rent_per_slot * house_variant == (d * 1 * house_variant) * rent_per_slot) by (nonlinear_arith);
    assert(d * rent_per_slot * house_variant == (d * rent_per_slot * 1) * house_variant) by (nonlinear_arith);
}

/// The rent over consecutive stretches of slots adds up.
pub proof fn lemma_rent_adds_over_slots(s0: u64, s1: u64, s2: u64, house_variant: u8, rent_per_slot: u64)
    requires
        s0 <= s1 <= s2,
    ensures
        rent_owed(s2, s0, house_variant, rent_per_slot)
            == rent_owed(s1, s0, house_variant, rent_per_slot) + rent_owed(s2, s1, house_variant, rent_per_slot),
{
    let a = s1 - s0;
    let b = s2 - s1;
    assert((a + b) * rent_per_slot * house_variant == a * rent_per_slot * house_variant + b * rent_per_slot * house_variant) by (nonlinear_arith);
}

} // verus!
