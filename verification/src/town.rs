//! The town: its name and the houses placed in it, each known by the NFT
//! that backs it.
use vstd::prelude::*;
use crate::building::Building;
use crate::custom_error::CustomError;
use crate::key::Key;
use crate::rent::{claim_rent_amount, rent_owed};
use crate::vector3d::Vector3D;

verus! {

/// Whether some house in `buildings` is backed by the NFT `id`.
pub open spec fn holds_key(buildings: Seq<Building>, id: Seq<u8>) -> bool {
    exists|i: int| #![trigger buildings[i]] 0 <= i < buildings.len() && buildings[i].id@ == id
}

/// No two houses are backed by the same NFT.
pub open spec fn keys_unique(buildings: Seq<Building>) -> bool {
    forall|i: int, j: int|
        #![trigger buildings[i], buildings[j]]
        0 <= i < j < buildings.len() ==> buildings[i].id@ != buildings[j].id@
}

/// The houses after `building` is offered: unchanged when its NFT is
/// already in the town, else with `building` at the end.
pub open spec fn with_building(buildings: Seq<Building>, building: Building) -> Seq<Building> {
    if holds_key(buildings, building.id@) {
        buildings
    } else {
        buildings.push(building)
    }
}

/// `i` is the position of the first house backed by the NFT `id`.
pub open spec fn is_first_with_key(buildings: Seq<Building>, id: Seq<u8>, i: int) -> bool {
    &&& 0 <= i < buildings.len()
    &&& buildings[i].id@ == id
    &&& forall|j: int| 0 <= j < i ==> (#[trigger] buildings[j]).id@ != id
}

/// Keeps a house whose NFT is not `id`.
pub open spec fn is_other(id: Seq<u8>) -> spec_fn(Building) -> bool {
    |b: Building| b.id@ != id
}

/// The houses whose NFT is not `id`, in their order.
pub open spec fn without_key(buildings: Seq<Building>, id: Seq<u8>) -> Seq<Building> {
    buildings.filter(is_other(id))
}

/// What the program must do besides changing the town when a house is offered.
#[derive(Clone, Copy, Debug, PartialEq, Eq)]
pub enum InsertAction {
    /// The NFT is already in the town: nothing to do.
    Nothing,
    /// Grow the town's account by `space_to_add` bytes, paying the rent for
    /// them, and move `nft_amount` NFT tokens from the owner to the vault.
    ReallocAndDeposit { space_to_add: usize, nft_amount: u64 },
}

/// What the program must do besides changing the town when a house is taken out.
#[derive(Clone, Copy, Debug, PartialEq, Eq)]
pub enum WithdrawAction {
    /// The NFT is not in the town: nothing to do.
    Nothing,
    /// Move `nft_amount` NFT tokens from the vault back to the owner.
    Withdraw { nft_amount: u64 },
}

/// A town: its name and its houses.
pub struct Town {
    pub name: String,
    pub buildings: Vec<Building>,
}

impl Town {
    /// A town with the given name and no houses.
    pub fn new(name: String) -> (t: Town)
        ensures
            t.name == name,
            t.buildings@ == Seq::<Building>::empty(),
            keys_unique(t.buildings@),
    {
        Town { name, buildings: Vec::new() }
    }

    /// Whether a house backed by the NFT `id` stands in the town.
    pub fn check_key(&self, id: Key) -> (r: bool)
        ensures
            r == holds_key(self.buildings@, id@),
    {
        let mut i: usize = 0;
        while i < self.buildings.len()
            invariant
                0 <= i <= self.buildings@.len(),
                forall|j: int| 0 <= j < i ==> (#[trigger] self.buildings@[j]).id@ != id@,
            decreases self.buildings@.len() - i,
        {
            if self.buildings[i].id.key_eq(&id) {
                assert(self.buildings@[i as int].id@ == id@);
                return true;
            }
            i = i + 1;
        }
        false
    }

    /// The first house backed by the NFT `id`, or `BuildingNotFound`.
    pub fn _get_building(&self, id: Key) -> (r: Result<Building, CustomError>)
        ensures
            r is Ok <==> holds_key(self.buildings@, id@),
            r matches Ok(b) ==> exists|i: int|
                #![trigger self.buildings@[i]]
                is_first_with_key(self.buildings@, id@, i) && self.buildings@[i] == b,
            r matches Err(e) ==> e == CustomError::BuildingNotFound,
    {
        let mut i: usize = 0;
        while i < self.buildings.len()
            invariant
                0 <= i <= self.buildings@.len(),
                forall|j: int| 0 <= j < i ==> (#[trigger] self.buildings@[j]).id@ != id@,
            decreases self.buildings@.len() - i,
        {
            if self.buildings[i].id.key_eq(&id) {
                assert(self.buildings@[i as int].id@ == id@);
                return Ok(self.buildings[i]);
            }
            i = i + 1;
        }
        Err(CustomError::BuildingNotFound)
    }

    /// The rent that the owner of the house backed by `nft_mint` claims:
    /// `BuildingNotFound` when no house has that NFT; else, for the first
    /// such house, the rent owed from `stake_slot` to `current_slot` at
    /// `rent_per_slot`, or `InsufficientRentVault` when the vault holds fewer
    /// tokens (`vault_amount`).
    pub fn claim_rent(&self, nft_mint: Key, current_slot: u64, stake_slot: u64, rent_per_slot: u64, vault_amount: u64) -> (r: Result<u64, CustomError>)
        requires
            stake_slot <= current_slot,
            (current_slot - stake_slot) * rent_per_slot <= u64::MAX,
            forall|i: int| #[trigger] is_first_with_key(self.buildings@, nft_mint@, i) ==>
                rent_owed(current_slot, stake_slot, self.buildings@[i].house_variant, rent_per_slot) <= u64::MAX,
        ensures
            !holds_key(self.buildings@, nft_mint@) ==> r == Err::<u64, CustomError>(CustomError::BuildingNotFound),
            holds_key(self.buildings@, nft_mint@) ==> exists|i: int| #[trigger] is_first_with_key(self.buildings@, nft_mint@, i) && {
                let owed = rent_owed(current_slot, stake_slot, self.buildings@[i].house_variant, rent_per_slot);
                &&& owed > vault_amount ==> r == Err::<u64, CustomError>(CustomError::InsufficientRentVault)
                &&& owed <= vault_amount ==> r == Ok::<u64, CustomError>(owed as u64)
            },
    {
        let property = self._get_building(nft_mint)?;
        claim_rent_amount(current_slot, stake_slot, property.house_variant, rent_per_slot, vault_amount)
    }

    /// Offers a house: a house whose NFT is already in the town changes
    /// nothing; any other is added at the end, and the account must grow by
    /// one house and the NFT must go into the vault.
    pub fn insert_building(&mut self, building: Building) -> (action: InsertAction)
        ensures
            final(self).name == old(self).name,
            final(self).buildings@ == with_building(old(self).buildings@, building),
            holds_key(old(self).buildings@, building.id@) ==> final(self).buildings@ == old(self).buildings@,
            !holds_key(old(self).buildings@, building.id@) ==> final(self).buildings@ == old(self).buildings@.push(building),
            holds_key(old(self).buildings@, building.id@) ==> action == InsertAction::Nothing,
            !holds_key(old(self).buildings@, building.id@) ==> (action matches InsertAction::ReallocAndDeposit { space_to_add, nft_amount }
                && space_to_add as nat == vstd::layout::size_of::<Building>() && nft_amount == 1),
    {
        if self.check_key(building.id) {
            InsertAction::Nothing
        } else {
            let space_to_add = Building::space();
            self.buildings.push(building);
            InsertAction::ReallocAndDeposit { space_to_add, nft_amount: 1 }
        }
    }

    /// Places the house of the NFT `nft_mint`, owned by `signer`, of kind
    /// `house_variant`, at `position` with `scale`: the house is offered to
    /// the town as by `insert_building`.
    pub fn insert_house(&mut self, nft_mint: Key, signer: Key, house_variant: u8, position: Vector3D, scale: Vector3D) -> (action: InsertAction)
        ensures
            final(self).name == old(self).name,
            final(self).buildings@ == with_building(
                old(self).buildings@,
                Building { id: nft_mint, owner: signer, house_variant, position, scale },
            ),
            holds_key(old(self).buildings@, nft_mint@) ==> final(self).buildings@ == old(self).buildings@,
            !holds_key(old(self).buildings@, nft_mint@) ==> final(self).buildings@ == old(self).buildings@.push(
                Building { id: nft_mint, owner: signer, house_variant, position, scale },
            ),
            holds_key(old(self).buildings@, nft_mint@) ==> action == InsertAction::Nothing,
            !holds_key(old(self).buildings@, nft_mint@) ==> (action matches InsertAction::ReallocAndDeposit { space_to_add, nft_amount }
                && space_to_add as nat == vstd::layout::size_of::<Building>() && nft_amount == 1),
    {
        let building = Building::_new(nft_mint, signer, house_variant, position, scale);
        self.insert_building(building)
    }

    /// Takes the house backed by `nft_id` out of the town. The vault must
    /// hold exactly the one NFT (`vault_amount`), else `InsufficientVaultAsset`.
    /// Every house with that NFT leaves, the others keep their order, and the
    /// NFT must go back out of the vault; an NFT that is not in the town
    /// changes nothing.
    pub fn withdraw_building(&mut self, vault_amount: u64, nft_id: Key) -> (r: Result<WithdrawAction, CustomError>)
        ensures
            final(self).name == old(self).name,
            vault_amount != 1 ==> r == Err::<WithdrawAction, CustomError>(CustomError::InsufficientVaultAsset)
                && final(self).buildings@ == old(self).buildings@,
            vault_amount == 1 && holds_key(old(self).buildings@, nft_id@) ==>
                r == Ok::<WithdrawAction, CustomError>(WithdrawAction::Withdraw { nft_amount: 1 })
                && final(self).buildings@ == without_key(old(self).buildings@, nft_id@),
            vault_amount == 1 && !holds_key(old(self).buildings@, nft_id@) ==>
                r == Ok::<WithdrawAction, CustomError>(WithdrawAction::Nothing)
                && final(self).buildings@ == old(self).buildings@,
    {
        if vault_amount != 1 {
            return Err(CustomError::InsufficientVaultAsset);
        }
        if !self.check_key(nft_id) {
            return Ok(WithdrawAction::Nothing);
        }
        let ghost before = self.buildings@;
        let mut kept: Vec<Building> = Vec::new();
        let mut i: usize = 0;
        while i < self.buildings.len()
            invariant
                0 <= i <= self.buildings@.len(),
                self.buildings@ == before,
                kept@ == before.take(i as int).filter(is_other(nft_id@)),
            decreases self.buildings@.len() - i,
        {
            let b = self.buildings[i];
            proof {
                assert(before.take(i + 1) =~= before.take(i as int).push(b));
                before.take(i as int).lemma_filter_push(b, is_other(nft_id@));
            }
            if !b.id.key_eq(&nft_id) {
                kept.push(b);
            }
            i = i + 1;
        }
        assert(before.take(i as int) =~= before);
        self.buildings = kept;
        Ok(WithdrawAction::Withdraw { nft_amount: 1 })
    }
}

/// The houses kept when `id` is taken out are houses of the town.
proof fn lemma_without_key_from(buildings: Seq<Building>, id: Seq<u8>, b: Building)
    requires
        without_key(buildings, id).contains(b),
    ensures
        buildings.contains(b),
        b.id@ != id,
{
    buildings.lemma_filter_contains_rev(is_other(id), b);
    let k = choose|k: int| 0 <= k < without_key(buildings, id).len() && without_key(buildings, id)[k] == b;
    buildings.lemma_filter_pred(is_other(id), k);
}

/// Taking out an NFT that is not in the town changes nothing.
pub proof fn lemma_withdraw_absent_is_identity(buildings: Seq<Building>, id: Seq<u8>)
    requires
        !holds_key(buildings, id),
    ensures
        without_key(buildings, id) == buildings,
    decreases buildings.len(),
{
    reveal(Seq::filter);
    if buildings.len() > 0 {
        let rest = buildings.drop_last();
        assert(!holds_key(rest, id)) by {
            if holds_key(rest, id) {
                let i = choose|i: int| #![trigger rest[i]] 0 <= i < rest.len() && rest[i].id@ == id;
                assert(buildings[i] == rest[i]);
            }
        }
        lemma_withdraw_absent_is_identity(rest, id);
        assert(buildings.last() == buildings[buildings.len() - 1]);
        assert(rest.push(buildings.last()) =~= buildings);
    }
}

/// After a house is offered, a house with its NFT stands in the town.
pub proof fn lemma_insert_holds_key(buildings: Seq<Building>, building: Building)
    ensures
        holds_key(with_building(buildings, building), building.id@),
{
    if !holds_key(buildings, building.id@) {
        let s = buildings.push(building);
        assert(s[buildings.len() as int] == building);
    }
}

/// Offering a house keeps the NFTs of the town distinct.
pub proof fn lemma_insert_keeps_keys_unique(buildings: Seq<Building>, building: Building)
    requires
        keys_unique(buildings),
    ensures
        keys_unique(with_building(buildings, building)),
{
    if !holds_key(buildings, building.id@) {
        let s = buildings.push(building);
        assert forall|i: int, j: int| 0 <= i < j < s.len() implies #[trigger] s[i].id@ != #[trigger] s[j].id@ by {
            if j == buildings.len() {
                assert(s[i] == buildings[i]);
            } else {
                assert(s[i] == buildings[i] && s[j] == buildings[j]);
            }
        }
    }
}

/// Offering the same house a second time changes nothing.
pub proof fn lemma_insert_twice_is_insert_once(buildings: Seq<Building>, building: Building)
    ensures
        with_building(with_building(buildings, building), building) == with_building(buildings, building),
{
    lemma_insert_holds_key(buildings, building);
}

/// After an NFT is taken out, no house with it stands in the town.
pub proof fn lemma_withdraw_removes_key(buildings: Seq<Building>, id: Seq<u8>)
    ensures
        !holds_key(without_key(buildings, id), id),
{
    let s = without_key(buildings, id);
    if holds_key(s, id) {
        let i = choose|i: int| #![trigger s[i]] 0 <= i < s.len() && s[i].id@ == id;
        buildings.lemma_filter_pred(is_other(id), i);
    }
}

/// Taking out one NFT leaves the houses of every other NFT where they were.
pub proof fn lemma_withdraw_keeps_other_keys(buildings: Seq<Building>, id: Seq<u8>, other: Seq<u8>)
    requires
        other != id,
    ensures
        holds_key(without_key(buildings, id), other) == holds_key(buildings, other),
{
    let s = without_key(buildings, id);
    if holds_key(s, other) {
        let i = choose|i: int| #![trigger s[i]] 0 <= i < s.len() && s[i].id@ == other;
        assert(s.contains(s[i]));
        lemma_without_key_from(buildings, id, s[i]);
        let k = choose|k: int| 0 <= k < buildings.len() && buildings[k] == s[i];
        assert(buildings[k].id@ == other);
    }
    if holds_key(buildings, other) {
        let k = choose|k: int| #![trigger buildings[k]] 0 <= k < buildings.len() && buildings[k].id@ == other;
        buildings.lemma_filter_contains(is_other(id), k);
        let i = choose|i: int| 0 <= i < s.len() && s[i] == buildings[k];
        assert(s[i].id@ == other);
    }
}

/// Taking out an NFT keeps the NFTs of the town distinct.
pub proof fn lemma_withdraw_keeps_keys_unique(buildings: Seq<Building>, id: Seq<u8>)
    requires
        keys_unique(buildings),
    ensures
        keys_unique(without_key(buildings, id)),
    decreases buildings.len(),
{
    reveal(Seq::filter);
    if buildings.len() > 0 {
        let rest = buildings.drop_last();
        let last = buildings.last();
        assert(keys_unique(rest)) by {
            assert forall|i: int, j: int| 0 <= i < j < rest.len() implies #[trigger] rest[i].id@ != #[trigger] rest[j].id@ by {
                assert(rest[i] == buildings[i] && rest[j] == buildings[j]);
            }
        }
        lemma_withdraw_keeps_keys_unique(rest, id);
        let sub = without_key(rest, id);
        if last.id@ != id {
            let s = sub.push(last);
            assert(without_key(buildings, id) == s);
            assert forall|i: int, j: int| 0 <= i < j < s.len() implies #[trigger] s[i].id@ != #[trigger] s[j].id@ by {
                if j == sub.len() {
                    assert(s[i] == sub[i]);
                    assert(sub.contains(sub[i]));
                    lemma_without_key_from(rest, id, sub[i]);
                    let k = choose|k: int| 0 <= k < rest.len() && rest[k] == sub[i];
                    assert(rest[k] == buildings[k]);
                    assert(last == buildings[buildings.len() - 1]);
                } else {
                    assert(s[i] == sub[i] && s[j] == sub[j]);
                }
            }
        }
    }
}

/// With distinct NFTs, taking out an NFT of the town removes exactly one house.
pub proof fn lemma_withdraw_removes_one(buildings: Seq<Building>, id: Seq<u8>)
    requires
        keys_unique(buildings),
        holds_key(buildings, id),
    ensures
        without_key(buildings, id).len() + 1 == buildings.len(),
    decreases buildings.len(),
{
    reveal(Seq::filter);
    let rest = buildings.drop_last();
    let last = buildings.last();
    assert(last == buildings[buildings.len() - 1]);
    assert(keys_unique(rest)) by {
        assert forall|i: int, j: int| 0 <= i < j < rest.len() implies #[trigger] rest[i].id@ != #[trigger] rest[j].id@ by {
            assert(rest[i] == buildings[i] && rest[j] == buildings[j]);
        }
    }
    if last.id@ == id {
        assert(!holds_key(rest, id)) by {
            if holds_key(rest, id) {
                let i = choose|i: int| #![trigger rest[i]] 0 <= i < rest.len() && rest[i].id@ == id;
                assert(rest[i] == buildings[i]);
            }
        }
        lemma_withdraw_absent_is_identity(rest, id);
    } else {
        assert(holds_key(rest, id)) by {
            let i = choose|i: int| #![trigger buildings[i]] 0 <= i < buildings.len() && buildings[i].id@ == id;
            assert(rest[i] == buildings[i]);
        }
        lemma_withdraw_removes_one(rest, id);
    }
}

/// Offering a house whose NFT is not in the town and then taking that NFT
/// out gives back the town as it was.
pub proof fn lemma_withdraw_undoes_insert(buildings: Seq<Building>, building: Building)
    requires
        !holds_key(buildings, building.id@),
    ensures
        without_key(with_building(buildings, building), building.id@) == buildings,
{
    buildings.lemma_filter_push(building, is_other(building.id@));
    lemma_withdraw_absent_is_identity(buildings, building.id@);
}

/// Offering a house whose NFT already stands in the town leaves the houses
/// exactly as they were, whatever the offered house's owner, kind or place.
pub proof fn lemma_insert_present_changes_nothing(buildings: Seq<Building>, building: Building)
    requires
        holds_key(buildings, building.id@),
    ensures
        with_building(buildings, building) == buildings,
        forall|other: Building| other.id@ == building.id@ ==> with_building(buildings, other) == buildings,
{
}

/// Offering a house whose NFT is new puts it after all the houses there were,
/// which stay as they were.
pub proof fn lemma_insert_new_appends(buildings: Seq<Building>, building: Building)
    requires
        !holds_key(buildings, building.id@),
    ensures
        with_building(buildings, building).len() == buildings.len() + 1,
        with_building(buildings, building)[buildings.len() as int] == building,
        forall|i: int| 0 <= i < buildings.len() ==> #[trigger] with_building(buildings, building)[i] == buildings[i],
{
}

/// Taking an NFT out of no houses gives no houses.
pub proof fn lemma_withdraw_from_empty(id: Seq<u8>)
    ensures
        without_key(Seq::<Building>::empty(), id) == Seq::<Building>::empty(),
{
    reveal(Seq::filter);
}

/// Taking an NFT out of houses with one more at the end: that house goes if
/// it carries the NFT, and otherwise stays last after what is kept of the others.
pub proof fn lemma_withdraw_after_push(buildings: Seq<Building>, last: Building, id: Seq<u8>)
    ensures
        last.id@ == id ==> without_key(buildings.push(last), id) == without_key(buildings, id),
        last.id@ != id ==> without_key(buildings.push(last), id) == without_key(buildings, id).push(last),
{
    buildings.lemma_filter_push(last, is_other(id));
}

/// The positions in `buildings` of the houses kept when `id` is taken out.
proof fn kept_positions(buildings: Seq<Building>, id: Seq<u8>) -> (idx: Seq<int>)
    ensures
        idx.len() == without_key(buildings, id).len(),
        forall|k: int| #![trigger idx[k]] 0 <= k < idx.len() ==>
            0 <= idx[k] < buildings.len() && without_key(buildings, id)[k] == buildings[idx[k]],
        forall|k1: int, k2: int| 0 <= k1 < k2 < idx.len() ==> #[trigger] idx[k1] < #[trigger] idx[k2],
        forall|j: int| 0 <= j < buildings.len() && (#[trigger] buildings[j]).id@ != id ==> idx.contains(j),
    decreases buildings.len(),
{
    if buildings.len() == 0 {
        lemma_withdraw_from_empty(id);
        Seq::empty()
    } else {
        let rest = buildings.drop_last();
        let last = buildings.last();
        let n = buildings.len() - 1;
        assert(rest.push(last) =~= buildings);
        lemma_withdraw_after_push(rest, last, id);
        let p = kept_positions(rest, id);
        if last.id@ != id {
            let q = p.push(n);
            assert forall|j: int| 0 <= j < buildings.len() && (#[trigger] buildings[j]).id@ != id implies q.contains(j) by {
                if j == n {
                    assert(q[p.len() as int] == j);
                } else {
                    assert(rest[j] == buildings[j]);
                    assert(p.contains(j));
                    let k = choose|k: int| 0 <= k < p.len() && p[k] == j;
                    assert(q[k] == j);
                }
            }
            assert forall|k: int| #![trigger q[k]] 0 <= k < q.len() implies
                0 <= q[k] < buildings.len() && without_key(buildings, id)[k] == buildings[q[k]] by {
                if k < p.len() {
                    assert(q[k] == p[k]);
                    assert(rest[p[k]] == buildings[p[k]]);
                }
            }
            assert forall|k1: int, k2: int| 0 <= k1 < k2 < q.len() implies #[trigger] q[k1] < #[trigger] q[k2] by {
                assert(q[k1] == p[k1]);
                if k2 < p.len() {
                    assert(q[k2] == p[k2]);
                }
            }
            q
        } else {
            assert forall|j: int| 0 <= j < buildings.len() && (#[trigger] buildings[j]).id@ != id implies p.contains(j) by {
                assert(j != n);
                assert(rest[j] == buildings[j]);
            }
            assert forall|k: int| #![trigger p[k]] 0 <= k < p.len() implies
                0 <= p[k] < buildings.len() && without_key(buildings, id)[k] == buildings[p[k]] by {
                assert(rest[p[k]] == buildings[p[k]]);
            }
            p
        }
    }
}

/// `idx` lists, in increasing order, positions in `buildings` of the houses
/// in `kept`, one for each, and holds every position whose house's NFT is not `id`.
pub open spec fn kept_in_order(buildings: Seq<Building>, id: Seq<u8>, kept: Seq<Building>, idx: Seq<int>) -> bool {
    &&& idx.len() == kept.len()
    &&& forall|k: int| #![trigger idx[k]] 0 <= k < idx.len() ==> 0 <= idx[k] < buildings.len() && kept[k] == buildings[idx[k]]
    &&& forall|k1: int, k2: int| 0 <= k1 < k2 < idx.len() ==> #[trigger] idx[k1] < #[trigger] idx[k2]
    &&& forall|j: int| 0 <= j < buildings.len() && (#[trigger] buildings[j]).id@ != id ==> idx.contains(j)
}

/// Taking an NFT out keeps the other houses in their order: the houses left
/// stand at increasing positions of the town before, and every house whose
/// NFT is another one is among them.
pub proof fn lemma_withdraw_keeps_order(buildings: Seq<Building>, id: Seq<u8>)
    ensures
        exists|idx: Seq<int>| #[trigger] kept_in_order(buildings, id, without_key(buildings, id), idx),
{
    let idx = kept_positions(buildings, id);
    assert(kept_in_order(buildings, id, without_key(buildings, id), idx));
}

} // verus!
