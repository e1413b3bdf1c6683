use downtown_program::building::Building;
use downtown_program::custom_error::CustomError;
use downtown_program::key::Key;
use downtown_program::town::{InsertAction, Town, WithdrawAction};
use downtown_program::vector3d::Vector3D;

fn key(b: u8) -> Key {
    Key::new([b; 32])
}

fn house(id: u8, owner: u8, variant: u8) -> Building {
    Building::_new(
        key(id),
        key(owner),
        variant,
        Vector3D::new(id as i64, 2, Some(3)),
        Vector3D::new(0, 0, Some(0)),
    )
}

fn deposit() -> InsertAction {
    InsertAction::ReallocAndDeposit { space_to_add: std::mem::size_of::<Building>(), nft_amount: 1 }
}

#[test]
fn key_eq_compares_every_byte() {
    let a = key(7);
    let mut bytes = [7u8; 32];
    assert!(a.key_eq(&Key::new(bytes)));
    bytes[31] = 8;
    assert!(!a.key_eq(&Key::new(bytes)));
    bytes[31] = 7;
    bytes[0] = 0;
    assert!(!a.key_eq(&Key::new(bytes)));
    assert_eq!(Key::new(bytes).to_bytes(), bytes);
}

#[test]
fn vector_without_z_has_zero_z() {
    assert_eq!(Vector3D::new(4, -5, None), Vector3D { x: 4, y: -5, z: 0 });
    assert_eq!(Vector3D::new(4, -5, Some(9)), Vector3D { x: 4, y: -5, z: 9 });
    assert_eq!(Vector3D::new(1, 2, None), Vector3D::new(1, 2, Some(0)));
}

#[test]
fn building_new_keeps_its_parts() {
    let b = Building::_new(key(1), key(2), 3, Vector3D::new(1, 2, Some(3)), Vector3D::new(4, 5, None));
    assert_eq!(b.id, key(1));
    assert_eq!(b.owner, key(2));
    assert_eq!(b.house_variant, 3);
    assert_eq!(b.position, Vector3D { x: 1, y: 2, z: 3 });
    assert_eq!(b.scale, Vector3D { x: 4, y: 5, z: 0 });
    assert_eq!(Building::space(), std::mem::size_of::<Building>());
}

#[test]
fn error_messages() {
    assert_eq!(CustomError::BuildingNotFound.message(), "House not found in town");
    assert_eq!(CustomError::InsufficientVaultSol.message(), "Not enough sol in vault");
    assert_eq!(CustomError::InsufficientRentVault.message(), "Not enough tokens to pay rent");
    assert_eq!(CustomError::UnauthorizedSigner.message(), "Asset not owned by signer");
    assert_eq!(CustomError::InsufficientVaultAsset.message(), "Asset not present in vault");
}

#[test]
fn new_town_is_empty() {
    let t = Town::new(String::from("downtown"));
    assert_eq!(t.name, "downtown");
    assert!(t.buildings.is_empty());
    assert!(!t.check_key(key(1)));
    assert_eq!(t._get_building(key(1)), Err(CustomError::BuildingNotFound));
}

#[test]
fn insert_adds_a_new_house_at_the_end() {
    let mut t = Town::new(String::from("t"));
    assert_eq!(t.insert_building(house(1, 9, 1)), deposit());
    assert_eq!(t.insert_building(house(2, 9, 2)), deposit());
    assert_eq!(t.buildings, vec![house(1, 9, 1), house(2, 9, 2)]);
    assert!(t.check_key(key(1)));
    assert!(t.check_key(key(2)));
    assert!(!t.check_key(key(3)));
    assert_eq!(t.name, "t");
}

#[test]
fn insert_of_a_present_nft_changes_nothing() {
    let mut t = Town::new(String::from("t"));
    t.insert_building(house(1, 9, 1));
    assert_eq!(t.insert_building(house(1, 8, 4)), InsertAction::Nothing);
    assert_eq!(t.buildings, vec![house(1, 9, 1)]);
}

#[test]
fn insert_house_builds_the_house() {
    let mut t = Town::new(String::from("t"));
    let pos = Vector3D::new(1, 2, Some(3));
    let scale = Vector3D::new(0, 0, Some(0));
    assert_eq!(t.insert_house(key(5), key(6), 2, pos, scale), deposit());
    assert_eq!(t.buildings, vec![Building::_new(key(5), key(6), 2, pos, scale)]);
    assert_eq!(t.insert_house(key(5), key(7), 3, pos, scale), InsertAction::Nothing);
    assert_eq!(t.buildings.len(), 1);
}

#[test]
fn get_building_finds_the_house() {
    let mut t = Town::new(String::from("t"));
    t.insert_building(house(1, 9, 1));
    t.insert_building(house(2, 8, 2));
    assert_eq!(t._get_building(key(2)), Ok(house(2, 8, 2)));
    assert_eq!(t._get_building(key(1)), Ok(house(1, 9, 1)));
    assert_eq!(t._get_building(key(3)), Err(CustomError::BuildingNotFound));
}

#[test]
fn get_building_gives_the_first_match() {
    let t = Town { name: String::from("t"), buildings: vec![house(1, 9, 1), house(1, 8, 2)] };
    assert_eq!(t._get_building(key(1)), Ok(house(1, 9, 1)));
}

#[test]
fn withdraw_needs_exactly_one_nft_in_the_vault() {
    let mut t = Town::new(String::from("t"));
    t.insert_building(house(1, 9, 1));
    assert_eq!(t.withdraw_building(0, key(1)), Err(CustomError::InsufficientVaultAsset));
    assert_eq!(t.withdraw_building(2, key(1)), Err(CustomError::InsufficientVaultAsset));
    assert_eq!(t.buildings, vec![house(1, 9, 1)]);
}

#[test]
fn withdraw_of_an_absent_nft_changes_nothing() {
    let mut t = Town::new(String::from("t"));
    t.insert_building(house(1, 9, 1));
    assert_eq!(t.withdraw_building(1, key(2)), Ok(WithdrawAction::Nothing));
    assert_eq!(t.buildings, vec![house(1, 9, 1)]);
}

#[test]
fn withdraw_removes_the_house_and_keeps_the_order() {
    let mut t = Town::new(String::from("t"));
    t.insert_building(house(1, 9, 1));
    t.insert_building(house(2, 9, 2));
    t.insert_building(house(3, 9, 3));
    assert_eq!(t.withdraw_building(1, key(2)), Ok(WithdrawAction::Withdraw { nft_amount: 1 }));
    assert_eq!(t.buildings, vec![house(1, 9, 1), house(3, 9, 3)]);
    assert!(!t.check_key(key(2)));
    assert!(t.check_key(key(1)));
    assert!(t.check_key(key(3)));
}

#[test]
fn withdraw_removes_every_house_of_the_nft() {
    let mut t = Town {
        name: String::from("t"),
        buildings: vec![house(1, 9, 1), house(2, 9, 2), house(1, 8, 3)],
    };
    assert_eq!(t.withdraw_building(1, key(1)), Ok(WithdrawAction::Withdraw { nft_amount: 1 }));
    assert_eq!(t.buildings, vec![house(2, 9, 2)]);
}

#[test]
fn withdraw_undoes_insert() {
    let mut t = Town::new(String::from("t"));
    t.insert_building(house(1, 9, 1));
    t.insert_building(house(2, 9, 2));
    let before = t.buildings.clone();
    t.insert_building(house(3, 9, 3));
    t.withdraw_building(1, key(3)).unwrap();
    assert_eq!(t.buildings, before);
}

#[test]
fn withdraw_removes_exactly_one_house() {
    let mut t = Town::new(String::from("t"));
    for i in 0..5u8 {
        t.insert_building(house(i, 9, i));
    }
    t.withdraw_building(1, key(4)).unwrap();
    assert_eq!(t.buildings.len(), 4);
}

#[test]
fn withdraw_does_not_look_at_the_owner() {
    let mut t = Town::new(String::from("t"));
    t.insert_building(house(1, 9, 1));
    t.insert_building(house(2, 8, 2));
    assert_eq!(t.withdraw_building(1, key(2)), Ok(WithdrawAction::Withdraw { nft_amount: 1 }));
    assert_eq!(t.buildings, vec![house(1, 9, 1)]);
}

#[test]
fn claim_rent_needs_the_house() {
    let t = Town::new(String::from("t"));
    assert_eq!(t.claim_rent(key(1), 20, 10, 3, 1_000), Err(CustomError::BuildingNotFound));
}

#[test]
fn claim_rent_uses_the_house_kind() {
    let mut t = Town::new(String::from("t"));
    t.insert_building(house(1, 9, 2));
    t.insert_building(house(2, 9, 5));
    assert_eq!(t.claim_rent(key(1), 20, 10, 3, 1_000), Ok(60));
    assert_eq!(t.claim_rent(key(2), 20, 10, 3, 1_000), Ok(150));
    assert_eq!(t.claim_rent(key(2), 20, 10, 3, 149), Err(CustomError::InsufficientRentVault));
    assert_eq!(t.claim_rent(key(2), 20, 10, 3, 150), Ok(150));
}
