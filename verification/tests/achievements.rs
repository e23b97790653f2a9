use seasonal_event::achievements::AchievementNFT;
use seasonal_event::achievements::NftError;

#[test]
fn test_nft_lifecycle() {
    let mut registry = AchievementNFT::new();

    let admin: u64 = 1;
    let user_a: u64 = 2;
    let user_b: u64 = 3;

    registry.initialize(admin).unwrap();

    let metadata = String::from("Master Puzzler");
    let token_id_1 = registry.mint(user_a, 101, metadata.clone(), 0);
    let token_id_2 = registry.mint(user_a, 102, metadata, 0);

    assert_eq!(token_id_1, 1);
    assert_eq!(token_id_2, 2);

    registry.transfer(user_a, user_b, token_id_1).unwrap();
    assert_eq!(registry.owner_of(token_id_1), Ok(user_b));

    registry.burn(token_id_2).unwrap();
    assert_eq!(registry.total_supply(), 1);
}

#[test]
fn test_get_non_existent_achievement() {
    let mut registry = AchievementNFT::new();

    let admin: u64 = 1;
    registry.initialize(admin).unwrap();

    assert!(registry.get_achievement(99).is_none());
}

#[test]
fn initialize_twice_rejected() {
    let mut registry = AchievementNFT::new();
    assert_eq!(registry.initialize(1), Ok(()));
    assert_eq!(registry.initialize(2), Err(NftError::AlreadyInitialized));
}

#[test]
fn transfer_by_non_owner_rejected() {
    let mut registry = AchievementNFT::new();
    registry.initialize(1).unwrap();

    let user_a: u64 = 2;
    let hacker: u64 = 4;
    let token_id = registry.mint(user_a, 1, String::from("test"), 0);

    assert_eq!(
        registry.transfer(hacker, hacker, token_id),
        Err(NftError::NotOwner)
    );
    assert_eq!(registry.owner_of(token_id), Ok(user_a));
}

#[test]
fn unknown_token_rejected() {
    let mut registry = AchievementNFT::new();
    registry.initialize(1).unwrap();

    assert_eq!(registry.owner_of(9), Err(NftError::TokenNotFound));
    assert_eq!(registry.transfer(2, 3, 9), Err(NftError::TokenNotFound));
    assert_eq!(registry.burn(9), Err(NftError::TokenNotFound));
}

#[test]
fn burned_token_is_gone_and_id_not_reused() {
    let mut registry = AchievementNFT::new();
    registry.initialize(1).unwrap();

    let user: u64 = 2;
    let first = registry.mint(user, 7, String::from("a"), 10);
    registry.burn(first).unwrap();

    assert!(registry.get_achievement(first).is_none());
    assert_eq!(registry.burn(first), Err(NftError::TokenNotFound));
    assert_eq!(registry.total_supply(), 0);

    let second = registry.mint(user, 8, String::from("b"), 11);
    assert_eq!(second, 2);
    assert_eq!(registry.total_supply(), 1);
}

#[test]
fn collections_track_ownership_in_order() {
    let mut registry = AchievementNFT::new();
    registry.initialize(1).unwrap();

    let user_a: u64 = 2;
    let user_b: u64 = 3;

    let t1 = registry.mint(user_a, 1, String::from("m"), 0);
    let t2 = registry.mint(user_a, 2, String::from("m"), 0);
    let t3 = registry.mint(user_b, 3, String::from("m"), 0);

    assert_eq!(registry.get_collection(user_a), vec![t1, t2]);
    assert_eq!(registry.get_collection(user_b), vec![t3]);

    registry.transfer(user_a, user_b, t1).unwrap();
    assert_eq!(registry.get_collection(user_a), vec![t2]);
    assert_eq!(registry.get_collection(user_b), vec![t3, t1]);

    registry.burn(t3).unwrap();
    assert_eq!(registry.get_collection(user_b), vec![t1]);
}

#[test]
fn achievement_fields_are_stored() {
    let mut registry = AchievementNFT::new();
    registry.initialize(1).unwrap();

    let user: u64 = 2;
    let token_id = registry.mint(user, 42, String::from("Champion"), 77);

    let a = registry.get_achievement(token_id).unwrap();
    assert_eq!(a.owner, user);
    assert_eq!(a.puzzle_id, 42);
    assert_eq!(a.metadata, String::from("Champion"));
    assert_eq!(a.timestamp, 77);
}

#[test]
fn self_transfer_moves_token_to_collection_end() {
    let mut registry = AchievementNFT::new();
    registry.initialize(1).unwrap();

    let user: u64 = 2;
    let t1 = registry.mint(user, 1, String::from("m"), 0);
    let t2 = registry.mint(user, 2, String::from("m"), 0);

    registry.transfer(user, user, t1).unwrap();
    assert_eq!(registry.get_collection(user), vec![t2, t1]);
    assert_eq!(registry.owner_of(t1), Ok(user));
    assert_eq!(registry.total_supply(), 2);
}
