use seasonal_event::events::setup;
use seasonal_event::events::Address;
use seasonal_event::events::Error;
use seasonal_event::events::ScoreSubmission;
use seasonal_event::events::SeasonalEventContract;

fn create_basic_event(
    contract: &mut SeasonalEventContract,
    admin: Address,
    start_time: u64,
    end_time: u64,
    bonus: u32,
) -> u64 {
    contract
        .create_event(
            admin,
            String::from("Winter Festival"),
            start_time,
            end_time,
            1000i128,
            bonus,
            String::from("winter_nft"),
            vec![1u32, 2u32],
        )
        .unwrap()
}

#[test]
fn event_activation_by_time() {
    let (mut contract, admin, _user) = setup();

    let event_id = create_basic_event(&mut contract, admin, 200, 300, 10_000);

    assert!(!contract.is_event_active(event_id, 100));
    assert!(contract.is_event_active(event_id, 250));
    assert!(!contract.is_event_active(event_id, 301));
}

#[test]
fn reward_claim_applies_bonus() {
    let (mut contract, admin, user) = setup();

    let event_id = create_basic_event(&mut contract, admin, 100, 200, 15_000);

    contract
        .record_puzzle_completion(admin, event_id, user, 1u32, 25i128, 100)
        .unwrap();

    let reward = contract.claim_event_reward(event_id, user, 100).unwrap();
    assert_eq!(reward, 1500);
}

#[test]
fn reward_claim_fails_after_end() {
    let (mut contract, admin, user) = setup();

    let event_id = create_basic_event(&mut contract, admin, 100, 200, 10_000);
    contract
        .record_puzzle_completion(admin, event_id, user, 1u32, 10i128, 100)
        .unwrap();

    let r = contract.claim_event_reward(event_id, user, 250);
    assert_eq!(r, Err(Error::EventNotActive));
}

#[test]
fn mint_event_nft_once() {
    let (mut contract, admin, user) = setup();

    let event_id = create_basic_event(&mut contract, admin, 100, 200, 10_000);

    contract
        .record_puzzle_completion(admin, event_id, user, 1u32, 10i128, 100)
        .unwrap();
    contract.claim_event_reward(event_id, user, 100).unwrap();

    let token_id = contract.mint_event_nft(event_id, user, 100).unwrap();
    assert_eq!(token_id, 1);

    let nft = contract.get_event_nft(token_id).unwrap();
    assert_eq!(nft.event_id, event_id);
    assert_eq!(nft.owner, user);
}

#[test]
fn reward_claim_requires_participation() {
    let (mut contract, admin, user) = setup();

    let event_id = create_basic_event(&mut contract, admin, 100, 200, 10_000);

    let r = contract.claim_event_reward(event_id, user, 100);
    assert_eq!(r, Err(Error::NotParticipant));
}

#[test]
fn record_same_completion_twice_rejected() {
    let (mut contract, admin, user) = setup();

    let event_id = create_basic_event(&mut contract, admin, 100, 200, 10_000);

    contract
        .record_puzzle_completion(admin, event_id, user, 1u32, 25i128, 150)
        .unwrap();
    assert_eq!(contract.get_event_score(event_id, user), 25);

    let second = contract.record_puzzle_completion(admin, event_id, user, 1u32, 25i128, 150);
    assert_eq!(second, Err(Error::AlreadyCompleted));
    assert_eq!(contract.get_event_score(event_id, user), 25);
}

#[test]
fn activation_boundaries_swept() {
    let (mut contract, admin, _user) = setup();

    let event_id = create_basic_event(&mut contract, admin, 100, 200, 10_000);

    assert!(!contract.is_event_active(event_id, 99));
    assert!(contract.is_event_active(event_id, 100));
    assert!(contract.is_event_active(event_id, 200));
    assert!(!contract.is_event_active(event_id, 201));
}

#[test]
fn cancelled_event_is_never_active() {
    let (mut contract, admin, _user) = setup();

    let event_id = create_basic_event(&mut contract, admin, 100, 200, 10_000);
    contract.set_event_cancelled(admin, event_id, true).unwrap();
    assert!(!contract.is_event_active(event_id, 150));

    contract.set_event_cancelled(admin, event_id, false).unwrap();
    assert!(contract.is_event_active(event_id, 150));
}

#[test]
fn second_claim_rejected() {
    let (mut contract, admin, user) = setup();

    let event_id = create_basic_event(&mut contract, admin, 100, 200, 10_000);
    contract
        .record_puzzle_completion(admin, event_id, user, 2u32, 5i128, 120)
        .unwrap();

    assert_eq!(contract.claim_event_reward(event_id, user, 120), Ok(1000));
    assert_eq!(
        contract.claim_event_reward(event_id, user, 120),
        Err(Error::AlreadyClaimed)
    );
}

#[test]
fn mint_gated_on_claim_and_not_repeatable() {
    let (mut contract, admin, user) = setup();

    let event_id = create_basic_event(&mut contract, admin, 100, 200, 10_000);
    contract
        .record_puzzle_completion(admin, event_id, user, 1u32, 10i128, 100)
        .unwrap();

    assert_eq!(
        contract.mint_event_nft(event_id, user, 100),
        Err(Error::RewardNotYetClaimed)
    );

    contract.claim_event_reward(event_id, user, 100).unwrap();
    assert_eq!(contract.mint_event_nft(event_id, user, 100), Ok(1));
    assert_eq!(
        contract.mint_event_nft(event_id, user, 100),
        Err(Error::AlreadyMinted)
    );
}

#[test]
fn zero_bonus_is_normalized() {
    let (mut contract, admin, user) = setup();

    let event_id = create_basic_event(&mut contract, admin, 100, 200, 0);

    let event = contract.get_event(event_id).unwrap();
    assert_eq!(event.bonus_multiplier_bps, 10_000);

    contract
        .record_puzzle_completion(admin, event_id, user, 1u32, 10i128, 100)
        .unwrap();
    assert_eq!(contract.claim_event_reward(event_id, user, 100), Ok(1000));
}

#[test]
fn end_to_end_bonus_scenario() {
    let (mut contract, admin, user) = setup();

    let event_id = contract
        .create_event(
            admin,
            String::from("Winter Festival"),
            100,
            200,
            1000i128,
            15_000,
            String::from("winter_nft"),
            vec![1u32, 2u32],
        )
        .unwrap();

    contract
        .record_puzzle_completion(admin, event_id, user, 1u32, 25i128, 100)
        .unwrap();

    assert_eq!(contract.claim_event_reward(event_id, user, 100), Ok(1500));

    let token_id = contract.mint_event_nft(event_id, user, 100).unwrap();
    assert_eq!(token_id, 1);
    let nft = contract.get_event_nft(token_id).unwrap();
    assert_eq!(nft.event_id, event_id);
    assert_eq!(nft.owner, user);
    assert_eq!(nft.metadata, String::from("winter_nft"));
    assert_eq!(nft.minted_at, 100);
}

#[test]
fn apply_bonus_rounds_toward_negative_infinity() {
    assert_eq!(SeasonalEventContract::apply_bonus(1000, 15_000), 1500);
    assert_eq!(SeasonalEventContract::apply_bonus(1000, 0), 1000);
    assert_eq!(SeasonalEventContract::apply_bonus(999, 5000), 499);
    assert_eq!(SeasonalEventContract::apply_bonus(-999, 5000), -500);
    assert_eq!(SeasonalEventContract::apply_bonus(-1001, 5000), -501);
}

#[test]
fn initialize_only_once() {
    let mut contract = SeasonalEventContract::new();
    assert_eq!(contract.initialize(1, None), Ok(()));
    assert_eq!(contract.initialize(1, None), Err(Error::AlreadyInitialized));
}

#[test]
fn admin_only_operations_reject_others() {
    let (mut contract, admin, user) = setup();

    let r = contract.create_event(
        user,
        String::from("Rogue"),
        1,
        2,
        1i128,
        0,
        String::from("m"),
        vec![1u32],
    );
    assert_eq!(r, Err(Error::Unauthorized));

    let event_id = create_basic_event(&mut contract, admin, 100, 200, 10_000);
    assert_eq!(
        contract.update_event_times(user, event_id, 10, 20),
        Err(Error::Unauthorized)
    );
    assert_eq!(contract.set_paused(user, true), Err(Error::Unauthorized));
    assert_eq!(contract.add_verifier(user, 7), Err(Error::Unauthorized));
}

#[test]
fn invalid_time_range_rejected() {
    let (mut contract, admin, _user) = setup();

    let r = contract.create_event(
        admin,
        String::from("Backwards"),
        200,
        200,
        1i128,
        0,
        String::from("m"),
        vec![1u32],
    );
    assert_eq!(r, Err(Error::InvalidTimeRange));

    let event_id = create_basic_event(&mut contract, admin, 100, 200, 10_000);
    assert_eq!(
        contract.update_event_times(admin, event_id, 300, 250),
        Err(Error::InvalidTimeRange)
    );
}

#[test]
fn unknown_event_rejected() {
    let (mut contract, admin, user) = setup();

    assert!(contract.get_event(5).is_err());
    assert_eq!(
        contract.update_event_puzzles(admin, 5, vec![1u32]),
        Err(Error::EventNotFound)
    );
    assert_eq!(
        contract.record_puzzle_completion(admin, 5, user, 1u32, 1i128, 100),
        Err(Error::EventNotFound)
    );
    assert_eq!(contract.get_event_score(5, user), 0);
    assert!(!contract.has_completed_puzzle(5, user, 1u32));
}

#[test]
fn paused_contract_rejects_mutations() {
    let (mut contract, admin, user) = setup();

    let event_id = create_basic_event(&mut contract, admin, 100, 200, 10_000);
    contract.set_paused(admin, true).unwrap();

    assert_eq!(
        contract.record_puzzle_completion(admin, event_id, user, 1u32, 1i128, 100),
        Err(Error::ContractPaused)
    );
    assert_eq!(
        contract.claim_event_reward(event_id, user, 100),
        Err(Error::ContractPaused)
    );

    contract.set_paused(admin, false).unwrap();
    assert!(contract
        .record_puzzle_completion(admin, event_id, user, 1u32, 1i128, 100)
        .is_ok());
}

#[test]
fn task_outside_event_rejected() {
    let (mut contract, admin, user) = setup();

    let event_id = create_basic_event(&mut contract, admin, 100, 200, 10_000);
    assert_eq!(
        contract.record_puzzle_completion(admin, event_id, user, 3u32, 1i128, 100),
        Err(Error::PuzzleNotInEvent)
    );
}

#[test]
fn verifiers_may_record_completions() {
    let (mut contract, admin, user) = setup();
    let verifier: Address = 7;

    let event_id = create_basic_event(&mut contract, admin, 100, 200, 10_000);

    assert_eq!(
        contract.record_puzzle_completion(verifier, event_id, user, 1u32, 5i128, 100),
        Err(Error::Unauthorized)
    );

    contract.add_verifier(admin, verifier).unwrap();
    assert!(contract
        .record_puzzle_completion(verifier, event_id, user, 1u32, 5i128, 100)
        .is_ok());

    contract.remove_verifier(admin, verifier).unwrap();
    assert_eq!(
        contract.record_puzzle_completion(verifier, event_id, user, 2u32, 5i128, 100),
        Err(Error::Unauthorized)
    );
}

#[test]
fn leaderboard_submission_returned_when_configured() {
    let (mut contract, admin, user) = setup();
    let leaderboard: Address = 9;

    let event_id = create_basic_event(&mut contract, admin, 100, 200, 10_000);

    let none = contract
        .record_puzzle_completion(admin, event_id, user, 1u32, 5i128, 100)
        .unwrap();
    assert_eq!(none, None);

    contract.set_leaderboard(admin, Some(leaderboard)).unwrap();
    let some = contract
        .record_puzzle_completion(admin, event_id, user, 2u32, 7i128, 100)
        .unwrap();
    assert_eq!(
        some,
        Some(ScoreSubmission {
            leaderboard,
            user,
            score: 12
        })
    );
}

#[test]
fn scores_accumulate_per_user_and_event() {
    let (mut contract, admin, user) = setup();
    let other: Address = 3;

    let event_id = create_basic_event(&mut contract, admin, 100, 200, 10_000);

    contract
        .record_puzzle_completion(admin, event_id, user, 1u32, 10i128, 100)
        .unwrap();
    contract
        .record_puzzle_completion(admin, event_id, user, 2u32, 15i128, 100)
        .unwrap();
    contract
        .record_puzzle_completion(admin, event_id, other, 1u32, 4i128, 100)
        .unwrap();

    assert_eq!(contract.get_event_score(event_id, user), 25);
    assert_eq!(contract.get_event_score(event_id, other), 4);
    assert!(contract.has_completed_puzzle(event_id, user, 1u32));
    assert!(contract.has_completed_puzzle(event_id, user, 2u32));
    assert!(!contract.has_completed_puzzle(event_id, other, 2u32));
}

#[test]
fn claim_reads_live_event_configuration() {
    let (mut contract, admin, user) = setup();

    let event_id = create_basic_event(&mut contract, admin, 100, 200, 10_000);
    contract
        .record_puzzle_completion(admin, event_id, user, 1u32, 10i128, 100)
        .unwrap();

    contract
        .update_event_rewards(admin, event_id, 2000i128, 15_000, String::from("updated_nft"))
        .unwrap();

    assert_eq!(contract.claim_event_reward(event_id, user, 100), Ok(3000));

    let token_id = contract.mint_event_nft(event_id, user, 150).unwrap();
    let nft = contract.get_event_nft(token_id).unwrap();
    assert_eq!(nft.metadata, String::from("updated_nft"));
    assert_eq!(nft.minted_at, 150);
}

#[test]
fn content_access_requires_active_event_and_participation() {
    let (mut contract, admin, user) = setup();

    let event_id = create_basic_event(&mut contract, admin, 100, 200, 10_000);
    assert!(!contract.can_access_event_content(event_id, user, 150));

    contract
        .record_puzzle_completion(admin, event_id, user, 1u32, 1i128, 150)
        .unwrap();
    assert!(contract.can_access_event_content(event_id, user, 150));
    assert!(!contract.can_access_event_content(event_id, user, 250));
}

#[test]
fn event_ids_are_assigned_monotonically() {
    let (mut contract, admin, _user) = setup();

    let first = create_basic_event(&mut contract, admin, 100, 200, 10_000);
    let second = create_basic_event(&mut contract, admin, 300, 400, 10_000);
    assert_eq!(first, 1);
    assert_eq!(second, 2);

    let event = contract.get_event(second).unwrap();
    assert_eq!(event.id, 2);
    assert_eq!(event.name, String::from("Winter Festival"));
    assert_eq!(event.start_time, 300);
    assert_eq!(event.end_time, 400);
    assert_eq!(event.reward_amount, 1000);
    assert_eq!(event.puzzle_ids, vec![1u32, 2u32]);
    assert!(!event.cancelled);
}
