use apis::challenge::{
    ChallengeId, ChallengeResponse, ChallengeVisibility, Challenger, ColorChoice, GameType,
    TimeMode, UserId,
};
use apis::grouping::GroupedChallenge;
use apis::online::{OnlineUsersState, UserStatus};
use apis::ordering::{challenge_order, compare_times, group_stands_behind, grouped_challenge_order};
use std::cmp::Ordering;

fn challenge(id: &str, name: &str, base: Option<i32>, increment: Option<i32>) -> ChallengeResponse {
    ChallengeResponse {
        challenge_id: ChallengeId(id.to_string()),
        challenger: Challenger { uid: UserId(1), username: name.to_string() },
        opponent: None,
        game_type: GameType::Base,
        rated: false,
        time_mode: TimeMode::RealTime,
        time_base: base,
        time_increment: increment,
        color_choice: ColorChoice::Random,
        visibility: ChallengeVisibility::Public,
        band_lower: None,
        band_upper: None,
    }
}

fn presence(online: &[&str], away: &[&str]) -> OnlineUsersState {
    let mut state = OnlineUsersState::new();
    for name in online {
        state.set_status(name.to_string(), UserStatus::Online);
    }
    for name in away {
        state.set_status(name.to_string(), UserStatus::Away);
    }
    state
}

#[test]
fn a_challenge_is_equal_to_itself() {
    let state = presence(&["ann"], &[]);
    let x = challenge("x", "ann", Some(60), Some(1));
    assert_eq!(challenge_order(&x, &x, &state), Ordering::Equal);
}

#[test]
fn one_identifier_is_equal_whatever_else_differs() {
    let state = presence(&["ann"], &[]);
    let a = challenge("x", "ann", Some(60), Some(1));
    let b = challenge("x", "bob", None, None);
    assert_eq!(challenge_order(&a, &b, &state), Ordering::Equal);
    assert_eq!(challenge_order(&b, &a, &state), Ordering::Equal);
}

#[test]
fn online_challenger_comes_first_whatever_the_times() {
    let state = presence(&["ann"], &[]);
    let a = challenge("a", "ann", None, None);
    let b = challenge("b", "bob", Some(1), Some(0));
    assert_eq!(challenge_order(&a, &b, &state), Ordering::Less);
    assert_eq!(challenge_order(&b, &a, &state), Ordering::Greater);
}

#[test]
fn away_and_offline_are_not_online() {
    let mut state = presence(&["ann"], &["bob"]);
    state.set_status("cid".to_string(), UserStatus::Offline);
    let a = challenge("a", "ann", Some(900), Some(10));
    let b = challenge("b", "bob", Some(60), Some(0));
    let c = challenge("c", "cid", Some(60), Some(0));
    assert_eq!(challenge_order(&a, &b, &state), Ordering::Less);
    assert_eq!(challenge_order(&a, &c, &state), Ordering::Less);
    assert_eq!(challenge_order(&b, &c, &state), Ordering::Equal);
}

#[test]
fn both_online_fall_back_to_the_times() {
    let state = presence(&["ann", "bob"], &[]);
    let a = challenge("a", "ann", Some(300), Some(3));
    let b = challenge("b", "bob", Some(600), Some(0));
    assert_eq!(challenge_order(&a, &b, &state), Ordering::Less);
    assert_eq!(challenge_order(&b, &a, &state), Ordering::Greater);
}

#[test]
fn base_time_decides_before_increment() {
    let state = OnlineUsersState::new();
    let a = challenge("a", "ann", Some(300), Some(30));
    let b = challenge("b", "bob", Some(600), Some(0));
    assert_eq!(challenge_order(&a, &b, &state), Ordering::Less);
}

#[test]
fn equal_base_time_is_decided_by_increment() {
    let state = OnlineUsersState::new();
    let a = challenge("a", "ann", Some(300), Some(2));
    let b = challenge("b", "bob", Some(300), Some(5));
    assert_eq!(challenge_order(&a, &b, &state), Ordering::Less);
    assert_eq!(challenge_order(&b, &a, &state), Ordering::Greater);
    let c = challenge("c", "cid", Some(300), Some(5));
    assert_eq!(challenge_order(&b, &c, &state), Ordering::Equal);
}

#[test]
fn missing_increment_sorts_after_any_increment() {
    let state = OnlineUsersState::new();
    let with = challenge("a", "ann", Some(300), Some(i32::MAX));
    let without = challenge("b", "bob", Some(300), None);
    assert_eq!(challenge_order(&with, &without, &state), Ordering::Less);
    assert_eq!(challenge_order(&without, &with, &state), Ordering::Greater);
    let both_absent_base_a = challenge("c", "cid", None, Some(0));
    let both_absent_base_b = challenge("d", "dan", None, None);
    assert_eq!(challenge_order(&both_absent_base_a, &both_absent_base_b, &state), Ordering::Less);
}

#[test]
fn missing_base_time_sorts_after_any_base_time() {
    let state = OnlineUsersState::new();
    let with = challenge("a", "ann", Some(i32::MAX), None);
    let without = challenge("b", "bob", None, Some(0));
    assert_eq!(challenge_order(&with, &without, &state), Ordering::Less);
    assert_eq!(challenge_order(&without, &with, &state), Ordering::Greater);
}

#[test]
fn both_times_absent_on_both_sides_is_equal() {
    let state = OnlineUsersState::new();
    let a = challenge("a", "ann", None, None);
    let b = challenge("b", "bob", None, None);
    assert_eq!(challenge_order(&a, &b, &state), Ordering::Equal);
}

#[test]
fn negative_times_are_compared_by_value() {
    assert_eq!(compare_times(Some(-5), Some(3)), Ordering::Less);
    assert_eq!(compare_times(Some(i32::MIN), Some(i32::MAX)), Ordering::Less);
    assert_eq!(compare_times(Some(4), Some(4)), Ordering::Equal);
    assert_eq!(compare_times(Some(5), Some(4)), Ordering::Greater);
    assert_eq!(compare_times(None, Some(i32::MAX)), Ordering::Greater);
    assert_eq!(compare_times(Some(i32::MAX), None), Ordering::Less);
    assert_eq!(compare_times(None, None), Ordering::Equal);
}

#[test]
fn groups_are_ordered_by_the_challenge_that_stands_for_them() {
    let state = presence(&["bob"], &[]);
    let slow = GroupedChallenge::group_challenges(vec![
        challenge("a1", "ann", Some(900), Some(0)),
        challenge("a2", "ann", Some(900), Some(0)),
    ]);
    let fast = GroupedChallenge::group_challenges(vec![challenge("b1", "bob", Some(60), Some(0))]);
    assert_eq!(grouped_challenge_order(&slow[0], &fast[0], &state), Ordering::Greater);
    assert_eq!(grouped_challenge_order(&fast[0], &slow[0], &state), Ordering::Less);
    assert_eq!(grouped_challenge_order(&slow[0], &slow[0], &state), Ordering::Equal);
    assert!(group_stands_behind(&slow[0], &fast[0], &state));
    assert!(!group_stands_behind(&fast[0], &slow[0], &state));
    assert!(!group_stands_behind(&fast[0], &fast[0], &state));
}
