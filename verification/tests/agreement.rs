use apis::challenge::{
    ChallengeId, ChallengeResponse, ChallengeVisibility, Challenger, ColorChoice, GameType,
    Opponent, TimeMode, UserId,
};
use apis::grouping::{GroupKey, GroupedChallenge};
use apis::lobby::{copy_groups, Audience, Challenges};
use apis::online::{OnlineUsersState, UserStatus};
use apis::ordering::challenge_order;
use apis::sorting::sort_groups;
use std::cmp::Ordering;
use std::collections::HashMap;

struct Dice(u64);

impl Dice {
    fn roll(&mut self, sides: u64) -> u64 {
        self.0 = self.0.wrapping_mul(6364136223846793005).wrapping_add(1442695040888963407);
        (self.0 >> 33) % sides
    }
}

fn time(dice: &mut Dice) -> Option<i32> {
    match dice.roll(4) {
        0 => None,
        1 => Some(60),
        2 => Some(300),
        _ => Some(i32::MAX),
    }
}

fn random_challenge(dice: &mut Dice, number: usize) -> ChallengeResponse {
    let uid = dice.roll(4) as u128;
    ChallengeResponse {
        challenge_id: ChallengeId(format!("c{}", number)),
        challenger: Challenger { uid: UserId(uid), username: format!("user{}", uid) },
        opponent: match dice.roll(3) {
            0 => Some(Opponent { uid: UserId(dice.roll(4) as u128) }),
            _ => None,
        },
        game_type: if dice.roll(2) == 0 { GameType::Base } else { GameType::Mlp },
        rated: dice.roll(2) == 0,
        time_mode: TimeMode::RealTime,
        time_base: time(dice),
        time_increment: time(dice),
        color_choice: ColorChoice::Random,
        visibility: ChallengeVisibility::Public,
        band_lower: None,
        band_upper: None,
    }
}

fn presence() -> OnlineUsersState {
    let mut state = OnlineUsersState::new();
    state.set_status("user0".to_string(), UserStatus::Online);
    state.set_status("user1".to_string(), UserStatus::Away);
    state.set_status("user2".to_string(), UserStatus::Online);
    state
}

fn rank(c: &ChallengeResponse) -> (u8, i64, i64) {
    let online = c.challenger.username == "user0" || c.challenger.username == "user2";
    let place = |t: Option<i32>| match t {
        Some(value) => value as i64,
        None => i32::MAX as i64 + 1,
    };
    (if online { 0 } else { 1 }, place(c.time_base), place(c.time_increment))
}

#[test]
fn grouping_agrees_with_grouping_by_a_map() {
    let mut dice = Dice(11);
    for round in 0..40 {
        let input: Vec<ChallengeResponse> =
            (0..(round % 17)).map(|n| random_challenge(&mut dice, n)).collect();
        let mut by_key: HashMap<GroupKey, Vec<ChallengeId>> = HashMap::new();
        let mut order: Vec<GroupKey> = Vec::new();
        for c in input.iter() {
            let key = GroupedChallenge::group_key(c);
            if !by_key.contains_key(&key) {
                order.push(key);
            }
            by_key.entry(key).or_default().push(c.challenge_id.clone());
        }
        let groups = GroupedChallenge::group_challenges(input.clone());
        assert_eq!(groups.len(), order.len());
        let mut total = 0;
        for (group, key) in groups.iter().zip(order.iter()) {
            assert_eq!(GroupedChallenge::group_key(&group.challenge), *key);
            assert_eq!(group.challenge_ids, by_key[key]);
            assert_eq!(group.count, by_key[key].len());
            assert_eq!(group.challenge.challenge_id, group.challenge_ids[0]);
            let first = input.iter().find(|c| GroupedChallenge::group_key(c) == *key).unwrap();
            assert_eq!(&group.challenge, first);
            total += group.count;
        }
        assert_eq!(total, input.len());
    }
}

#[test]
fn sorting_agrees_with_a_stable_sort_by_rank() {
    let mut dice = Dice(23);
    let state = presence();
    for round in 0..40 {
        let input: Vec<GroupedChallenge> = (0..(round % 19))
            .map(|n| {
                let c = random_challenge(&mut dice, n);
                let id = c.challenge_id.clone();
                GroupedChallenge { challenge: c, challenge_ids: vec![id], count: 1 }
            })
            .collect();
        let mut expected = copy_groups(&input);
        expected.sort_by_key(|g| rank(&g.challenge));
        let sorted = sort_groups(input, &state);
        assert_eq!(sorted, expected);
        for pair in sorted.windows(2) {
            assert_ne!(
                challenge_order(&pair[0].challenge, &pair[1].challenge, &state),
                Ordering::Greater
            );
        }
    }
}

#[test]
fn order_agrees_with_the_order_of_ranks() {
    let mut dice = Dice(5);
    let state = presence();
    let pool: Vec<ChallengeResponse> = (0..60).map(|n| random_challenge(&mut dice, n)).collect();
    for a in pool.iter() {
        for b in pool.iter() {
            let expected = if a.challenge_id == b.challenge_id {
                Ordering::Equal
            } else {
                rank(a).cmp(&rank(b))
            };
            assert_eq!(challenge_order(a, b, &state), expected);
        }
    }
}

#[test]
fn lists_show_each_challenge_of_a_user_at_most_once_per_list() {
    let mut dice = Dice(77);
    let state = presence();
    for round in 0..30 {
        let store: Vec<ChallengeResponse> =
            (0..(round % 13)).map(|n| random_challenge(&mut dice, n)).collect();
        let viewer = UserId(1);
        let lists = Challenges(&store, Some(viewer), &state);
        let listed = |groups: &Vec<GroupedChallenge>| -> Vec<ChallengeId> {
            groups.iter().flat_map(|g| g.challenge_ids.iter().cloned()).collect()
        };
        for c in store.iter() {
            let direct = c.opponent == Some(Opponent { uid: viewer });
            let own = c.challenger.uid == viewer;
            let public = c.opponent.is_none() && c.challenger.uid != viewer;
            let count =
                |ids: Vec<ChallengeId>| ids.iter().filter(|id| **id == c.challenge_id).count();
            assert_eq!(count(listed(&lists.direct)), if direct { 1 } else { 0 });
            assert_eq!(count(listed(&lists.own)), if own { 1 } else { 0 });
            assert_eq!(count(listed(&lists.public)), if public { 1 } else { 0 });
            assert_eq!(apis::lobby::in_list(c, Audience::Direct, Some(viewer)), direct);
            assert_eq!(apis::lobby::in_list(c, Audience::Own, Some(viewer)), own);
            assert_eq!(apis::lobby::in_list(c, Audience::Public, Some(viewer)), public);
        }
    }
}

#[test]
fn copies_are_equal_to_what_they_copy() {
    let mut dice = Dice(3);
    let store: Vec<ChallengeResponse> = (0..9).map(|n| random_challenge(&mut dice, n)).collect();
    for c in store.iter() {
        assert_eq!(&c.clone(), c);
        assert_eq!(c.challenge_id.clone(), c.challenge_id);
        assert_eq!(c.challenger.clone(), c.challenger);
    }
    let groups = GroupedChallenge::group_challenges(store.clone());
    for group in groups.iter() {
        assert_eq!(&group.clone(), group);
    }
    assert_eq!(copy_groups(&groups), groups);
    let lists = Challenges(&store, None, &presence());
    assert_eq!(lists.clone(), lists);
}

#[test]
fn identifiers_are_compared_as_texts() {
    let a = ChallengeId("abc".to_string());
    let b = ChallengeId("abc".to_string());
    let c = ChallengeId("abd".to_string());
    assert!(a.same_as(&b));
    assert!(!a.same_as(&c));
    assert!(!ChallengeId(String::new()).same_as(&a));
}
