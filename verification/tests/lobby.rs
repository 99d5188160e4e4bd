use apis::challenge::{
    ChallengeId, ChallengeResponse, ChallengeVisibility, Challenger, ColorChoice, GameType,
    Opponent, TimeMode, UserId,
};
use apis::grouping::GroupedChallenge;
use apis::lobby::{challenge_list, in_list, select, Audience, ChallengeLists, Challenges};
use apis::online::{OnlineUsersState, UserStatus};

fn challenge(
    id: &str,
    challenger: u128,
    name: &str,
    opponent: Option<u128>,
    base: i32,
) -> ChallengeResponse {
    ChallengeResponse {
        challenge_id: ChallengeId(id.to_string()),
        challenger: Challenger { uid: UserId(challenger), username: name.to_string() },
        opponent: opponent.map(|uid| Opponent { uid: UserId(uid) }),
        game_type: GameType::Mlp,
        rated: true,
        time_mode: TimeMode::RealTime,
        time_base: Some(base),
        time_increment: Some(0),
        color_choice: ColorChoice::Random,
        visibility: if opponent.is_some() {
            ChallengeVisibility::Direct
        } else {
            ChallengeVisibility::Public
        },
        band_lower: None,
        band_upper: None,
    }
}

fn single(c: ChallengeResponse) -> GroupedChallenge {
    let id = c.challenge_id.clone();
    GroupedChallenge { challenge: c, challenge_ids: vec![id], count: 1 }
}

#[test]
fn visitor_sees_every_challenge_as_direct() {
    let x = challenge("x", 1, "ann", None, 60);
    let y = challenge("y", 2, "bob", Some(1), 300);
    let store = vec![x.clone(), y.clone()];
    let lists = Challenges(&store, None, &OnlineUsersState::new());
    assert_eq!(lists.direct, vec![single(x), single(y)]);
    assert_eq!(lists.own, Vec::new());
    assert_eq!(lists.public, Vec::new());
    assert!(lists.not_hidden());
}

#[test]
fn visitor_lists_are_grouped_and_sorted() {
    let store = vec![
        challenge("x1", 1, "ann", None, 300),
        challenge("y", 2, "bob", None, 60),
        challenge("x2", 1, "ann", None, 300),
    ];
    let lists = Challenges(&store, None, &OnlineUsersState::new());
    assert_eq!(lists.direct.len(), 2);
    assert_eq!(lists.direct[0], single(challenge("y", 2, "bob", None, 60)));
    assert_eq!(lists.direct[1].challenge, challenge("x1", 1, "ann", None, 300));
    assert_eq!(
        lists.direct[1].challenge_ids,
        vec![ChallengeId("x1".to_string()), ChallengeId("x2".to_string())]
    );
    assert_eq!(lists.direct[1].count, 2);
}

#[test]
fn user_sees_three_separate_lists() {
    let u = 10;
    let v = 20;
    let x = challenge("x", v, "vic", Some(u), 60);
    let y = challenge("y", u, "uma", None, 60);
    let z = challenge("z", v, "vic", None, 60);
    let store = vec![x.clone(), y.clone(), z.clone()];
    let lists = Challenges(&store, Some(UserId(u)), &OnlineUsersState::new());
    assert_eq!(lists.direct, vec![single(x)]);
    assert_eq!(lists.own, vec![single(y)]);
    assert_eq!(lists.public, vec![single(z)]);
}

#[test]
fn challenges_between_others_are_shown_nowhere() {
    let store = vec![challenge("p", 20, "vic", Some(30), 60)];
    let lists = Challenges(&store, Some(UserId(10)), &OnlineUsersState::new());
    assert_eq!(
        lists,
        ChallengeLists { direct: Vec::new(), own: Vec::new(), public: Vec::new() }
    );
    assert!(!lists.not_hidden());
}

#[test]
fn own_direct_challenge_is_own_and_not_public() {
    let mine = challenge("m", 10, "uma", Some(20), 60);
    let store = vec![mine.clone()];
    let lists = Challenges(&store, Some(UserId(10)), &OnlineUsersState::new());
    assert_eq!(lists.own, vec![single(mine)]);
    assert!(lists.direct.is_empty());
    assert!(lists.public.is_empty());
}

#[test]
fn empty_store_hides_the_table() {
    let lists = Challenges(&Vec::new(), Some(UserId(10)), &OnlineUsersState::new());
    assert!(!lists.not_hidden());
    let lists = Challenges(&Vec::new(), None, &OnlineUsersState::new());
    assert!(!lists.not_hidden());
}

#[test]
fn public_list_puts_online_challengers_first() {
    let mut state = OnlineUsersState::new();
    state.set_status("zoe".to_string(), UserStatus::Online);
    let store = vec![
        challenge("a", 1, "ann", None, 60),
        challenge("z", 2, "zoe", None, 900),
        challenge("b", 3, "bob", None, 30),
    ];
    let list = challenge_list(&store, Audience::Public, Some(UserId(10)), &state);
    let ids: Vec<String> = list.iter().map(|g| g.challenge.challenge_id.0.clone()).collect();
    assert_eq!(ids, vec!["z", "b", "a"]);
}

#[test]
fn selection_keeps_the_order_of_the_store() {
    let store = vec![
        challenge("a", 1, "ann", Some(10), 60),
        challenge("b", 10, "uma", None, 60),
        challenge("c", 2, "bob", Some(10), 30),
        challenge("d", 3, "cid", None, 30),
    ];
    let chosen = select(&store, Audience::Direct, Some(UserId(10)));
    assert_eq!(chosen, vec![store[0].clone(), store[2].clone()]);
    let chosen = select(&store, Audience::Own, Some(UserId(10)));
    assert_eq!(chosen, vec![store[1].clone()]);
    let chosen = select(&store, Audience::Public, Some(UserId(10)));
    assert_eq!(chosen, vec![store[3].clone()]);
    let chosen = select(&store, Audience::Direct, None);
    assert_eq!(chosen, store);
    assert!(select(&store, Audience::Own, None).is_empty());
    assert!(select(&store, Audience::Public, None).is_empty());
}

#[test]
fn membership_of_each_list() {
    let to_me = challenge("a", 1, "ann", Some(10), 60);
    let mine = challenge("b", 10, "uma", None, 60);
    let open = challenge("c", 1, "ann", None, 60);
    let me = Some(UserId(10));
    assert!(in_list(&to_me, Audience::Direct, me));
    assert!(!in_list(&to_me, Audience::Own, me));
    assert!(!in_list(&to_me, Audience::Public, me));
    assert!(!in_list(&mine, Audience::Direct, me));
    assert!(in_list(&mine, Audience::Own, me));
    assert!(!in_list(&mine, Audience::Public, me));
    assert!(!in_list(&open, Audience::Direct, me));
    assert!(!in_list(&open, Audience::Own, me));
    assert!(in_list(&open, Audience::Public, me));
    assert!(in_list(&open, Audience::Direct, None));
    assert!(!in_list(&open, Audience::Own, None));
    assert!(!in_list(&open, Audience::Public, None));
}
