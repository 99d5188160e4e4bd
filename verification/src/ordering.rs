//! The order in which challenges are displayed.

use crate::challenge::{ChallengeResponse, ChallengeView};
use crate::grouping::{GroupView, GroupedChallenge};
use crate::online::{OnlineUsersState, UserStatus, is_online};
use std::cmp::Ordering;
use vstd::prelude::*;

verus! {

/// The place of a time setting among all: its value, and for an absent
/// one a number above every value.
pub open spec fn time_rank(time: Option<i32>) -> int {
    match time {
        Some(value) => value as int,
        None => i32::MAX + 1,
    }
}

/// What decides the place of a challenge among challenges with other
/// identifiers: whether its challenger is online (0) or not (1), then its
/// base time, then its increment.
pub open spec fn display_rank(c: ChallengeView, online: Map<Seq<char>, UserStatus>) -> (
    int,
    int,
    int,
) {
    (
        if is_online(online, c.username) {
            0int
        } else {
            1int
        },
        time_rank(c.time_base),
        time_rank(c.time_increment),
    )
}

/// One rank is before another: in the first place where they differ it
/// has the smaller number.
pub open spec fn rank_before(x: (int, int, int), y: (int, int, int)) -> bool {
    x.0 < y.0 || (x.0 == y.0 && (x.1 < y.1 || (x.1 == y.1 && x.2 < y.2)))
}

/// The order of two time settings: by value, an absent one behind every
/// present one.
pub open spec fn time_order(a: Option<i32>, b: Option<i32>) -> Ordering {
    match (a, b) {
        (Some(x), Some(y)) => if x < y {
            Ordering::Less
        } else if x == y {
            Ordering::Equal
        } else {
            Ordering::Greater
        },
        (Some(_), None) => Ordering::Less,
        (None, Some(_)) => Ordering::Greater,
        (None, None) => Ordering::Equal,
    }
}

/// The order of two challenges, given who is online. Challenges with one
/// identifier are equal. Else a challenge whose challenger is online comes
/// before one whose challenger is not. Else the base times decide, where
/// they differ, and the increments, where they do not.
pub open spec fn challenge_order_spec(
    a: ChallengeView,
    b: ChallengeView,
    online: Map<Seq<char>, UserStatus>,
) -> Ordering {
    if a.id == b.id {
        Ordering::Equal
    } else if is_online(online, a.username) && !is_online(online, b.username) {
        Ordering::Less
    } else if !is_online(online, a.username) && is_online(online, b.username) {
        Ordering::Greater
    } else if a.time_base != b.time_base {
        time_order(a.time_base, b.time_base)
    } else {
        time_order(a.time_increment, b.time_increment)
    }
}

/// The order of two groups: that of the challenges that stand for them.
pub open spec fn grouped_challenge_order_spec(
    a: GroupView,
    b: GroupView,
    online: Map<Seq<char>, UserStatus>,
) -> Ordering {
    challenge_order_spec(a.challenge, b.challenge, online)
}

/// The order with its two sides exchanged.
pub open spec fn reversed(order: Ordering) -> Ordering {
    match order {
        Ordering::Less => Ordering::Greater,
        Ordering::Equal => Ordering::Equal,
        Ordering::Greater => Ordering::Less,
    }
}

/// A challenge is equal to itself, and to every challenge with its
/// identifier.
pub proof fn lemma_same_id_is_equal(
    a: ChallengeView,
    b: ChallengeView,
    online: Map<Seq<char>, UserStatus>,
)
    ensures
        challenge_order_spec(a, a, online) == Ordering::Equal,
        a.id == b.id ==> challenge_order_spec(a, b, online) == Ordering::Equal,
{
}

/// Of two challenges with different identifiers, the one whose challenger
/// is online comes first, whatever their times.
pub proof fn lemma_online_first(
    a: ChallengeView,
    b: ChallengeView,
    online: Map<Seq<char>, UserStatus>,
)
    requires
        a.id != b.id,
        is_online(online, a.username),
        !is_online(online, b.username),
    ensures
        challenge_order_spec(a, b, online) == Ordering::Less,
        challenge_order_spec(b, a, online) == Ordering::Greater,
{
}

/// Of two challenges with different identifiers, whose challengers are
/// both online or both not, and with one base time, the one without an
/// increment comes behind the one with an increment.
pub proof fn lemma_missing_increment_last(
    a: ChallengeView,
    b: ChallengeView,
    online: Map<Seq<char>, UserStatus>,
)
    requires
        a.id != b.id,
        is_online(online, a.username) == is_online(online, b.username),
        a.time_base == b.time_base,
        a.time_increment is Some,
        b.time_increment is None,
    ensures
        challenge_order_spec(a, b, online) == Ordering::Less,
        challenge_order_spec(b, a, online) == Ordering::Greater,
{
}

/// Of two challenges with different identifiers, whose challengers are
/// both online or both not, the one without a base time comes behind the
/// one with a base time.
pub proof fn lemma_missing_base_last(
    a: ChallengeView,
    b: ChallengeView,
    online: Map<Seq<char>, UserStatus>,
)
    requires
        a.id != b.id,
        is_online(online, a.username) == is_online(online, b.username),
        a.time_base is Some,
        b.time_base is None,
    ensures
        challenge_order_spec(a, b, online) == Ordering::Less,
        challenge_order_spec(b, a, online) == Ordering::Greater,
{
}

/// Exchanging the two challenges reverses their order.
pub proof fn lemma_order_reverses(
    a: ChallengeView,
    b: ChallengeView,
    online: Map<Seq<char>, UserStatus>,
)
    ensures
        challenge_order_spec(b, a, online) == reversed(challenge_order_spec(a, b, online)),
{
}

/// Among three challenges with three identifiers the order is transitive:
/// what is not behind a second that is not behind a third is not behind the
/// third, and is before it if one of the two steps is strict.
pub proof fn lemma_order_transitive(
    a: ChallengeView,
    b: ChallengeView,
    c: ChallengeView,
    online: Map<Seq<char>, UserStatus>,
)
    requires
        a.id != b.id,
        b.id != c.id,
        a.id != c.id,
        challenge_order_spec(a, b, online) != Ordering::Greater,
        challenge_order_spec(b, c, online) != Ordering::Greater,
    ensures
        challenge_order_spec(a, c, online) != Ordering::Greater,
        challenge_order_spec(a, b, online) == Ordering::Less || challenge_order_spec(b, c, online)
            == Ordering::Less ==> challenge_order_spec(a, c, online) == Ordering::Less,
{
}

/// Whether the group `a` has to stand behind the group `b`.
pub open spec fn stands_behind(
    a: GroupView,
    b: GroupView,
    online: Map<Seq<char>, UserStatus>,
) -> bool {
    grouped_challenge_order_spec(a, b, online) == Ordering::Greater
}

/// Between challenges with different identifiers the order is that of
/// their ranks; the order decides nothing between two challenges exactly
/// if they have one identifier or one rank.
pub proof fn lemma_order_is_by_rank(
    a: ChallengeView,
    b: ChallengeView,
    online: Map<Seq<char>, UserStatus>,
)
    ensures
        challenge_order_spec(a, b, online) == Ordering::Equal <==> a.id == b.id || display_rank(
            a,
            online,
        ) == display_rank(b, online),
        a.id != b.id ==> (challenge_order_spec(a, b, online) == Ordering::Less <==> rank_before(
            display_rank(a, online),
            display_rank(b, online),
        )),
{
}

/// Compares two time settings, an absent one behind every present one.
pub fn compare_times(a: Option<i32>, b: Option<i32>) -> (order: Ordering)
    ensures
        order == time_order(a, b),
{
    match (a, b) {
        (Some(x), Some(y)) => {
            if x < y {
                Ordering::Less
            } else if x == y {
                Ordering::Equal
            } else {
                Ordering::Greater
            }
        },
        (Some(_), None) => Ordering::Less,
        (None, Some(_)) => Ordering::Greater,
        (None, None) => Ordering::Equal,
    }
}

/// Compares two challenges for display, given who is online.
pub fn challenge_order(
    a: &ChallengeResponse,
    b: &ChallengeResponse,
    online_users: &OnlineUsersState,
) -> (order: Ordering)
    ensures
        order == challenge_order_spec(a@, b@, online_users@),
{
    let online_a = online_users.online(a.challenger.username.as_str());
    let online_b = online_users.online(b.challenger.username.as_str());
    if a.challenge_id.same_as(&b.challenge_id) {
        Ordering::Equal
    } else if online_a && !online_b {
        Ordering::Less
    } else if !online_a && online_b {
        Ordering::Greater
    } else if a.time_base == b.time_base {
        compare_times(a.time_increment, b.time_increment)
    } else {
        compare_times(a.time_base, b.time_base)
    }
}

/// Compares two groups for display: the challenges that stand for them.
pub fn grouped_challenge_order(
    a: &GroupedChallenge,
    b: &GroupedChallenge,
    online_users: &OnlineUsersState,
) -> (order: Ordering)
    ensures
        order == grouped_challenge_order_spec(a@, b@, online_users@),
{
    challenge_order(&a.challenge, &b.challenge, online_users)
}

/// Tells whether the group `a` has to stand behind the group `b`.
pub fn group_stands_behind(
    a: &GroupedChallenge,
    b: &GroupedChallenge,
    online_users: &OnlineUsersState,
) -> (behind: bool)
    ensures
        behind == stands_behind(a@, b@, online_users@),
{
    match grouped_challenge_order(a, b, online_users) {
        Ordering::Greater => true,
        _ => false,
    }
}

} // verus!
