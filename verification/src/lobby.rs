//! The lists of open challenges that a viewer is shown: those addressed to
//! the viewer, the viewer's own, and those open to all.

use crate::challenge::{ChallengeResponse, ChallengeView, UserId, challenge_views};
use crate::grouping::{
    GroupView, GroupedChallenge, all_wf, group_key_spec, group_spec, group_views, ids_decide_keys,
    ids_of, lemma_groups_cover_input, lemma_groups_have_distinct_ids, listed_ids, total_count,
};
use crate::online::{OnlineUsersState, UserStatus};
use crate::seq_facts::{lemma_filter_all_or_none, lemma_filter_push};
use crate::sorting::{
    in_display_order, lemma_sort_is_ordered, lemma_sort_keeps_totals, sort_groups, sort_spec,
};
use vstd::prelude::*;

verus! {

/// One of the three lists.
#[derive(Clone, Copy, Debug, PartialEq, Eq, Hash, Structural)]
pub enum Audience {
    /// Challenges addressed to the viewer.
    Direct,
    /// Challenges that the viewer issued.
    Own,
    /// Challenges of others that name no opponent.
    Public,
}

/// Whether a challenge belongs to the list `audience` of the viewer. A
/// viewer who is not logged in has every challenge in the direct list and
/// none in the two others.
pub open spec fn belongs(c: ChallengeView, audience: Audience, viewer: Option<UserId>) -> bool {
    match viewer {
        Some(uid) => match audience {
            Audience::Direct => c.opponent == Some(uid),
            Audience::Own => c.challenger == uid,
            Audience::Public => c.opponent is None && c.challenger != uid,
        },
        None => audience == Audience::Direct,
    }
}

/// The test "belongs to the list `audience` of the viewer".
pub open spec fn shown_to(audience: Audience, viewer: Option<UserId>) -> spec_fn(
    ChallengeView,
) -> bool {
    |c: ChallengeView| belongs(c, audience, viewer)
}

/// The challenges of the list `audience`, in the order of the store.
pub open spec fn selected(
    challenges: Seq<ChallengeView>,
    audience: Audience,
    viewer: Option<UserId>,
) -> Seq<ChallengeView> {
    challenges.filter(shown_to(audience, viewer))
}

/// The list `audience` as it is displayed: its challenges grouped, the
/// groups sorted.
pub open spec fn list_spec(
    challenges: Seq<ChallengeView>,
    audience: Audience,
    viewer: Option<UserId>,
    online: Map<Seq<char>, UserStatus>,
) -> Seq<GroupView> {
    sort_spec(group_spec(selected(challenges, audience, viewer)), online)
}

/// A viewer who is not logged in has every challenge of the store in the
/// direct list, and nothing in the two other lists.
pub proof fn lemma_visitor_lists(challenges: Seq<ChallengeView>, online: Map<Seq<char>, UserStatus>)
    ensures
        selected(challenges, Audience::Direct, None) == challenges,
        list_spec(challenges, Audience::Direct, None, online) == sort_spec(
            group_spec(challenges),
            online,
        ),
        list_spec(challenges, Audience::Own, None, online) == Seq::<GroupView>::empty(),
        list_spec(challenges, Audience::Public, None, online) == Seq::<GroupView>::empty(),
{
    lemma_filter_all_or_none(challenges, shown_to(Audience::Direct, None));
    lemma_filter_all_or_none(challenges, shown_to(Audience::Own, None));
    lemma_filter_all_or_none(challenges, shown_to(Audience::Public, None));
}

/// No challenge of the public list is in another list of the same viewer;
/// a challenge is in the direct list and in the own list only if the viewer
/// challenged themself.
pub proof fn lemma_lists_exclude(c: ChallengeView, viewer: Option<UserId>)
    ensures
        belongs(c, Audience::Public, viewer) ==> !belongs(c, Audience::Direct, viewer) && !belongs(
            c,
            Audience::Own,
            viewer,
        ),
        viewer is Some && belongs(c, Audience::Direct, viewer) && belongs(c, Audience::Own, viewer)
            ==> c.opponent == Some(c.challenger),
{
}

/// A list shows every challenge that belongs to it once: the counts of its
/// groups add up to the number of these challenges, and the identifiers
/// that its groups list are theirs, each as often as it occurs among them.
pub proof fn lemma_list_covers_selection(
    challenges: Seq<ChallengeView>,
    audience: Audience,
    viewer: Option<UserId>,
    online: Map<Seq<char>, UserStatus>,
)
    ensures
        total_count(list_spec(challenges, audience, viewer, online)) == selected(
            challenges,
            audience,
            viewer,
        ).len(),
        listed_ids(list_spec(challenges, audience, viewer, online)).to_multiset() == ids_of(
            selected(challenges, audience, viewer),
        ).to_multiset(),
{
    let chosen = selected(challenges, audience, viewer);
    lemma_groups_cover_input(chosen);
    lemma_sort_keeps_totals(group_spec(chosen), online);
}

/// Where no identifier stands for challenges of two keys, as in a store
/// that holds each identifier once, every list is in the order of display.
pub proof fn lemma_list_in_display_order(
    challenges: Seq<ChallengeView>,
    audience: Audience,
    viewer: Option<UserId>,
    online: Map<Seq<char>, UserStatus>,
)
    requires
        ids_decide_keys(challenges),
    ensures
        in_display_order(list_spec(challenges, audience, viewer, online), online),
{
    let keep = shown_to(audience, viewer);
    let chosen = selected(challenges, audience, viewer);
    assert forall|i: int, j: int|
        0 <= i < chosen.len() && 0 <= j < chosen.len() && (#[trigger] chosen[i]).id == (
        #[trigger] chosen[j]).id implies group_key_spec(chosen[i]) == group_key_spec(chosen[j]) by {
        challenges.lemma_filter_contains_rev(keep, chosen[i]);
        challenges.lemma_filter_contains_rev(keep, chosen[j]);
        let a = choose|a: int| 0 <= a < challenges.len() && challenges[a] == chosen[i];
        let b = choose|b: int| 0 <= b < challenges.len() && challenges[b] == chosen[j];
        assert(challenges[a].id == challenges[b].id);
    }
    lemma_groups_have_distinct_ids(chosen);
    lemma_sort_is_ordered(group_spec(chosen), online);
}

/// The three lists of a viewer.
#[derive(Debug, PartialEq, Eq)]
pub struct ChallengeLists {
    pub direct: Vec<GroupedChallenge>,
    pub own: Vec<GroupedChallenge>,
    pub public: Vec<GroupedChallenge>,
}

/// Copies a list of groups.
pub fn copy_groups(groups: &Vec<GroupedChallenge>) -> (copy: Vec<GroupedChallenge>)
    ensures
        group_views(copy@) == group_views(groups@),
{
    let mut copy: Vec<GroupedChallenge> = Vec::new();
    let mut next: usize = 0;
    while next < groups.len()
        invariant
            next <= groups.len(),
            group_views(copy@) == group_views(groups@).take(next as int),
        decreases groups.len() - next,
    {
        copy.push(groups[next].clone());
        proof {
            assert(group_views(groups@).take(next + 1) =~= group_views(groups@).take(
                next as int,
            ).push(groups[next as int]@));
        }
        next += 1;
    }
    copy
}

impl Clone for ChallengeLists {
    fn clone(&self) -> (copy: Self)
        ensures
            group_views(copy.direct@) == group_views(self.direct@),
            group_views(copy.own@) == group_views(self.own@),
            group_views(copy.public@) == group_views(self.public@),
    {
        ChallengeLists {
            direct: copy_groups(&self.direct),
            own: copy_groups(&self.own),
            public: copy_groups(&self.public),
        }
    }
}

impl ChallengeLists {
    /// Tells whether there is anything to display.
    pub fn not_hidden(&self) -> (shown: bool)
        ensures
            shown == (self.direct@.len() > 0 || self.own@.len() > 0 || self.public@.len() > 0),
    {
        !self.direct.is_empty() || !self.own.is_empty() || !self.public.is_empty()
    }
}

/// Tells whether a challenge belongs to the list `audience` of the viewer.
pub fn in_list(challenge: &ChallengeResponse, audience: Audience, viewer: Option<UserId>) -> (yes:
    bool)
    ensures
        yes == belongs(challenge@, audience, viewer),
{
    match viewer {
        Some(uid) => match audience {
            Audience::Direct => match challenge.opponent {
                Some(opponent) => opponent.uid == uid,
                None => false,
            },
            Audience::Own => challenge.challenger.uid == uid,
            Audience::Public => challenge.opponent.is_none() && challenge.challenger.uid != uid,
        },
        None => match audience {
            Audience::Direct => true,
            _ => false,
        },
    }
}

/// Copies the challenges of the list `audience` out of the store's
/// challenges, in their order.
pub fn select(challenges: &Vec<ChallengeResponse>, audience: Audience, viewer: Option<UserId>) -> (
    chosen: Vec<ChallengeResponse>
)
    ensures
        challenge_views(chosen@) == selected(challenge_views(challenges@), audience, viewer),
{
    let ghost all = challenge_views(challenges@);
    let ghost keep = shown_to(audience, viewer);
    let mut chosen: Vec<ChallengeResponse> = Vec::new();
    let mut next: usize = 0;
    while next < challenges.len()
        invariant
            next <= challenges.len(),
            all == challenge_views(challenges@),
            keep == shown_to(audience, viewer),
            challenge_views(chosen@) == all.take(next as int).filter(keep),
        decreases challenges.len() - next,
    {
        proof {
            lemma_filter_push(all.take(next as int), all[next as int], keep);
            assert(all.take(next + 1) =~= all.take(next as int).push(all[next as int]));
        }
        if in_list(&challenges[next], audience, viewer) {
            chosen.push(challenges[next].clone());
        }
        next += 1;
    }
    proof {
        assert(all.take(challenges@.len() as int) =~= all);
    }
    chosen
}

/// The list `audience` of the viewer: its challenges grouped, the groups
/// sorted for display.
pub fn challenge_list(
    challenges: &Vec<ChallengeResponse>,
    audience: Audience,
    viewer: Option<UserId>,
    online_users: &OnlineUsersState,
) -> (list: Vec<GroupedChallenge>)
    ensures
        group_views(list@) == list_spec(
            challenge_views(challenges@),
            audience,
            viewer,
            online_users@,
        ),
        all_wf(group_views(list@)),
{
    let chosen = select(challenges, audience, viewer);
    let groups = GroupedChallenge::group_challenges(chosen);
    sort_groups(groups, online_users)
}

/// The three lists of the viewer, from the challenges of the store in the
/// order in which the store gives them.
#[allow(non_snake_case)]
pub fn Challenges(
    challenges: &Vec<ChallengeResponse>,
    viewer: Option<UserId>,
    online_users: &OnlineUsersState,
) -> (lists: ChallengeLists)
    ensures
        group_views(lists.direct@) == list_spec(
            challenge_views(challenges@),
            Audience::Direct,
            viewer,
            online_users@,
        ),
        group_views(lists.own@) == list_spec(
            challenge_views(challenges@),
            Audience::Own,
            viewer,
            online_users@,
        ),
        group_views(lists.public@) == list_spec(
            challenge_views(challenges@),
            Audience::Public,
            viewer,
            online_users@,
        ),
        all_wf(group_views(lists.direct@)),
        all_wf(group_views(lists.own@)),
        all_wf(group_views(lists.public@)),
{
    ChallengeLists {
        direct: challenge_list(challenges, Audience::Direct, viewer, online_users),
        own: challenge_list(challenges, Audience::Own, viewer, online_users),
        public: challenge_list(challenges, Audience::Public, viewer, online_users),
    }
}

} // verus!
