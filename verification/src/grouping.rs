//! Grouping of challenges that differ in nothing but their identifier.

use crate::challenge::{
    ChallengeId, ChallengeResponse, ChallengeView, ChallengeVisibility, ColorChoice, GameType,
    TimeMode, UserId, challenge_views,
};
use crate::seq_facts::lemma_filter_push;
use vstd::prelude::*;

verus! {

/// What decides the group of a challenge: every parameter of it but its
/// identifier and the challenger's name. An absent optional parameter
/// differs from every present one.
#[derive(Clone, Copy, Debug, PartialEq, Eq, Hash, Structural)]
pub struct GroupKey {
    pub challenger: UserId,
    pub game_type: GameType,
    pub rated: bool,
    pub time_mode: TimeMode,
    pub time_base: Option<i32>,
    pub time_increment: Option<i32>,
    pub color_choice: ColorChoice,
    pub visibility: ChallengeVisibility,
    pub band_lower: Option<i32>,
    pub band_upper: Option<i32>,
    pub opponent: Option<UserId>,
}

/// The key of a group together with the number of its members: it changes
/// whenever a member joins or leaves.
#[derive(Clone, Copy, Debug, PartialEq, Eq, Hash, Structural)]
pub struct ReactiveKey {
    pub key: GroupKey,
    pub count: usize,
}

/// The group key of a challenge.
pub open spec fn group_key_spec(c: ChallengeView) -> GroupKey {
    GroupKey {
        challenger: c.challenger,
        game_type: c.game_type,
        rated: c.rated,
        time_mode: c.time_mode,
        time_base: c.time_base,
        time_increment: c.time_increment,
        color_choice: c.color_choice,
        visibility: c.visibility,
        band_lower: c.band_lower,
        band_upper: c.band_upper,
        opponent: c.opponent,
    }
}

/// Two challenges agree on all that grouping looks at.
pub open spec fn same_parameters(a: ChallengeView, b: ChallengeView) -> bool {
    &&& a.challenger == b.challenger
    &&& a.game_type == b.game_type
    &&& a.rated == b.rated
    &&& a.time_mode == b.time_mode
    &&& a.time_base == b.time_base
    &&& a.time_increment == b.time_increment
    &&& a.color_choice == b.color_choice
    &&& a.visibility == b.visibility
    &&& a.band_lower == b.band_lower
    &&& a.band_upper == b.band_upper
    &&& a.opponent == b.opponent
}

/// Challenges with the same parameters have the same key, whatever their
/// identifiers and the names of their challengers; challenges that differ in
/// one parameter have different keys.
pub proof fn lemma_key_purity(a: ChallengeView, b: ChallengeView)
    ensures
        same_parameters(a, b) <==> group_key_spec(a) == group_key_spec(b),
{
}

/// A group of challenges with one key, as it is displayed: one of them to
/// stand for all, and the identifiers of all.
#[derive(Debug, PartialEq, Eq)]
pub struct GroupedChallenge {
    /// The challenge that stands for the group.
    pub challenge: ChallengeResponse,
    /// The identifiers of all challenges of the group, first seen first.
    pub challenge_ids: Vec<ChallengeId>,
    /// The number of challenges of the group.
    pub count: usize,
}

/// The mathematical content of a group.
pub struct GroupView {
    pub challenge: ChallengeView,
    pub challenge_ids: Seq<Seq<char>>,
    pub count: nat,
}

/// The identifiers of a list of challenges, as texts.
pub open spec fn id_views(ids: Seq<ChallengeId>) -> Seq<Seq<char>> {
    ids.map_values(|id: ChallengeId| id@)
}

impl View for GroupedChallenge {
    type V = GroupView;

    open spec fn view(&self) -> GroupView {
        GroupView {
            challenge: self.challenge@,
            challenge_ids: id_views(self.challenge_ids@),
            count: self.count as nat,
        }
    }
}

impl Clone for GroupedChallenge {
    fn clone(&self) -> (copy: Self)
        ensures
            copy@ == self@,
    {
        let mut challenge_ids: Vec<ChallengeId> = Vec::new();
        let mut next: usize = 0;
        while next < self.challenge_ids.len()
            invariant
                next <= self.challenge_ids.len(),
                challenge_ids@ == self.challenge_ids@.take(next as int),
            decreases self.challenge_ids.len() - next,
        {
            challenge_ids.push(self.challenge_ids[next].clone());
            next += 1;
        }
        proof {
            assert(challenge_ids@ =~= self.challenge_ids@);
        }
        GroupedChallenge { challenge: self.challenge.clone(), challenge_ids, count: self.count }
    }
}

impl GroupView {
    /// The invariant of a group: it counts its members, it has at least
    /// one, and the challenge that stands for it is the first of them.
    pub open spec fn wf(self) -> bool {
        &&& self.count == self.challenge_ids.len()
        &&& self.count >= 1
        &&& self.challenge_ids[0] == self.challenge.id
    }
}

/// The contents of a list of groups, one view for each, in order.
pub open spec fn group_views(groups: Seq<GroupedChallenge>) -> Seq<GroupView> {
    groups.map_values(|g: GroupedChallenge| g@)
}

/// Every group of the list holds its invariant.
pub open spec fn all_wf(groups: Seq<GroupView>) -> bool {
    forall|j: int| 0 <= j < groups.len() ==> (#[trigger] groups[j]).wf()
}

/// The challenges that stand for the groups have different identifiers.
pub open spec fn distinct_ids(groups: Seq<GroupView>) -> bool {
    forall|i: int, j: int|
        0 <= i < j < groups.len() ==> (#[trigger] groups[i]).challenge.id != (
        #[trigger] groups[j]).challenge.id
}

/// The test "has the key `key`".
pub open spec fn with_key(key: GroupKey) -> spec_fn(ChallengeView) -> bool {
    |c: ChallengeView| group_key_spec(c) == key
}

/// The challenges of a list that have the key `key`, in the order of the
/// list.
pub open spec fn members(challenges: Seq<ChallengeView>, key: GroupKey) -> Seq<ChallengeView> {
    challenges.filter(with_key(key))
}

/// The keys that occur in a list of challenges, each once, in the order in
/// which they first occur.
pub open spec fn first_keys(challenges: Seq<ChallengeView>) -> Seq<GroupKey>
    decreases challenges.len(),
{
    if challenges.len() == 0 {
        Seq::empty()
    } else {
        let before = first_keys(challenges.drop_last());
        let key = group_key_spec(challenges.last());
        if before.contains(key) {
            before
        } else {
            before.push(key)
        }
    }
}

/// The group that the challenges with the key `key` form: the first of them
/// stands for it, and it lists the identifiers of all of them in order.
pub open spec fn group_of(challenges: Seq<ChallengeView>, key: GroupKey) -> GroupView {
    let m = members(challenges, key);
    GroupView {
        challenge: m[0],
        challenge_ids: m.map_values(|c: ChallengeView| c.id),
        count: m.len(),
    }
}

/// The groups of a list of challenges: one for each key that occurs, in the
/// order in which the keys first occur.
pub open spec fn group_spec(challenges: Seq<ChallengeView>) -> Seq<GroupView> {
    first_keys(challenges).map_values(|key: GroupKey| group_of(challenges, key))
}

/// A challenge joins the group at position `at`.
pub open spec fn joined(groups: Seq<GroupView>, at: int, c: ChallengeView) -> Seq<GroupView> {
    groups.update(
        at,
        GroupView {
            challenge: groups[at].challenge,
            challenge_ids: groups[at].challenge_ids.push(c.id),
            count: groups[at].count + 1,
        },
    )
}

/// The group of a challenge that is the first with its key.
pub open spec fn opened(c: ChallengeView) -> GroupView {
    GroupView { challenge: c, challenge_ids: seq![c.id], count: 1 }
}

proof fn lemma_members_push(s: Seq<ChallengeView>, c: ChallengeView, key: GroupKey)
    ensures
        members(s.push(c), key) == if group_key_spec(c) == key {
            members(s, key).push(c)
        } else {
            members(s, key)
        },
{
    lemma_filter_push(s, c, with_key(key));
}

proof fn lemma_first_keys_push(s: Seq<ChallengeView>, c: ChallengeView)
    ensures
        first_keys(s.push(c)) == if first_keys(s).contains(group_key_spec(c)) {
            first_keys(s)
        } else {
            first_keys(s).push(group_key_spec(c))
        },
{
    assert(s.push(c).drop_last() =~= s);
}

/// The keys of the groups are the keys that occur: none twice, each with a
/// member, and every member of a key has that key.
pub proof fn lemma_first_keys(s: Seq<ChallengeView>)
    ensures
        first_keys(s).no_duplicates(),
        forall|key: GroupKey| #[trigger]
            first_keys(s).contains(key) <==> members(s, key).len() > 0,
        forall|key: GroupKey, i: int|
            0 <= i < members(s, key).len() ==> group_key_spec(#[trigger] members(s, key)[i])
                == key,
    decreases s.len(),
{
    if s.len() > 0 {
        let t = s.drop_last();
        let c = s.last();
        let k = group_key_spec(c);
        let ks = first_keys(t);
        assert(s =~= t.push(c));
        lemma_first_keys(t);
        assert forall|key: GroupKey| #[trigger]
            first_keys(s).contains(key) <==> members(s, key).len() > 0 by {
            lemma_members_push(t, c, key);
            if !ks.contains(k) {
                assert(ks.push(k)[ks.len() as int] == k);
                if ks.contains(key) {
                    let i = choose|i: int| 0 <= i < ks.len() && ks[i] == key;
                    assert(ks.push(k)[i] == key);
                }
            }
        }
    }
}

/// How the groups change when one more challenge is seen: it joins the
/// group of its key, or opens a group behind the others.
pub proof fn lemma_group_spec_push(s: Seq<ChallengeView>, c: ChallengeView)
    ensures
        first_keys(s).contains(group_key_spec(c)) ==> group_spec(s.push(c)) == joined(
            group_spec(s),
            first_keys(s).index_of(group_key_spec(c)),
            c,
        ),
        !first_keys(s).contains(group_key_spec(c)) ==> group_spec(s.push(c)) == group_spec(
            s,
        ).push(opened(c)),
{
    let k = group_key_spec(c);
    let ks = first_keys(s);
    lemma_first_keys(s);
    lemma_first_keys_push(s, c);
    assert forall|key: GroupKey| key != k implies group_of(s.push(c), key) == group_of(s, key) by {
        lemma_members_push(s, c, key);
    }
    lemma_members_push(s, c, k);
    if ks.contains(k) {
        let m = members(s, k);
        assert(m.push(c).map_values(|x: ChallengeView| x.id) =~= m.map_values(
            |x: ChallengeView| x.id,
        ).push(c.id));
    } else {
        let m = members(s, k);
        assert(m.push(c).map_values(|x: ChallengeView| x.id) =~= seq![c.id]);
    }
}

/// Every group holds its invariant and consists of the challenges of its
/// key; no two groups have the same key.
pub proof fn lemma_groups_wf(s: Seq<ChallengeView>)
    ensures
        group_spec(s).len() == first_keys(s).len(),
        forall|j: int|
            0 <= j < group_spec(s).len() ==> (#[trigger] group_spec(s)[j]).wf()
                && group_key_spec(group_spec(s)[j].challenge) == first_keys(s)[j]
                && group_spec(s)[j] == group_of(s, first_keys(s)[j]),
        forall|i: int, j: int|
            0 <= i < j < group_spec(s).len() ==> group_key_spec(
                (#[trigger] group_spec(s)[i]).challenge,
            ) != group_key_spec((#[trigger] group_spec(s)[j]).challenge),
{
    lemma_first_keys(s);
    let ks = first_keys(s);
    assert forall|j: int| 0 <= j < group_spec(s).len() implies (#[trigger] group_spec(s)[j]).wf()
        && group_key_spec(group_spec(s)[j].challenge) == ks[j] && group_spec(s)[j] == group_of(
        s,
        ks[j],
    ) by {
        assert(ks.contains(ks[j]));
    }
}

/// The number of challenges that a list of groups counts.
pub open spec fn total_count(groups: Seq<GroupView>) -> nat
    decreases groups.len(),
{
    if groups.len() == 0 {
        0
    } else {
        total_count(groups.drop_last()) + groups.last().count
    }
}

/// The identifiers that a list of groups lists, group after group.
pub open spec fn listed_ids(groups: Seq<GroupView>) -> Seq<Seq<char>>
    decreases groups.len(),
{
    if groups.len() == 0 {
        Seq::empty()
    } else {
        listed_ids(groups.drop_last()) + groups.last().challenge_ids
    }
}

/// The identifiers of a list of challenges, in order.
pub open spec fn ids_of(challenges: Seq<ChallengeView>) -> Seq<Seq<char>> {
    challenges.map_values(|c: ChallengeView| c.id)
}

/// Whether the group lists the identifier.
pub open spec fn lists(group: GroupView, id: Seq<char>) -> bool {
    group.challenge_ids.contains(id)
}

/// No identifier stands for challenges of two keys.
pub open spec fn ids_decide_keys(challenges: Seq<ChallengeView>) -> bool {
    forall|i: int, j: int|
        0 <= i < challenges.len() && 0 <= j < challenges.len() && (#[trigger] challenges[i]).id == (
        #[trigger] challenges[j]).id ==> group_key_spec(challenges[i]) == group_key_spec(
            challenges[j],
        )
}

proof fn lemma_joined_totals(groups: Seq<GroupView>, at: int, c: ChallengeView)
    requires
        0 <= at < groups.len(),
    ensures
        total_count(joined(groups, at, c)) == total_count(groups) + 1,
        listed_ids(joined(groups, at, c)).to_multiset() == listed_ids(groups).to_multiset().insert(
            c.id,
        ),
    decreases groups.len(),
{
    broadcast use vstd::seq_lib::group_to_multiset_ensures;

    let after = joined(groups, at, c);
    if at == groups.len() - 1 {
        assert(after.drop_last() =~= groups.drop_last());
        let head = listed_ids(groups.drop_last());
        let tail = groups.last().challenge_ids;
        assert(head + tail.push(c.id) =~= (head + tail).push(c.id));
    } else {
        assert(after.drop_last() =~= joined(groups.drop_last(), at, c));
        lemma_joined_totals(groups.drop_last(), at, c);
        let tail = groups.last().challenge_ids;
        vstd::seq_lib::lemma_multiset_commutative(listed_ids(after.drop_last()), tail);
        vstd::seq_lib::lemma_multiset_commutative(listed_ids(groups.drop_last()), tail);
    }
}

proof fn lemma_opened_totals(groups: Seq<GroupView>, c: ChallengeView)
    ensures
        total_count(groups.push(opened(c))) == total_count(groups) + 1,
        listed_ids(groups.push(opened(c))).to_multiset() == listed_ids(
            groups,
        ).to_multiset().insert(c.id),
{
    broadcast use vstd::seq_lib::group_to_multiset_ensures;

    assert(groups.push(opened(c)).drop_last() =~= groups);
    assert(listed_ids(groups) + seq![c.id] =~= listed_ids(groups).push(c.id));
}

/// The groups count every challenge of the list once: their counts add up
/// to its length, and the identifiers they list are the identifiers of the
/// list, each as often as it occurs there.
pub proof fn lemma_groups_cover_input(s: Seq<ChallengeView>)
    ensures
        total_count(group_spec(s)) == s.len(),
        listed_ids(group_spec(s)).to_multiset() == ids_of(s).to_multiset(),
    decreases s.len(),
{
    broadcast use vstd::seq_lib::group_to_multiset_ensures;

    if s.len() > 0 {
        let t = s.drop_last();
        let c = s.last();
        assert(s =~= t.push(c));
        assert(ids_of(s) =~= ids_of(t).push(c.id));
        lemma_groups_cover_input(t);
        lemma_group_spec_push(t, c);
        if first_keys(t).contains(group_key_spec(c)) {
            lemma_joined_totals(group_spec(t), first_keys(t).index_of(group_key_spec(c)), c);
        } else {
            lemma_opened_totals(group_spec(t), c);
        }
    }
}

/// The groups part the identifiers of the list: an identifier is listed by
/// some group exactly if it occurs in the list, and, where no identifier
/// stands for challenges of two keys, by no second group.
pub proof fn lemma_groups_partition_ids(s: Seq<ChallengeView>)
    ensures
        forall|id: Seq<char>|
            ids_of(s).contains(id) <==> exists|j: int|
                0 <= j < group_spec(s).len() && #[trigger] lists(group_spec(s)[j], id),
        ids_decide_keys(s) ==> forall|i: int, j: int, id: Seq<char>|
            0 <= i < j < group_spec(s).len() && #[trigger] lists(group_spec(s)[i], id)
                ==> !(#[trigger] lists(group_spec(s)[j], id)),
{
    lemma_first_keys(s);
    let groups = group_spec(s);
    let ks = first_keys(s);
    // What it means that a group lists an identifier.
    assert forall|j: int, id: Seq<char>| 0 <= j < groups.len() && lists(groups[j], id) implies (
    exists|n: int|
        0 <= n < s.len() && (#[trigger] s[n]).id == id && group_key_spec(s[n]) == ks[j]) by {
        let m = members(s, ks[j]);
        let i = choose|i: int| 0 <= i < m.len() && groups[j].challenge_ids[i] == id;
        s.lemma_filter_contains_rev(with_key(ks[j]), m[i]);
        let n = choose|n: int| 0 <= n < s.len() && s[n] == m[i];
        assert(s[n].id == id && group_key_spec(s[n]) == ks[j]);
    }
    assert forall|id: Seq<char>| ids_of(s).contains(id) implies exists|j: int|
        0 <= j < groups.len() && #[trigger] lists(groups[j], id) by {
        let n = choose|n: int| 0 <= n < s.len() && ids_of(s)[n] == id;
        let k = group_key_spec(s[n]);
        s.lemma_filter_contains(with_key(k), n);
        let m = members(s, k);
        let i = choose|i: int| 0 <= i < m.len() && m[i] == s[n];
        assert(ks.contains(k));
        let j = ks.index_of(k);
        assert(groups[j].challenge_ids[i] == id);
        assert(lists(groups[j], id));
    }
    assert forall|id: Seq<char>|
        (exists|j: int| 0 <= j < groups.len() && #[trigger] lists(groups[j], id)) implies ids_of(
        s,
    ).contains(id) by {
        let j = choose|j: int| 0 <= j < groups.len() && #[trigger] lists(groups[j], id);
        let n = choose|n: int|
            0 <= n < s.len() && (#[trigger] s[n]).id == id && group_key_spec(s[n]) == ks[j];
        assert(ids_of(s)[n] == id);
    }
}

/// Where no identifier stands for challenges of two keys, the challenges
/// that stand for the groups have different identifiers.
pub proof fn lemma_groups_have_distinct_ids(s: Seq<ChallengeView>)
    requires
        ids_decide_keys(s),
    ensures
        distinct_ids(group_spec(s)),
{
    lemma_groups_wf(s);
    let groups = group_spec(s);
    let ks = first_keys(s);
    assert forall|i: int, j: int| 0 <= i < j < groups.len() implies (
    #[trigger] groups[i]).challenge.id != (#[trigger] groups[j]).challenge.id by {
        let first = groups[i].challenge;
        let second = groups[j].challenge;
        s.lemma_filter_contains_rev(with_key(ks[i]), first);
        s.lemma_filter_contains_rev(with_key(ks[j]), second);
        let a = choose|a: int| 0 <= a < s.len() && s[a] == first;
        let b = choose|b: int| 0 <= b < s.len() && s[b] == second;
        if first.id == second.id {
            assert(group_key_spec(s[a]) == group_key_spec(s[b]));
            assert(ks[i] != ks[j]);
        }
    }
}

impl GroupedChallenge {
    /// The key by which challenges are grouped.
    pub fn group_key(challenge: &ChallengeResponse) -> (key: GroupKey)
        ensures
            key == group_key_spec(challenge@),
    {
        GroupKey {
            challenger: challenge.challenger.uid,
            game_type: challenge.game_type,
            rated: challenge.rated,
            time_mode: challenge.time_mode,
            time_base: challenge.time_base,
            time_increment: challenge.time_increment,
            color_choice: challenge.color_choice,
            visibility: challenge.visibility,
            band_lower: challenge.band_lower,
            band_upper: challenge.band_upper,
            opponent: challenge.opponent_uid(),
        }
    }

    /// The key of this group with the number of its members.
    pub fn reactive_key(&self) -> (key: ReactiveKey)
        ensures
            key.key == group_key_spec(self@.challenge),
            key.count == self@.count,
    {
        ReactiveKey { key: Self::group_key(&self.challenge), count: self.count }
    }

    /// Groups a list of challenges by key. The groups come in the order in
    /// which their keys first occur in the list; the first challenge of a
    /// key stands for its group, and the identifiers of a group keep the
    /// order of the list.
    pub fn group_challenges(challenges: Vec<ChallengeResponse>) -> (groups: Vec<GroupedChallenge>)
        ensures
            group_views(groups@) == group_spec(challenge_views(challenges@)),
            all_wf(group_views(groups@)),
    {
        let ghost all = challenge_views(challenges@);
        let mut groups: Vec<GroupedChallenge> = Vec::new();
        for challenge in it: challenges
            invariant
                all == challenge_views(challenges@),
                group_views(groups@) == group_spec(all.take(it.index() as int)),
        {
            let ghost seen = all.take(it.index() as int);
            let ghost before = groups@;
            proof {
                assert(all.take(it.index() + 1) =~= seen.push(challenge@));
                lemma_groups_wf(seen);
                lemma_first_keys(seen);
                lemma_group_spec_push(seen, challenge@);
                assert forall|j: int| 0 <= j < before.len() implies group_key_spec(
                    (#[trigger] before[j])@.challenge,
                ) == first_keys(seen)[j] by {
                    assert(group_views(before)[j] == before[j]@);
                }
            }
            let key = Self::group_key(&challenge);
            match find_group(&groups, &key) {
                Some(at) => {
                    proof {
                        // The group counts challenges that were seen, so its
                        // count is below the length of the list.
                        assert(seen.len() < challenges@.len() == challenges.len());
                    }
                    let id = challenge.challenge_id.clone();
                    groups[at].challenge_ids.push(id);
                    groups[at].count += 1;
                    proof {
                        assert(id_views(before[at as int].challenge_ids@.push(id)) =~= id_views(
                            before[at as int].challenge_ids@,
                        ).push(id@));
                    }
                },
                None => {
                    proof {
                        // No group has the key, so the key has not occurred.
                        let ks = first_keys(seen);
                        if ks.contains(key) {
                            let j = ks.index_of(key);
                            assert(group_key_spec(before[j]@.challenge) == key);
                        }
                    }
                    let id = challenge.challenge_id.clone();
                    let mut challenge_ids: Vec<ChallengeId> = Vec::new();
                    challenge_ids.push(id);
                    let group = GroupedChallenge { challenge, challenge_ids, count: 1 };
                    proof {
                        assert(group@.challenge_ids =~= seq![id@]);
                    }
                    groups.push(group);
                },
            }
        }
        proof {
            assert(all.take(challenges@.len() as int) =~= all);
            lemma_groups_wf(all);
        }
        groups
    }
}

/// The position of the first group whose challenge has the key `key`.
fn find_group(groups: &Vec<GroupedChallenge>, key: &GroupKey) -> (found: Option<usize>)
    ensures
        match found {
            Some(at) => at < groups.len() && group_key_spec(groups[at as int]@.challenge) == *key,
            None => forall|j: int|
                0 <= j < groups.len() ==> group_key_spec((#[trigger] groups[j])@.challenge) != *key,
        },
{
    let mut at: usize = 0;
    while at < groups.len()
        invariant
            at <= groups.len(),
            forall|j: int|
                0 <= j < at ==> group_key_spec((#[trigger] groups[j])@.challenge) != *key,
        decreases groups.len() - at,
    {
        if GroupedChallenge::group_key(&groups[at].challenge) == *key {
            return Some(at);
        }
        at += 1;
    }
    None
}

} // verus!
