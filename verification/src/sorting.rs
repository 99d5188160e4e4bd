//! Sorting of groups for display: stable, so that groups between which the
//! order decides nothing keep the places they came in.

use crate::grouping::{
    GroupView, GroupedChallenge, all_wf, distinct_ids, group_views, listed_ids, total_count,
};
use crate::online::{OnlineUsersState, UserStatus};
use crate::ordering::{display_rank, group_stands_behind, stands_behind};
use crate::seq_facts::lemma_filter_push;
use vstd::prelude::*;

verus! {

/// Where a group enters a sorted list: before the groups at the end of the
/// list that have to stand behind it, and behind all others.
pub open spec fn insertion_point(
    sorted: Seq<GroupView>,
    group: GroupView,
    online: Map<Seq<char>, UserStatus>,
) -> int
    decreases sorted.len(),
{
    if sorted.len() > 0 && stands_behind(sorted.last(), group, online) {
        insertion_point(sorted.drop_last(), group, online)
    } else {
        sorted.len() as int
    }
}

/// A sorted list with one more group in its place.
pub open spec fn insert_sorted(
    sorted: Seq<GroupView>,
    group: GroupView,
    online: Map<Seq<char>, UserStatus>,
) -> Seq<GroupView> {
    sorted.insert(insertion_point(sorted, group, online), group)
}

/// The groups of a list in the order of display: each group in turn enters
/// the sorted list of those before it.
pub open spec fn sort_spec(groups: Seq<GroupView>, online: Map<Seq<char>, UserStatus>) -> Seq<
    GroupView,
>
    decreases groups.len(),
{
    if groups.len() == 0 {
        groups
    } else {
        insert_sorted(sort_spec(groups.drop_last(), online), groups.last(), online)
    }
}

/// No group of the list stands before a group that it has to stand behind.
pub open spec fn in_display_order(
    groups: Seq<GroupView>,
    online: Map<Seq<char>, UserStatus>,
) -> bool {
    forall|i: int, j: int|
        0 <= i < j < groups.len() ==> !stands_behind(
            #[trigger] groups[i],
            #[trigger] groups[j],
            online,
        )
}

/// The test "stands for a challenge of the rank `rank`".
pub open spec fn with_rank(rank: (int, int, int), online: Map<Seq<char>, UserStatus>) -> spec_fn(
    GroupView,
) -> bool {
    |g: GroupView| display_rank(g.challenge, online) == rank
}

/// The insertion point is the one place in the list behind which all
/// groups have to stand behind the new one, and before which the nearest
/// group has not.
pub proof fn lemma_insertion_point(
    sorted: Seq<GroupView>,
    group: GroupView,
    online: Map<Seq<char>, UserStatus>,
    at: int,
)
    requires
        0 <= at <= sorted.len(),
        forall|i: int|
            at <= i < sorted.len() ==> stands_behind(#[trigger] sorted[i], group, online),
        at > 0 ==> !stands_behind(sorted[at - 1], group, online),
    ensures
        insertion_point(sorted, group, online) == at,
    decreases sorted.len(),
{
    if sorted.len() > 0 && at < sorted.len() {
        lemma_insertion_point(sorted.drop_last(), group, online, at);
    }
}

proof fn lemma_insertion_point_bounds(
    sorted: Seq<GroupView>,
    group: GroupView,
    online: Map<Seq<char>, UserStatus>,
)
    ensures
        0 <= insertion_point(sorted, group, online) <= sorted.len(),
        forall|i: int|
            insertion_point(sorted, group, online) <= i < sorted.len() ==> stands_behind(
                #[trigger] sorted[i],
                group,
                online,
            ),
        insertion_point(sorted, group, online) > 0 ==> !stands_behind(
            sorted[insertion_point(sorted, group, online) - 1],
            group,
            online,
        ),
    decreases sorted.len(),
{
    if sorted.len() > 0 && stands_behind(sorted.last(), group, online) {
        let rest = sorted.drop_last();
        lemma_insertion_point_bounds(rest, group, online);
        assert forall|i: int|
            insertion_point(sorted, group, online) <= i < sorted.len() implies stands_behind(
            #[trigger] sorted[i],
            group,
            online,
        ) by {
            if i < rest.len() {
                assert(sorted[i] == rest[i]);
            }
        }
    }
}

proof fn lemma_insert_sorted_unfold(
    sorted: Seq<GroupView>,
    group: GroupView,
    online: Map<Seq<char>, UserStatus>,
)
    ensures
        insert_sorted(sorted, group, online) == if sorted.len() > 0 && stands_behind(
            sorted.last(),
            group,
            online,
        ) {
            insert_sorted(sorted.drop_last(), group, online).push(sorted.last())
        } else {
            sorted.push(group)
        },
{
    if sorted.len() > 0 && stands_behind(sorted.last(), group, online) {
        lemma_insertion_point_bounds(sorted.drop_last(), group, online);
    }
}

proof fn lemma_insert_keeps_ranks(
    sorted: Seq<GroupView>,
    group: GroupView,
    online: Map<Seq<char>, UserStatus>,
    rank: (int, int, int),
)
    ensures
        insert_sorted(sorted, group, online).filter(with_rank(rank, online)) == if display_rank(
            group.challenge,
            online,
        ) == rank {
            sorted.filter(with_rank(rank, online)).push(group)
        } else {
            sorted.filter(with_rank(rank, online))
        },
    decreases sorted.len(),
{
    let keep = with_rank(rank, online);
    lemma_insert_sorted_unfold(sorted, group, online);
    if sorted.len() > 0 && stands_behind(sorted.last(), group, online) {
        let rest = sorted.drop_last();
        let last = sorted.last();
        lemma_insert_keeps_ranks(rest, group, online, rank);
        lemma_filter_push(insert_sorted(rest, group, online), last, keep);
        lemma_filter_push(rest, last, keep);
        assert(sorted =~= rest.push(last));
    } else {
        lemma_filter_push(sorted, group, keep);
    }
}

/// Sorting is stable: the groups of one rank stand in the sorted list in
/// the order in which they came.
pub proof fn lemma_sort_is_stable(
    groups: Seq<GroupView>,
    online: Map<Seq<char>, UserStatus>,
    rank: (int, int, int),
)
    ensures
        sort_spec(groups, online).filter(with_rank(rank, online)) == groups.filter(
            with_rank(rank, online),
        ),
    decreases groups.len(),
{
    if groups.len() > 0 {
        let rest = groups.drop_last();
        lemma_sort_is_stable(rest, online, rank);
        lemma_insert_keeps_ranks(sort_spec(rest, online), groups.last(), online, rank);
        lemma_filter_push(rest, groups.last(), with_rank(rank, online));
        assert(groups =~= rest.push(groups.last()));
    }
}

/// Sorting loses no group and adds none: the sorted list holds the groups
/// of the list, each as often as the list does.
pub proof fn lemma_sort_is_permutation(groups: Seq<GroupView>, online: Map<Seq<char>, UserStatus>)
    ensures
        sort_spec(groups, online).to_multiset() == groups.to_multiset(),
        sort_spec(groups, online).len() == groups.len(),
    decreases groups.len(),
{
    broadcast use vstd::seq_lib::group_to_multiset_ensures;

    if groups.len() > 0 {
        let rest = groups.drop_last();
        let sorted = sort_spec(rest, online);
        lemma_sort_is_permutation(rest, online);
        lemma_insertion_point_bounds(sorted, groups.last(), online);
        assert(groups =~= rest.push(groups.last()));
    }
}

proof fn lemma_insert_in_order(
    sorted: Seq<GroupView>,
    group: GroupView,
    online: Map<Seq<char>, UserStatus>,
)
    requires
        in_display_order(sorted, online),
        distinct_ids(sorted.push(group)),
    ensures
        in_display_order(insert_sorted(sorted, group, online), online),
        distinct_ids(insert_sorted(sorted, group, online)),
{
    let all = sorted.push(group);
    lemma_insertion_point_bounds(sorted, group, online);
    assert forall|i: int| 0 <= i < sorted.len() implies (#[trigger] sorted[i]).challenge.id
        != group.challenge.id by {
        assert(all[i] == sorted[i]);
        assert(all.last() == group);
    }
    assert forall|i: int, j: int| 0 <= i < j < sorted.len() implies (
    #[trigger] sorted[i]).challenge.id != (#[trigger] sorted[j]).challenge.id by {
        assert(all[i] == sorted[i]);
        assert(all[j] == sorted[j]);
    }
}

/// Where the challenges that stand for the groups have different
/// identifiers, the sorted list is in the order of display.
pub proof fn lemma_sort_is_ordered(groups: Seq<GroupView>, online: Map<Seq<char>, UserStatus>)
    requires
        distinct_ids(groups),
    ensures
        in_display_order(sort_spec(groups, online), online),
        distinct_ids(sort_spec(groups, online)),
    decreases groups.len(),
{
    broadcast use vstd::seq_lib::group_to_multiset_ensures;

    if groups.len() > 0 {
        let rest = groups.drop_last();
        let last = groups.last();
        let sorted = sort_spec(rest, online);
        lemma_sort_is_ordered(rest, online);
        lemma_sort_is_permutation(rest, online);
        let all = sorted.push(last);
        assert forall|i: int, j: int| 0 <= i < j < all.len() implies (
        #[trigger] all[i]).challenge.id != (#[trigger] all[j]).challenge.id by {
            if j == sorted.len() {
                // `sorted[i]` is a group of `rest`.
                assert(rest.to_multiset().count(sorted[i]) > 0);
            }
        }
        lemma_insert_in_order(sorted, last, online);
    }
}

/// Sorting leaves the groups as they are: groups that hold their invariant
/// hold it in the sorted list.
pub proof fn lemma_sort_keeps_wf(groups: Seq<GroupView>, online: Map<Seq<char>, UserStatus>)
    requires
        all_wf(groups),
    ensures
        all_wf(sort_spec(groups, online)),
{
    broadcast use vstd::seq_lib::group_to_multiset_ensures;

    lemma_sort_is_permutation(groups, online);
    let sorted = sort_spec(groups, online);
    assert forall|j: int| 0 <= j < sorted.len() implies (#[trigger] sorted[j]).wf() by {
        assert(sorted.to_multiset().count(sorted[j]) > 0);
    }
}

proof fn lemma_totals_insert(groups: Seq<GroupView>, at: int, group: GroupView)
    requires
        0 <= at <= groups.len(),
    ensures
        total_count(groups.insert(at, group)) == total_count(groups) + group.count,
        listed_ids(groups.insert(at, group)).to_multiset() == listed_ids(groups).to_multiset().add(
            group.challenge_ids.to_multiset(),
        ),
    decreases groups.len(),
{
    let after = groups.insert(at, group);
    if at == groups.len() {
        assert(after.drop_last() =~= groups);
        vstd::seq_lib::lemma_multiset_commutative(listed_ids(groups), group.challenge_ids);
    } else {
        let rest = groups.drop_last();
        let last = groups.last();
        assert(after.drop_last() =~= rest.insert(at, group));
        lemma_totals_insert(rest, at, group);
        vstd::seq_lib::lemma_multiset_commutative(
            listed_ids(after.drop_last()),
            last.challenge_ids,
        );
        vstd::seq_lib::lemma_multiset_commutative(listed_ids(rest), last.challenge_ids);
    }
}

/// Sorting changes neither how many challenges the groups count nor which
/// identifiers they list.
pub proof fn lemma_sort_keeps_totals(groups: Seq<GroupView>, online: Map<Seq<char>, UserStatus>)
    ensures
        total_count(sort_spec(groups, online)) == total_count(groups),
        listed_ids(sort_spec(groups, online)).to_multiset() == listed_ids(groups).to_multiset(),
    decreases groups.len(),
{
    if groups.len() > 0 {
        let rest = groups.drop_last();
        let last = groups.last();
        let sorted = sort_spec(rest, online);
        lemma_sort_keeps_totals(rest, online);
        lemma_insertion_point_bounds(sorted, last, online);
        lemma_totals_insert(sorted, insertion_point(sorted, last, online), last);
        vstd::seq_lib::lemma_multiset_commutative(listed_ids(rest), last.challenge_ids);
    }
}

/// Sorts groups for display. The sort is stable: each group in turn goes
/// before the groups at the end of the sorted list that have to stand
/// behind it.
pub fn sort_groups(groups: Vec<GroupedChallenge>, online_users: &OnlineUsersState) -> (sorted: Vec<
    GroupedChallenge,
>)
    ensures
        group_views(sorted@) == sort_spec(group_views(groups@), online_users@),
        all_wf(group_views(groups@)) ==> all_wf(group_views(sorted@)),
{
    let ghost all = group_views(groups@);
    let mut sorted: Vec<GroupedChallenge> = Vec::new();
    for group in it: groups
        invariant
            all == group_views(groups@),
            group_views(sorted@) == sort_spec(all.take(it.index() as int), online_users@),
    {
        let ghost before = sorted@;
        let mut at: usize = sorted.len();
        while at > 0 && group_stands_behind(&sorted[at - 1], &group, online_users)
            invariant
                at <= sorted.len(),
                sorted@ == before,
                forall|i: int|
                    at <= i < sorted.len() ==> stands_behind(
                        (#[trigger] sorted[i])@,
                        group@,
                        online_users@,
                    ),
            decreases at,
        {
            at -= 1;
        }
        proof {
            lemma_insertion_point(group_views(before), group@, online_users@, at as int);
            assert(all.take(it.index() + 1).drop_last() =~= all.take(it.index() as int));
        }
        sorted.insert(at, group);
    }
    proof {
        assert(all.take(groups@.len() as int) =~= all);
        if all_wf(all) {
            lemma_sort_keeps_wf(all, online_users@);
        }
    }
    sorted
}

} // verus!
