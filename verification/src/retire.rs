//! Retiring members of an ordered roster: channel pairs whose senders are gone,
//! waiters whose value was delivered.
use vstd::prelude::*;

verus! {

/// Whether the member at `index` is marked as retired. Members beyond the end of the
/// marks were not visited and stay.
pub open spec fn is_retired(retired: Seq<bool>, index: int) -> bool {
    0 <= index < retired.len() && retired[index]
}

/// The members that stay, in their old order: those that are not marked as retired.
pub open spec fn survivors<T>(members: Seq<T>, retired: Seq<bool>) -> Seq<T>
    decreases members.len(),
{
    if members.len() == 0 {
        Seq::empty()
    } else if is_retired(retired, members.len() - 1) {
        survivors(members.drop_last(), retired)
    } else {
        survivors(members.drop_last(), retired).push(members.last())
    }
}

/// The number of members that are marked as retired.
pub open spec fn retired_count<T>(members: Seq<T>, retired: Seq<bool>) -> nat
    decreases members.len(),
{
    if members.len() == 0 {
        0
    } else if is_retired(retired, members.len() - 1) {
        retired_count(members.drop_last(), retired) + 1
    } else {
        retired_count(members.drop_last(), retired)
    }
}

/// The position among the survivors of the member at `index`, if it stays: the number
/// of members before it that stay.
pub open spec fn survivor_index(retired: Seq<bool>, index: int) -> int
    decreases index,
{
    if index <= 0 {
        0
    } else if is_retired(retired, index - 1) {
        survivor_index(retired, index - 1)
    } else {
        survivor_index(retired, index - 1) + 1
    }
}

/// Marks beyond the roster do not matter, nor does how the marks were produced: two
/// lists of marks that agree on every member leave the same survivors.
pub proof fn lemma_survivors_agree<T>(members: Seq<T>, first: Seq<bool>, second: Seq<bool>)
    requires
        forall|i: int| 0 <= i < members.len() ==> is_retired(first, i) == is_retired(second, i),
    ensures
        survivors(members, first) == survivors(members, second),
    decreases members.len(),
{
    if members.len() > 0 {
        lemma_survivors_agree(members.drop_last(), first, second);
    }
}

/// Members that were not visited stay, behind the survivors of those that were.
pub proof fn lemma_survivors_unvisited<T>(visited: Seq<T>, unvisited: Seq<T>, retired: Seq<bool>)
    requires
        retired.len() <= visited.len(),
    ensures
        survivors(visited + unvisited, retired) == survivors(visited, retired) + unvisited,
    decreases unvisited.len(),
{
    if unvisited.len() == 0 {
        assert(visited + unvisited == visited);
        assert(survivors(visited, retired) + unvisited == survivors(visited, retired));
    } else {
        lemma_survivors_unvisited(visited, unvisited.drop_last(), retired);
        assert((visited + unvisited).drop_last() == visited + unvisited.drop_last());
        assert((survivors(visited, retired) + unvisited.drop_last()).push(unvisited.last())
            == survivors(visited, retired) + unvisited);
    }
}

/// Where nobody is marked, everybody stays.
pub proof fn lemma_survivors_all<T>(members: Seq<T>, retired: Seq<bool>)
    requires
        forall|i: int| 0 <= i < members.len() ==> !is_retired(retired, i),
    ensures
        survivors(members, retired) == members,
    decreases members.len(),
{
    if members.len() > 0 {
        lemma_survivors_all(members.drop_last(), retired);
        assert(members.drop_last().push(members.last()) == members);
    }
}

/// `survivor_index` counts: it is never negative.
pub proof fn lemma_survivor_index_counts(retired: Seq<bool>, index: int)
    ensures
        0 <= survivor_index(retired, index),
    decreases index,
{
    if index > 0 {
        lemma_survivor_index_counts(retired, index - 1);
    }
}

/// `survivor_index` never goes down, and it goes up past every member that stays.
pub proof fn lemma_survivor_index_grows(retired: Seq<bool>, index: int, end: int)
    requires
        0 <= index <= end,
    ensures
        0 <= survivor_index(retired, index) <= survivor_index(retired, end),
        index < end && !is_retired(retired, index) ==> survivor_index(retired, index)
            < survivor_index(retired, end),
    decreases end - index,
{
    lemma_survivor_index_counts(retired, index);
    if index < end {
        lemma_survivor_index_grows(retired, index, end - 1);
    }
}

/// Every member either stays or is retired, and the survivors are exactly the members
/// that are not marked, each at the position that `survivor_index` gives.
pub proof fn lemma_survivors_exact<T>(members: Seq<T>, retired: Seq<bool>)
    ensures
        survivors(members, retired).len() + retired_count(members, retired) == members.len(),
        survivors(members, retired).len() == survivor_index(retired, members.len() as int),
        forall|i: int|
            0 <= i < members.len() && !is_retired(retired, i) ==> 0 <= #[trigger] survivor_index(
                retired,
                i,
            ) < survivors(members, retired).len(),
        forall|i: int|
            0 <= i < members.len() && !is_retired(retired, i) ==> survivors(
                members,
                retired,
            )[survivor_index(retired, i)] == #[trigger] members[i],
    decreases members.len(),
{
    if members.len() > 0 {
        let shorter = members.drop_last();
        lemma_survivors_exact(shorter, retired);
        assert forall|i: int| 0 <= i < members.len() && !is_retired(retired, i) implies 0
            <= #[trigger] survivor_index(retired, i) < survivors(members, retired).len() by {
            lemma_survivor_index_grows(retired, i, members.len() as int);
        }
        assert forall|i: int| 0 <= i < members.len() && !is_retired(retired, i) implies survivors(
            members,
            retired,
        )[survivor_index(retired, i)] == #[trigger] members[i] by {
            lemma_survivor_index_grows(retired, i, members.len() as int);
            if i < shorter.len() {
                assert(shorter[i] == members[i]);
                assert(0 <= survivor_index(retired, i) < survivors(shorter, retired).len());
            }
        }
    }
}

/// The items in the opposite order, so that `pop` hands them out first to last.
pub fn reversed<T>(items: Vec<T>) -> (turned: Vec<T>)
    ensures
        turned@.len() == items@.len(),
        forall|i: int| 0 <= i < items@.len() ==> turned@[i] == items@[items@.len() - 1 - i],
{
    let mut items = items;
    let ghost all = items@;
    let mut turned: Vec<T> = Vec::new();
    while items.len() > 0
        invariant
            items@.len() + turned@.len() == all.len(),
            items@ == all.take(items@.len() as int),
            forall|i: int| 0 <= i < turned@.len() ==> turned@[i] == all[all.len() - 1 - i],
        decreases items@.len(),
    {
        let item = items.pop();
        match item {
            Some(item) => {
                turned.push(item);
            },
            None => {},
        }
    }
    turned
}

/// Retires the marked members of a roster: those that stay are handed back, in their
/// old order. Members without a mark stay.
pub fn retire<T>(members: Vec<T>, retired: &Vec<bool>) -> (kept: Vec<T>)
    ensures
        kept@ == survivors(members@, retired@),
{
    let ghost all = members@;
    let count: usize = members.len();
    let mut kept: Vec<T> = Vec::new();
    let mut index: usize = 0;
    proof {
        assert(all.take(0) == Seq::<T>::empty());
    }
    for member in iter: members
        invariant
            iter.seq() == all,
            index == iter.index(),
            all.len() == count,
            kept@ == survivors(all.take(index as int), retired@),
    {
        proof {
            assert(index < all.len());
            assert(all.take(index + 1).drop_last() == all.take(index as int));
            assert(all.take(index + 1).last() == member);
        }
        if index < retired.len() && retired[index] {
        } else {
            kept.push(member);
        }
        index = index + 1;
    }
    proof {
        assert(all.take(all.len() as int) == all);
    }
    kept
}

} // verus!
