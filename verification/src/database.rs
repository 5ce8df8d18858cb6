//! Decisions of the feedback store: how many records a query returns,
//! from when, and which records of a user come first.

use vstd::prelude::*;
use crate::fixed::saturate_i128;

verus! {

/// Milliseconds in one day.
pub const DAY_MS: i64 = 86_400_000;

/// The number asked for, or `default` where none is given, but at most
/// `cap`.
pub open spec fn limit_or(limit: Option<i64>, default: i64, cap: i64) -> i64 {
    let wanted = match limit {
        Some(n) => n,
        None => default,
    };
    if wanted < cap { wanted } else { cap }
}

fn limited(limit: Option<i64>, default: i64, cap: i64) -> (n: i64)
    ensures
        n == limit_or(limit, default, cap),
{
    let wanted = match limit {
        Some(n) => n,
        None => default,
    };
    if wanted < cap { wanted } else { cap }
}

/// Records of one user that a query returns: 50 by default, at most 100.
pub fn user_feedback_limit(limit: Option<i64>) -> (n: i64)
    ensures
        n == limit_or(limit, 50, 100),
{
    limited(limit, 50, 100)
}

/// Recent records that a query returns: 100 by default, at most 500.
pub fn recent_feedback_limit(limit: Option<i64>) -> (n: i64)
    ensures
        n == limit_or(limit, 100, 500),
{
    limited(limit, 100, 500)
}

/// The instant `days` days before `now_ms`, in milliseconds, saturated to
/// 64 bits.
pub fn recent_since(now_ms: i64, days: i32) -> (since_ms: i64)
    ensures
        since_ms == crate::fixed::saturate(now_ms - days * DAY_MS),
{
    saturate_i128(now_ms as i128 - (days as i128) * 86_400_000)
}

/// What the store needs to know of a feedback record to pick it: whose it
/// is, if anyone's, and when it was made.
#[derive(Debug, Clone, Copy, PartialEq, Eq, Structural)]
pub struct FeedbackKey {
    pub user_id: Option<u128>,
    pub created_at: i64,
}

/// First position at or after `from` in `order` whose record is older than
/// `created_at`; the length of `order` where there is none.
pub open spec fn first_older(
    keys: Seq<FeedbackKey>,
    order: Seq<int>,
    created_at: int,
    from: int,
) -> int
    decreases order.len() - from,
{
    if from < 0 || from >= order.len() || keys[order[from]].created_at < created_at {
        from
    } else {
        first_older(keys, order, created_at, from + 1)
    }
}

/// The positions of the records of `user` among the first `count` records,
/// newest first; records made at the same time keep their order.
pub open spec fn newest_first(keys: Seq<FeedbackKey>, user: u128, count: int) -> Seq<int>
    decreases count,
{
    if count <= 0 {
        Seq::empty()
    } else {
        let front = newest_first(keys, user, count - 1);
        let key = keys[count - 1];
        if key.user_id == Some(user) {
            front.insert(first_older(keys, front, key.created_at as int, 0), count - 1)
        } else {
            front
        }
    }
}

/// The positions of at most `limit` records of `user`, newest first.
pub open spec fn user_feedback_order(keys: Seq<FeedbackKey>, user: u128, limit: nat) -> Seq<int> {
    let all = newest_first(keys, user, keys.len() as int);
    if all.len() <= limit { all } else { all.take(limit as int) }
}

/// The position that `first_older` finds splits the order: the records
/// before it are not older than `created_at`, and the one at it, if any,
/// is.
pub proof fn lemma_first_older(keys: Seq<FeedbackKey>, order: Seq<int>, created_at: int, from: int)
    requires
        0 <= from <= order.len(),
    ensures
        from <= first_older(keys, order, created_at, from) <= order.len(),
        forall|k: int|
            from <= k < first_older(keys, order, created_at, from) ==> keys[order[k]].created_at
                >= created_at,
        first_older(keys, order, created_at, from) < order.len() ==> keys[order[first_older(
            keys,
            order,
            created_at,
            from,
        )]].created_at < created_at,
    decreases order.len() - from,
{
    if from < order.len() && keys[order[from]].created_at >= created_at {
        lemma_first_older(keys, order, created_at, from + 1);
    }
}

/// The order holds exactly the positions of the user's records, each
/// once, and their times never rise along it.
pub proof fn lemma_newest_first(keys: Seq<FeedbackKey>, user: u128, count: int)
    requires
        0 <= count <= keys.len(),
    ensures
        ({
            let order = newest_first(keys, user, count);
            &&& order.len() <= count
            &&& forall|k: int|
                0 <= k < order.len() ==> 0 <= (#[trigger] order[k]) < count && keys[order[k]].user_id
                    == Some(user)
            &&& forall|p: int|
                0 <= p < count && keys[p].user_id == Some(user) ==> order.contains(p)
            &&& forall|i: int, j: int|
                0 <= i < j < order.len() ==> (#[trigger] order[i]) != (#[trigger] order[j])
                    && keys[order[i]].created_at >= keys[order[j]].created_at
        }),
    decreases count,
{
    if count > 0 {
        lemma_newest_first(keys, user, count - 1);
        let front = newest_first(keys, user, count - 1);
        let key = keys[count - 1];
        if key.user_id == Some(user) {
            lemma_first_older(keys, front, key.created_at as int, 0);
            let at = first_older(keys, front, key.created_at as int, 0);
            let order = front.insert(at, count - 1);
            assert(order == newest_first(keys, user, count));
            assert forall|k: int| 0 <= k < order.len() implies (#[trigger] order[k]) < count
                && keys[order[k]].user_id == Some(user) by {
                if k < at {
                    assert(order[k] == front[k]);
                } else if k > at {
                    assert(order[k] == front[k - 1]);
                }
            }
            assert forall|p: int|
                0 <= p < count && keys[p].user_id == Some(user) implies order.contains(p) by {
                if p == count - 1 {
                    assert(order[at] == p);
                } else {
                    assert(front.contains(p));
                    let k = choose|k: int| 0 <= k < front.len() && front[k] == p;
                    if k < at {
                        assert(order[k] == p);
                    } else {
                        assert(order[k + 1] == p);
                    }
                }
            }
            assert forall|i: int, j: int| 0 <= i < j < order.len() implies (#[trigger] order[i]) != (
            #[trigger] order[j]) && keys[order[i]].created_at >= keys[order[j]].created_at by {
                let a = if i < at { i } else { i - 1 };
                let b = if j < at { j } else { j - 1 };
                if i != at {
                    assert(order[i] == front[a]);
                }
                if j != at {
                    assert(order[j] == front[b]);
                }
                if i != at && j != at {
                    assert(a < b);
                    assert(front[a] != front[b]);
                } else if i == at {
                    assert(at <= b);
                    assert(keys[front[at]].created_at < key.created_at);
                    assert(at == b || keys[front[at]].created_at >= keys[front[b]].created_at);
                }
            }
        } else {
            let order = front;
            assert forall|p: int|
                0 <= p < count && keys[p].user_id == Some(user) implies order.contains(p) by {
                assert(p < count - 1);
            }
        }
    }
}

/// The positions that a list of indices holds.
pub open spec fn positions(order: Seq<usize>) -> Seq<int> {
    Seq::new(order.len(), |k: int| order[k] as int)
}

/// Picks the records of `user`, newest first, at most `limit` of them,
/// by their positions in `keys`.
pub fn select_user_feedback(keys: &Vec<FeedbackKey>, user: u128, limit: usize) -> (order: Vec<usize>)
    ensures
        positions(order@) == user_feedback_order(keys@, user, limit as nat),
        order@.len() <= limit,
        forall|k: int|
            0 <= k < order@.len() ==> (#[trigger] order@[k]) < keys@.len() && keys@[order@[k] as int].user_id
                == Some(user),
        forall|i: int, j: int|
            0 <= i < j < order@.len() ==> (#[trigger] order@[i]) != (#[trigger] order@[j])
                && keys@[order@[i] as int].created_at >= keys@[order@[j] as int].created_at,
{
    proof {
        lemma_newest_first(keys@, user, keys@.len() as int);
    }
    let mut order: Vec<usize> = Vec::new();
    let mut i: usize = 0;
    assert(positions(order@) == Seq::<int>::empty());
    while i < keys.len()
        invariant
            i <= keys.len(),
            positions(order@) == newest_first(keys@, user, i as int),
            forall|k: int| 0 <= k < order@.len() ==> (#[trigger] order@[k]) < i,
        decreases keys.len() - i,
    {
        let key = keys[i];
        let is_users = match key.user_id {
            Some(owner) => owner == user,
            None => false,
        };
        if is_users {
            let ghost front = positions(order@);
            let mut at: usize = 0;
            while at < order.len() && keys[order[at]].created_at >= key.created_at
                invariant
                    at <= order.len(),
                    positions(order@) == front,
                    i < keys.len(),
                    forall|k: int| 0 <= k < order@.len() ==> (#[trigger] order@[k]) < i,
                    first_older(keys@, front, key.created_at as int, 0) == first_older(
                        keys@,
                        front,
                        key.created_at as int,
                        at as int,
                    ),
                decreases order.len() - at,
            {
                assert(front[at as int] == order@[at as int]);
                at = at + 1;
            }
            proof {
                if at < order.len() {
                    assert(front[at as int] == order@[at as int]);
                }
            }
            order.insert(at, i);
            assert(positions(order@) == front.insert(at as int, i as int));
        }
        i = i + 1;
    }
    let ghost all = positions(order@);
    order.truncate(limit);
    assert(positions(order@) == if all.len() <= limit { all } else { all.take(limit as int) });
    assert forall|k: int| 0 <= k < order@.len() implies (#[trigger] order@[k]) == all[k] by {
        assert(positions(order@)[k] == order@[k]);
    }
    order
}

} // verus!
