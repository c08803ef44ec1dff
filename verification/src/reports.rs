//! The weekly portfolio report: the day it goes out, the tickers to quote,
//! and the holdings of each user.

use vstd::prelude::*;

use crate::ordering::{sorted_distinct, strictly_sorted_strings, views};

verus! {

/// A day of the week.
#[derive(Debug, Clone, Copy, PartialEq, Eq, Structural)]
pub enum Weekday {
    Mon,
    Tue,
    Wed,
    Thu,
    Fri,
    Sat,
    Sun,
}

/// The report goes out on Mondays.
pub fn is_report_day(today: Weekday) -> (b: bool)
    ensures
        b == (today == Weekday::Mon),
{
    match today {
        Weekday::Mon => true,
        _ => false,
    }
}

/// The tickers to quote for the report: each ticker held by anyone, once,
/// in lexicographic order.
pub fn report_tickers(held: &Vec<String>) -> (r: Vec<String>)
    ensures
        strictly_sorted_strings(views(r@)),
        views(r@).to_set() == views(held@).to_set(),
{
    sorted_distinct(held)
}

/// The holdings of one user, by their positions in the list of all
/// holdings.
pub struct UserHoldings {
    pub user_id: i32,
    pub holdings: Vec<usize>,
}

/// The positions in `users` that hold `user`, in increasing order.
pub open spec fn positions_of(users: Seq<i32>, user: i32) -> Seq<usize>
    decreases users.len(),
{
    if users.len() == 0 {
        Seq::empty()
    } else {
        let before = positions_of(users.drop_last(), user);
        if users.last() == user {
            before.push((users.len() - 1) as usize)
        } else {
            before
        }
    }
}

/// `groups` has one group per user of `users`: no user twice, every user
/// present, each group holding exactly that user's positions in order, none
/// of them empty, and the groups in the order their users first appear.
pub open spec fn groups_users(groups: Seq<UserHoldings>, users: Seq<i32>) -> bool {
    &&& forall|g: int| 0 <= g < groups.len() ==> (#[trigger] groups[g]).holdings@.len() > 0
    &&& forall|a: int, b: int|
        0 <= a < b < groups.len() ==> (#[trigger] groups[a]).holdings@[0] < (
        #[trigger] groups[b]).holdings@[0]
    &&& forall|a: int, b: int|
        0 <= a < b < groups.len() ==> #[trigger] groups[a].user_id != #[trigger] groups[b].user_id
    &&& forall|g: int|
        0 <= g < groups.len() ==> #[trigger] groups[g].holdings@ == positions_of(
            users,
            groups[g].user_id,
        )
    &&& forall|k: int|
        0 <= k < users.len() ==> exists|g: int|
            0 <= g < groups.len() && #[trigger] groups[g].user_id == #[trigger] users[k]
}

proof fn lemma_positions_below(users: Seq<i32>, user: i32)
    ensures
        forall|i: int|
            0 <= i < positions_of(users, user).len() ==> #[trigger] positions_of(users, user)[i]
                < users.len(),
    decreases users.len(),
{
    if users.len() > 0 {
        let d = users.drop_last();
        lemma_positions_below(d, user);
        let before = positions_of(d, user);
        assert forall|i: int| 0 <= i < positions_of(users, user).len() implies #[trigger] positions_of(
            users,
            user,
        )[i] < users.len() by {
            if i < before.len() {
                assert(positions_of(users, user)[i] == before[i]);
            }
        }
    }
}

proof fn lemma_positions_absent(users: Seq<i32>, user: i32)
    requires
        forall|k: int| 0 <= k < users.len() ==> users[k] != user,
    ensures
        positions_of(users, user) == Seq::<usize>::empty(),
    decreases users.len(),
{
    if users.len() > 0 {
        lemma_positions_absent(users.drop_last(), user);
    }
}

/// Splits the holdings (given by the user each belongs to) by user, users in
/// the order they first appear.
pub fn group_by_user(users: &Vec<i32>) -> (groups: Vec<UserHoldings>)
    ensures
        groups_users(groups@, users@),
{
    let mut groups: Vec<UserHoldings> = Vec::new();
    let mut k: usize = 0;
    while k < users.len()
        invariant
            k <= users@.len(),
            groups_users(groups@, users@.take(k as int)),
        decreases users@.len() - k,
    {
        let user = users[k];
        let ghost before = groups@;
        let ghost prefix = users@.take(k as int);
        let ghost next = users@.take(k + 1);
        assert(next.drop_last() =~= prefix);
        assert(next.last() == user);
        let mut g: usize = 0;
        while g < groups.len() && groups[g].user_id != user
            invariant
                g <= groups@.len(),
                groups@ == before,
                forall|h: int| 0 <= h < g ==> groups@[h].user_id != user,
            decreases groups@.len() - g,
        {
            g = g + 1;
        }
        if g < groups.len() {
            groups[g].holdings.push(k);
            assert(groups@[g as int].holdings@[0] == before[g as int].holdings@[0]);
            assert forall|a: int, b: int| 0 <= a < b < groups@.len() implies (
            #[trigger] groups@[a]).holdings@[0] < (#[trigger] groups@[b]).holdings@[0] by {
                assert(groups@[a].holdings@[0] == before[a].holdings@[0]);
                assert(groups@[b].holdings@[0] == before[b].holdings@[0]);
            }
            assert forall|h: int| 0 <= h < groups@.len() implies #[trigger] groups@[h].holdings@
                == positions_of(next, groups@[h].user_id) by {
                if h != g {
                    assert(groups@[h] == before[h]);
                }
            }
            assert forall|j: int| 0 <= j < next.len() implies exists|h: int|
                0 <= h < groups@.len() && #[trigger] groups@[h].user_id == #[trigger] next[j] by {
                if j < k {
                    assert(next[j] == prefix[j]);
                    let h = choose|h: int| 0 <= h < before.len() && #[trigger] before[h].user_id == prefix[j];
                    assert(groups@[h].user_id == before[h].user_id);
                } else {
                    assert(groups@[g as int].user_id == next[j]);
                }
            }
        } else {
            assert forall|j: int| 0 <= j < prefix.len() implies prefix[j] != user by {
                if prefix[j] == user {
                    let h = choose|h: int| 0 <= h < before.len() && #[trigger] before[h].user_id == #[trigger] prefix[j];
                }
            }
            proof {
                lemma_positions_absent(prefix, user);
            }
            let mut holdings: Vec<usize> = Vec::new();
            holdings.push(k);
            groups.push(UserHoldings { user_id: user, holdings });
            assert forall|a: int, b: int| 0 <= a < b < groups@.len() implies (
            #[trigger] groups@[a]).holdings@[0] < (#[trigger] groups@[b]).holdings@[0] by {
                assert(groups@[a] == before[a]);
                if b < before.len() {
                    assert(groups@[b] == before[b]);
                } else {
                    lemma_positions_below(prefix, before[a].user_id);
                    assert(before[a].holdings@[0] < prefix.len());
                }
            }
            assert forall|h: int| 0 <= h < groups@.len() implies #[trigger] groups@[h].holdings@
                == positions_of(next, groups@[h].user_id) by {
                if h < before.len() {
                    assert(groups@[h] == before[h]);
                } else {
                    assert(groups@[h].holdings@ =~= Seq::<usize>::empty().push(k));
                }
            }
            assert forall|j: int| 0 <= j < next.len() implies exists|h: int|
                0 <= h < groups@.len() && #[trigger] groups@[h].user_id == #[trigger] next[j] by {
                if j < k {
                    assert(next[j] == prefix[j]);
                    let h = choose|h: int| 0 <= h < before.len() && #[trigger] before[h].user_id == prefix[j];
                    assert(groups@[h].user_id == before[h].user_id);
                } else {
                    assert(groups@[before.len() as int].user_id == next[j]);
                }
            }
        }
        k = k + 1;
    }
    assert(users@.take(users@.len() as int) =~= users@);
    groups
}

} // verus!
