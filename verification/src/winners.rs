//! Read-only queries over the participant store: the participant counts,
//! and the winners of a given day or of all days, grouped by date.

use vstd::prelude::*;
use crate::participants::{num_eligible, Participant, ParticipantStore};

verus! {

/// The counts the statistics endpoint reports.
#[derive(Debug, Clone, Copy, PartialEq, Eq, Structural)]
pub struct ParticipantCount {
    /// The overall count of all participants in the raffle.
    pub number_of_participants: u16,
    /// The number of participants who already won.
    pub number_of_participants_won: u16,
    /// The number of participants who are still in the raffle.
    pub number_of_participants_still_in_raffle: u16,
}

/// Some row won on the given day.
pub open spec fn some_winner_on(s: Seq<Participant>, date: i64) -> bool {
    exists|q: int| 0 <= q < s.len() && s[q].won_on == Some(date)
}

/// The rows that won on the given day, in store order.
pub open spec fn winners_on_day(s: Seq<Participant>, date: i64) -> Seq<Participant>
    decreases s.len(),
{
    if s.len() == 0 {
        Seq::empty()
    } else {
        let rest = winners_on_day(s.drop_last(), date);
        if s.last().won_on == Some(date) {
            rest.push(s.last())
        } else {
            rest
        }
    }
}

/// A row that won on the day appears among that day's winners.
pub proof fn lemma_winners_on_day_member(s: Seq<Participant>, date: i64, i: int)
    requires
        0 <= i < s.len(),
        s[i].won_on == Some(date),
    ensures
        winners_on_day(s, date).len() > 0,
    decreases s.len(),
{
    if i < s.len() - 1 {
        assert(s.drop_last()[i] == s[i]);
        lemma_winners_on_day_member(s.drop_last(), date, i);
    }
}

/// Count all, won and still-eligible participants.
pub fn get_number_of_participants_who_already_won(store: &ParticipantStore) -> (r:
    ParticipantCount)
    requires
        store@.len() <= u16::MAX,
    ensures
        r.number_of_participants == store@.len(),
        r.number_of_participants_still_in_raffle == num_eligible(store@),
        r.number_of_participants_won + num_eligible(store@) == store@.len(),
{
    let n: usize = store.len();
    let mut eligible: usize = 0;
    let mut i: usize = 0;
    while i < n
        invariant
            i <= n,
            n == store@.len(),
            n <= u16::MAX,
            eligible == num_eligible(store@.take(i as int)),
            eligible <= i,
        decreases n - i,
    {
        proof {
            assert(store@.take(i as int + 1).drop_last() =~= store@.take(i as int));
        }
        if store.rows[i].won_on.is_none() {
            eligible += 1;
        }
        i += 1;
    }
    proof {
        assert(store@.take(n as int) =~= store@);
    }
    ParticipantCount {
        number_of_participants: n as u16,
        number_of_participants_won: (n - eligible) as u16,
        number_of_participants_still_in_raffle: eligible as u16,
    }
}

/// The participants who won on the given day, as copies in store order.
pub fn get_won_participants_on_day(store: &ParticipantStore, date: i64) -> (r: Vec<Participant>)
    ensures
        r@.len() == winners_on_day(store@, date).len(),
        forall|j: int|
            0 <= j < r@.len() ==> (#[trigger] r@[j]).like(winners_on_day(store@, date)[j]),
{
    let n: usize = store.len();
    let mut found: Vec<Participant> = Vec::new();
    let mut i: usize = 0;
    while i < n
        invariant
            i <= n,
            n == store@.len(),
            found@.len() == winners_on_day(store@.take(i as int), date).len(),
            forall|j: int|
                0 <= j < found@.len() ==> (#[trigger] found@[j]).like(
                    winners_on_day(store@.take(i as int), date)[j],
                ),
        decreases n - i,
    {
        proof {
            assert(store@.take(i as int + 1).drop_last() =~= store@.take(i as int));
        }
        let matches_day: bool = match store.rows[i].won_on {
            Some(d) => d == date,
            None => false,
        };
        if matches_day {
            found.push(store.row_at(i));
        }
        i += 1;
    }
    proof {
        assert(store@.take(n as int) =~= store@);
    }
    found
}

/// How many participants won on the given day.
pub fn count_won_participants_on_day(store: &ParticipantStore, date: i64) -> (r: usize)
    ensures
        r == winners_on_day(store@, date).len(),
{
    let winners = get_won_participants_on_day(store, date);
    winners.len()
}

/// One day's winners, as the grouped listing reports them.
pub struct DayWinners {
    pub date: i64,
    pub winners: Vec<Participant>,
}

/// The distinct days on which someone won, in first-appearance order.
fn collect_win_dates(store: &ParticipantStore) -> (dates: Vec<i64>)
    ensures
        forall|a: int, b: int| 0 <= a < b < dates@.len() ==> dates@[a] != dates@[b],
        forall|a: int| 0 <= a < dates@.len() ==> some_winner_on(store@, #[trigger] dates@[a]),
        forall|q: int|
            0 <= q < store@.len() && (#[trigger] store@[q].won_on) is Some ==> dates@.contains(
                store@[q].won_on->0,
            ),
{
    let n: usize = store.len();
    let mut dates: Vec<i64> = Vec::new();
    let mut i: usize = 0;
    while i < n
        invariant
            i <= n,
            n == store@.len(),
            forall|a: int, b: int| 0 <= a < b < dates@.len() ==> dates@[a] != dates@[b],
            forall|a: int|
                0 <= a < dates@.len() ==> some_winner_on(store@, #[trigger] dates@[a]),
            forall|q: int|
                0 <= q < i && (#[trigger] store@[q].won_on) is Some ==> dates@.contains(
                    store@[q].won_on->0,
                ),
        decreases n - i,
    {
        let ghost dates_before = dates@;
        if let Some(d) = store.rows[i].won_on {
            let mut seen: bool = false;
            let mut a: usize = 0;
            let dn: usize = dates.len();
            while a < dn
                invariant
                    a <= dn,
                    dn == dates@.len(),
                    dates@ == dates_before,
                    seen == exists|b: int| 0 <= b < a && dates@[b] == d,
                decreases dn - a,
            {
                if dates[a] == d {
                    seen = true;
                }
                a += 1;
            }
            if !seen {
                dates.push(d);
            }
            proof {
                assert(dates@.contains(d)) by {
                    if !seen {
                        assert(dates@[dates@.len() - 1] == d);
                    }
                }
                assert forall|a: int|
                    0 <= a < dates@.len() implies some_winner_on(store@, #[trigger] dates@[a]) by {
                    if a < dates_before.len() {
                        assert(some_winner_on(store@, dates_before[a]));
                        assert(dates@[a] == dates_before[a]);
                    } else {
                        assert(dates@[a] == d);
                        assert(store@[i as int].won_on == Some(d));
                    }
                }
                assert forall|q: int|
                    0 <= q <= i as int && (#[trigger] store@[q].won_on) is Some implies dates@.contains(
                    store@[q].won_on->0,
                ) by {
                    let x = store@[q].won_on->0;
                    if q < i as int {
                        assert(dates_before.contains(x));
                        let b = choose|b: int|
                            0 <= b < dates_before.len() && dates_before[b] == x;
                        assert(dates@[b] == x);
                    } else {
                        assert(x == d);
                    }
                }
            }
        }
        i += 1;
    }
    dates
}

/// All winners, grouped by the day they won on: one group per distinct
/// day, each group exactly that day's winners, and every day on which
/// someone won is present.
#[verifier::rlimit(50)]
pub fn get_all_winners(store: &ParticipantStore) -> (r: Vec<DayWinners>)
    ensures
        forall|a: int, b: int| 0 <= a < b < r@.len() ==> r@[a].date != r@[b].date,
        forall|a: int|
            0 <= a < r@.len() ==> (#[trigger] r@[a]).winners@.len() == winners_on_day(
                store@,
                r@[a].date,
            ).len() && r@[a].winners@.len() > 0,
        forall|a: int, j: int|
            0 <= a < r@.len() && 0 <= j < r@[a].winners@.len() ==> (#[trigger] r@[a].winners@[j]).like(
                winners_on_day(store@, r@[a].date)[j],
            ),
        forall|i: int|
            0 <= i < store@.len() && (#[trigger] store@[i].won_on) is Some ==> exists|a: int|
                0 <= a < r@.len() && r@[a].date == store@[i].won_on->0,
{
    let dates = collect_win_dates(store);
    let mut groups: Vec<DayWinners> = Vec::new();
    let mut a: usize = 0;
    let dn: usize = dates.len();
    while a < dn
        invariant
            a <= dn,
            dn == dates@.len(),
            groups@.len() == a,
            forall|b: int, c: int| 0 <= b < c < dates@.len() ==> dates@[b] != dates@[c],
            forall|b: int| 0 <= b < dates@.len() ==> some_winner_on(store@, #[trigger] dates@[b]),
            forall|b: int| 0 <= b < a ==> (#[trigger] groups@[b]).date == dates@[b],
            forall|b: int|
                0 <= b < a ==> (#[trigger] groups@[b]).winners@.len() == winners_on_day(
                    store@,
                    dates@[b],
                ).len() && groups@[b].winners@.len() > 0,
            forall|b: int, j: int|
                0 <= b < a && 0 <= j < groups@[b].winners@.len() ==> (
                #[trigger] groups@[b].winners@[j]).like(winners_on_day(store@, dates@[b])[j]),
        decreases dn - a,
    {
        let d = dates[a];
        let winners = get_won_participants_on_day(store, d);
        proof {
            assert(some_winner_on(store@, d));
            let q = choose|q: int| 0 <= q < store@.len() && store@[q].won_on == Some(d);
            lemma_winners_on_day_member(store@, d, q);
        }
        groups.push(DayWinners { date: d, winners });
        a += 1;
    }
    proof {
        assert forall|i: int|
            0 <= i < store@.len() && (#[trigger] store@[i].won_on) is Some implies exists|b: int|
            0 <= b < groups@.len() && groups@[b].date == store@[i].won_on->0 by {
            let d = store@[i].won_on->0;
            assert(dates@.contains(d));
            let b = choose|b: int| 0 <= b < dates@.len() && dates@[b] == d;
            assert(groups@[b].date == d);
        }
    }
    groups
}

} // verus!
