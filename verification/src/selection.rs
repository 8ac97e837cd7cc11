//! The selection engine: pick participants from the eligible pool and
//! commit the result atomically — no partial wins, no double picks — and
//! revoke or annotate a win. Every mutation is recorded in the audit trail
//! and attributed to the acting user.

use vstd::prelude::*;
use crate::audit::{Action, AuditEntry, AuditLog};
use crate::participants::{
    has_id, idx_of, lemma_idx_of_unique, lemma_num_eligible_update, num_eligible, row_of, store_wf,
    unique_ids, Participant, ParticipantStore, User,
};

verus! {

/// Why a selection operation failed.
#[derive(Debug, Clone, Copy, PartialEq, Eq, Structural)]
pub enum SelectionError {
    /// Fewer participants are eligible than were requested.
    InsufficientParticipants,
    /// The affected rows did not match the request; another writer
    /// interfered and the operation was rolled back.
    ConcurrentModification,
    /// No participant carries the requested id.
    NotFound,
    /// A package can only be assigned to a participant who already won.
    NotAWinnerYet,
    /// The package is already assigned to another winner of that day.
    PackageConflict,
}

/// Relies on rand::seq::index::sample, which draws `amount` distinct
/// indices from `0..length` (and panics when `amount` exceeds `length`);
/// `rand::rng()` supplies the generator. Nothing is assumed about which
/// indices come back.
#[verifier::external_body]
fn sample_indices(length: usize, amount: usize) -> (r: Vec<usize>)
    requires
        amount <= length,
    ensures
        r@.len() == amount,
        r@.no_duplicates(),
        forall|k: int| 0 <= k < r@.len() ==> r@[k] < length,
{
    rand::seq::index::sample(&mut rand::rng(), length, amount).into_vec()
}

/// The row as it stands after being marked as a winner.
pub open spec fn marked(p: Participant, date: i64, actor: i32, time: u64) -> Participant {
    Participant {
        id: p.id,
        first_name: p.first_name,
        last_name: p.last_name,
        won_on: Some(date),
        picked_by: Some(actor),
        picking_time: Some(time),
        present_identifier: None,
    }
}

/// The row as it stands after its win was revoked.
pub open spec fn cleared(p: Participant) -> Participant {
    Participant {
        id: p.id,
        first_name: p.first_name,
        last_name: p.last_name,
        won_on: None,
        picked_by: None,
        picking_time: None,
        present_identifier: None,
    }
}

/// The ids name pairwise distinct rows that are all still eligible.
pub open spec fn ids_eligible(s: Seq<Participant>, ids: Seq<i32>) -> bool {
    &&& ids.no_duplicates()
    &&& forall|k: int|
        0 <= k < ids.len() ==> has_id(s, #[trigger] ids[k]) && row_of(s, ids[k]).eligible()
}

/// The whole effect of a committed pick: exactly the rows named by `ids`
/// are marked, every other row is untouched.
pub open spec fn pick_commit(
    pre: Seq<Participant>,
    post: Seq<Participant>,
    ids: Seq<i32>,
    date: i64,
    actor: i32,
    time: u64,
) -> bool {
    &&& post.len() == pre.len()
    &&& forall|i: int|
        0 <= i < pre.len() ==> #[trigger] post[i] == (if ids.contains(pre[i].id) {
            marked(pre[i], date, actor, time)
        } else {
            pre[i]
        })
}

/// Mark the named participants as winners of `picked_for_date`, all of
/// them or none: if any id is missing, already taken, or repeated, the
/// request does not match the rows it would change, nothing is written,
/// and the caller sees `ConcurrentModification`.
pub fn mark_participant_as_won(
    store: &mut ParticipantStore,
    participant_ids: &Vec<i32>,
    picked_for_date: i64,
    picked_by: i32,
    picking_time: u64,
) -> (r: Result<(), SelectionError>)
    requires
        store_wf(old(store)@),
    ensures
        store_wf(final(store)@),
        r is Ok <==> ids_eligible(old(store)@, participant_ids@),
        r is Err ==> final(store)@ == old(store)@ && r == Err::<(), SelectionError>(
            SelectionError::ConcurrentModification,
        ),
        r is Ok ==> pick_commit(
            old(store)@,
            final(store)@,
            participant_ids@,
            picked_for_date,
            picked_by,
            picking_time,
        ) && num_eligible(final(store)@) + participant_ids@.len() == num_eligible(old(store)@),
{
    let ghost pre = store@;
    let n: usize = participant_ids.len();

    // First pass: the request must name distinct, present, still-eligible
    // rows; otherwise nothing is written.
    let mut k: usize = 0;
    while k < n
        invariant
            store@ == pre,
            store_wf(pre),
            k <= n,
            n == participant_ids@.len(),
            forall|m: int|
                0 <= m < k ==> has_id(pre, #[trigger] participant_ids@[m]) && row_of(
                    pre,
                    participant_ids@[m],
                ).eligible(),
            forall|a: int, b: int|
                0 <= a < b < k ==> participant_ids@[a] != participant_ids@[b],
        decreases n - k,
    {
        let id = participant_ids[k];
        match store.find_by_id(id) {
            None => {
                return Err(SelectionError::ConcurrentModification);
            },
            Some(i) => {
                proof {
                    lemma_idx_of_unique(pre, i as int, id);
                }
                if store.rows[i].won_on.is_some() {
                    return Err(SelectionError::ConcurrentModification);
                }
            },
        }
        let mut l: usize = 0;
        while l < k
            invariant
                store@ == pre,
                store_wf(pre),
                k < n,
                n == participant_ids@.len(),
                l <= k,
                forall|m: int| 0 <= m < l ==> participant_ids@[m] != participant_ids@[k as int],
            decreases k - l,
        {
            if participant_ids[l] == participant_ids[k] {
                return Err(SelectionError::ConcurrentModification);
            }
            l += 1;
        }
        k += 1;
    }
    assert(ids_eligible(pre, participant_ids@));

    // Second pass: commit the marks; each step takes one eligible row.
    let mut k: usize = 0;
    while k < n
        invariant
            store_wf(store@),
            ids_eligible(pre, participant_ids@),
            k <= n,
            n == participant_ids@.len(),
            store@.len() == pre.len(),
            forall|i: int| 0 <= i < pre.len() ==> store@[i].id == #[trigger] pre[i].id,
            forall|i: int|
                0 <= i < pre.len() ==> #[trigger] store@[i] == (if participant_ids@.take(
                    k as int,
                ).contains(pre[i].id) {
                    marked(pre[i], picked_for_date, picked_by, picking_time)
                } else {
                    pre[i]
                }),
            num_eligible(store@) + k == num_eligible(pre),
        decreases n - k,
    {
        let id = participant_ids[k];
        let maybe_i = store.find_by_id(id);
        proof {
            assert(has_id(pre, participant_ids@[k as int]));
            let w = idx_of(pre, id);
            assert(store@[w].id == id);
        }
        match maybe_i {
            None => {
                proof {
                    assert(false);
                }
                return Err(SelectionError::ConcurrentModification);
            },
            Some(i) => {
                let ghost old_rows = store@;
                proof {
                    lemma_idx_of_unique(pre, i as int, id);
                    // The id is not among the first k, so this row is untouched.
                    assert(!participant_ids@.take(k as int).contains(id)) by {
                        if participant_ids@.take(k as int).contains(id) {
                            let m = choose|m: int|
                                0 <= m < k && participant_ids@.take(k as int)[m] == id;
                            assert(participant_ids@[m] == participant_ids@[k as int]);
                        }
                    }
                    assert(old_rows[i as int] == pre[i as int]);
                    assert(row_of(pre, id).eligible());
                }
                let row = &mut store.rows[i];
                row.won_on = Some(picked_for_date);
                row.picked_by = Some(picked_by);
                row.picking_time = Some(picking_time);
                row.present_identifier = None;
                proof {
                    assert(store@ == old_rows.update(
                        i as int,
                        marked(pre[i as int], picked_for_date, picked_by, picking_time),
                    ));
                    lemma_num_eligible_update(
                        old_rows,
                        i as int,
                        marked(pre[i as int], picked_for_date, picked_by, picking_time),
                    );
                    assert forall|j: int| 0 <= j < pre.len() implies #[trigger] store@[j] == (
                    if participant_ids@.take(k as int + 1).contains(pre[j].id) {
                        marked(pre[j], picked_for_date, picked_by, picking_time)
                    } else {
                        pre[j]
                    }) by {
                        assert(participant_ids@.take(k as int + 1) =~= participant_ids@.take(
                            k as int,
                        ).push(id));
                        if j == i as int {
                            assert(pre[j].id == id);
                            assert(participant_ids@.take(k as int + 1)[k as int] == id);
                            assert(participant_ids@.take(k as int + 1).contains(pre[j].id));
                        } else {
                            assert(store@[j] == old_rows[j]);
                            if participant_ids@.take(k as int).contains(pre[j].id) {
                                assert(participant_ids@.take(k as int + 1).contains(pre[j].id));
                            } else if pre[j].id == id {
                                // Two distinct rows cannot share the id.
                                assert(pre[j].id == pre[i as int].id);
                                assert(j != i as int);
                                assert(false);
                            }
                        }
                    }
                }
            },
        }
        k += 1;
    }
    proof {
        assert(participant_ids@.take(n as int) =~= participant_ids@);
    }
    Ok(())
}

/// Draw `count` distinct ids at random from the eligible pool, without
/// marking anything; fails exactly when fewer rows are eligible.
pub fn pick_random_participants(store: &ParticipantStore, count: usize) -> (r: Option<Vec<i32>>)
    requires
        store_wf(store@),
    ensures
        r is Some <==> count <= num_eligible(store@),
        r matches Some(ids) ==> ids@.len() == count && ids_eligible(store@, ids@),
{
    let n: usize = store.len();
    let mut eligible_ids: Vec<i32> = Vec::new();
    let ghost mut idxs: Seq<int> = Seq::empty();
    let mut i: usize = 0;
    while i < n
        invariant
            store_wf(store@),
            i <= n,
            n == store@.len(),
            eligible_ids@.len() == num_eligible(store@.take(i as int)),
            idxs.len() == eligible_ids@.len(),
            forall|k: int|
                0 <= k < idxs.len() ==> 0 <= #[trigger] idxs[k] < i as int && store@[idxs[k]].id
                    == eligible_ids@[k] && store@[idxs[k]].eligible(),
            forall|a: int, b: int| 0 <= a < b < idxs.len() ==> idxs[a] < idxs[b],
        decreases n - i,
    {
        proof {
            assert(store@.take(i as int + 1).drop_last() =~= store@.take(i as int));
        }
        if store.rows[i].won_on.is_none() {
            eligible_ids.push(store.rows[i].id);
            proof {
                idxs = idxs.push(i as int);
            }
        }
        i += 1;
    }
    proof {
        assert(store@.take(n as int) =~= store@);
    }
    if count > eligible_ids.len() {
        return None;
    }
    let picked_positions = sample_indices(eligible_ids.len(), count);
    let mut chosen: Vec<i32> = Vec::new();
    let mut j: usize = 0;
    while j < count
        invariant
            count == picked_positions@.len(),
            forall|k: int| 0 <= k < picked_positions@.len() ==> picked_positions@[k]
                < eligible_ids@.len(),
            j <= count,
            chosen@.len() == j,
            forall|k: int|
                0 <= k < j ==> chosen@[k] == eligible_ids@[picked_positions@[k] as int],
        decreases count - j,
    {
        chosen.push(eligible_ids[picked_positions[j]]);
        j += 1;
    }
    proof {
        assert forall|k: int|
            0 <= k < chosen@.len() implies has_id(store@, #[trigger] chosen@[k]) && row_of(
            store@,
            chosen@[k],
        ).eligible() by {
            let p = picked_positions@[k] as int;
            lemma_idx_of_unique(store@, idxs[p], chosen@[k]);
        }
        assert forall|a: int, b: int|
            0 <= a < chosen@.len() && 0 <= b < chosen@.len() && a != b implies chosen@[a]
            != chosen@[b] by {
            let pa = picked_positions@[a] as int;
            let pb = picked_positions@[b] as int;
            assert(picked_positions@[a] != picked_positions@[b]);
            assert(idxs[pa] != idxs[pb]) by {
                if pa < pb {
                    assert(idxs[pa] < idxs[pb]);
                } else {
                    assert(idxs[pb] < idxs[pa]);
                }
            }
            assert(store@[idxs[pa]].id != store@[idxs[pb]].id);
        }
    }
    Some(chosen)
}

/// One fresh audit row for a picked winner, naming the participant.
pub open spec fn picked_winner_entry(actor_id: i32, participant_id: i32, now: u64) -> AuditEntry {
    AuditEntry {
        time_of_action: now,
        user_id: Some(actor_id),
        action: Action::PickedWinner,
        participant_id: Some(participant_id),
        description: None,
    }
}

/// Pick `count` winners for the date, atomically: either exactly `count`
/// eligible participants are drawn, marked and returned, with one audit
/// row appended per winner, or nothing changes at all. A request for more
/// winners than there are eligible participants changes nothing and
/// fails with `InsufficientParticipants`; `count == 0` succeeds with an
/// empty draw.
pub fn pick(
    store: &mut ParticipantStore,
    audit: &mut AuditLog,
    count: usize,
    picked_for_date: i64,
    actor: &User,
    now: u64,
) -> (r: Result<Vec<Participant>, SelectionError>)
    requires
        store_wf(old(store)@),
    ensures
        store_wf(final(store)@),
        count <= num_eligible(old(store)@) ==> r is Ok,
        r is Err ==> r == Err::<Vec<Participant>, SelectionError>(
            SelectionError::InsufficientParticipants,
        ) && count > num_eligible(old(store)@) && final(store)@ == old(store)@ && final(audit)@
            == old(audit)@,
        r matches Ok(winners) ==> ({
            let ids = winners@.map_values(|p: Participant| p.id);
            &&& winners@.len() == count
            &&& ids_eligible(old(store)@, ids)
            &&& pick_commit(old(store)@, final(store)@, ids, picked_for_date, actor.id, now)
            &&& num_eligible(final(store)@) + count == num_eligible(old(store)@)
            &&& forall|j: int|
                0 <= j < count ==> winners@[j].like(
                    marked(row_of(old(store)@, ids[j]), picked_for_date, actor.id, now),
                )
            &&& final(audit)@.len() == old(audit)@.len() + count
            &&& final(audit)@.subrange(0, old(audit)@.len() as int) == old(audit)@
            &&& forall|j: int|
                0 <= j < count ==> final(audit)@[old(audit)@.len() + j]
                    == picked_winner_entry(actor.id, ids[j], now)
        }),
{
    let ghost pre = store@;
    let maybe_ids = pick_random_participants(store, count);
    match maybe_ids {
        None => Err(SelectionError::InsufficientParticipants),
        Some(chosen) => {
            match mark_participant_as_won(store, &chosen, picked_for_date, actor.id, now) {
                Err(_) => {
                    proof {
                        assert(false);
                    }
                    Err(SelectionError::InsufficientParticipants)
                },
                Ok(()) => {
                    let mut winners: Vec<Participant> = Vec::new();
                    let mut j: usize = 0;
                    while j < count
                        invariant
                            count == chosen@.len(),
                            ids_eligible(pre, chosen@),
                            pick_commit(pre, store@, chosen@, picked_for_date, actor.id, now),
                            store_wf(pre),
                            store_wf(store@),
                            store@.len() == pre.len(),
                            j <= count,
                            winners@.len() == j,
                            forall|m: int|
                                0 <= m < j ==> (#[trigger] winners@[m]).like(
                                    marked(
                                        row_of(pre, chosen@[m]),
                                        picked_for_date,
                                        actor.id,
                                        now,
                                    ),
                                ),
                            forall|m: int| 0 <= m < j ==> (#[trigger] winners@[m]).id
                                == chosen@[m],
                        decreases count - j,
                    {
                        let id = chosen[j];
                        let maybe_i = store.find_by_id(id);
                        proof {
                            assert(has_id(pre, chosen@[j as int]));
                            let w = idx_of(pre, id);
                            assert(store@[w].id == id);
                        }
                        match maybe_i {
                            None => {
                                proof {
                                    assert(false);
                                }
                                return Err(SelectionError::InsufficientParticipants);
                            },
                            Some(i) => {
                                proof {
                                    assert(store@[i as int].id == pre[i as int].id);
                                    lemma_idx_of_unique(pre, i as int, id);
                                    assert(chosen@.contains(pre[i as int].id));
                                    assert(store@[i as int] == marked(
                                        pre[i as int],
                                        picked_for_date,
                                        actor.id,
                                        now,
                                    ));
                                }
                                let w = store.row_at(i);
                                winners.push(w);
                            },
                        }
                        j += 1;
                    }
                    let ghost audit_pre = audit@;
                    let mut j2: usize = 0;
                    while j2 < count
                        invariant
                            count == chosen@.len(),
                            j2 <= count,
                            audit@.len() == audit_pre.len() + j2,
                            audit@.subrange(0, audit_pre.len() as int) == audit_pre,
                            forall|m: int|
                                0 <= m < j2 ==> audit@[audit_pre.len() + m]
                                    == picked_winner_entry(actor.id, chosen@[m], now),
                        decreases count - j2,
                    {
                        let ghost before = audit@;
                        audit.append(
                            AuditEntry {
                                time_of_action: now,
                                user_id: Some(actor.id),
                                action: Action::PickedWinner,
                                participant_id: Some(chosen[j2]),
                                description: None,
                            },
                        );
                        proof {
                            assert(audit@.subrange(0, audit_pre.len() as int) =~= before.subrange(
                                0,
                                audit_pre.len() as int,
                            ));
                        }
                        j2 += 1;
                    }
                    proof {
                        let ids = winners@.map_values(|p: Participant| p.id);
                        assert forall|m: int| 0 <= m < chosen@.len() implies ids[m] == chosen@[m] by {
                            assert(winners@[m].id == chosen@[m]);
                        }
                        assert(ids =~= chosen@);
                    }
                    Ok(winners)
                },
            }
        },
    }
}

/// Law: a committed pick never touches a row that had already won — no
/// participant is ever doubly marked, whatever ids a concurrent caller
/// handed in, because a commit only goes through for still-eligible rows.
pub proof fn lemma_winners_never_remarked(
    pre: Seq<Participant>,
    post: Seq<Participant>,
    ids: Seq<i32>,
    date: i64,
    actor: i32,
    time: u64,
)
    requires
        unique_ids(pre),
        ids_eligible(pre, ids),
        pick_commit(pre, post, ids, date, actor, time),
    ensures
        forall|i: int| 0 <= i < pre.len() && pre[i].won_on is Some ==> post[i] == pre[i],
{
    assert forall|i: int| 0 <= i < pre.len() && pre[i].won_on is Some implies post[i] == pre[i] by {
        if ids.contains(pre[i].id) {
            let k = choose|k: int| 0 <= k < ids.len() && ids[k] == pre[i].id;
            assert(row_of(pre, ids[k]).eligible());
            lemma_idx_of_unique(pre, i, pre[i].id);
        }
    }
}

/// Law: a pick that takes every eligible participant leaves none behind,
/// so of two picks racing for the same `count` eligible rows at most one
/// can succeed — the later one finds the pool drained and, by the
/// contract of `pick`, fails without mutating anything.
pub proof fn lemma_second_pick_fails(
    pre: Seq<Participant>,
    post: Seq<Participant>,
    count: nat,
    count2: nat,
)
    requires
        num_eligible(post) + count == num_eligible(pre),
        count == num_eligible(pre),
        count2 > 0,
    ensures
        count2 > num_eligible(post),
{
}

/// Revoke a win: reset the selection fields of exactly the one row with
/// the id; a request for an unknown id changes nothing.
pub fn mark_participant_as_not_won(store: &mut ParticipantStore, participant_id: i32) -> (r:
    Result<(), SelectionError>)
    requires
        store_wf(old(store)@),
    ensures
        store_wf(final(store)@),
        r is Ok <==> has_id(old(store)@, participant_id),
        r is Err ==> final(store)@ == old(store)@ && r == Err::<(), SelectionError>(
            SelectionError::NotFound,
        ),
        r is Ok ==> final(store)@.len() == old(store)@.len() && forall|i: int|
            0 <= i < old(store)@.len() ==> #[trigger] final(store)@[i] == (if old(
                store,
            )@[i].id == participant_id {
                cleared(old(store)@[i])
            } else {
                old(store)@[i]
            }),
{
    let ghost pre = store@;
    match store.find_by_id(participant_id) {
        None => Err(SelectionError::NotFound),
        Some(i) => {
            proof {
                lemma_idx_of_unique(pre, i as int, participant_id);
            }
            let row = &mut store.rows[i];
            row.won_on = None;
            row.picked_by = None;
            row.picking_time = None;
            row.present_identifier = None;
            proof {
                assert(store@ == pre.update(i as int, cleared(pre[i as int])));
                assert forall|j: int| 0 <= j < pre.len() implies #[trigger] store@[j] == (if pre[j].id
                    == participant_id {
                    cleared(pre[j])
                } else {
                    pre[j]
                }) by {
                    if j != i as int && pre[j].id == participant_id {
                        assert(pre[j].id == pre[i as int].id);
                        assert(false);
                    }
                }
            }
            Ok(())
        },
    }
}

/// Law: revoking a win makes the same participant eligible again, so a
/// later pick can re-select it.
pub proof fn lemma_unpick_restores_eligibility(
    pre: Seq<Participant>,
    post: Seq<Participant>,
    id: i32,
)
    requires
        store_wf(pre),
        has_id(pre, id),
        post.len() == pre.len(),
        forall|i: int|
            0 <= i < pre.len() ==> #[trigger] post[i] == (if pre[i].id == id {
                cleared(pre[i])
            } else {
                pre[i]
            }),
    ensures
        has_id(post, id),
        row_of(post, id).eligible(),
{
    let w = idx_of(pre, id);
    assert(0 <= w < pre.len() && pre[w].id == id);
    assert(post[w] == cleared(pre[w]));
    assert forall|a: int, b: int| 0 <= a < b < post.len() implies post[a].id != post[b].id by {
        assert(post[a].id == pre[a].id && post[b].id == pre[b].id);
    }
    lemma_idx_of_unique(post, w, id);
}

/// Revoke a win and record it: the one row is reset and one
/// `RemovedWinner` audit row is appended; an unknown id changes nothing.
pub fn remove_participant_from_winner_list(
    store: &mut ParticipantStore,
    audit: &mut AuditLog,
    participant_id: i32,
    actor: &User,
    now: u64,
) -> (r: Result<(), SelectionError>)
    requires
        store_wf(old(store)@),
    ensures
        store_wf(final(store)@),
        r is Ok <==> has_id(old(store)@, participant_id),
        r is Err ==> final(store)@ == old(store)@ && final(audit)@ == old(audit)@ && r == Err::<
            (),
            SelectionError,
        >(SelectionError::NotFound),
        r is Ok ==> final(store)@.len() == old(store)@.len() && (forall|i: int|
            0 <= i < old(store)@.len() ==> #[trigger] final(store)@[i] == (if old(
                store,
            )@[i].id == participant_id {
                cleared(old(store)@[i])
            } else {
                old(store)@[i]
            })) && final(audit)@ == old(audit)@.push(
            AuditEntry {
                time_of_action: now,
                user_id: Some(actor.id),
                action: Action::RemovedWinner,
                participant_id: Some(participant_id),
                description: None,
            },
        ),
{
    match mark_participant_as_not_won(store, participant_id) {
        Err(e) => Err(e),
        Ok(()) => {
            audit.append(
                AuditEntry {
                    time_of_action: now,
                    user_id: Some(actor.id),
                    action: Action::RemovedWinner,
                    participant_id: Some(participant_id),
                    description: None,
                },
            );
            Ok(())
        },
    }
}

/// A requested package assignment: the package a winner should get.
#[derive(Debug)]
pub struct NewPackageSelection {
    /// The package the participant should be assigned.
    pub package: String,
}

/// The package is already assigned to a different participant who won on
/// the same day.
pub open spec fn package_conflict(
    s: Seq<Participant>,
    participant_id: i32,
    date: i64,
    package: Seq<char>,
) -> bool {
    exists|i: int|
        {
            &&& 0 <= i < s.len()
            &&& (#[trigger] s[i]).id != participant_id
            &&& s[i].won_on == Some(date)
            &&& s[i].present_identifier matches Some(p) && p@ == package
        }
}

/// Assign a package to a winner and record it. The participant must
/// exist and must already have won; the package must not be assigned to
/// a different winner of the same day. On success exactly that one row
/// carries the new package, and one audit row is appended: a first
/// assignment as `PackageSelected`, a replacement as `PackageChanged`
/// with the previous package as its description. On any failure nothing
/// changes.
pub fn update_participant_values(
    store: &mut ParticipantStore,
    audit: &mut AuditLog,
    current_participant_id: i32,
    new_package_selection: &NewPackageSelection,
    actor: &User,
    now: u64,
) -> (r: Result<(), SelectionError>)
    requires
        store_wf(old(store)@),
    ensures
        store_wf(final(store)@),
        r is Err ==> final(store)@ == old(store)@ && final(audit)@ == old(audit)@,
        !has_id(old(store)@, current_participant_id) ==> r == Err::<(), SelectionError>(
            SelectionError::NotFound,
        ),
        has_id(old(store)@, current_participant_id) && row_of(
            old(store)@,
            current_participant_id,
        ).won_on is None ==> r == Err::<(), SelectionError>(SelectionError::NotAWinnerYet),
        has_id(old(store)@, current_participant_id) ==> (row_of(
            old(store)@,
            current_participant_id,
        ).won_on matches Some(date) ==> ({
            if package_conflict(old(store)@, current_participant_id, date, new_package_selection.package@) {
                r == Err::<(), SelectionError>(SelectionError::PackageConflict)
            } else {
                r is Ok
            }
        })),
        r is Ok ==> ({
            let pre = old(store)@;
            let j = idx_of(pre, current_participant_id);
            let prow = final(store)@[j];
            &&& has_id(pre, current_participant_id)
            &&& final(store)@.len() == pre.len()
            &&& forall|i: int| 0 <= i < pre.len() && i != j ==> final(store)@[i] == pre[i]
            &&& prow.id == pre[j].id
            &&& prow.first_name == pre[j].first_name
            &&& prow.last_name == pre[j].last_name
            &&& prow.won_on == pre[j].won_on
            &&& prow.picked_by == pre[j].picked_by
            &&& prow.picking_time == pre[j].picking_time
            &&& prow.present_identifier matches Some(p) && p@ == new_package_selection.package@
            &&& final(audit)@ == old(audit)@.push(
                AuditEntry {
                    time_of_action: now,
                    user_id: Some(actor.id),
                    action: if pre[j].present_identifier is Some {
                        Action::PackageChanged
                    } else {
                        Action::PackageSelected
                    },
                    participant_id: Some(current_participant_id),
                    description: pre[j].present_identifier,
                },
            )
        }),
{
    let ghost pre = store@;
    let maybe_i = store.find_by_id(current_participant_id);
    let i: usize = match maybe_i {
        None => {
            return Err(SelectionError::NotFound);
        },
        Some(i) => i,
    };
    proof {
        lemma_idx_of_unique(pre, i as int, current_participant_id);
    }
    let date: i64 = match store.rows[i].won_on {
        None => {
            return Err(SelectionError::NotAWinnerYet);
        },
        Some(d) => d,
    };

    // The conflict check: no other winner of the same day may already
    // carry this package.
    let n: usize = store.len();
    let mut m: usize = 0;
    while m < n
        invariant
            store@ == pre,
            store_wf(pre),
            m <= n,
            n == pre.len(),
            i < pre.len(),
            pre[i as int].id == current_participant_id,
            pre[i as int].won_on == Some(date),
            idx_of(pre, current_participant_id) == i as int,
            forall|q: int|
                0 <= q < m ==> !((#[trigger] pre[q]).id != current_participant_id && pre[q].won_on
                    == Some(date) && pre[q].present_identifier is Some && (
                pre[q].present_identifier->0)@ == new_package_selection.package@),
        decreases n - m,
    {
        if store.rows[m].id != current_participant_id {
            if let Some(d2) = store.rows[m].won_on {
                if d2 == date {
                    match &store.rows[m].present_identifier {
                        Some(p) => {
                            if p.eq(&new_package_selection.package) {
                                return Err(SelectionError::PackageConflict);
                            }
                        },
                        None => {},
                    }
                }
            }
        }
        m += 1;
    }
    assert(!package_conflict(pre, current_participant_id, date, new_package_selection.package@));

    let row = &mut store.rows[i];
    let old_package = row.present_identifier.take();
    row.present_identifier = Some(new_package_selection.package.clone());
    audit.append(
        AuditEntry {
            time_of_action: now,
            user_id: Some(actor.id),
            action: if old_package.is_some() {
                Action::PackageChanged
            } else {
                Action::PackageSelected
            },
            participant_id: Some(current_participant_id),
            description: old_package,
        },
    );
    proof {
        assert forall|q: int| 0 <= q < pre.len() && q != i as int implies store@[q] == pre[q] by {}
        assert forall|a: int, b: int| 0 <= a < b < store@.len() implies store@[a].id
            != store@[b].id by {
            assert(store@[a].id == pre[a].id && store@[b].id == pre[b].id);
        }
        assert forall|q: int| 0 <= q < store@.len() implies (#[trigger] store@[q]).wf() by {
            assert(pre[q].wf());
            if q != i as int {
                assert(store@[q] == pre[q]);
            }
        }
    }
    Ok(())
}

} // verus!
