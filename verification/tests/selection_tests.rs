use adventskalender_backend::audit::{Action, AuditLog};
use adventskalender_backend::participants::{Participant, ParticipantStore, User};
use adventskalender_backend::selection::{
    mark_participant_as_not_won, mark_participant_as_won, pick, pick_random_participants,
    remove_participant_from_winner_list, update_participant_values, NewPackageSelection,
    SelectionError,
};
use adventskalender_backend::winners::get_number_of_participants_who_already_won;

fn participant(id: i32, first_name: &str) -> Participant {
    Participant {
        id,
        first_name: first_name.to_string(),
        last_name: "Tester".to_string(),
        won_on: None,
        picked_by: None,
        picking_time: None,
        present_identifier: None,
    }
}

fn store_of(n: i32) -> ParticipantStore {
    let mut store = ParticipantStore::new();
    for id in 1..=n {
        store.add_participant(participant(id, &format!("p{}", id)));
    }
    store
}

fn actor() -> User {
    User { id: 7, username: "admin".to_string(), password_hash: "x".to_string() }
}

#[test]
fn pick_marks_exactly_k_distinct_participants() {
    let mut store = store_of(5);
    let mut audit = AuditLog::new();
    let winners = pick(&mut store, &mut audit, 3, 24, &actor(), 1000).unwrap();
    assert_eq!(winners.len(), 3);
    for a in 0..winners.len() {
        for b in 0..winners.len() {
            if a != b {
                assert_ne!(winners[a].id, winners[b].id);
            }
        }
        assert_eq!(winners[a].won_on, Some(24));
        assert_eq!(winners[a].picked_by, Some(7));
        assert_eq!(winners[a].picking_time, Some(1000));
    }
    let counts = get_number_of_participants_who_already_won(&store);
    assert_eq!(counts.number_of_participants, 5);
    assert_eq!(counts.number_of_participants_won, 3);
    assert_eq!(counts.number_of_participants_still_in_raffle, 2);
    assert_eq!(audit.len(), 3);
    for i in 0..3 {
        let entry = audit.entry_at(i);
        assert!(matches!(entry.action, Action::PickedWinner));
        assert_eq!(entry.user_id, Some(7));
        assert_eq!(entry.time_of_action, 1000);
        // Each audit row names the winner it concerns.
        assert_eq!(entry.participant_id, Some(winners[i].id));
    }
}

#[test]
fn oversized_pick_mutates_nothing_and_next_pick_succeeds() {
    let mut store = store_of(5);
    let mut audit = AuditLog::new();
    let result = pick(&mut store, &mut audit, 6, 24, &actor(), 1000);
    assert_eq!(result.unwrap_err(), SelectionError::InsufficientParticipants);
    let counts = get_number_of_participants_who_already_won(&store);
    assert_eq!(counts.number_of_participants_won, 0);
    assert_eq!(counts.number_of_participants_still_in_raffle, 5);
    assert_eq!(audit.len(), 0);

    let winners = pick(&mut store, &mut audit, 5, 24, &actor(), 1001).unwrap();
    assert_eq!(winners.len(), 5);
}

#[test]
fn zero_pick_is_valid_and_touches_nothing() {
    let mut store = store_of(3);
    let mut audit = AuditLog::new();
    let winners = pick(&mut store, &mut audit, 0, 24, &actor(), 1000).unwrap();
    assert!(winners.is_empty());
    assert_eq!(audit.len(), 0);
    let counts = get_number_of_participants_who_already_won(&store);
    assert_eq!(counts.number_of_participants_still_in_raffle, 3);
}

#[test]
fn competing_pick_cannot_double_mark() {
    let mut store = store_of(2);
    let mut audit = AuditLog::new();
    let winners = pick(&mut store, &mut audit, 2, 10, &actor(), 500).unwrap();
    assert_eq!(winners.len(), 2);

    // The pool is drained: a second pick of the same size fails and
    // changes nothing.
    let second = pick(&mut store, &mut audit, 2, 11, &actor(), 501);
    assert_eq!(second.unwrap_err(), SelectionError::InsufficientParticipants);

    // Marking an already-taken row is rejected outright and rolls back.
    let ids = vec![winners[0].id];
    let direct = mark_participant_as_won(&mut store, &ids, 11, 7, 502);
    assert_eq!(direct.unwrap_err(), SelectionError::ConcurrentModification);
    for i in 0..store.len() {
        assert_eq!(store.row_at(i).won_on, Some(10));
    }
}

#[test]
fn unpick_makes_participant_eligible_again() {
    let mut store = store_of(3);
    let mut audit = AuditLog::new();
    pick(&mut store, &mut audit, 3, 24, &actor(), 1000).unwrap();

    remove_participant_from_winner_list(&mut store, &mut audit, 2, &actor(), 1001).unwrap();
    let last = audit.entry_at(audit.len() - 1);
    assert!(matches!(last.action, Action::RemovedWinner));
    assert_eq!(last.participant_id, Some(2));

    // The revoked participant is the only eligible one, so a pick of one
    // must select it again.
    let ids = pick_random_participants(&store, 1).unwrap();
    assert_eq!(ids, vec![2]);
    let winners = pick(&mut store, &mut audit, 1, 25, &actor(), 1002).unwrap();
    assert_eq!(winners[0].id, 2);
    assert_eq!(winners[0].won_on, Some(25));
}

#[test]
fn unpick_of_unknown_id_reports_not_found() {
    let mut store = store_of(2);
    let result = mark_participant_as_not_won(&mut store, 17);
    assert_eq!(result.unwrap_err(), SelectionError::NotFound);
}

#[test]
fn package_for_non_winner_always_fails_without_mutation() {
    let mut store = store_of(2);
    let mut audit = AuditLog::new();
    let request = NewPackageSelection { package: "A".to_string() };
    let result = update_participant_values(&mut store, &mut audit, 1, &request, &actor(), 900);
    assert_eq!(result.unwrap_err(), SelectionError::NotAWinnerYet);
    assert_eq!(store.row_at(0).won_on, None);
    assert_eq!(store.row_at(0).present_identifier, None);
    assert_eq!(audit.len(), 0);
}

#[test]
fn package_assignment_conflicts_and_changes() {
    let mut store = store_of(2);
    let mut audit = AuditLog::new();
    let ids = vec![1, 2];
    mark_participant_as_won(&mut store, &ids, 24, 7, 1000).unwrap();

    let package_a = NewPackageSelection { package: "A".to_string() };
    update_participant_values(&mut store, &mut audit, 1, &package_a, &actor(), 1001).unwrap();
    let first = audit.entry_at(audit.len() - 1);
    assert!(matches!(first.action, Action::PackageSelected));
    assert_eq!(first.participant_id, Some(1));
    assert_eq!(first.description, None);

    // The same package on the same day belongs to someone else now.
    let conflict = update_participant_values(&mut store, &mut audit, 2, &package_a, &actor(), 1002);
    assert_eq!(conflict.unwrap_err(), SelectionError::PackageConflict);

    // Replacing one's own package records the previous one.
    let package_b = NewPackageSelection { package: "B".to_string() };
    update_participant_values(&mut store, &mut audit, 1, &package_b, &actor(), 1003).unwrap();
    let changed = audit.entry_at(audit.len() - 1);
    assert!(matches!(changed.action, Action::PackageChanged));
    assert_eq!(changed.participant_id, Some(1));
    assert_eq!(changed.description, Some("A".to_string()));

    let unknown = update_participant_values(&mut store, &mut audit, 9, &package_b, &actor(), 1004);
    assert_eq!(unknown.unwrap_err(), SelectionError::NotFound);
}

#[test]
fn sampling_without_marking_leaves_store_alone() {
    let store = store_of(4);
    let ids = pick_random_participants(&store, 2).unwrap();
    assert_eq!(ids.len(), 2);
    assert_ne!(ids[0], ids[1]);
    assert!(pick_random_participants(&store, 5).is_none());
    let counts = get_number_of_participants_who_already_won(&store);
    assert_eq!(counts.number_of_participants_won, 0);
}
