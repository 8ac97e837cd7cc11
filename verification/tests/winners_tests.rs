use adventskalender_backend::participants::{Participant, ParticipantStore};
use adventskalender_backend::selection::mark_participant_as_won;
use adventskalender_backend::winners::{
    count_won_participants_on_day, get_all_winners, get_won_participants_on_day,
};

fn participant(id: i32, first_name: &str) -> Participant {
    Participant {
        id,
        first_name: first_name.to_string(),
        last_name: "Tester".to_string(),
        won_on: None,
        picked_by: None,
        picking_time: None,
        present_identifier: None,
    }
}

fn store_with_two_days() -> ParticipantStore {
    let mut store = ParticipantStore::new();
    for id in 1..=4 {
        store.add_participant(participant(id, &format!("p{}", id)));
    }
    mark_participant_as_won(&mut store, &vec![1, 2], 10, 7, 500).unwrap();
    mark_participant_as_won(&mut store, &vec![3], 11, 7, 501).unwrap();
    store
}

#[test]
fn winners_of_a_day_come_back_in_store_order() {
    let store = store_with_two_days();
    let day10 = get_won_participants_on_day(&store, 10);
    assert_eq!(day10.len(), 2);
    assert_eq!(day10[0].id, 1);
    assert_eq!(day10[1].id, 2);
    assert_eq!(day10[0].first_name, "p1");
    assert_eq!(day10[0].picked_by, Some(7));
    assert_eq!(day10[0].picking_time, Some(500));
    assert!(get_won_participants_on_day(&store, 12).is_empty());
}

#[test]
fn day_counts_match_the_listings() {
    let store = store_with_two_days();
    assert_eq!(count_won_participants_on_day(&store, 10), 2);
    assert_eq!(count_won_participants_on_day(&store, 11), 1);
    assert_eq!(count_won_participants_on_day(&store, 12), 0);
}

#[test]
fn grouped_winners_cover_every_day_once() {
    let store = store_with_two_days();
    let groups = get_all_winners(&store);
    assert_eq!(groups.len(), 2);
    let mut dates: Vec<i64> = groups.iter().map(|g| g.date).collect();
    dates.sort();
    assert_eq!(dates, vec![10, 11]);
    for group in &groups {
        if group.date == 10 {
            assert_eq!(group.winners.len(), 2);
        } else {
            assert_eq!(group.winners.len(), 1);
            assert_eq!(group.winners[0].id, 3);
        }
    }
}
