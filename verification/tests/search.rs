use interval_info::search::{nearest_in, NoteSearch};

#[test]
fn new_scan_starts_at_note_zero() {
    assert_eq!(NoteSearch::new().note, 0);
}

#[test]
fn first_distance_never_ends_the_scan() {
    let mut scan = NoteSearch::new();
    assert_eq!(scan.offer(u64::MAX), None);
    assert_eq!(scan, NoteSearch { note: 1, last: u64::MAX });
}

#[test]
fn offer_moves_on_while_the_distance_falls() {
    let mut scan = NoteSearch::new();
    assert_eq!(scan.offer(700), None);
    assert_eq!(scan.offer(600), None);
    assert_eq!(scan.offer(500), None);
    assert_eq!(scan, NoteSearch { note: 3, last: 500 });
}

#[test]
fn offer_ends_at_the_first_larger_distance() {
    let mut scan = NoteSearch { note: 7, last: 2 };
    assert_eq!(scan.offer(98), Some(6));
    assert_eq!(scan, NoteSearch { note: 7, last: 2 });
}

#[test]
fn offer_ends_at_an_equal_distance() {
    let mut scan = NoteSearch { note: 1, last: 50 };
    assert_eq!(scan.offer(50), Some(0));
    assert_eq!(scan, NoteSearch { note: 1, last: 50 });
}

#[test]
fn offer_moves_on_at_a_distance_smaller_by_one() {
    let mut scan = NoteSearch { note: 1, last: 50 };
    assert_eq!(scan.offer(49), None);
    assert_eq!(scan, NoteSearch { note: 2, last: 49 });
    assert_eq!(scan.offer(49), Some(1));
}

#[test]
fn number_counts_from_zero_or_from_one() {
    assert_eq!(NoteSearch::number(7, true), 7);
    assert_eq!(NoteSearch::number(7, false), 8);
    assert_eq!(NoteSearch::number(0, true), 0);
    assert_eq!(NoteSearch::number(0, false), 1);
}

#[test]
fn nearest_step_of_twelve_equal_steps_to_a_just_major_third() {
    // Twelve equal steps to the octave, and a target of 386.314 cents, both
    // in thousandths of a cent.
    let target: i64 = 386_314;
    let distances: Vec<u64> = (0..13i64).map(|note| (note * 100_000 - target).unsigned_abs())
        .collect();
    assert_eq!(nearest_in(&distances), Some(4));
    assert_eq!(4 * 100_000 - target, 13_686);
}

#[test]
fn nearest_step_of_twelve_equal_steps_to_a_just_fifth() {
    let target: i64 = 701_955;
    let distances: Vec<u64> = (0..13i64).map(|note| (note * 100_000 - target).unsigned_abs())
        .collect();
    assert_eq!(nearest_in(&distances), Some(7));
    assert_eq!(7 * 100_000 - target, -1_955);
}

#[test]
fn nearest_note_is_no_farther_than_any_other() {
    let pitches: [i64; 10] = [0, 204, 386, 498, 702, 884, 1088, 1200, 1404, 4000];
    for target in 0i64..1300 {
        let distances: Vec<u64> = pitches.iter().map(|p| (p - target).unsigned_abs()).collect();
        let note = nearest_in(&distances).unwrap();
        let found = distances[note as usize];
        assert!(distances.iter().all(|d| found <= *d), "{}", target);
    }
}

#[test]
fn nearest_note_of_a_tie_is_the_lower_one() {
    assert_eq!(nearest_in(&vec![50, 50, 150]), Some(0));
}

#[test]
fn nearest_step_of_twelve_equal_steps_to_a_quarter_tone() {
    // Steps 0 and 100 lie equally near to 50 cents: the lower one is found,
    // 50 cents below the target.
    let target: i64 = 50_000;
    let distances: Vec<u64> = (0..13i64).map(|note| (note * 100_000 - target).unsigned_abs())
        .collect();
    assert_eq!(nearest_in(&distances), Some(0));
    assert_eq!(0 * 100_000 - target, -50_000);
}

#[test]
fn nearest_note_is_unknown_where_the_distances_fall_to_the_end() {
    assert_eq!(nearest_in(&vec![]), None);
    assert_eq!(nearest_in(&vec![5]), None);
    assert_eq!(nearest_in(&vec![5, 4, 3]), None);
}

#[test]
fn nearest_note_of_equal_distances_is_note_zero() {
    assert_eq!(nearest_in(&vec![5, 5, 5]), Some(0));
    assert_eq!(nearest_in(&vec![0, 0]), Some(0));
}

#[test]
fn nearest_note_can_be_note_zero() {
    assert_eq!(nearest_in(&vec![0, 100, 200]), Some(0));
    assert_eq!(nearest_in(&vec![3, 4]), Some(0));
}

#[test]
fn nearest_note_is_the_lowest_of_the_nearest() {
    let pitches: [i64; 7] = [0, 100, 200, 300, 400, 500, 4000];
    for target in 0i64..500 {
        let distances: Vec<u64> = pitches.iter().map(|p| (p - target).unsigned_abs()).collect();
        let note = nearest_in(&distances).unwrap() as usize;
        let least = *distances.iter().min().unwrap();
        assert_eq!(distances.iter().position(|d| *d == least), Some(note), "{}", target);
    }
}

#[test]
fn scan_stops_at_the_first_rise_only() {
    assert_eq!(nearest_in(&vec![9, 7, 8, 1, 2]), Some(1));
}
