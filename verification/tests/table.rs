use interval_info::table::{table_place, TablePlace};

#[test]
fn first_notes_are_the_table_itself() {
    for note in 0u64..7 {
        assert_eq!(table_place(note, 7), TablePlace { index: note as usize, periods: 0 });
    }
}

#[test]
fn note_seven_of_seven_is_note_zero_one_period_higher() {
    assert_eq!(table_place(0, 7), TablePlace { index: 0, periods: 0 });
    assert_eq!(table_place(7, 7), TablePlace { index: 0, periods: 1 });
}

#[test]
fn place_one_table_further_is_one_period_higher() {
    for len in [1usize, 7, 12, 13, 16, 19] {
        for note in 0u64..100 {
            let here = table_place(note, len);
            let there = table_place(note + len as u64, len);
            assert_eq!(there.index, here.index);
            assert_eq!(there.periods, here.periods + 1);
        }
    }
}

#[test]
fn place_gives_the_note_back() {
    for len in [1usize, 7, 12, 13, 16, 19] {
        for note in (0u64..200).chain([u64::MAX - 1, u64::MAX]) {
            let place = table_place(note, len);
            assert!(place.index < len);
            assert_eq!(place.periods * len as u64 + place.index as u64, note);
        }
    }
}

#[test]
fn place_in_some_tables() {
    assert_eq!(table_place(30, 12), TablePlace { index: 6, periods: 2 });
    assert_eq!(table_place(18, 19), TablePlace { index: 18, periods: 0 });
    assert_eq!(table_place(19, 19), TablePlace { index: 0, periods: 1 });
    assert_eq!(table_place(5, 1), TablePlace { index: 0, periods: 5 });
}
