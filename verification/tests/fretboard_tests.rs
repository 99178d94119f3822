use chord_finder::fretboard::{
    fret_label, generate, is_enabled, standard_tuning, PitchClassSet, LAST_MARKER_FRET, MAX_FRET,
};
use chord_finder::note::{note_for_fret, InvalidEncoding, Note};

fn note(pitch_class: u8, octave: u8) -> Note {
    Note::new(pitch_class, octave).unwrap()
}

#[test]
fn marker_frets_are_labelled() {
    assert_eq!(fret_label(0), "open");
    assert_eq!(fret_label(3), "3");
    assert_eq!(fret_label(5), "5");
    assert_eq!(fret_label(7), "7");
    assert_eq!(fret_label(9), "9");
    assert_eq!(fret_label(12), "12");
    assert_eq!(fret_label(15), "15");
    assert_eq!(fret_label(17), "17");
    assert_eq!(fret_label(19), "19");
    assert_eq!(fret_label(21), "21");
}

#[test]
fn open_string_label_is_lower_case() {
    assert_eq!(fret_label(0), "open");
    assert_ne!(fret_label(0), "Open");
    assert_ne!(fret_label(0), "0");
}

#[test]
fn other_frets_have_no_label() {
    for fret in [1usize, 2, 4, 6, 8, 10, 11, 13, 14, 16, 18, 20, 22, 23, 24, 100, usize::MAX] {
        assert_eq!(fret_label(fret), "");
    }
}

#[test]
fn every_fret_of_the_board_has_a_label_or_none() {
    for fret in 0..MAX_FRET {
        let label = fret_label(fret);
        assert_eq!(label, fret_label(fret));
        assert!(label.is_empty() || label == "open" || label == fret.to_string());
    }
}

#[test]
fn standard_tuning_is_a_guitar() {
    assert_eq!(
        standard_tuning(),
        vec![note(4, 4), note(11, 3), note(7, 3), note(2, 3), note(9, 2), note(4, 2)]
    );
    assert_eq!(MAX_FRET, 16);
}

#[test]
fn six_strings_and_seventeen_frets_make_six_rows_of_seventeen() {
    let tuning = standard_tuning();
    let grid = generate(&tuning, 17);
    assert_eq!(grid.len(), 6);
    let mut cells = 0;
    for (s, row) in grid.iter().enumerate() {
        assert_eq!(row.len(), 17);
        for (f, cell) in row.iter().enumerate() {
            assert_eq!(*cell, note_for_fret(tuning[s], f));
            assert!(cell.is_ok());
            cells += 1;
        }
    }
    assert_eq!(cells, 6 * 17);
}

#[test]
fn grid_rows_follow_the_tuning() {
    let grid = generate(&standard_tuning(), 13);
    assert_eq!(grid[0][0], Ok(note(4, 4)));
    assert_eq!(grid[0][12], Ok(note(4, 5)));
    assert_eq!(grid[1][1], Ok(note(0, 4)));
    assert_eq!(grid[2][5], Ok(note(0, 4)));
    assert_eq!(grid[3][2], Ok(note(4, 3)));
    assert_eq!(grid[4][3], Ok(note(0, 3)));
    assert_eq!(grid[5][0], Ok(note(4, 2)));
    assert_eq!(grid[5][12], Ok(note(4, 3)));
}

#[test]
fn grid_without_strings_or_frets_is_empty() {
    assert_eq!(generate(&[], 5), Vec::<Vec<Result<Note, InvalidEncoding>>>::new());
    let grid = generate(&standard_tuning(), 0);
    assert_eq!(grid.len(), 6);
    assert!(grid.iter().all(|row| row.is_empty()));
}

#[test]
fn cell_without_note_leaves_the_rest_of_the_grid() {
    let grid = generate(&[note(6, 10), note(0, 0)], 4);
    assert_eq!(
        grid[0],
        vec![Ok(note(6, 10)), Ok(note(7, 10)), Err(InvalidEncoding {}), Err(InvalidEncoding {})]
    );
    assert_eq!(grid[1], vec![Ok(note(0, 0)), Ok(note(1, 0)), Ok(note(2, 0)), Ok(note(3, 0))]);
}

#[test]
fn string_that_is_no_note_gives_a_row_without_notes() {
    let grid = generate(&[Note { octave: 3, pitch_class: 40 }, note(0, 3)], 3);
    assert_eq!(grid[0], vec![Err(InvalidEncoding {}); 3]);
    assert_eq!(grid[1], vec![Ok(note(0, 3)), Ok(note(1, 3)), Ok(note(2, 3))]);
}

#[test]
fn empty_set_enables_every_note() {
    let none = PitchClassSet::new();
    assert!(none.is_empty());
    for octave in 0..=15u8 {
        for pitch_class in 0..12u8 {
            assert!(is_enabled(note(pitch_class, octave), &none));
        }
    }
}

#[test]
fn chord_enables_its_pitch_classes_only() {
    // C major: C, E, G
    let chord = PitchClassSet::from_notes(&[note(0, 4), note(4, 4), note(7, 4)]);
    assert!(!chord.is_empty());
    for row in generate(&standard_tuning(), 17) {
        for cell in row {
            let cell = cell.unwrap();
            let member = cell.pitch_class == 0 || cell.pitch_class == 4 || cell.pitch_class == 7;
            assert_eq!(is_enabled(cell, &chord), member);
            assert_eq!(chord.contains(cell.pitch_class), member);
        }
    }
}

#[test]
fn pitch_class_set_ignores_octaves_and_repeats() {
    let mut set = PitchClassSet::new();
    set.insert(9);
    set.insert(9);
    assert!(set.contains(9));
    assert!(!set.contains(8));
    assert!(!set.contains(12));
    assert!(!set.contains(255));
    assert!(is_enabled(note(9, 0), &set));
    assert!(is_enabled(note(9, 7), &set));
    assert!(!is_enabled(note(10, 7), &set));
    let same = PitchClassSet::from_notes(&[note(9, 1), note(9, 5)]);
    for pitch_class in 0..12u8 {
        assert_eq!(same.contains(pitch_class), set.contains(pitch_class));
    }
    assert!(PitchClassSet::from_notes(&[]).is_empty());
}

#[test]
fn guitar_has_a_note_at_every_fret_up_to_the_last_marker() {
    assert_eq!(LAST_MARKER_FRET, 21);
    assert_eq!(fret_label(LAST_MARKER_FRET), "21");
    for row in generate(&standard_tuning(), LAST_MARKER_FRET + 1) {
        assert_eq!(row.len(), 22);
        assert!(row.iter().all(|cell| cell.is_ok()));
    }
}

#[test]
fn what_is_no_note_adds_no_pitch_class() {
    let set = PitchClassSet::from_notes(&[
        Note { octave: 4, pitch_class: 12 },
        Note { octave: 16, pitch_class: 3 },
    ]);
    assert!(set.is_empty());
    let set = PitchClassSet::from_notes(&[Note { octave: 16, pitch_class: 3 }, note(5, 2)]);
    assert!(!set.contains(3));
    assert!(set.contains(5));
    assert!(!is_enabled(Note { octave: 4, pitch_class: 12 }, &set));
}
