use chord_finder::chord_name::fix_chord_name;

#[test]
fn lower_case_root_is_raised() {
    assert_eq!(fix_chord_name("cmaj7"), "Cmaj7");
}

#[test]
fn slash_bass_is_raised() {
    assert_eq!(fix_chord_name("C/g"), "C/G");
}

#[test]
fn upper_case_maj_is_folded() {
    assert_eq!(fix_chord_name("CMAJ7"), "Cmaj7");
}

#[test]
fn empty_name_stays_empty() {
    assert_eq!(fix_chord_name(""), "");
}

#[test]
fn every_casing_of_maj_is_folded() {
    for maj in ["maj", "Maj", "mAj", "maJ", "MAj", "MaJ", "mAJ", "MAJ"] {
        assert_eq!(fix_chord_name(&format!("D{}9", maj)), "Dmaj9");
    }
}

#[test]
fn only_root_letters_are_raised() {
    assert_eq!(fix_chord_name("a"), "A");
    assert_eq!(fix_chord_name("g7"), "G7");
    assert_eq!(fix_chord_name("h7"), "h7");
    assert_eq!(fix_chord_name("m7"), "m7");
    assert_eq!(fix_chord_name("xmaj"), "xmaj");
}

#[test]
fn only_the_first_letter_is_raised_without_a_slash() {
    assert_eq!(fix_chord_name("cadd9"), "Cadd9");
    assert_eq!(fix_chord_name("bb"), "Bb");
    assert_eq!(fix_chord_name("edim"), "Edim");
}

#[test]
fn every_slash_raises_the_letter_behind_it() {
    assert_eq!(fix_chord_name("c/e/g"), "C/E/G");
    assert_eq!(fix_chord_name("/a"), "/A");
    assert_eq!(fix_chord_name("C/"), "C/");
    assert_eq!(fix_chord_name("C//b"), "C//B");
    assert_eq!(fix_chord_name("C/h"), "C/h");
    assert_eq!(fix_chord_name("C/7"), "C/7");
    assert_eq!(fix_chord_name("C/G"), "C/G");
}

#[test]
fn name_without_root_keeps_all_but_maj() {
    assert_eq!(fix_chord_name("7MAJ"), "7maj");
    assert_eq!(fix_chord_name("#Maj7/x"), "#maj7/x");
    assert_eq!(fix_chord_name("MAJMAJ"), "majmaj");
    assert_eq!(fix_chord_name("MA"), "MA");
    assert_eq!(fix_chord_name("MAX"), "MAX");
    assert_eq!(fix_chord_name("MMAJ"), "Mmaj");
}

#[test]
fn slash_inside_maj_breaks_it() {
    assert_eq!(fix_chord_name("M/aJ"), "M/AJ");
    assert_eq!(fix_chord_name("cM/AJ"), "CM/AJ");
}

#[test]
fn text_beyond_ascii_passes_through() {
    assert_eq!(fix_chord_name("e♭Maj7"), "E♭maj7");
    assert_eq!(fix_chord_name("♯c/♭d"), "♯c/♭d");
    assert_eq!(fix_chord_name("é/é"), "é/é");
}

#[test]
fn normalizing_twice_changes_nothing_more() {
    for name in ["cmaj7", "C/g", "CMAJ7", "", "a/MAJ/b", "m/aj", "/", "gMaJ7/d", "h", "MAJ/maj", "e♭Maj7"] {
        let once = fix_chord_name(name);
        let twice = fix_chord_name(&once);
        assert_eq!(once, twice);
    }
}
