//! The fretboard: fret markers, the grid of notes, and the cells a chord enables.

use crate::note::{fretted, note_for_fret, InvalidEncoding, Note};
use vstd::prelude::*;
use vstd::string::*;

verus! {

/// The marker text of a fret: `open` for the open string, the fret's number at the
/// usual inlay positions, and nothing anywhere else.
pub open spec fn fret_label_text(fret: nat) -> Seq<char> {
    if fret == 0 {
        "open"@
    } else if fret == 3 {
        "3"@
    } else if fret == 5 {
        "5"@
    } else if fret == 7 {
        "7"@
    } else if fret == 9 {
        "9"@
    } else if fret == 12 {
        "12"@
    } else if fret == 15 {
        "15"@
    } else if fret == 17 {
        "17"@
    } else if fret == 19 {
        "19"@
    } else if fret == 21 {
        "21"@
    } else {
        ""@
    }
}

/// The marker shown above or beside a fret; empty where the fret carries none.
pub fn fret_label(fret: usize) -> (label: String)
    ensures
        label@ == fret_label_text(fret as nat),
{
    let text: &str = match fret {
        0 => "open",
        3 => "3",
        5 => "5",
        7 => "7",
        9 => "9",
        12 => "12",
        15 => "15",
        17 => "17",
        19 => "19",
        21 => "21",
        _ => "",
    };
    text.to_owned()
}

/// The pitch classes that occur among some notes. What is no note has none.
pub open spec fn pitch_classes_of(notes: Seq<Note>) -> Set<u8> {
    Set::new(
        |pc: u8|
            exists|i: int|
                0 <= i < notes.len() && notes[i].wf() && #[trigger] notes[i].pitch_class == pc,
    )
}

/// The pitch classes of a chord: each of the twelve is in it or not.
pub struct PitchClassSet {
    members: Vec<bool>,
}

impl View for PitchClassSet {
    type V = Set<u8>;

    closed spec fn view(&self) -> Set<u8> {
        Set::new(|pc: u8| pc < self.members@.len() && self.members@[pc as int])
    }
}

impl PitchClassSet {
    /// The set has a place for each of the twelve pitch classes and for nothing else.
    #[verifier::type_invariant]
    spec fn twelve_places(&self) -> bool {
        self.members@.len() == 12
    }

    /// The set without any pitch class: what there is while no chord is known.
    pub fn new() -> (set: Self)
        ensures
            set@ == Set::<u8>::empty(),
    {
        let mut members: Vec<bool> = Vec::new();
        let mut i: usize = 0;
        while i < 12
            invariant
                i <= 12,
                members@.len() == i,
                forall|j: int| 0 <= j < i ==> !members@[j],
            decreases 12 - i,
        {
            members.push(false);
            i += 1;
        }
        let set = PitchClassSet { members };
        assert(set@ =~= Set::<u8>::empty());
        set
    }

    /// Puts a pitch class into the set.
    pub fn insert(&mut self, pitch_class: u8)
        requires
            pitch_class < 12,
        ensures
            final(self)@ == old(self)@.insert(pitch_class),
    {
        proof {
            use_type_invariant(&*self);
        }
        self.members[pitch_class as usize] = true;
        assert(final(self)@ =~= old(self)@.insert(pitch_class));
    }

    /// Whether a pitch class is in the set.
    pub fn contains(&self, pitch_class: u8) -> (found: bool)
        ensures
            found == self@.contains(pitch_class),
    {
        proof {
            use_type_invariant(self);
        }
        pitch_class < 12 && self.members[pitch_class as usize]
    }

    /// Whether the set holds no pitch class at all.
    pub fn is_empty(&self) -> (empty: bool)
        ensures
            empty == self@.is_empty(),
    {
        proof {
            use_type_invariant(self);
        }
        let mut i: usize = 0;
        while i < 12
            invariant
                i <= 12,
                self.members@.len() == 12,
                forall|j: int| 0 <= j < i ==> !self.members@[j],
            decreases 12 - i,
        {
            if self.members[i] {
                assert(self@.contains(i as u8));
                return false;
            }
            i += 1;
        }
        assert(self@ =~= Set::<u8>::empty());
        true
    }

    /// The pitch classes of the notes of a chord.
    pub fn from_notes(notes: &[Note]) -> (set: Self)
        ensures
            set@ == pitch_classes_of(notes@),
    {
        let mut set = PitchClassSet::new();
        let mut i: usize = 0;
        while i < notes.len()
            invariant
                i <= notes@.len(),
                set@ == pitch_classes_of(notes@.take(i as int)),
            decreases notes@.len() - i,
        {
            let ghost before = set@;
            let note: Note = notes[i];
            if note.is_valid() {
                set.insert(note.pitch_class);
            }
            proof {
                let shorter = notes@.take(i as int);
                let longer = notes@.take(i + 1);
                assert forall|pc: u8| #[trigger]
                    pitch_classes_of(longer).contains(pc) == set@.contains(pc) by {
                    if pitch_classes_of(longer).contains(pc) {
                        let k = choose|k: int|
                            0 <= k < longer.len() && longer[k].wf() && #[trigger] longer[k].pitch_class
                                == pc;
                        if k < i {
                            assert(shorter[k].pitch_class == pc);
                        }
                    }
                    if before.contains(pc) {
                        let k = choose|k: int|
                            0 <= k < shorter.len() && shorter[k].wf()
                                && #[trigger] shorter[k].pitch_class == pc;
                        assert(longer[k].pitch_class == pc);
                    }
                    if note.wf() && pc == note.pitch_class {
                        assert(longer[i as int].pitch_class == pc);
                    }
                }
                assert(set@ =~= pitch_classes_of(longer));
            }
            i += 1;
        }
        assert(notes@.take(notes@.len() as int) =~= notes@);
        set
    }
}

/// A cell can be played if no chord is known or the cell's pitch class belongs to the chord.
pub open spec fn enabled(cell_note: Note, chord_pitch_classes: Set<u8>) -> bool {
    chord_pitch_classes.is_empty() || chord_pitch_classes.contains(cell_note.pitch_class)
}

/// Whether the cell holding `cell_note` can be played while the chord has the given
/// pitch classes. An empty set, as for no chord or one that could not be read, enables
/// every cell.
pub fn is_enabled(cell_note: Note, chord_pitch_classes: &PitchClassSet) -> (on: bool)
    ensures
        on == enabled(cell_note, chord_pitch_classes@),
{
    chord_pitch_classes.is_empty() || chord_pitch_classes.contains(cell_note.pitch_class)
}

/// With no pitch class in the set every note is enabled.
pub proof fn lemma_empty_set_enables_every_note(cell_note: Note)
    ensures
        enabled(cell_note, Set::<u8>::empty()),
{
}

/// With some pitch class in the set a note is enabled exactly if its own is in the set.
pub proof fn lemma_chord_enables_its_members_only(cell_note: Note, chord_pitch_classes: Set<u8>)
    requires
        !chord_pitch_classes.is_empty(),
    ensures
        enabled(cell_note, chord_pitch_classes) == chord_pitch_classes.contains(
            cell_note.pitch_class,
        ),
{
}

/// The number of frets shown on the fretboard.
pub const MAX_FRET: usize = 16;

/// The open strings of a guitar in standard tuning, from the highest string to the
/// lowest: E4, B3, G3, D3, A2, E2.
pub open spec fn standard_tuning_notes() -> Seq<Note> {
    seq![
        Note { octave: 4, pitch_class: 4 },
        Note { octave: 3, pitch_class: 11 },
        Note { octave: 3, pitch_class: 7 },
        Note { octave: 3, pitch_class: 2 },
        Note { octave: 2, pitch_class: 9 },
        Note { octave: 2, pitch_class: 4 },
    ]
}

/// The tuning of a guitar, highest string first.
pub fn standard_tuning() -> (tuning: Vec<Note>)
    ensures
        tuning@ == standard_tuning_notes(),
        forall|i: int| 0 <= i < tuning@.len() ==> (#[trigger] tuning@[i]).wf(),
{
    let mut tuning: Vec<Note> = Vec::new();
    tuning.push(Note { octave: 4, pitch_class: 4 });
    tuning.push(Note { octave: 3, pitch_class: 11 });
    tuning.push(Note { octave: 3, pitch_class: 7 });
    tuning.push(Note { octave: 3, pitch_class: 2 });
    tuning.push(Note { octave: 2, pitch_class: 9 });
    tuning.push(Note { octave: 2, pitch_class: 4 });
    assert(tuning@ =~= standard_tuning_notes());
    tuning
}

/// The highest fret that carries a marker.
pub const LAST_MARKER_FRET: usize = 21;

/// On a guitar in standard tuning every fret up to the last marker has a note.
pub proof fn lemma_standard_tuning_frets_have_notes(string: int, fret: nat)
    requires
        0 <= string < standard_tuning_notes().len(),
        fret <= LAST_MARKER_FRET,
    ensures
        fretted(standard_tuning_notes()[string], fret) is Ok,
{
}

/// The notes of one string, fret by fret from the open string up to `max_fret`, not
/// including it.
pub open spec fn string_notes(string: Note, max_fret: nat) -> Seq<Result<Note, InvalidEncoding>> {
    Seq::new(max_fret, |fret: int| fretted(string, fret as nat))
}

/// The notes of a whole fretboard: one row per string in the order of the tuning, one
/// cell per fret below `max_fret`.
pub open spec fn fretboard_notes(tuning: Seq<Note>, max_fret: nat) -> Seq<
    Seq<Result<Note, InvalidEncoding>>,
> {
    Seq::new(tuning.len(), |string: int| string_notes(tuning[string], max_fret))
}

/// A fretboard has one row for each string and one cell for each fret in every row, and
/// each cell holds what that fret of that string sounds, or the error where it has no note.
pub proof fn lemma_fretboard_has_a_cell_per_string_and_fret(tuning: Seq<Note>, max_fret: nat)
    ensures
        fretboard_notes(tuning, max_fret).len() == tuning.len(),
        forall|s: int|
            0 <= s < tuning.len() ==> (#[trigger] fretboard_notes(tuning, max_fret)[s]).len()
                == max_fret,
        forall|s: int, f: int|
            0 <= s < tuning.len() && 0 <= f < max_fret ==> #[trigger] fretboard_notes(
                tuning,
                max_fret,
            )[s][f] == fretted(tuning[s], f as nat),
{
}

/// Lays out the notes of a fretboard for a tuning and a number of frets.
///
/// Row `s` belongs to string `s` of the tuning and holds `max_fret` cells; cell `f` is the
/// note at fret `f` of that string, or the error where that fret has no note. One cell
/// without a note leaves the others as they are.
pub fn generate(tuning: &[Note], max_fret: usize) -> (grid: Vec<Vec<Result<Note, InvalidEncoding>>>)
    ensures
        grid@.len() == tuning@.len(),
        forall|s: int|
            0 <= s < grid@.len() ==> (#[trigger] grid@[s])@ == fretboard_notes(
                tuning@,
                max_fret as nat,
            )[s],
{
    let mut grid: Vec<Vec<Result<Note, InvalidEncoding>>> = Vec::new();
    let mut s: usize = 0;
    while s < tuning.len()
        invariant
            s <= tuning@.len(),
            grid@.len() == s,
            forall|r: int|
                0 <= r < s ==> (#[trigger] grid@[r])@ == string_notes(tuning@[r], max_fret as nat),
        decreases tuning@.len() - s,
    {
        let string: Note = tuning[s];
        let mut row: Vec<Result<Note, InvalidEncoding>> = Vec::new();
        let mut f: usize = 0;
        while f < max_fret
            invariant
                f <= max_fret,
                row@.len() == f,
                forall|c: int| 0 <= c < f ==> #[trigger] row@[c] == fretted(string, c as nat),
            decreases max_fret - f,
        {
            row.push(note_for_fret(string, f));
            f += 1;
        }
        assert(row@ =~= string_notes(string, max_fret as nat));
        grid.push(row);
        s += 1;
    }
    grid
}

} // verus!
