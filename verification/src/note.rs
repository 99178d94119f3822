//! Notes, their identifiers, and the note found at a fret of a string.
//!
//! A note is a pitch class and an octave. Its identifier is a 128-bit word with a single
//! bit set, at the note's distance in semitones from the lowest note. Moving that bit up by
//! one place therefore raises the note by one semitone, across octaves too, and a bit
//! that would leave the word marks a note that has no identifier.

use vstd::prelude::*;

verus! {

/// The highest octave a note can lie in.
pub const MAX_OCTAVE: u8 = 15;

/// The number of bits of a note identifier: only notes below this many semitones have one.
pub const ID_BITS: u8 = 128;

/// A pitch class (0 is C, 11 is B) in an octave.
#[derive(Clone, Copy, PartialEq, Eq, Structural, Debug)]
pub struct Note {
    pub octave: u8,
    pub pitch_class: u8,
}

/// The error for a note that no identifier stands for, or an identifier that stands for
/// no note.
#[derive(Clone, Copy, PartialEq, Eq, Structural, Debug)]
pub struct InvalidEncoding {}

/// The position of the highest bit set in `id`; 0 for an `id` of 0.
pub open spec fn top_bit(id: u128) -> nat
    decreases id,
{
    if id <= 1 {
        0
    } else {
        1 + top_bit(id / 2)
    }
}

/// The identifier of a note: the bit at its semitone, where the word has such a bit.
/// What is no note has no identifier either.
pub open spec fn encoded(note: Note) -> Result<u128, InvalidEncoding> {
    if note.wf() && note.semitone() < ID_BITS {
        Ok(1u128 << (note.semitone() as u128))
    } else {
        Err(InvalidEncoding {  })
    }
}

/// The note of an identifier: the one at its highest bit. Zero stands for no note.
pub open spec fn decoded(id: u128) -> Result<Note, InvalidEncoding> {
    if id == 0 {
        Err(InvalidEncoding {  })
    } else {
        Ok(Note::at(top_bit(id)))
    }
}

/// The identifier moved up by `fret` bits, as long as none of its bits leaves the word.
/// Zero stands for no note and cannot be moved.
pub open spec fn shifted(id: u128, fret: nat) -> Result<u128, InvalidEncoding> {
    if id != 0 && fret < ID_BITS && (id << (fret as u128)) >> (fret as u128) == id {
        Ok(id << (fret as u128))
    } else {
        Err(InvalidEncoding {  })
    }
}

/// The note sounding at `fret` of a string tuned to `string`: `fret` semitones above the
/// open string, as long as that note still has an identifier.
pub open spec fn fretted(string: Note, fret: nat) -> Result<Note, InvalidEncoding> {
    if string.wf() && string.semitone() + fret < ID_BITS {
        Ok(Note::at(string.semitone() + fret))
    } else {
        Err(InvalidEncoding {  })
    }
}

impl Note {
    /// The pitch class is one of the twelve and the octave is within range.
    pub open spec fn wf(self) -> bool {
        self.pitch_class < 12 && self.octave <= MAX_OCTAVE
    }

    /// The distance in semitones from the lowest note, C in octave 0.
    pub open spec fn semitone(self) -> nat {
        12 * (self.octave as nat) + (self.pitch_class as nat)
    }

    /// The note that lies `semitone` semitones above the lowest note.
    pub open spec fn at(semitone: nat) -> Note {
        Note { octave: (semitone / 12) as u8, pitch_class: (semitone % 12) as u8 }
    }

    /// The note of the given pitch class and octave, if there is one.
    pub fn new(pitch_class: u8, octave: u8) -> (note: Option<Note>)
        ensures
            note is Some <==> pitch_class < 12 && octave <= MAX_OCTAVE,
            note is Some ==> note == Some((Note { octave, pitch_class })),
            note matches Some(n) ==> n.wf(),
    {
        if pitch_class < 12 && octave <= MAX_OCTAVE {
            Some(Note { octave, pitch_class })
        } else {
            None
        }
    }

    /// Whether the pitch class is one of the twelve and the octave is within range.
    pub fn is_valid(self) -> (valid: bool)
        ensures
            valid == self.wf(),
    {
        self.pitch_class < 12 && self.octave <= MAX_OCTAVE
    }

    /// The position of the bit that identifies this note.
    pub fn id_index(self) -> (index: u16)
        ensures
            index == self.semitone(),
    {
        12 * (self.octave as u16) + (self.pitch_class as u16)
    }

    /// The identifier of this note; an error for a note too high to have one, and for
    /// a pitch class or an octave out of range.
    pub fn id(self) -> (id: Result<u128, InvalidEncoding>)
        ensures
            id == encoded(self),
    {
        let index: u16 = self.id_index();
        if self.is_valid() && index < ID_BITS as u16 {
            Ok(1u128 << (index as u128))
        } else {
            Err(InvalidEncoding {  })
        }
    }

    /// The note that an identifier stands for; an error for zero, which stands for none.
    pub fn from_id(id: u128) -> (note: Result<Note, InvalidEncoding>)
        ensures
            note == decoded(id),
            note matches Ok(n) ==> n.wf(),
    {
        if id == 0 {
            return Err(InvalidEncoding {  });
        }
        let mut shift: u8 = 0;
        assert(id >> 0u128 == id) by (bit_vector);
        while id >> (shift as u128) != 1
            invariant
                shift < ID_BITS,
                id >> (shift as u128) != 0,
                top_bit(id) == shift + top_bit(id >> (shift as u128)),
            decreases ID_BITS - shift,
        {
            proof {
                let s: u128 = shift as u128;
                assert(s < 128 && id >> s != 0 && id >> s != 1 ==> s < 127 && id >> ((s
                    + 1) as u128) == (id >> s) / 2 && (id >> s) / 2 != 0) by (bit_vector);
                assert(top_bit(id >> s) == 1 + top_bit((id >> s) / 2));
            }
            shift += 1;
        }
        Ok(Note { octave: shift / 12, pitch_class: shift % 12 })
    }
}

/// The highest bit of a word with a single bit set is that bit.
proof fn lemma_top_bit_of_single_bit(k: nat)
    requires
        k < ID_BITS,
    ensures
        top_bit(1u128 << (k as u128)) == k,
    decreases k,
{
    let b: u128 = k as u128;
    if k == 0 {
        assert(1u128 << 0u128 == 1) by (bit_vector);
    } else {
        assert(0 < b < 128 ==> (1u128 << b) > 1 && (1u128 << b) / 2 == 1u128 << ((b - 1) as u128))
            by (bit_vector);
        lemma_top_bit_of_single_bit((k - 1) as nat);
    }
}

/// Reading the identifier of a note gives the note back.
pub proof fn lemma_id_names_its_note(note: Note)
    requires
        encoded(note) is Ok,
    ensures
        decoded(encoded(note)->Ok_0) == Ok::<Note, InvalidEncoding>(note),
{
    let at: u128 = note.semitone() as u128;
    assert(at < 128 ==> (1u128 << at) != 0) by (bit_vector);
    lemma_top_bit_of_single_bit(note.semitone());
}

/// Moves an identifier up by `fret` bits: the identifier of the note `fret` semitones
/// higher. Fails rather than lose a bit off the top of the word.
pub fn shift_id(id: u128, fret: usize) -> (moved: Result<u128, InvalidEncoding>)
    ensures
        moved == shifted(id, fret as nat),
{
    if id == 0 || fret >= ID_BITS as usize {
        return Err(InvalidEncoding {  });
    }
    let by: u128 = fret as u128;
    let moved: u128 = id << by;
    if moved >> by != id {
        return Err(InvalidEncoding {  });
    }
    Ok(moved)
}

/// Moving the single bit of a note's identifier up by `fret` places succeeds exactly if
/// the note `fret` semitones higher has an identifier, and then gives that identifier.
proof fn lemma_shifted_single_bit(at: nat, fret: nat)
    requires
        at < ID_BITS,
    ensures
        shifted(1u128 << (at as u128), fret) is Ok <==> at + fret < ID_BITS,
        at + fret < ID_BITS ==> shifted(1u128 << (at as u128), fret) == Ok::<u128, InvalidEncoding>(
            1u128 << ((at + fret) as u128),
        ),
{
    let a: u128 = at as u128;
    assert(a < 128 ==> (1u128 << a) != 0) by (bit_vector);
    if fret < ID_BITS {
        let by: u128 = fret as u128;
        assert(a < 128 && by < 128 ==> ((((1u128 << a) << by) >> by == (1u128 << a)) <==> a + by
            < 128)) by (bit_vector);
        assert(a + by < 128 ==> (1u128 << a) << by == 1u128 << ((a + by) as u128)) by (bit_vector);
    }
}

/// The note at `fret` of a string whose open note is `string`.
///
/// The identifier of the open string is shifted up by `fret` bits and read back as a
/// note. Where the shift would push the bit out of the identifier, or the open string
/// is no note with an identifier to begin with, the fret has no note and the error says so.
pub fn note_for_fret(string: Note, fret: usize) -> (note: Result<Note, InvalidEncoding>)
    ensures
        note == fretted(string, fret as nat),
        note matches Ok(n) ==> n.wf(),
{
    let id: u128 = match string.id() {
        Ok(id) => id,
        Err(e) => {
            return Err(e);
        },
    };
    proof {
        lemma_shifted_single_bit(string.semitone(), fret as nat);
        if string.semitone() + fret < ID_BITS {
            lemma_top_bit_of_single_bit(string.semitone() + fret as nat);
        }
    }
    match shift_id(id, fret) {
        Ok(moved) => Note::from_id(moved),
        Err(e) => Err(e),
    }
}

/// A fret has a note exactly if the identifier of the open string can be moved up by
/// that many bits, and the note is the one that the moved identifier stands for.
pub proof fn lemma_fret_moves_the_bit(string: Note, fret: nat)
    requires
        encoded(string) is Ok,
    ensures
        fretted(string, fret) is Ok <==> shifted(encoded(string)->Ok_0, fret) is Ok,
        fretted(string, fret) is Ok ==> fretted(string, fret) == decoded(
            shifted(encoded(string)->Ok_0, fret)->Ok_0,
        ),
        fretted(string, fret) is Ok ==> encoded(fretted(string, fret)->Ok_0) == shifted(
            encoded(string)->Ok_0,
            fret,
        ),
{
    lemma_shifted_single_bit(string.semitone(), fret);
    if string.semitone() + fret < ID_BITS {
        lemma_top_bit_of_single_bit(string.semitone() + fret);
        let up: u128 = (string.semitone() + fret) as u128;
        assert(up < 128 ==> (1u128 << up) != 0) by (bit_vector);
    }
}

/// Fret 0 of a string is the open string itself.
pub proof fn lemma_open_string_is_fret_zero(string: Note)
    requires
        string.wf(),
        string.semitone() < ID_BITS,
    ensures
        fretted(string, 0) == Ok::<Note, InvalidEncoding>(string),
{
}

/// One fret further up sounds one semitone higher: the pitch class moves on by one, and
/// from B it wraps to C of the next octave.
pub proof fn lemma_next_fret_is_next_semitone(string: Note, fret: nat)
    requires
        fretted(string, fret + 1) is Ok,
    ensures
        fretted(string, fret) is Ok,
        fretted(string, fret + 1)->Ok_0.semitone() == fretted(string, fret)->Ok_0.semitone() + 1,
        fretted(string, fret + 1)->Ok_0.pitch_class == (fretted(string, fret)->Ok_0.pitch_class
            + 1) % 12,
        fretted(string, fret + 1)->Ok_0.octave == fretted(string, fret)->Ok_0.octave + (if fretted(
            string,
            fret,
        )->Ok_0.pitch_class == 11 {
            1int
        } else {
            0int
        }),
{
}

/// Going up `a` frets and then `b` more from the note reached is going up `a + b` frets.
pub proof fn lemma_frets_add_up(string: Note, a: nat, b: nat)
    requires
        fretted(string, a) is Ok,
    ensures
        fretted(fretted(string, a)->Ok_0, b) == fretted(string, a + b),
{
}

} // verus!
