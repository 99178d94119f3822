//! Fretboard chord finder: the computations behind an interactive fretboard.
//!
//! * [`chord_name`] tidies a chord name as it is typed.
//! * [`note`] holds notes and finds the note at a fret of a string.
//! * [`fretboard`] lays out the grid of notes, its fret markers and which cells a chord enables.
//! * [`note_name`] prepares note names for display.
//! * [`playback`] keeps the handles of the notes that are sounding.
//! * [`text`] states what is taken for granted of the standard string type.

pub mod chord_name;
pub mod fretboard;
pub mod note;
pub mod note_name;
pub mod playback;
pub mod text;
