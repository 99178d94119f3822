//! Chord-name normalization.
//!
//! A chord name typed by hand is brought into the spelling that a chord parser expects:
//! root letters are capitals, and the quality `maj` is lower case.

use vstd::prelude::*;
use vstd::string::*;

verus! {

/// The capital of a lower-case root letter `a` to `g`; any other character unchanged.
pub open spec fn raise_root(c: char) -> char {
    if c == 'a' {
        'A'
    } else if c == 'b' {
        'B'
    } else if c == 'c' {
        'C'
    } else if c == 'd' {
        'D'
    } else if c == 'e' {
        'E'
    } else if c == 'f' {
        'F'
    } else if c == 'g' {
        'G'
    } else {
        c
    }
}

/// A root letter may stand at the very start and directly behind a slash.
pub open spec fn at_root_position(s: Seq<char>, i: int) -> bool {
    i == 0 || (0 < i < s.len() && s[i - 1] == '/')
}

/// The text with the letter at every root position raised.
pub open spec fn raise_roots(s: Seq<char>) -> Seq<char> {
    Seq::new(
        s.len(),
        |i: int|
            if at_root_position(s, i) {
                raise_root(s[i])
            } else {
                s[i]
            },
    )
}

/// The three characters from `i` on spell `maj` in some mix of cases.
pub open spec fn is_maj_at(s: Seq<char>, i: int) -> bool {
    &&& 0 <= i
    &&& i + 3 <= s.len()
    &&& (s[i] == 'm' || s[i] == 'M')
    &&& (s[i + 1] == 'a' || s[i + 1] == 'A')
    &&& (s[i + 2] == 'j' || s[i + 2] == 'J')
}

/// The character at `i` once every `maj`, in whatever case, is written in lower case.
pub open spec fn fold_maj_char(s: Seq<char>, i: int) -> char {
    if is_maj_at(s, i) {
        'm'
    } else if is_maj_at(s, i - 1) {
        'a'
    } else if is_maj_at(s, i - 2) {
        'j'
    } else {
        s[i]
    }
}

/// The text with every `maj`, in whatever case, written in lower case.
pub open spec fn fold_maj(s: Seq<char>) -> Seq<char> {
    Seq::new(s.len(), |i: int| fold_maj_char(s, i))
}

/// The normal form of a chord name: roots raised first, then `maj` folded.
pub open spec fn normalized(s: Seq<char>) -> Seq<char> {
    fold_maj(raise_roots(s))
}

fn raise_root_char(c: char) -> (r: char)
    ensures
        r == raise_root(c),
{
    match c {
        'a' => 'A',
        'b' => 'B',
        'c' => 'C',
        'd' => 'D',
        'e' => 'E',
        'f' => 'F',
        'g' => 'G',
        _ => c,
    }
}

fn maj_at(s: &Vec<char>, i: usize) -> (r: bool)
    ensures
        r == is_maj_at(s@, i as int),
{
    if s.len() < 3 || i > s.len() - 3 {
        return false;
    }
    (s[i] == 'm' || s[i] == 'M') && (s[i + 1] == 'a' || s[i + 1] == 'A') && (s[i + 2] == 'j'
        || s[i + 2] == 'J')
}

/// Normalizes a chord name so that a chord parser recognizes it.
///
/// Never fails: every text has a normal form, the empty text included.
pub fn fix_chord_name(chord: &str) -> (ret: String)
    ensures
        ret@ == normalized(chord@),
{
    broadcast use group_string_axioms;

    let mut raised: Vec<char> = Vec::new();
    let mut last_was_slash = false;
    for c in it: chord.chars()
        invariant
            it.seq() == chord@,
            raised@.len() == it.index(),
            forall|j: int|
                0 <= j < raised@.len() ==> raised@[j] == #[trigger] raise_roots(chord@)[j],
            last_was_slash == (it.index() > 0 && chord@[it.index() - 1] == '/'),
    {
        let up = if raised.len() == 0 || last_was_slash {
            raise_root_char(c)
        } else {
            c
        };
        raised.push(up);
        last_was_slash = c == '/';
    }
    assert(raised@ =~= raise_roots(chord@));
    let n: usize = raised.len();
    let mut ret = String::new();
    let mut k: usize = 0;
    while k < n
        invariant
            k <= n,
            n == raised@.len(),
            ret@.len() == k,
            forall|j: int| 0 <= j < k ==> ret@[j] == fold_maj_char(raised@, j),
        decreases n - k,
    {
        let c = if maj_at(&raised, k) {
            'm'
        } else if k >= 1 && maj_at(&raised, k - 1) {
            'a'
        } else if k >= 2 && maj_at(&raised, k - 2) {
            'j'
        } else {
            raised[k]
        };
        ret.push(c);
        k += 1;
    }
    assert(ret@ =~= fold_maj(raised@));
    ret
}

/// Folding `maj` keeps a slash a slash and makes no new one.
proof fn lemma_fold_keeps_slashes(s: Seq<char>, i: int)
    requires
        0 <= i < s.len(),
    ensures
        (fold_maj(s)[i] == '/') == (s[i] == '/'),
{
}

/// Folding `maj` a second time changes nothing.
proof fn lemma_fold_maj_idempotent(s: Seq<char>)
    ensures
        fold_maj(fold_maj(s)) == fold_maj(s),
{
    let t = fold_maj(s);
    assert forall|i: int| 0 <= i < t.len() implies fold_maj_char(t, i) == t[i] by {
        assert(is_maj_at(t, i) == is_maj_at(s, i));
        assert(is_maj_at(t, i - 1) == is_maj_at(s, i - 1));
        assert(is_maj_at(t, i - 2) == is_maj_at(s, i - 2));
    }
    assert(fold_maj(t) =~= t);
}

/// Normalizing twice gives what normalizing once gives.
pub proof fn lemma_normalized_idempotent(s: Seq<char>)
    ensures
        normalized(normalized(s)) == normalized(s),
{
    let r = raise_roots(s);
    let t = fold_maj(r);
    assert forall|i: int| 0 <= i < t.len() implies #[trigger] raise_roots(t)[i] == t[i] by {
        if i > 0 {
            lemma_fold_keeps_slashes(r, i - 1);
        }
    }
    assert(raise_roots(t) =~= t);
    lemma_fold_maj_idempotent(r);
}

} // verus!
