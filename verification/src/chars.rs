//! Character classes of the IMAP grammar, as predicates on single bytes.
//!
//! Every token production (atom, tag, quoted string, text) is a run of bytes
//! drawn from one of these classes; the parsers and the validating
//! constructors share them.

use vstd::prelude::*;

verus! {

/// Control characters: 0x00-0x1F and DEL.
pub open spec fn is_ctl(b: u8) -> bool {
    b < 0x20 || b == 0x7f
}

pub open spec fn is_digit(b: u8) -> bool {
    0x30 <= b && b <= 0x39
}

/// `ATOM-CHAR`: printable ASCII except specials, list wildcards,
/// quoted specials and the response special `]`.
pub open spec fn is_atom_char(b: u8) -> bool {
    b < 0x80 && !is_ctl(b) && b != 0x20  // SP
    && b != 0x28 && b != 0x29  // ( )
    && b != 0x7b  // {
    && b != 0x25 && b != 0x2a  // % *
    && b != 0x22 && b != 0x5c  // " \
    && b != 0x5d  // ]
}

/// `ASTRING-CHAR`: an atom character or `]`.
pub open spec fn is_astring_char(b: u8) -> bool {
    is_atom_char(b) || b == 0x5d
}

/// A tag character: `ASTRING-CHAR` except `+`.
pub open spec fn is_tag_char(b: u8) -> bool {
    is_astring_char(b) && b != 0x2b
}

/// `TEXT-CHAR`: ASCII except NUL, CR and LF.
pub open spec fn is_text_char(b: u8) -> bool {
    b != 0 && b < 0x80 && b != 13 && b != 10
}

/// ASCII upper-casing, used for case-insensitive keyword matching.
pub open spec fn up(b: u8) -> u8 {
    if 0x61 <= b && b <= 0x7a {
        (b - 0x20) as u8
    } else {
        b
    }
}

/// Case-insensitive equality of two byte sequences.
pub open spec fn eq_ci(a: Seq<u8>, w: Seq<u8>) -> bool {
    a.len() == w.len() && (forall|k: int| 0 <= k < a.len() ==> up(a[k]) == up(w[k]))
}

pub fn up_x(b: u8) -> (r: u8)
    ensures
        r == up(b),
{
    if 0x61 <= b && b <= 0x7a {
        b - 0x20
    } else {
        b
    }
}

pub fn is_digit_x(b: u8) -> (r: bool)
    ensures
        r == is_digit(b),
{
    0x30 <= b && b <= 0x39
}

pub fn is_atom_char_x(b: u8) -> (r: bool)
    ensures
        r == is_atom_char(b),
{
    b < 0x80 && b >= 0x20 && b != 0x7f && b != 0x20 && b != 0x28 && b != 0x29 && b != 0x7b
        && b != 0x25 && b != 0x2a && b != 0x22 && b != 0x5c && b != 0x5d
}

pub fn is_astring_char_x(b: u8) -> (r: bool)
    ensures
        r == is_astring_char(b),
{
    is_atom_char_x(b) || b == 0x5d
}

pub fn is_tag_char_x(b: u8) -> (r: bool)
    ensures
        r == is_tag_char(b),
{
    is_astring_char_x(b) && b != 0x2b
}

pub fn is_text_char_x(b: u8) -> (r: bool)
    ensures
        r == is_text_char(b),
{
    b != 0 && b < 0x80 && b != 13 && b != 10
}

/// Exec counterpart of [`eq_ci`].
pub fn eq_ci_x(a: &[u8], w: &[u8]) -> (r: bool)
    ensures
        r == eq_ci(a@, w@),
{
    if a.len() != w.len() {
        return false;
    }
    let mut k: usize = 0;
    while k < a.len()
        invariant
            k <= a.len(),
            a@.len() == w@.len(),
            forall|j: int| 0 <= j < k ==> up(a@[j]) == up(w@[j]),
        decreases a.len() - k,
    {
        if up_x(a[k]) != up_x(w[k]) {
            return false;
        }
        k += 1;
    }
    true
}

} // verus!
