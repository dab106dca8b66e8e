//! Primitive grammar tokens: keywords, atoms, numbers, quoted strings,
//! literals, `nstring` / `astring`, and line terminators.
//!
//! Each token has a total spec parser over the framed byte sequence and an
//! exec parser proved equal to it.  A parser returns the position after the
//! token together with the token's value; `None` means the token is not
//! present at that position.

use vstd::prelude::*;
use crate::chars::{
    eq_ci, is_astring_char, is_astring_char_x, is_atom_char, is_atom_char_x, is_digit,
    is_digit_x, is_tag_char, is_tag_char_x, is_text_char, is_text_char_x, up, up_x,
};
use crate::types::{IStrM, LiteralMode};

verus! {

/// Case-insensitive match of keyword `w` (given upper case) at position `i`.
pub open spec fn kw_at(f: Seq<u8>, i: int, w: Seq<u8>) -> bool {
    &&& 0 <= i
    &&& i + w.len() <= f.len()
    &&& forall|k: int| 0 <= k < w.len() ==> up(f[i + k]) == up(w[k])
}

pub fn match_ci(f: &[u8], i: usize, w: &[u8]) -> (r: bool)
    requires
        i <= f@.len(),
    ensures
        r == kw_at(f@, i as int, w@),
{
    let n = f.len();
    if n - i < w.len() {
        return false;
    }
    let mut k: usize = 0;
    while k < w.len()
        invariant
            n == f@.len(),
            i + w@.len() <= n,
            k <= w@.len(),
            forall|j: int| 0 <= j < k ==> up(f@[i + j]) == up(w@[j]),
        decreases w@.len() - k,
    {
        assert(i + k < n);
        if up_x(f[i + k]) != up_x(w[k]) {
            return false;
        }
        k += 1;
    }
    true
}

pub open spec fn sp_at(f: Seq<u8>, i: int) -> bool {
    0 <= i < f.len() && f[i] == 0x20u8
}

pub fn sp_at_x(f: &[u8], i: usize) -> (r: bool)
    requires
        i <= f@.len(),
    ensures
        r == sp_at(f@, i as int),
{
    i < f.len() && f[i] == 0x20
}

pub open spec fn crlf_at(f: Seq<u8>, i: int) -> bool {
    0 <= i && i + 2 <= f.len() && f[i] == 13u8 && f[i + 1] == 10u8
}

pub fn crlf_at_x(f: &[u8], i: usize) -> (r: bool)
    requires
        i <= f@.len(),
    ensures
        r == crlf_at(f@, i as int),
{
    i < f.len() && i + 1 < f.len() && f[i] == 13 && f[i + 1] == 10
}

/// End of the maximal run of bytes satisfying `is_atom_char` from `i`.
pub open spec fn atom_end(f: Seq<u8>, i: int) -> int
    decreases f.len() - i,
{
    if 0 <= i < f.len() && is_atom_char(f[i]) {
        atom_end(f, i + 1)
    } else {
        i
    }
}

proof fn lemma_atom_end_bounds(f: Seq<u8>, i: int)
    requires
        0 <= i <= f.len(),
    ensures
        i <= atom_end(f, i) <= f.len(),
    decreases f.len() - i,
{
    if i < f.len() && is_atom_char(f[i]) {
        lemma_atom_end_bounds(f, i + 1);
    }
}

/// `atom`: a non-empty maximal run of atom characters.
pub open spec fn p_atom(f: Seq<u8>, i: int) -> Option<(int, Seq<u8>)> {
    let e = atom_end(f, i);
    if e > i {
        Some((e, f.subrange(i, e)))
    } else {
        None
    }
}

pub fn x_atom(f: &[u8], i: usize) -> (r: Option<(usize, Vec<u8>)>)
    requires
        i <= f@.len(),
    ensures
        match (r, p_atom(f@, i as int)) {
            (Some((j, v)), Some((jm, vm))) => j as int == jm && v@ == vm && j <= f@.len(),
            (None, None) => true,
            _ => false,
        },
{
    let mut j: usize = i;
    while j < f.len() && is_atom_char_x(f[j])
        invariant
            i <= j <= f@.len(),
            atom_end(f@, i as int) == atom_end(f@, j as int),
        decreases f@.len() - j,
    {
        assert(atom_end(f@, j as int) == atom_end(f@, j + 1 as int));
        j += 1;
    }
    assert(atom_end(f@, j as int) == j as int);
    if j == i {
        None
    } else {
        let v = vstd::slice::slice_to_vec(vstd::slice::slice_subrange(f, i, j));
        Some((j, v))
    }
}

/// End of the maximal run of `ASTRING-CHAR`s from `i`.
pub open spec fn astr_end(f: Seq<u8>, i: int) -> int
    decreases f.len() - i,
{
    if 0 <= i < f.len() && is_astring_char(f[i]) {
        astr_end(f, i + 1)
    } else {
        i
    }
}

/// A non-empty run of `ASTRING-CHAR`s (the atom form of `astring`).
pub open spec fn p_astr_atom(f: Seq<u8>, i: int) -> Option<(int, Seq<u8>)> {
    let e = astr_end(f, i);
    if e > i {
        Some((e, f.subrange(i, e)))
    } else {
        None
    }
}

pub fn x_astr_atom(f: &[u8], i: usize) -> (r: Option<(usize, Vec<u8>)>)
    requires
        i <= f@.len(),
    ensures
        match (r, p_astr_atom(f@, i as int)) {
            (Some((j, v)), Some((jm, vm))) => j as int == jm && v@ == vm && j <= f@.len(),
            (None, None) => true,
            _ => false,
        },
{
    let mut j: usize = i;
    while j < f.len() && is_astring_char_x(f[j])
        invariant
            i <= j <= f@.len(),
            astr_end(f@, i as int) == astr_end(f@, j as int),
        decreases f@.len() - j,
    {
        assert(astr_end(f@, j as int) == astr_end(f@, j + 1 as int));
        j += 1;
    }
    assert(astr_end(f@, j as int) == j as int);
    if j == i {
        None
    } else {
        let v = vstd::slice::slice_to_vec(vstd::slice::slice_subrange(f, i, j));
        Some((j, v))
    }
}

/// End of the maximal run of tag characters from `i`.
pub open spec fn tag_end(f: Seq<u8>, i: int) -> int
    decreases f.len() - i,
{
    if 0 <= i < f.len() && is_tag_char(f[i]) {
        tag_end(f, i + 1)
    } else {
        i
    }
}

/// A non-empty run of tag characters.
pub open spec fn p_tag_token(f: Seq<u8>, i: int) -> Option<(int, Seq<u8>)> {
    let e = tag_end(f, i);
    if e > i {
        Some((e, f.subrange(i, e)))
    } else {
        None
    }
}

pub fn x_tag_token(f: &[u8], i: usize) -> (r: Option<(usize, Vec<u8>)>)
    requires
        i <= f@.len(),
    ensures
        match (r, p_tag_token(f@, i as int)) {
            (Some((j, v)), Some((jm, vm))) => j as int == jm && v@ == vm && j <= f@.len(),
            (None, None) => true,
            _ => false,
        },
{
    let mut j: usize = i;
    while j < f.len() && is_tag_char_x(f[j])
        invariant
            i <= j <= f@.len(),
            tag_end(f@, i as int) == tag_end(f@, j as int),
        decreases f@.len() - j,
    {
        assert(tag_end(f@, j as int) == tag_end(f@, j + 1 as int));
        j += 1;
    }
    assert(tag_end(f@, j as int) == j as int);
    if j == i {
        None
    } else {
        let v = vstd::slice::slice_to_vec(vstd::slice::slice_subrange(f, i, j));
        Some((j, v))
    }
}

/// End of the maximal run of digits from `i`.
pub open spec fn digits_end(f: Seq<u8>, i: int) -> int
    decreases f.len() - i,
{
    if 0 <= i < f.len() && is_digit(f[i]) {
        digits_end(f, i + 1)
    } else {
        i
    }
}

/// Value of the digit run `f[i..j]` as an unbounded integer.
pub open spec fn dval(f: Seq<u8>, i: int, j: int) -> int
    decreases j - i,
{
    if j <= i {
        0
    } else {
        dval(f, i, j - 1) * 10 + (f[j - 1] - 0x30)
    }
}

proof fn lemma_dval_mono(f: Seq<u8>, i: int, k: int, e: int)
    requires
        0 <= i <= k <= e <= f.len(),
        forall|t: int| i <= t < e ==> is_digit(#[trigger] f[t]),
        0 <= dval(f, i, k),
    ensures
        dval(f, i, k) <= dval(f, i, e),
        0 <= dval(f, i, e),
    decreases e - k,
{
    if k < e {
        assert(dval(f, i, k + 1) == dval(f, i, k) * 10 + (f[k] - 0x30));
        assert(f[k] >= 0x30);
        assert(dval(f, i, k) * 10 >= dval(f, i, k)) by (nonlinear_arith)
            requires dval(f, i, k) >= 0;
        lemma_dval_mono(f, i, k + 1, e);
    }
}

/// The value of a digit run is never negative.
pub proof fn lemma_dval_nonneg(f: Seq<u8>, i: int, j: int)
    requires
        0 <= i <= j <= f.len(),
        forall|t: int| i <= t < j ==> is_digit(#[trigger] f[t]),
    ensures
        0 <= dval(f, i, j),
{
    assert(dval(f, i, i) == 0);
    lemma_dval_mono(f, i, i, j);
}

/// `number`: a non-empty digit run whose value fits in `u32`.
pub open spec fn p_number(f: Seq<u8>, i: int) -> Option<(int, u32)> {
    let e = digits_end(f, i);
    if e > i && dval(f, i, e) <= u32::MAX {
        Some((e, dval(f, i, e) as u32))
    } else {
        None
    }
}

/// `nz-number`: a `number` other than zero.
pub open spec fn p_nz_number(f: Seq<u8>, i: int) -> Option<(int, u32)> {
    match p_number(f, i) {
        Some((e, n)) => if n != 0 {
            Some((e, n))
        } else {
            None
        },
        None => None,
    }
}

pub fn x_number(f: &[u8], i: usize) -> (r: Option<(usize, u32)>)
    requires
        i <= f@.len(),
    ensures
        match (r, p_number(f@, i as int)) {
            (Some((j, v)), Some((jm, vm))) => j as int == jm && v == vm && j <= f@.len(),
            (None, None) => true,
            _ => false,
        },
{
    let ghost fs = f@;
    let mut j: usize = i;
    while j < f.len() && is_digit_x(f[j])
        invariant
            0 <= i <= j <= f@.len(),
            digits_end(f@, i as int) == digits_end(f@, j as int),
            forall|t: int| i <= t < j ==> is_digit(#[trigger] f@[t]),
        decreases f@.len() - j,
    {
        assert(digits_end(f@, j as int) == digits_end(f@, j + 1 as int));
        j += 1;
    }
    assert(digits_end(f@, j as int) == j as int);
    let e = j;
    if e == i {
        return None;
    }
    // second pass: accumulate the value, watching for 32-bit overflow
    let mut acc: u32 = 0;
    let mut k: usize = i;
    proof {
        assert(dval(fs, i as int, i as int) == 0);
    }
    while k < e
        invariant
            i <= k <= e <= f@.len(),
            fs == f@,
            digits_end(fs, i as int) == e as int,
            forall|t: int| i <= t < e ==> is_digit(#[trigger] fs[t]),
            acc == dval(fs, i as int, k as int),
            0 <= dval(fs, i as int, k as int),
        decreases e - k,
    {
        let d: u8 = f[k] - 0x30;
        assert(dval(fs, i as int, k + 1 as int) == dval(fs, i as int, k as int) * 10 + (fs[
            k as int] - 0x30));
        if acc > 429496729 || (acc == 429496729 && d > 5) {
            proof {
                assert(dval(fs, i as int, k + 1 as int) > u32::MAX) by (nonlinear_arith)
                    requires
                        dval(fs, i as int, k + 1 as int) == dval(fs, i as int, k as int) * 10 + (
                        fs[k as int] - 0x30),
                        acc == dval(fs, i as int, k as int),
                        d == fs[k as int] - 0x30,
                        acc > 429496729 || (acc == 429496729 && d > 5),
                        0 <= d,
                ;
                assert(0 <= dval(fs, i as int, (k + 1) as int));
                lemma_dval_mono(fs, i as int, (k + 1) as int, e as int);
            }
            return None;
        }
        assert(acc * 10 + d <= u32::MAX) by (nonlinear_arith)
            requires
                acc <= 429496729,
                acc < 429496729 ==> acc * 10 + d <= u32::MAX,
                d <= 9,
                acc == 429496729 ==> d <= 5,
        ;
        acc = acc * 10 + d as u32;
        k += 1;
    }
    Some((e, acc))
}

/// Scan of the inside of a quoted string from `i` (after the opening quote):
/// returns the position after the closing quote and the unescaped content.
pub open spec fn q_scan(f: Seq<u8>, i: int) -> Option<(int, Seq<u8>)>
    decreases f.len() - i,
{
    if i < 0 || i >= f.len() {
        None
    } else {
        let b = f[i];
        if b == 0x22u8 {
            Some((i + 1, Seq::empty()))
        } else if b == 0x5cu8 {
            if i + 1 < f.len() && (f[i + 1] == 0x22u8 || f[i + 1] == 0x5cu8) {
                match q_scan(f, i + 2) {
                    Some((e, s)) => Some((e, seq![f[i + 1]] + s)),
                    None => None,
                }
            } else {
                None
            }
        } else if is_text_char(b) {
            match q_scan(f, i + 1) {
                Some((e, s)) => Some((e, seq![b] + s)),
                None => None,
            }
        } else {
            None
        }
    }
}

/// `quoted`: DQUOTE, escaped content, DQUOTE; yields the unescaped content.
pub open spec fn p_quoted(f: Seq<u8>, i: int) -> Option<(int, Seq<u8>)> {
    if 0 <= i < f.len() && f[i] == 0x22u8 {
        q_scan(f, i + 1)
    } else {
        None
    }
}

pub fn x_quoted(f: &[u8], i: usize) -> (r: Option<(usize, Vec<u8>)>)
    requires
        i <= f@.len(),
    ensures
        match (r, p_quoted(f@, i as int)) {
            (Some((j, v)), Some((jm, vm))) => j as int == jm && v@ == vm && j <= f@.len(),
            (None, None) => true,
            _ => false,
        },
{
    if !(i < f.len() && f[i] == 0x22) {
        return None;
    }
    let mut j: usize = i + 1;
    let mut out: Vec<u8> = Vec::new();
    loop
        invariant
            i < f@.len(),
            f@[i as int] == 0x22u8,
            i + 1 <= j <= f@.len(),
            match q_scan(f@, j as int) {
                Some((e, s)) => q_scan(f@, i + 1 as int) == Some((e, out@ + s)),
                None => q_scan(f@, i + 1 as int).is_none(),
            },
        decreases f@.len() - j,
    {
        if j >= f.len() {
            return None;
        }
        let b = f[j];
        if b == 0x22 {
            assert(q_scan(f@, j as int) == Some((j + 1 as int, Seq::<u8>::empty())));
            assert(out@ + Seq::<u8>::empty() =~= out@);
            return Some((j + 1, out));
        } else if b == 0x5c {
            if j + 1 < f.len() && (f[j + 1] == 0x22 || f[j + 1] == 0x5c) {
                proof {
                    if let Some((e, s)) = q_scan(f@, j + 2 as int) {
                        assert(q_scan(f@, j as int) == Some((e, seq![f@[j + 1]] + s)));
                        assert((out@ + (seq![f@[j + 1]] + s)) =~= (out@.push(f@[j + 1]) + s));
                    }
                }
                out.push(f[j + 1]);
                j += 2;
            } else {
                return None;
            }
        } else if is_text_char_x(b) {
            proof {
                if let Some((e, s)) = q_scan(f@, j + 1 as int) {
                    assert(q_scan(f@, j as int) == Some((e, seq![f@[j as int]] + s)));
                    assert((out@ + (seq![f@[j as int]] + s)) =~= (out@.push(f@[j as int]) + s));
                }
            }
            out.push(b);
            j += 1;
        } else {
            return None;
        }
    }
}

/// `literal`: `{` nz-number [`+`] `}` CRLF followed by that many raw bytes.
pub open spec fn p_literal(f: Seq<u8>, i: int) -> Option<(int, Seq<u8>, LiteralMode)> {
    if 0 <= i < f.len() && f[i] == 0x7bu8 {
        match p_nz_number(f, i + 1) {
            Some((j, n)) => {
                let (k, mode) = if j < f.len() && f[j] == 0x2bu8 {
                    (j + 1, LiteralMode::NonSync)
                } else {
                    (j, LiteralMode::Sync)
                };
                if k < f.len() && f[k] == 0x7du8 && crlf_at(f, k + 1) && k + 3 + n <= f.len() {
                    Some((k + 3 + n, f.subrange(k + 3, k + 3 + n), mode))
                } else {
                    None
                }
            },
            None => None,
        }
    } else {
        None
    }
}

pub fn x_literal(f: &[u8], i: usize) -> (r: Option<(usize, Vec<u8>, LiteralMode)>)
    requires
        i <= f@.len(),
    ensures
        match (r, p_literal(f@, i as int)) {
            (Some((j, v, m)), Some((jm, vm, mm))) => j as int == jm && v@ == vm && m == mm && j
                <= f@.len(),
            (None, None) => true,
            _ => false,
        },
{
    if !(i < f.len() && f[i] == 0x7b) {
        return None;
    }
    let num = x_number(f, i + 1);
    match num {
        Some((j, n)) => {
            if n == 0 {
                return None;
            }
            let (k, mode) = if j < f.len() && f[j] == 0x2b {
                (j + 1, LiteralMode::NonSync)
            } else {
                (j, LiteralMode::Sync)
            };
            if k < f.len() && f[k] == 0x7d && crlf_at_x(f, k + 1) && n as usize <= f.len() - k
                - 3 {
                let v = vstd::slice::slice_to_vec(
                    vstd::slice::slice_subrange(f, k + 3, k + 3 + n as usize),
                );
                Some((k + 3 + n as usize, v, mode))
            } else {
                None
            }
        },
        None => None,
    }
}

/// `string`: quoted or literal.
pub open spec fn p_string(f: Seq<u8>, i: int) -> Option<(int, IStrM)> {
    if 0 <= i < f.len() && f[i] == 0x22u8 {
        match p_quoted(f, i) {
            Some((j, s)) => Some((j, IStrM::Quoted(s))),
            None => None,
        }
    } else if 0 <= i < f.len() && f[i] == 0x7bu8 {
        match p_literal(f, i) {
            Some((j, s, m)) => Some((j, IStrM::Literal { data: s, mode: m })),
            None => None,
        }
    } else {
        None
    }
}

pub fn x_string(f: &[u8], i: usize) -> (r: Option<(usize, crate::types::IString)>)
    requires
        i <= f@.len(),
    ensures
        match (r, p_string(f@, i as int)) {
            (Some((j, v)), Some((jm, vm))) => j as int == jm && crate::types::istr_m(v) == vm && j
                <= f@.len(),
            (None, None) => true,
            _ => false,
        },
{
    if i < f.len() && f[i] == 0x22 {
        match x_quoted(f, i) {
            Some((j, s)) => Some((j, crate::types::IString::Quoted(s))),
            None => None,
        }
    } else if i < f.len() && f[i] == 0x7b {
        match x_literal(f, i) {
            Some((j, s, m)) => Some((j, crate::types::IString::Literal { data: s, mode: m })),
            None => None,
        }
    } else {
        None
    }
}

/// `text`: the final run before the frame's closing CRLF; non-empty.
pub open spec fn p_text(f: Seq<u8>, i: int) -> Option<(int, Seq<u8>)> {
    let e = f.len() - 2;
    if 0 <= i < e && crlf_at(f, e) && (forall|t: int| i <= t < e ==> is_text_char(#[trigger] f[t]))
    {
        Some((f.len() as int, f.subrange(i, e)))
    } else {
        None
    }
}

pub fn x_text(f: &[u8], i: usize) -> (r: Option<(usize, Vec<u8>)>)
    requires
        i <= f@.len(),
    ensures
        match (r, p_text(f@, i as int)) {
            (Some((j, v)), Some((jm, vm))) => j as int == jm && v@ == vm && j <= f@.len(),
            (None, None) => true,
            _ => false,
        },
{
    let n = f.len();
    if n < 2 || !crlf_at_x(f, n - 2) {
        return None;
    }
    let e = n - 2;
    if i >= e {
        return None;
    }
    let mut k: usize = i;
    while k < e
        invariant
            i <= k <= e,
            e == f@.len() - 2,
            forall|t: int| i <= t < k ==> is_text_char(#[trigger] f@[t]),
        decreases e - k,
    {
        if !is_text_char_x(f[k]) {
            return None;
        }
        k += 1;
    }
    let v = vstd::slice::slice_to_vec(vstd::slice::slice_subrange(f, i, e));
    Some((n, v))
}

/// `nstring`: `NIL` or a string; `None` in the result stands for `NIL`.
pub open spec fn p_nstring(f: Seq<u8>, i: int) -> Option<(int, Option<IStrM>)> {
    if 0 <= i < f.len() && (f[i] == 0x22u8 || f[i] == 0x7bu8) {
        match p_string(f, i) {
            Some((j, v)) => Some((j, Some(v))),
            None => None,
        }
    } else {
        match p_atom(f, i) {
            Some((j, a)) => if eq_ci(a, crate::kw::kw_nil()) {
                Some((j, None))
            } else {
                None
            },
            None => None,
        }
    }
}

pub fn x_nstring(f: &[u8], i: usize) -> (r: Option<(usize, Option<crate::types::IString>)>)
    requires
        i <= f@.len(),
    ensures
        match (r, p_nstring(f@, i as int)) {
            (Some((j, v)), Some((jm, vm))) => j as int == jm && crate::types::nstr_m(v) == vm && j
                <= f@.len(),
            (None, None) => true,
            _ => false,
        },
{
    if i < f.len() && (f[i] == 0x22 || f[i] == 0x7b) {
        match x_string(f, i) {
            Some((j, v)) => Some((j, Some(v))),
            None => None,
        }
    } else {
        match x_atom(f, i) {
            Some((j, a)) => {
                if crate::kw::ke_nil(a.as_slice()) {
                    Some((j, None))
                } else {
                    None
                }
            },
            None => None,
        }
    }
}

/// `astring`: a run of `ASTRING-CHAR`s or a string.
pub open spec fn p_astring(f: Seq<u8>, i: int) -> Option<(int, crate::types::AStrM)> {
    if 0 <= i < f.len() && (f[i] == 0x22u8 || f[i] == 0x7bu8) {
        match p_string(f, i) {
            Some((j, v)) => Some((j, crate::types::AStrM::Str(v))),
            None => None,
        }
    } else {
        match p_astr_atom(f, i) {
            Some((j, a)) => Some((j, crate::types::AStrM::Atom(a))),
            None => None,
        }
    }
}

pub fn x_astring(f: &[u8], i: usize) -> (r: Option<(usize, crate::types::AString)>)
    requires
        i <= f@.len(),
    ensures
        match (r, p_astring(f@, i as int)) {
            (Some((j, v)), Some((jm, vm))) => j as int == jm && crate::types::astr_m(v) == vm && j
                <= f@.len(),
            (None, None) => true,
            _ => false,
        },
{
    if i < f.len() && (f[i] == 0x22 || f[i] == 0x7b) {
        match x_string(f, i) {
            Some((j, v)) => Some((j, crate::types::AString::Str(v))),
            None => None,
        }
    } else {
        match x_astr_atom(f, i) {
            Some((j, a)) => Some((j, crate::types::AString::Atom(a))),
            None => None,
        }
    }
}

// ---------------------------------------------------------------------------
// bounds of successful parses (used for list termination)
// ---------------------------------------------------------------------------

pub proof fn lemma_atom_end_bounds_pub(f: Seq<u8>, i: int)
    requires
        0 <= i <= f.len(),
    ensures
        i <= atom_end(f, i) <= f.len(),
    decreases f.len() - i,
{
    if i < f.len() && is_atom_char(f[i]) {
        lemma_atom_end_bounds_pub(f, i + 1);
    }
}

pub proof fn lemma_astr_end_bounds(f: Seq<u8>, i: int)
    requires
        0 <= i <= f.len(),
    ensures
        i <= astr_end(f, i) <= f.len(),
    decreases f.len() - i,
{
    if i < f.len() && is_astring_char(f[i]) {
        lemma_astr_end_bounds(f, i + 1);
    }
}

pub proof fn lemma_digits_end_bounds(f: Seq<u8>, i: int)
    requires
        0 <= i <= f.len(),
    ensures
        i <= digits_end(f, i) <= f.len(),
    decreases f.len() - i,
{
    if i < f.len() && is_digit(f[i]) {
        lemma_digits_end_bounds(f, i + 1);
    }
}

pub proof fn lemma_q_scan_bounds(f: Seq<u8>, i: int)
    requires
        0 <= i,
    ensures
        match q_scan(f, i) {
            Some((e, _)) => i < e <= f.len(),
            None => true,
        },
    decreases f.len() - i,
{
    if 0 <= i < f.len() {
        let b = f[i];
        if b == 0x22u8 {
        } else if b == 0x5cu8 {
            if i + 1 < f.len() && (f[i + 1] == 0x22u8 || f[i + 1] == 0x5cu8) {
                lemma_q_scan_bounds(f, i + 2);
            }
        } else if is_text_char(b) {
            lemma_q_scan_bounds(f, i + 1);
        }
    }
}

/// Every successful token parse lands strictly to the right of its start
/// and within the frame.
pub proof fn lemma_tok_bounds(f: Seq<u8>, i: int)
    requires
        0 <= i <= f.len(),
    ensures
        match p_atom(f, i) {
            Some((j, v)) => i < j <= f.len(),
            None => true,
        },
        match p_astr_atom(f, i) {
            Some((j, v)) => i < j <= f.len(),
            None => true,
        },
        match p_tag_token(f, i) {
            Some((j, v)) => i < j <= f.len(),
            None => true,
        },
        match p_number(f, i) {
            Some((j, v)) => i < j <= f.len(),
            None => true,
        },
        match p_nz_number(f, i) {
            Some((j, v)) => i < j <= f.len(),
            None => true,
        },
        match p_quoted(f, i) {
            Some((j, v)) => i < j <= f.len(),
            None => true,
        },
        match p_literal(f, i) {
            Some((j, v, m)) => i < j <= f.len(),
            None => true,
        },
        match p_string(f, i) {
            Some((j, v)) => i < j <= f.len(),
            None => true,
        },
        match p_nstring(f, i) {
            Some((j, v)) => i < j <= f.len(),
            None => true,
        },
        match p_astring(f, i) {
            Some((j, v)) => i < j <= f.len(),
            None => true,
        },
        match p_text(f, i) {
            Some((j, v)) => i < j <= f.len(),
            None => true,
        },
{
    lemma_atom_end_bounds_pub(f, i);
    lemma_astr_end_bounds(f, i);
    lemma_digits_end_bounds(f, i);
    if 0 <= i < f.len() && f[i] == 0x22u8 {
        lemma_q_scan_bounds(f, i + 1);
    }
    if i < f.len() {
        lemma_tag_end_bounds(f, i);
    }
}

proof fn lemma_tag_end_bounds(f: Seq<u8>, i: int)
    requires
        0 <= i <= f.len(),
    ensures
        i <= tag_end(f, i) <= f.len(),
    decreases f.len() - i,
{
    if i < f.len() && is_tag_char(f[i]) {
        lemma_tag_end_bounds(f, i + 1);
    }
}

} // verus!
