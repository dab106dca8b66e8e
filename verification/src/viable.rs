//! Early rejection of doomed prefixes: a buffer whose bytes already rule
//! out every extension is reported `Failed` at once, not `Incomplete`.
//!
//! The checks are conservative: `doomed` is only ever true of a prefix no
//! byte extension can complete (the soundness lemmas below), and once true
//! it stays true as bytes arrive (the monotonicity lemmas).  They cover the
//! fixed skeleton of each message kind, its leading keyword atom, and the
//! first byte after that keyword; a doomed prefix deeper inside an
//! argument is still reported `Incomplete` until its line completes.

use vstd::prelude::*;
use crate::chars::{
    eq_ci, is_astring_char, is_atom_char, is_atom_char_x, is_text_char, up, up_x,
};
use crate::kw;
use crate::tok::{atom_end, p_atom};

verus! {

broadcast use vstd::slice::axiom_spec_len;

/// `a` is a case-insensitive prefix of `w`.
pub open spec fn ci_prefix(a: Seq<u8>, w: Seq<u8>) -> bool {
    a.len() <= w.len() && (forall|k: int| 0 <= k < a.len() ==> up(a[k]) == up(w[k]))
}

/// The atom run starting at `i` can still become the word `w` followed by
/// SP (or CR, where a line may end after the word).
pub open spec fn name_viable(s: Seq<u8>, i: int, w: Seq<u8>, cr_ok: bool) -> bool {
    let e = atom_end(s, i);
    if e < s.len() {
        eq_ci(s.subrange(i, e), w) && (s[e] == 0x20u8 || (cr_ok && s[e] == 13u8))
    } else {
        ci_prefix(s.subrange(i, e), w)
    }
}

// ---------------------------------------------------------------------------
// bookkeeping lemmas about atom runs under extension and cutting
// ---------------------------------------------------------------------------

/// Every byte strictly inside the maximal run is an atom character.
pub proof fn lemma_atom_run_chars(s: Seq<u8>, i: int)
    requires
        0 <= i <= s.len(),
    ensures
        forall|t: int| i <= t < atom_end(s, i) ==> is_atom_char(#[trigger] s[t]),
    decreases s.len() - i,
{
    crate::tok::lemma_atom_end_bounds_pub(s, i);
    if i < s.len() && is_atom_char(s[i]) {
        lemma_atom_run_chars(s, i + 1);
        crate::tok::lemma_atom_end_bounds_pub(s, i + 1);
    }
}

/// A run of atom characters extends the maximal run at least that far.
pub proof fn lemma_atom_run_extends(f: Seq<u8>, i: int, j: int)
    requires
        0 <= i <= j <= f.len(),
        forall|t: int| i <= t < j ==> is_atom_char(#[trigger] f[t]),
    ensures
        atom_end(f, i) >= j,
    decreases j - i,
{
    crate::tok::lemma_atom_end_bounds_pub(f, i);
    if i < j {
        lemma_atom_run_extends(f, i + 1, j);
    }
}

/// A run terminated inside the buffer keeps its end when bytes are
/// appended.
pub proof fn lemma_atom_end_ext(s: Seq<u8>, ext: Seq<u8>, i: int)
    requires
        0 <= i <= s.len(),
        atom_end(s, i) < s.len(),
    ensures
        atom_end(s + ext, i) == atom_end(s, i),
    decreases s.len() - i,
{
    assert((s + ext)[i] == s[i] || i >= s.len());
    if i < s.len() && is_atom_char(s[i]) {
        lemma_atom_end_ext(s, ext, i + 1);
    } else {
    }
}

/// The maximal run of a cut buffer is the cut of the maximal run.
pub proof fn lemma_atom_end_cut(s: Seq<u8>, k: int, i: int)
    requires
        0 <= i <= k <= s.len(),
    ensures
        atom_end(s.subrange(0, k), i) == (if atom_end(s, i) <= k {
            atom_end(s, i)
        } else {
            k
        }),
    decreases k - i,
{
    let p = s.subrange(0, k);
    crate::tok::lemma_atom_end_bounds_pub(s, i);
    if i < k {
        assert(p[i] == s[i]);
        if is_atom_char(s[i]) {
            lemma_atom_end_cut(s, k, i + 1);
        }
    }
}

// ---------------------------------------------------------------------------
// the name check: monotone under extension, sound for decodable buffers
// ---------------------------------------------------------------------------

/// A name that can no longer become `w` stays that way as bytes arrive.
pub proof fn lemma_name_viable_ext(s: Seq<u8>, ext: Seq<u8>, i: int, w: Seq<u8>, cr_ok: bool)
    requires
        0 <= i <= s.len(),
        !name_viable(s, i, w, cr_ok),
    ensures
        !name_viable(s + ext, i, w, cr_ok),
{
    let e = atom_end(s, i);
    crate::tok::lemma_atom_end_bounds_pub(s, i);
    if e < s.len() {
        lemma_atom_end_ext(s, ext, i);
        assert((s + ext).subrange(i, e) =~= s.subrange(i, e));
        assert((s + ext)[e] == s[e]);
    } else {
        // the run reached the buffer end and is not a prefix of `w`;
        // a longer run cannot become one
        lemma_atom_run_chars(s, i);
        assert(forall|t: int| i <= t < e ==> is_atom_char(#[trigger] (s + ext)[t]));
        lemma_atom_run_extends(s + ext, i, e);
        let e2 = atom_end(s + ext, i);
        crate::tok::lemma_atom_end_bounds_pub(s + ext, i);
        let a = s.subrange(i, e);
        let a2 = (s + ext).subrange(i, e2);
        assert(forall|t: int| 0 <= t < a.len() ==> a[t] == #[trigger] a2[t]);
        if a.len() > w.len() {
        } else {
            let bad = choose|k: int| 0 <= k < a.len() && up(a[k]) != up(w[k]);
            assert(up(a2[bad]) != up(w[bad]));
        }
    }
}

/// Helper: when the run of a cut buffer is a prefix of a word the full
/// run matches, the cut name is still viable.
pub proof fn lemma_name_viable_cut(s: Seq<u8>, k: int, i: int, w: Seq<u8>, cr_ok: bool)
    requires
        0 <= i <= k <= s.len(),
        atom_end(s, i) < s.len(),
        eq_ci(s.subrange(i, atom_end(s, i)), w),
        s[atom_end(s, i)] == 0x20u8 || (cr_ok && s[atom_end(s, i)] == 13u8),
    ensures
        name_viable(s.subrange(0, k), i, w, cr_ok),
{
    let e = atom_end(s, i);
    let p = s.subrange(0, k);
    crate::tok::lemma_atom_end_bounds_pub(s, i);
    lemma_atom_end_cut(s, k, i);
    if e < k {
        assert(p.subrange(i, e) =~= s.subrange(i, e));
        assert(p[e] == s[e]);
    } else {
        assert(atom_end(p, i) == k);
        let a = p.subrange(i, k);
        assert(forall|t: int| 0 <= t < a.len() ==> a[t] == #[trigger] s.subrange(i, e)[t]);
    }
}

// ---------------------------------------------------------------------------
// exec counterparts
// ---------------------------------------------------------------------------

pub fn x_name_viable(f: &[u8], i: usize, w: &[u8], cr_ok: bool) -> (r: bool)
    requires
        i <= f@.len(),
    ensures
        r == name_viable(f@, i as int, w@, cr_ok),
{
    let n = f.len();
    let mut e: usize = i;
    while e < n && is_atom_char_x(f[e])
        invariant
            i <= e <= n == f@.len(),
            atom_end(f@, i as int) == atom_end(f@, e as int),
        decreases n - e,
    {
        assert(atom_end(f@, e as int) == atom_end(f@, e + 1 as int));
        e += 1;
    }
    assert(atom_end(f@, e as int) == e as int);
    if e < n {
        let a = vstd::slice::slice_subrange(f, i, e);
        crate::chars::eq_ci_x(a, w) && (f[e] == 0x20 || (cr_ok && f[e] == 13))
    } else {
        // the run reaches the buffer end: prefix test
        if e - i > w.len() {
            return false;
        }
        let mut k: usize = i;
        while k < e
            invariant
                i <= k <= e == f@.len(),
                atom_end(f@, i as int) == e as int,
                e - i <= w@.len(),
                forall|t: int| 0 <= t < k - i ==> up(f@[i + t]) == up(w@[t]),
            decreases e - k,
        {
            if up_x(f[k]) != up_x(w[k - i]) {
                assert(up(f@.subrange(i as int, e as int)[k - i]) != up(w@[k - i]));
                return false;
            }
            k += 1;
        }
        assert(forall|t: int|
            0 <= t < e - i ==> up(#[trigger] f@.subrange(i as int, e as int)[t]) == up(w@[t]));
        true
    }
}


/// Every byte strictly inside the maximal tag run is a tag character.
pub proof fn lemma_tag_run_chars(s: Seq<u8>, i: int)
    requires
        0 <= i <= s.len(),
    ensures
        forall|t: int|
            i <= t < crate::tok::tag_end(s, i) ==> crate::chars::is_tag_char(#[trigger] s[t]),
    decreases s.len() - i,
{
    if i < s.len() && crate::chars::is_tag_char(s[i]) {
        lemma_tag_run_chars(s, i + 1);
    }
}

/// A buffer beginning with a non-empty tag-character run and then SP is
/// pre-checked to exactly that tag.
pub proof fn lemma_tag_precheck_of(s: Seq<u8>, te: int)
    requires
        0 < te < s.len(),
        forall|t: int| 0 <= t < te ==> crate::chars::is_tag_char(#[trigger] s[t]),
        s[te] == 0x20u8,
    ensures
        crate::frame::tag_precheck(s, 0) == (crate::frame::TagCheck::Found { sp: te }),
{
    lemma_tag_precheck_of_aux(s, 0, te);
}

proof fn lemma_tag_precheck_of_aux(s: Seq<u8>, i: int, te: int)
    requires
        0 <= i <= te < s.len(),
        0 < te,
        forall|t: int| 0 <= t < te ==> crate::chars::is_tag_char(#[trigger] s[t]),
        s[te] == 0x20u8,
    ensures
        crate::frame::tag_precheck(s, i) == (crate::frame::TagCheck::Found { sp: te }),
    decreases te - i,
{
    if i < te {
        assert(crate::chars::is_tag_char(s[i]));
        assert(s[i] != 0x20u8);
        lemma_tag_precheck_of_aux(s, i + 1, te);
    }
}

// ---------------------------------------------------------------------------
// doomed prefixes per message kind
// ---------------------------------------------------------------------------

/// The bytes that may open a `resp-text`: a bracketed code or text.
pub open spec fn resp_text_start_ok(b: u8) -> bool {
    b == 0x5bu8 || is_text_char(b)
}

/// The bytes that may open a command's first argument: an astring atom,
/// a quoted string, a literal, the `*` of a sequence set, or a
/// parenthesized list.
pub open spec fn arg_start_ok(b: u8) -> bool {
    is_astring_char(b) || b == 0x22u8 || b == 0x7bu8 || b == 0x2au8 || b == 0x28u8
}

/// After a terminated leading name and its SP, the next byte cannot open
/// what must follow.
pub open spec fn after_name_doomed(s: Seq<u8>, i: int, start_ok: bool) -> bool {
    let e = atom_end(s, i);
    &&& 0 <= i
    &&& e < s.len()
    &&& s[e] == 0x20u8
    &&& e + 1 < s.len()
    &&& !(if start_ok {
        arg_start_ok(s[e + 1])
    } else {
        resp_text_start_ok(s[e + 1])
    })
}

/// A greeting buffer that no extension can complete: wrong skeleton bytes,
/// a kind atom that can no longer become `OK`, `PREAUTH` or `BYE`, or a
/// byte after `kind SP` that cannot open a `resp-text`.
pub open spec fn greeting_doomed(s: Seq<u8>) -> bool {
    ||| s.len() >= 1 && s[0] != 0x2au8
    ||| s.len() >= 2 && s[1] != 0x20u8
    ||| s.len() >= 3 && !(name_viable(s, 2, kw::kw_ok(), false) || name_viable(
        s,
        2,
        kw::kw_preauth(),
        false,
    ) || name_viable(s, 2, kw::kw_bye(), false))
    ||| s.len() >= 3 && after_name_doomed(s, 2, false)
}

/// A command name (after `tag SP`) that can no longer become any command
/// this grammar accepts (each followed by SP or the closing CR), or a byte
/// after `name SP` that cannot open an argument.
pub open spec fn command_name_doomed(s: Seq<u8>, i: int) -> bool {
    ||| after_name_doomed(s, i, true)
    ||| command_name_unknown(s, i)
}

/// The name itself can no longer become any accepted command word.
pub open spec fn command_name_unknown(s: Seq<u8>, i: int) -> bool {
    &&& !name_viable(s, i, kw::kw_capability(), true)
    &&& !name_viable(s, i, kw::kw_noop(), true)
    &&& !name_viable(s, i, kw::kw_logout(), true)
    &&& !name_viable(s, i, kw::kw_login(), true)
    &&& !name_viable(s, i, kw::kw_authenticate(), true)
    &&& !name_viable(s, i, kw::kw_select(), true)
    &&& !name_viable(s, i, kw::kw_examine(), true)
    &&& !name_viable(s, i, kw::kw_create(), true)
    &&& !name_viable(s, i, kw::kw_delete(), true)
    &&& !name_viable(s, i, kw::kw_rename(), true)
    &&& !name_viable(s, i, kw::kw_status(), true)
    &&& !name_viable(s, i, kw::kw_append(), true)
    &&& !name_viable(s, i, kw::kw_store(), true)
    &&& !name_viable(s, i, kw::kw_search(), true)
    &&& !name_viable(s, i, kw::kw_fetch(), true)
    &&& !name_viable(s, i, kw::kw_copy(), true)
}

/// A response buffer that no extension can complete: a first byte that is
/// neither `+`, `*` nor a tag character, a missing SP after `+` or `*`,
/// or an invalid tag before the first SP.
pub open spec fn response_doomed(s: Seq<u8>) -> bool {
    ||| s.len() >= 2 && s[0] == 0x2bu8 && s[1] != 0x20u8
    ||| s.len() >= 2 && s[0] == 0x2au8 && s[1] != 0x20u8
    ||| s.len() >= 1 && s[0] != 0x2bu8 && s[0] != 0x2au8 && crate::frame::tag_precheck(
        s,
        0,
    ) is Bad
}

// ---------------------------------------------------------------------------
// monotonicity: once doomed, always doomed
// ---------------------------------------------------------------------------

pub proof fn lemma_greeting_doomed_ext(s: Seq<u8>, ext: Seq<u8>)
    requires
        greeting_doomed(s),
    ensures
        greeting_doomed(s + ext),
{
    if s.len() >= 1 {
        assert((s + ext)[0] == s[0]);
    }
    if s.len() >= 2 {
        assert((s + ext)[1] == s[1]);
    }
    if s.len() >= 3 && !(name_viable(s, 2, kw::kw_ok(), false) || name_viable(
        s,
        2,
        kw::kw_preauth(),
        false,
    ) || name_viable(s, 2, kw::kw_bye(), false)) {
        lemma_name_viable_ext(s, ext, 2, kw::kw_ok(), false);
        lemma_name_viable_ext(s, ext, 2, kw::kw_preauth(), false);
        lemma_name_viable_ext(s, ext, 2, kw::kw_bye(), false);
    }
    if s.len() >= 3 && after_name_doomed(s, 2, false) {
        lemma_after_name_doomed_ext(s, ext, 2, false);
    }
}

/// A doomed post-name byte stays doomed as bytes arrive.
pub proof fn lemma_after_name_doomed_ext(s: Seq<u8>, ext: Seq<u8>, i: int, start_ok: bool)
    requires
        0 <= i <= s.len(),
        after_name_doomed(s, i, start_ok),
    ensures
        after_name_doomed(s + ext, i, start_ok),
{
    lemma_atom_end_ext(s, ext, i);
    crate::tok::lemma_atom_end_bounds_pub(s, i);
    let e = atom_end(s, i);
    assert((s + ext)[e] == s[e]);
    assert((s + ext)[e + 1] == s[e + 1]);
}

pub proof fn lemma_command_name_doomed_ext(s: Seq<u8>, ext: Seq<u8>, i: int)
    requires
        0 <= i <= s.len(),
        command_name_doomed(s, i),
    ensures
        command_name_doomed(s + ext, i),
{
    if after_name_doomed(s, i, true) {
        lemma_after_name_doomed_ext(s, ext, i, true);
    } else {
        lemma_name_viable_ext(s, ext, i, kw::kw_capability(), true);
        lemma_name_viable_ext(s, ext, i, kw::kw_noop(), true);
        lemma_name_viable_ext(s, ext, i, kw::kw_logout(), true);
        lemma_name_viable_ext(s, ext, i, kw::kw_login(), true);
        lemma_name_viable_ext(s, ext, i, kw::kw_authenticate(), true);
        lemma_name_viable_ext(s, ext, i, kw::kw_select(), true);
        lemma_name_viable_ext(s, ext, i, kw::kw_examine(), true);
        lemma_name_viable_ext(s, ext, i, kw::kw_create(), true);
        lemma_name_viable_ext(s, ext, i, kw::kw_delete(), true);
        lemma_name_viable_ext(s, ext, i, kw::kw_rename(), true);
        lemma_name_viable_ext(s, ext, i, kw::kw_status(), true);
        lemma_name_viable_ext(s, ext, i, kw::kw_append(), true);
        lemma_name_viable_ext(s, ext, i, kw::kw_store(), true);
        lemma_name_viable_ext(s, ext, i, kw::kw_search(), true);
        lemma_name_viable_ext(s, ext, i, kw::kw_fetch(), true);
        lemma_name_viable_ext(s, ext, i, kw::kw_copy(), true);
    }
}

pub proof fn lemma_response_doomed_ext(s: Seq<u8>, ext: Seq<u8>)
    requires
        response_doomed(s),
    ensures
        response_doomed(s + ext),
{
    if s.len() >= 1 {
        assert((s + ext)[0] == s[0]);
    }
    if s.len() >= 2 {
        assert((s + ext)[1] == s[1]);
    }
    if s.len() >= 1 && s[0] != 0x2bu8 && s[0] != 0x2au8 && crate::frame::tag_precheck(
        s,
        0,
    ) is Bad {
        crate::frame::lemma_tag_precheck_ext(s, ext, 0);
    }
}

// ---------------------------------------------------------------------------
// exec counterparts
// ---------------------------------------------------------------------------

/// Exec check of [`after_name_doomed`].
pub fn x_after_name_doomed(f: &[u8], i: usize, start_ok: bool) -> (r: bool)
    requires
        i <= f@.len(),
    ensures
        r == after_name_doomed(f@, i as int, start_ok),
{
    let n = f.len();
    let mut e: usize = i;
    while e < n && is_atom_char_x(f[e])
        invariant
            i <= e <= n == f@.len(),
            atom_end(f@, i as int) == atom_end(f@, e as int),
        decreases n - e,
    {
        assert(atom_end(f@, e as int) == atom_end(f@, e + 1 as int));
        e += 1;
    }
    assert(atom_end(f@, e as int) == e as int);
    if !(e < n && f[e] == 0x20 && e + 1 < n) {
        return false;
    }
    let b = f[e + 1];
    if start_ok {
        !(crate::chars::is_astring_char_x(b) || b == 0x22 || b == 0x7b || b == 0x2a || b == 0x28)
    } else {
        !(b == 0x5b || crate::chars::is_text_char_x(b))
    }
}

pub fn x_greeting_doomed(s: &[u8]) -> (r: bool)
    ensures
        r == greeting_doomed(s@),
{
    let n = s.len();
    if n >= 1 && s[0] != 0x2a {
        return true;
    }
    if n >= 2 && s[1] != 0x20 {
        return true;
    }
    if n >= 3 {
        let w_ok: &[u8] = &[79u8, 75u8];
        let w_pre: &[u8] = &[80u8, 82, 69, 65, 85, 84, 72];
        let w_bye: &[u8] = &[66u8, 89, 69];
        assert(w_ok@ =~= kw::kw_ok());
        assert(w_pre@ =~= kw::kw_preauth());
        assert(w_bye@ =~= kw::kw_bye());
        if !(x_name_viable(s, 2, w_ok, false) || x_name_viable(s, 2, w_pre, false)
            || x_name_viable(s, 2, w_bye, false)) {
            return true;
        }
        if x_after_name_doomed(s, 2, false) {
            return true;
        }
    }
    false
}

pub fn x_command_name_doomed(s: &[u8], i: usize) -> (r: bool)
    requires
        i <= s@.len(),
    ensures
        r == command_name_doomed(s@, i as int),
{
    let w1: &[u8] = &[67u8, 65, 80, 65, 66, 73, 76, 73, 84, 89];
    let w2: &[u8] = &[78u8, 79, 79, 80];
    let w3: &[u8] = &[76u8, 79, 71, 79, 85, 84];
    let w4: &[u8] = &[76u8, 79, 71, 73, 78];
    let w5: &[u8] = &[65u8, 85, 84, 72, 69, 78, 84, 73, 67, 65, 84, 69];
    let w6: &[u8] = &[83u8, 69, 76, 69, 67, 84];
    let w7: &[u8] = &[69u8, 88, 65, 77, 73, 78, 69];
    let w8: &[u8] = &[67u8, 82, 69, 65, 84, 69];
    let w9: &[u8] = &[68u8, 69, 76, 69, 84, 69];
    let w10: &[u8] = &[82u8, 69, 78, 65, 77, 69];
    let w11: &[u8] = &[70u8, 69, 84, 67, 72];
    let w12: &[u8] = &[67u8, 79, 80, 89];
    let w13: &[u8] = &[83u8, 84, 65, 84, 85, 83];
    let w14: &[u8] = &[65u8, 80, 80, 69, 78, 68];
    let w15: &[u8] = &[83u8, 84, 79, 82, 69];
    let w16: &[u8] = &[83u8, 69, 65, 82, 67, 72];
    assert(w1@ =~= kw::kw_capability());
    assert(w2@ =~= kw::kw_noop());
    assert(w3@ =~= kw::kw_logout());
    assert(w4@ =~= kw::kw_login());
    assert(w5@ =~= kw::kw_authenticate());
    assert(w6@ =~= kw::kw_select());
    assert(w7@ =~= kw::kw_examine());
    assert(w8@ =~= kw::kw_create());
    assert(w9@ =~= kw::kw_delete());
    assert(w10@ =~= kw::kw_rename());
    assert(w11@ =~= kw::kw_fetch());
    assert(w12@ =~= kw::kw_copy());
    assert(w13@ =~= kw::kw_status());
    assert(w14@ =~= kw::kw_append());
    assert(w15@ =~= kw::kw_store());
    assert(w16@ =~= kw::kw_search());
    if x_after_name_doomed(s, i, true) {
        return true;
    }
    !(x_name_viable(s, i, w1, true) || x_name_viable(s, i, w2, true) || x_name_viable(
        s,
        i,
        w3,
        true,
    ) || x_name_viable(s, i, w4, true) || x_name_viable(s, i, w5, true) || x_name_viable(
        s,
        i,
        w6,
        true,
    ) || x_name_viable(s, i, w7, true) || x_name_viable(s, i, w8, true) || x_name_viable(
        s,
        i,
        w9,
        true,
    ) || x_name_viable(s, i, w10, true) || x_name_viable(s, i, w11, true) || x_name_viable(
        s,
        i,
        w12,
        true,
    ) || x_name_viable(s, i, w13, true) || x_name_viable(s, i, w14, true) || x_name_viable(
        s,
        i,
        w15,
        true,
    ) || x_name_viable(s, i, w16, true))
}

pub fn x_response_doomed(s: &[u8]) -> (r: bool)
    ensures
        r == response_doomed(s@),
{
    let n = s.len();
    if n >= 2 && s[0] == 0x2b && s[1] != 0x20 {
        return true;
    }
    if n >= 2 && s[0] == 0x2a && s[1] != 0x20 {
        return true;
    }
    if n >= 1 && s[0] != 0x2b && s[0] != 0x2a {
        match crate::frame::tag_precheck_x(s) {
            crate::frame::TagCheckX::Bad => {
                return true;
            },
            _ => {
                return false;
            },
        }
    }
    false
}

} // verus!

