//! Sections: `section-spec`, part paths and header lists, as used by
//! `BODY[...]` fetch attributes and fetch results.
//!
//! Ordered alternation note: `HEADER.FIELDS.NOT`, `HEADER.FIELDS` and
//! `HEADER` are distinguished by maximal-munch atom parsing, so the most
//! specific name always wins.

use vstd::prelude::*;
use crate::chars::{eq_ci, is_digit, is_digit_x};
use crate::kw;
use crate::tok::{
    lemma_tok_bounds, p_astring, p_atom, p_nz_number, sp_at, sp_at_x, x_astring, x_atom, x_number,
};
use crate::types::{
    astr_m, astrs_m, msgtext_m, part_text_m, section_m, AString, AStrM, Msgtext, MsgtextM,
    PartText, PartTextM, Section, SectionM,
};

verus! {

broadcast use vstd::slice::axiom_spec_len;

/// `*(SP astring) ")"`.
pub open spec fn p_hdrs_rest(f: Seq<u8>, i: int) -> Option<(int, Seq<AStrM>)>
    decreases f.len() - i,
        when 0 <= i <= f.len()
        via p_hdrs_rest_dec
{
    if sp_at(f, i) {
        match p_astring(f, i + 1) {
            Some((j, a)) => match p_hdrs_rest(f, j) {
                Some((e, r)) => Some((e, seq![a] + r)),
                None => None,
            },
            None => None,
        }
    } else if 0 <= i < f.len() && f[i] == 0x29u8 {
        Some((i + 1, Seq::empty()))
    } else {
        None
    }
}

#[via_fn]
proof fn p_hdrs_rest_dec(f: Seq<u8>, i: int) {
    if sp_at(f, i) {
        lemma_tok_bounds(f, i + 1);
    }
}

/// `header-list`: `(` astring *(SP astring) `)`, non-empty.
pub open spec fn p_hdr_list(f: Seq<u8>, i: int) -> Option<(int, Seq<AStrM>)> {
    if 0 <= i < f.len() && f[i] == 0x28u8 {
        match p_astring(f, i + 1) {
            Some((j, a)) => match p_hdrs_rest(f, j) {
                Some((e, r)) => Some((e, seq![a] + r)),
                None => None,
            },
            None => None,
        }
    } else {
        None
    }
}

pub proof fn lemma_p_hdrs_rest_bounds(f: Seq<u8>, i: int)
    requires
        0 <= i <= f.len(),
    ensures
        match p_hdrs_rest(f, i) {
            Some((j, _)) => i < j <= f.len(),
            None => true,
        },
    decreases f.len() - i,
{
    if sp_at(f, i) {
        lemma_tok_bounds(f, i + 1);
        if let Some((j, _)) = p_astring(f, i + 1) {
            lemma_p_hdrs_rest_bounds(f, j);
        }
    }
}

pub proof fn lemma_p_hdr_list_bounds(f: Seq<u8>, i: int)
    requires
        0 <= i <= f.len(),
    ensures
        match p_hdr_list(f, i) {
            Some((j, _)) => i < j <= f.len(),
            None => true,
        },
{
    if 0 <= i < f.len() && f[i] == 0x28u8 {
        lemma_tok_bounds(f, i + 1);
        if let Some((j, _)) = p_astring(f, i + 1) {
            lemma_p_hdrs_rest_bounds(f, j);
        }
    }
}

pub proof fn lemma_astrs_m_push(v: Seq<AString>, x: AString)
    ensures
        astrs_m(v.push(x)) =~= astrs_m(v).push(astr_m(x)),
{
}

fn x_hdr_list(f: &[u8], i: usize) -> (r: Option<(usize, Vec<AString>)>)
    requires
        i <= f@.len(),
    ensures
        match (r, p_hdr_list(f@, i as int)) {
            (Some((j, v)), Some((jm, vm))) => j as int == jm && astrs_m(v@) == vm && i < j
                <= f@.len(),
            (None, None) => true,
            _ => false,
        },
{
    let n = f.len();
    if !(i < n && f[i] == 0x28) {
        return None;
    }
    let first = x_astring(f, i + 1);
    match first {
        None => None,
        Some((j0, a0)) => {
            proof {
                lemma_tok_bounds(f@, i + 1 as int);
            }
            let mut out: Vec<AString> = Vec::new();
            out.push(a0);
            let mut j = j0;
            proof {
                assert(astrs_m(out@) =~= seq![astr_m(a0)]);
            }
            loop
                invariant
                    n == f@.len(),
                    i < f@.len(),
                    f@[i as int] == 0x28u8,
                    i < j <= f@.len(),
                    p_astring(f@, i + 1) is Some,
                    match p_hdrs_rest(f@, j as int) {
                        Some((e, rst)) => p_hdr_list(f@, i as int) == Some(
                            (e, astrs_m(out@) + rst),
                        ),
                        None => p_hdr_list(f@, i as int) is None,
                    },
                decreases f@.len() - j,
            {
                if sp_at_x(f, j) {
                    match x_astring(f, j + 1) {
                        Some((j2, a2)) => {
                            proof {
                                lemma_tok_bounds(f@, j + 1 as int);
                                if let Some((e, r2)) = p_hdrs_rest(f@, j2 as int) {
                                    assert(p_hdrs_rest(f@, j as int) == Some(
                                        (e, seq![astr_m(a2)] + r2),
                                    ));
                                    lemma_astrs_m_push(out@, a2);
                                    assert(astrs_m(out@) + (seq![astr_m(a2)] + r2) =~= astrs_m(
                                        out@.push(a2),
                                    ) + r2);
                                }
                            }
                            out.push(a2);
                            j = j2;
                        },
                        None => {
                            return None;
                        },
                    }
                } else if j < n && f[j] == 0x29 {
                    proof {
                        assert(p_hdrs_rest(f@, j as int) == Some(
                            (j + 1 as int, Seq::<AStrM>::empty()),
                        ));
                        assert(astrs_m(out@) + Seq::<AStrM>::empty() =~= astrs_m(out@));
                    }
                    return Some((j + 1, out));
                } else {
                    return None;
                }
            }
        },
    }
}

/// `section-msgtext`.
pub open spec fn p_msgtext(f: Seq<u8>, i: int) -> Option<(int, MsgtextM)> {
    match p_atom(f, i) {
        None => None,
        Some((j, a)) => {
            if eq_ci(a, kw::kw_header_fields_not()) {
                if sp_at(f, j) {
                    match p_hdr_list(f, j + 1) {
                        Some((e, v)) => Some((e, MsgtextM::HeaderFieldsNot(v))),
                        None => None,
                    }
                } else {
                    None
                }
            } else if eq_ci(a, kw::kw_header_fields()) {
                if sp_at(f, j) {
                    match p_hdr_list(f, j + 1) {
                        Some((e, v)) => Some((e, MsgtextM::HeaderFields(v))),
                        None => None,
                    }
                } else {
                    None
                }
            } else if eq_ci(a, kw::kw_header()) {
                Some((j, MsgtextM::Header))
            } else if eq_ci(a, kw::kw_text()) {
                Some((j, MsgtextM::Text))
            } else {
                None
            }
        },
    }
}

pub proof fn lemma_p_msgtext_bounds(f: Seq<u8>, i: int)
    requires
        0 <= i <= f.len(),
    ensures
        match p_msgtext(f, i) {
            Some((j, _)) => i < j <= f.len(),
            None => true,
        },
{
    lemma_tok_bounds(f, i);
    if let Some((j, _)) = p_atom(f, i) {
        if sp_at(f, j) {
            lemma_p_hdr_list_bounds(f, j + 1);
        }
    }
}

pub fn x_msgtext(f: &[u8], i: usize) -> (r: Option<(usize, Msgtext)>)
    requires
        i <= f@.len(),
    ensures
        match (r, p_msgtext(f@, i as int)) {
            (Some((j, v)), Some((jm, vm))) => j as int == jm && msgtext_m(v) == vm && i < j
                <= f@.len(),
            (None, None) => true,
            _ => false,
        },
{
    match x_atom(f, i) {
        None => None,
        Some((j, a)) => {
            let n = f.len();
            proof {
                lemma_tok_bounds(f@, i as int);
                assert(j <= n);
            }
            if kw::ke_header_fields_not(a.as_slice()) {
                if sp_at_x(f, j) {
                    match x_hdr_list(f, j + 1) {
                        Some((e, v)) => Some((e, Msgtext::HeaderFieldsNot(v))),
                        None => None,
                    }
                } else {
                    None
                }
            } else if kw::ke_header_fields(a.as_slice()) {
                if sp_at_x(f, j) {
                    match x_hdr_list(f, j + 1) {
                        Some((e, v)) => Some((e, Msgtext::HeaderFields(v))),
                        None => None,
                    }
                } else {
                    None
                }
            } else if kw::ke_header(a.as_slice()) {
                Some((j, Msgtext::Header))
            } else if kw::ke_text(a.as_slice()) {
                Some((j, Msgtext::Text))
            } else {
                None
            }
        },
    }
}

/// `*("." nz-number)`: the rest of a dotted part path.
pub open spec fn p_part_more(f: Seq<u8>, i: int) -> Option<(int, Seq<u32>)>
    decreases f.len() - i,
        when 0 <= i <= f.len()
        via p_part_more_dec
{
    if 0 <= i && i + 2 <= f.len() && f[i] == 0x2eu8 && is_digit(f[i + 1]) {
        match p_nz_number(f, i + 1) {
            Some((j, v)) => match p_part_more(f, j) {
                Some((e, r)) => Some((e, seq![v] + r)),
                None => None,
            },
            None => None,
        }
    } else {
        Some((i, Seq::empty()))
    }
}

#[via_fn]
proof fn p_part_more_dec(f: Seq<u8>, i: int) {
    if 0 <= i && i + 2 <= f.len() && f[i] == 0x2eu8 && is_digit(f[i + 1]) {
        lemma_tok_bounds(f, i + 1);
    }
}

/// `section-part`: nz-number *("." nz-number).
pub open spec fn p_part(f: Seq<u8>, i: int) -> Option<(int, Seq<u32>)> {
    match p_nz_number(f, i) {
        Some((j, v)) => match p_part_more(f, j) {
            Some((e, r)) => Some((e, seq![v] + r)),
            None => None,
        },
        None => None,
    }
}

fn x_part(f: &[u8], i: usize) -> (r: Option<(usize, Vec<u32>)>)
    requires
        i <= f@.len(),
    ensures
        match (r, p_part(f@, i as int)) {
            (Some((j, v)), Some((jm, vm))) => j as int == jm && v@ == vm && i < j <= f@.len(),
            (None, None) => true,
            _ => false,
        },
{
    let n = f.len();
    let first = x_number(f, i);
    match first {
        None => None,
        Some((j0, v0)) => {
            if v0 == 0 {
                return None;
            }
            proof {
                lemma_tok_bounds(f@, i as int);
            }
            let mut out: Vec<u32> = Vec::new();
            out.push(v0);
            let mut j = j0;
            proof {
                assert(out@ =~= seq![v0]);
            }
            loop
                invariant
                    n == f@.len(),
                    i < j <= f@.len(),
                    p_nz_number(f@, i as int) is Some,
                    match p_part_more(f@, j as int) {
                        Some((e, rst)) => p_part(f@, i as int) == Some((e, out@ + rst)),
                        None => p_part(f@, i as int) is None,
                    },
                decreases f@.len() - j,
            {
                if j < n && n - j >= 2 && f[j] == 0x2e && is_digit_x(f[j + 1]) {
                    match x_number(f, j + 1) {
                        Some((j2, v2)) => {
                            if v2 == 0 {
                                return None;
                            }
                            proof {
                                lemma_tok_bounds(f@, j + 1 as int);
                                if let Some((e, r2)) = p_part_more(f@, j2 as int) {
                                    assert(p_part_more(f@, j as int) == Some(
                                        (e, seq![v2] + r2),
                                    ));
                                    assert(out@ + (seq![v2] + r2) =~= out@.push(v2) + r2);
                                }
                            }
                            out.push(v2);
                            j = j2;
                        },
                        None => {
                            proof {
                                assert(p_part_more(f@, j as int) is None);
                            }
                            return None;
                        },
                    }
                } else {
                    proof {
                        assert(p_part_more(f@, j as int) == Some(
                            (j as int, Seq::<u32>::empty()),
                        ));
                        assert(out@ + Seq::<u32>::empty() =~= out@);
                    }
                    return Some((j, out));
                }
            }
        },
    }
}

/// `section-text`: msgtext or `MIME`.
pub open spec fn p_part_text(f: Seq<u8>, i: int) -> Option<(int, PartTextM)> {
    match p_atom(f, i) {
        Some((j, a)) => if eq_ci(a, kw::kw_mime()) {
            Some((j, PartTextM::Mime))
        } else {
            match p_msgtext(f, i) {
                Some((e, m)) => Some((e, PartTextM::Msgtext(m))),
                None => None,
            }
        },
        None => None,
    }
}

fn x_part_text(f: &[u8], i: usize) -> (r: Option<(usize, PartText)>)
    requires
        i <= f@.len(),
    ensures
        match (r, p_part_text(f@, i as int)) {
            (Some((j, v)), Some((jm, vm))) => j as int == jm && part_text_m(v) == vm && i < j
                <= f@.len(),
            (None, None) => true,
            _ => false,
        },
{
    match x_atom(f, i) {
        Some((j, a)) => {
            if kw::ke_mime(a.as_slice()) {
                proof {
                    lemma_tok_bounds(f@, i as int);
                }
                Some((j, PartText::Mime))
            } else {
                match x_msgtext(f, i) {
                    Some((e, m)) => Some((e, PartText::Msgtext(m))),
                    None => None,
                }
            }
        },
        None => None,
    }
}

/// `section-spec`: message text or a part path with optional trailing text.
pub open spec fn p_section_spec(f: Seq<u8>, i: int) -> Option<(int, SectionM)> {
    if 0 <= i < f.len() && is_digit(f[i]) {
        match p_part(f, i) {
            Some((j, part)) => {
                if j < f.len() && f[j] == 0x2eu8 {
                    match p_part_text(f, j + 1) {
                        Some((e, t)) => Some((e, SectionM::Part { part, text: Some(t) })),
                        None => None,
                    }
                } else {
                    Some((j, SectionM::Part { part, text: None }))
                }
            },
            None => None,
        }
    } else {
        match p_msgtext(f, i) {
            Some((j, m)) => Some((j, SectionM::Msgtext(m))),
            None => None,
        }
    }
}

fn x_section_spec(f: &[u8], i: usize) -> (r: Option<(usize, Section)>)
    requires
        i <= f@.len(),
    ensures
        match (r, p_section_spec(f@, i as int)) {
            (Some((j, v)), Some((jm, vm))) => j as int == jm && section_m(v) == vm && i < j
                <= f@.len(),
            (None, None) => true,
            _ => false,
        },
{
    let n = f.len();
    if i < n && is_digit_x(f[i]) {
        match x_part(f, i) {
            Some((j, part)) => {
                if j < n && f[j] == 0x2e {
                    match x_part_text(f, j + 1) {
                        Some((e, t)) => Some((e, Section::Part { part, text: Some(t) })),
                        None => None,
                    }
                } else {
                    Some((j, Section::Part { part, text: None }))
                }
            },
            None => None,
        }
    } else {
        match x_msgtext(f, i) {
            Some((j, m)) => Some((j, Section::Msgtext(m))),
            None => None,
        }
    }
}

/// `section`: `[` [section-spec] `]`; `None` for the empty section.
pub open spec fn p_section(f: Seq<u8>, i: int) -> Option<(int, Option<SectionM>)> {
    if 0 <= i < f.len() && f[i] == 0x5bu8 {
        if i + 2 <= f.len() && f[i + 1] == 0x5du8 {
            Some((i + 2, None))
        } else {
            match p_section_spec(f, i + 1) {
                Some((j, s)) => if j < f.len() && f[j] == 0x5du8 {
                    Some((j + 1, Some(s)))
                } else {
                    None
                },
                None => None,
            }
        }
    } else {
        None
    }
}

pub proof fn lemma_p_section_bounds(f: Seq<u8>, i: int)
    requires
        0 <= i <= f.len(),
    ensures
        match p_section(f, i) {
            Some((j, _)) => i < j <= f.len(),
            None => true,
        },
{
    lemma_p_section_spec_bounds(f, i + 1);
}

pub proof fn lemma_p_part_more_bounds(f: Seq<u8>, i: int)
    requires
        0 <= i <= f.len(),
    ensures
        match p_part_more(f, i) {
            Some((j, _)) => i <= j <= f.len(),
            None => true,
        },
    decreases f.len() - i,
{
    if 0 <= i && i + 2 <= f.len() && f[i] == 0x2eu8 && is_digit(f[i + 1]) {
        lemma_tok_bounds(f, i + 1);
        if let Some((j, _)) = p_nz_number(f, i + 1) {
            lemma_p_part_more_bounds(f, j);
        }
    }
}

pub proof fn lemma_p_part_bounds(f: Seq<u8>, i: int)
    requires
        0 <= i <= f.len(),
    ensures
        match p_part(f, i) {
            Some((j, _)) => i < j <= f.len(),
            None => true,
        },
{
    lemma_tok_bounds(f, i);
    if let Some((j, _)) = p_nz_number(f, i) {
        lemma_p_part_more_bounds(f, j);
    }
}

pub proof fn lemma_p_part_text_bounds(f: Seq<u8>, i: int)
    requires
        0 <= i <= f.len(),
    ensures
        match p_part_text(f, i) {
            Some((j, _)) => i < j <= f.len(),
            None => true,
        },
{
    lemma_tok_bounds(f, i);
    lemma_p_msgtext_bounds(f, i);
}

pub proof fn lemma_p_section_spec_bounds(f: Seq<u8>, i: int)
    requires
        0 <= i,
    ensures
        match p_section_spec(f, i) {
            Some((j, _)) => i < j <= f.len(),
            None => true,
        },
{
    if 0 <= i < f.len() && is_digit(f[i]) {
        lemma_p_part_bounds(f, i);
        if let Some((j, _)) = p_part(f, i) {
            if j < f.len() {
                lemma_p_part_text_bounds(f, j + 1);
            }
        }
    } else if i <= f.len() {
        lemma_p_msgtext_bounds(f, i);
    }
}

pub fn x_section(f: &[u8], i: usize) -> (r: Option<(usize, Option<Section>)>)
    requires
        i <= f@.len(),
    ensures
        match (r, p_section(f@, i as int)) {
            (Some((j, v)), Some((jm, vm))) => j as int == jm && crate::types::osection_m(v) == vm
                && i < j <= f@.len(),
            (None, None) => true,
            _ => false,
        },
{
    let n = f.len();
    if !(i < n && f[i] == 0x5b) {
        return None;
    }
    if n - i >= 2 && f[i + 1] == 0x5d {
        return Some((i + 2, None));
    }
    match x_section_spec(f, i + 1) {
        Some((j, s)) => {
            if j < n && f[j] == 0x5d {
                Some((j + 1, Some(s)))
            } else {
                None
            }
        },
        None => None,
    }
}

} // verus!
