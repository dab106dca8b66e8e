//! Flags: `flag`, `flag-fetch` (which admits `\Recent`), `flag-perm`
//! (which admits `\*`) and the parenthesized flag lists.

use vstd::prelude::*;
use crate::chars::eq_ci;
use crate::kw;
use crate::tok::{lemma_tok_bounds, p_atom, sp_at, sp_at_x, x_atom};
use crate::types::{flag_m, flags_m, flag_perm_m, flags_perm_m, Flag, FlagM, FlagPerm, FlagPermM};

verus! {

/// Classifies the atom after a backslash: a system flag or an extension.
pub open spec fn classify_flag_ext(a: Seq<u8>) -> FlagM {
    if eq_ci(a, kw::kw_answered()) {
        FlagM::Answered
    } else if eq_ci(a, kw::kw_deleted()) {
        FlagM::Deleted
    } else if eq_ci(a, kw::kw_draft()) {
        FlagM::Draft
    } else if eq_ci(a, kw::kw_flagged()) {
        FlagM::Flagged
    } else if eq_ci(a, kw::kw_seen()) {
        FlagM::Seen
    } else if eq_ci(a, kw::kw_recent()) {
        FlagM::Recent
    } else {
        FlagM::Extension(a)
    }
}

/// `flag-fetch`: `\` atom (system or extension flag) or a keyword atom.
pub open spec fn p_flag(f: Seq<u8>, i: int) -> Option<(int, FlagM)> {
    if 0 <= i < f.len() && f[i] == 0x5cu8 {
        match p_atom(f, i + 1) {
            Some((j, a)) => Some((j, classify_flag_ext(a))),
            None => None,
        }
    } else {
        match p_atom(f, i) {
            Some((j, a)) => Some((j, FlagM::Keyword(a))),
            None => None,
        }
    }
}

pub proof fn lemma_p_flag_bounds(f: Seq<u8>, i: int)
    requires
        0 <= i <= f.len(),
    ensures
        match p_flag(f, i) {
            Some((j, _)) => i < j <= f.len(),
            None => true,
        },
{
    lemma_tok_bounds(f, i);
    if i < f.len() {
        lemma_tok_bounds(f, i + 1);
    }
}

pub fn x_flag(f: &[u8], i: usize) -> (r: Option<(usize, Flag)>)
    requires
        i <= f@.len(),
    ensures
        match (r, p_flag(f@, i as int)) {
            (Some((j, v)), Some((jm, vm))) => j as int == jm && flag_m(v) == vm && i < j
                <= f@.len(),
            (None, None) => true,
            _ => false,
        },
{
    if i < f.len() && f[i] == 0x5c {
        match x_atom(f, i + 1) {
            Some((j, a)) => {
                let fl = if kw::ke_answered(a.as_slice()) {
                    Flag::Answered
                } else if kw::ke_deleted(a.as_slice()) {
                    Flag::Deleted
                } else if kw::ke_draft(a.as_slice()) {
                    Flag::Draft
                } else if kw::ke_flagged(a.as_slice()) {
                    Flag::Flagged
                } else if kw::ke_seen(a.as_slice()) {
                    Flag::Seen
                } else if kw::ke_recent(a.as_slice()) {
                    Flag::Recent
                } else {
                    Flag::Extension(a)
                };
                Some((j, fl))
            },
            None => None,
        }
    } else {
        match x_atom(f, i) {
            Some((j, a)) => Some((j, Flag::Keyword(a))),
            None => None,
        }
    }
}

/// `flag-perm`: a flag or `\*`.
pub open spec fn p_flag_perm(f: Seq<u8>, i: int) -> Option<(int, FlagPermM)> {
    if 0 <= i && i + 2 <= f.len() && f[i] == 0x5cu8 && f[i + 1] == 0x2au8 {
        Some((i + 2, FlagPermM::Asterisk))
    } else {
        match p_flag(f, i) {
            Some((j, v)) => Some((j, FlagPermM::Flag(v))),
            None => None,
        }
    }
}

pub proof fn lemma_p_flag_perm_bounds(f: Seq<u8>, i: int)
    requires
        0 <= i <= f.len(),
    ensures
        match p_flag_perm(f, i) {
            Some((j, _)) => i < j <= f.len(),
            None => true,
        },
{
    lemma_p_flag_bounds(f, i);
}

pub fn x_flag_perm(f: &[u8], i: usize) -> (r: Option<(usize, FlagPerm)>)
    requires
        i <= f@.len(),
    ensures
        match (r, p_flag_perm(f@, i as int)) {
            (Some((j, v)), Some((jm, vm))) => j as int == jm && flag_perm_m(v) == vm && i < j
                <= f@.len(),
            (None, None) => true,
            _ => false,
        },
{
    if i < f.len() && f.len() - i >= 2 && f[i] == 0x5c && f[i + 1] == 0x2a {
        Some((i + 2, FlagPerm::Asterisk))
    } else {
        match x_flag(f, i) {
            Some((j, v)) => Some((j, FlagPerm::Flag(v))),
            None => None,
        }
    }
}

/// The tail of a parenthesized flag list: `*(SP flag) ")"`.
pub open spec fn p_flags_rest(f: Seq<u8>, i: int) -> Option<(int, Seq<FlagM>)>
    decreases f.len() - i,
        when 0 <= i <= f.len()
        via p_flags_rest_dec
{
    if sp_at(f, i) {
        match p_flag(f, i + 1) {
            Some((j, fl)) => match p_flags_rest(f, j) {
                Some((e, r)) => Some((e, seq![fl] + r)),
                None => None,
            },
            None => None,
        }
    } else if 0 <= i < f.len() && f[i] == 0x29u8 {
        Some((i + 1, Seq::empty()))
    } else {
        None
    }
}

#[via_fn]
proof fn p_flags_rest_dec(f: Seq<u8>, i: int) {
    if sp_at(f, i) {
        lemma_p_flag_bounds(f, i + 1);
    }
}

/// `flag-list` (and the body of `FLAGS (...)`): may be empty.
pub open spec fn p_flag_list(f: Seq<u8>, i: int) -> Option<(int, Seq<FlagM>)> {
    if 0 <= i < f.len() && f[i] == 0x28u8 {
        if i + 2 <= f.len() && f[i + 1] == 0x29u8 {
            Some((i + 2, Seq::empty()))
        } else {
            match p_flag(f, i + 1) {
                Some((j, fl)) => match p_flags_rest(f, j) {
                    Some((e, r)) => Some((e, seq![fl] + r)),
                    None => None,
                },
                None => None,
            }
        }
    } else {
        None
    }
}

pub proof fn lemma_p_flags_rest_bounds(f: Seq<u8>, i: int)
    requires
        0 <= i <= f.len(),
    ensures
        match p_flags_rest(f, i) {
            Some((j, _)) => i < j <= f.len(),
            None => true,
        },
    decreases f.len() - i,
{
    if sp_at(f, i) {
        lemma_p_flag_bounds(f, i + 1);
        if let Some((j, _)) = p_flag(f, i + 1) {
            lemma_p_flags_rest_bounds(f, j);
        }
    }
}

pub proof fn lemma_p_flag_list_bounds(f: Seq<u8>, i: int)
    requires
        0 <= i <= f.len(),
    ensures
        match p_flag_list(f, i) {
            Some((j, _)) => i < j <= f.len(),
            None => true,
        },
{
    if 0 <= i < f.len() && f[i] == 0x28u8 {
        lemma_p_flag_bounds(f, i + 1);
        if let Some((j, _)) = p_flag(f, i + 1) {
            lemma_p_flags_rest_bounds(f, j);
        }
    }
}

pub proof fn lemma_flags_m_push(v: Seq<Flag>, x: Flag)
    ensures
        flags_m(v.push(x)) =~= flags_m(v).push(flag_m(x)),
{
}

pub fn x_flag_list(f: &[u8], i: usize) -> (r: Option<(usize, Vec<Flag>)>)
    requires
        i <= f@.len(),
    ensures
        match (r, p_flag_list(f@, i as int)) {
            (Some((j, v)), Some((jm, vm))) => j as int == jm && flags_m(v@) == vm && i < j
                <= f@.len(),
            (None, None) => true,
            _ => false,
        },
{
    if !(i < f.len() && f[i] == 0x28) {
        return None;
    }
    if f.len() - i >= 2 && f[i + 1] == 0x29 {
        assert(flags_m(Seq::<Flag>::empty()) =~= Seq::<FlagM>::empty());
        return Some((i + 2, Vec::new()));
    }
    let first = x_flag(f, i + 1);
    match first {
        None => None,
        Some((j0, fl0)) => {
            let mut out: Vec<Flag> = Vec::new();
            out.push(fl0);
            let mut j = j0;
            let n = f.len();
            proof {
                assert(flags_m(out@) =~= seq![flag_m(fl0)]);
            }
            loop
                invariant
                    n == f@.len(),
                    i < f@.len(),
                    f@[i as int] == 0x28u8,
                    i < j <= f@.len(),
                    !(i + 2 <= f@.len() && f@[i + 1] == 0x29u8),
                    p_flag(f@, i + 1) is Some,
                    match p_flags_rest(f@, j as int) {
                        Some((e, rst)) => p_flag_list(f@, i as int) == Some(
                            (e, flags_m(out@) + rst),
                        ),
                        None => p_flag_list(f@, i as int) is None,
                    },
                decreases f@.len() - j,
            {
                if sp_at_x(f, j) {
                    match x_flag(f, j + 1) {
                        Some((j2, fl2)) => {
                            proof {
                                if let Some((e, r2)) = p_flags_rest(f@, j2 as int) {
                                    assert(p_flags_rest(f@, j as int) == Some(
                                        (e, seq![flag_m(fl2)] + r2),
                                    ));
                                    lemma_flags_m_push(out@, fl2);
                                    assert(flags_m(out@) + (seq![flag_m(fl2)] + r2) =~= flags_m(
                                        out@.push(fl2),
                                    ) + r2);
                                }
                            }
                            out.push(fl2);
                            j = j2;
                        },
                        None => {
                            return None;
                        },
                    }
                } else if j < f.len() && f[j] == 0x29 {
                    proof {
                        assert(p_flags_rest(f@, j as int) == Some(
                            (j + 1 as int, Seq::<FlagM>::empty()),
                        ));
                        assert(flags_m(out@) + Seq::<FlagM>::empty() =~= flags_m(out@));
                    }
                    return Some((j + 1, out));
                } else {
                    return None;
                }
            }
        },
    }
}

} // verus!
