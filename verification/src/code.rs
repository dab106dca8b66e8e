//! Status-response codes (`resp-text-code`) and response text.
//!
//! A code is an atom classified against the known code names, with its
//! payload shape fixed per name; an unknown atom with optional argument
//! text is carried as `Other`.  Per ordered alternation, a known name is
//! committed to once its atom matches: a known name with a malformed
//! payload does not fall back to `Other`.

use vstd::prelude::*;
use crate::chars::{eq_ci, is_text_char, is_text_char_x};
use crate::flag::{lemma_p_flag_perm_bounds, p_flag_perm, x_flag_perm};
use crate::kw;
use crate::tok::{
    lemma_tok_bounds, p_atom, p_nz_number, p_text, sp_at, sp_at_x, x_atom, x_number, x_text,
};
use crate::types::{
    atoms_m, flag_perm_m, flags_perm_m, CodeM, Code, FlagPerm, FlagPermM,
};

verus! {

broadcast use vstd::slice::axiom_spec_len;

/// The names with a fixed payload shape.
pub open spec fn code_atom_known(a: Seq<u8>) -> bool {
    crate::types::is_known_code_atom(a)
}

/// Argument text of an unknown code: TEXT-CHARs other than `]`.
pub open spec fn is_code_text_char(b: u8) -> bool {
    is_text_char(b) && b != 0x5du8
}

/// End of the maximal run of code-text characters from `i`.
pub open spec fn code_text_end(f: Seq<u8>, i: int) -> int
    decreases f.len() - i,
{
    if 0 <= i < f.len() && is_code_text_char(f[i]) {
        code_text_end(f, i + 1)
    } else {
        i
    }
}

/// `1*(SP capability-atom)`, ending before whatever follows.
pub open spec fn p_caps_rest(f: Seq<u8>, i: int) -> Option<(int, Seq<Seq<u8>>)>
    decreases f.len() - i,
        when 0 <= i <= f.len()
        via p_caps_rest_dec
{
    if sp_at(f, i) {
        match p_atom(f, i + 1) {
            Some((j, a)) => match p_caps_rest(f, j) {
                Some((e, r)) => Some((e, seq![a] + r)),
                None => None,
            },
            None => None,
        }
    } else {
        Some((i, Seq::empty()))
    }
}

#[via_fn]
proof fn p_caps_rest_dec(f: Seq<u8>, i: int) {
    if sp_at(f, i) {
        lemma_tok_bounds(f, i + 1);
    }
}

/// `*(SP flag-perm) ")"`.
pub open spec fn p_fperms_rest(f: Seq<u8>, i: int) -> Option<(int, Seq<FlagPermM>)>
    decreases f.len() - i,
        when 0 <= i <= f.len()
        via p_fperms_rest_dec
{
    if sp_at(f, i) {
        match p_flag_perm(f, i + 1) {
            Some((j, fl)) => match p_fperms_rest(f, j) {
                Some((e, r)) => Some((e, seq![fl] + r)),
                None => None,
            },
            None => None,
        }
    } else if 0 <= i < f.len() && f[i] == 0x29u8 {
        Some((i + 1, Seq::empty()))
    } else {
        None
    }
}

#[via_fn]
proof fn p_fperms_rest_dec(f: Seq<u8>, i: int) {
    if sp_at(f, i) {
        lemma_p_flag_perm_bounds(f, i + 1);
    }
}

/// A parenthesized, possibly empty `flag-perm` list.
pub open spec fn p_fperm_list(f: Seq<u8>, i: int) -> Option<(int, Seq<FlagPermM>)> {
    if 0 <= i < f.len() && f[i] == 0x28u8 {
        if i + 2 <= f.len() && f[i + 1] == 0x29u8 {
            Some((i + 2, Seq::empty()))
        } else {
            match p_flag_perm(f, i + 1) {
                Some((j, fl)) => match p_fperms_rest(f, j) {
                    Some((e, r)) => Some((e, seq![fl] + r)),
                    None => None,
                },
                None => None,
            }
        }
    } else {
        None
    }
}

/// `resp-text-code`, ending just before the closing `]`.
pub open spec fn p_code(f: Seq<u8>, i: int) -> Option<(int, CodeM)> {
    match p_atom(f, i) {
        None => None,
        Some((j, a)) => {
            if eq_ci(a, kw::kw_alert()) {
                Some((j, CodeM::Alert))
            } else if eq_ci(a, kw::kw_parse()) {
                Some((j, CodeM::Parse))
            } else if eq_ci(a, kw::kw_read_only()) {
                Some((j, CodeM::ReadOnly))
            } else if eq_ci(a, kw::kw_read_write()) {
                Some((j, CodeM::ReadWrite))
            } else if eq_ci(a, kw::kw_trycreate()) {
                Some((j, CodeM::TryCreate))
            } else if eq_ci(a, kw::kw_uidnext()) {
                if sp_at(f, j) {
                    match p_nz_number(f, j + 1) {
                        Some((e, n)) => Some((e, CodeM::UidNext(n))),
                        None => None,
                    }
                } else {
                    None
                }
            } else if eq_ci(a, kw::kw_uidvalidity()) {
                if sp_at(f, j) {
                    match p_nz_number(f, j + 1) {
                        Some((e, n)) => Some((e, CodeM::UidValidity(n))),
                        None => None,
                    }
                } else {
                    None
                }
            } else if eq_ci(a, kw::kw_unseen()) {
                if sp_at(f, j) {
                    match p_nz_number(f, j + 1) {
                        Some((e, n)) => Some((e, CodeM::Unseen(n))),
                        None => None,
                    }
                } else {
                    None
                }
            } else if eq_ci(a, kw::kw_capability()) {
                match p_caps_rest(f, j) {
                    Some((e, caps)) => if caps.len() >= 1 {
                        Some((e, CodeM::Capability(caps)))
                    } else {
                        None
                    },
                    None => None,
                }
            } else if eq_ci(a, kw::kw_permanentflags()) {
                if sp_at(f, j) {
                    match p_fperm_list(f, j + 1) {
                        Some((e, v)) => Some((e, CodeM::PermanentFlags(v))),
                        None => None,
                    }
                } else {
                    None
                }
            } else {
                // an unknown code: optional SP and argument text
                if sp_at(f, j) {
                    let e = code_text_end(f, j + 1);
                    if e > j + 1 {
                        Some((e, CodeM::Other(a, Some(f.subrange(j + 1, e)))))
                    } else {
                        None
                    }
                } else {
                    Some((j, CodeM::Other(a, None)))
                }
            }
        },
    }
}

pub proof fn lemma_atoms_m_push(v: Seq<Vec<u8>>, x: Vec<u8>)
    ensures
        atoms_m(v.push(x)) =~= atoms_m(v).push(x@),
{
}

pub proof fn lemma_fperms_m_push(v: Seq<FlagPerm>, x: FlagPerm)
    ensures
        flags_perm_m(v.push(x)) =~= flags_perm_m(v).push(flag_perm_m(x)),
{
}

pub fn x_caps_rest(f: &[u8], i: usize) -> (r: Option<(usize, Vec<Vec<u8>>)>)
    requires
        i <= f@.len(),
    ensures
        match (r, p_caps_rest(f@, i as int)) {
            (Some((j, v)), Some((jm, vm))) => j as int == jm && atoms_m(v@) == vm && i <= j
                <= f@.len(),
            (None, None) => true,
            _ => false,
        },
{
    let n = f.len();
    let mut out: Vec<Vec<u8>> = Vec::new();
    let mut j = i;
    proof {
        assert(atoms_m(out@) =~= Seq::<Seq<u8>>::empty());
    }
    loop
        invariant
            n == f@.len(),
            i <= j <= n,
            match p_caps_rest(f@, j as int) {
                Some((e, rst)) => p_caps_rest(f@, i as int) == Some((e, atoms_m(out@) + rst)),
                None => p_caps_rest(f@, i as int) is None,
            },
        decreases f@.len() - j,
    {
        if sp_at_x(f, j) {
            match x_atom(f, j + 1) {
                Some((j2, a)) => {
                    proof {
                        if let Some((e, r2)) = p_caps_rest(f@, j2 as int) {
                            assert(p_caps_rest(f@, j as int) == Some((e, seq![a@] + r2)));
                            lemma_atoms_m_push(out@, a);
                            assert(atoms_m(out@) + (seq![a@] + r2) =~= atoms_m(out@.push(a))
                                + r2);
                        }
                        lemma_tok_bounds(f@, j + 1 as int);
                    }
                    out.push(a);
                    j = j2;
                },
                None => {
                    return None;
                },
            }
        } else {
            proof {
                assert(p_caps_rest(f@, j as int) == Some((j as int, Seq::<Seq<u8>>::empty())));
                assert(atoms_m(out@) + Seq::<Seq<u8>>::empty() =~= atoms_m(out@));
            }
            return Some((j, out));
        }
    }
}

fn x_fperm_list(f: &[u8], i: usize) -> (r: Option<(usize, Vec<FlagPerm>)>)
    requires
        i <= f@.len(),
    ensures
        match (r, p_fperm_list(f@, i as int)) {
            (Some((j, v)), Some((jm, vm))) => j as int == jm && flags_perm_m(v@) == vm && i < j
                <= f@.len(),
            (None, None) => true,
            _ => false,
        },
{
    if !(i < f.len() && f[i] == 0x28) {
        return None;
    }
    if f.len() - i >= 2 && f[i + 1] == 0x29 {
        assert(flags_perm_m(Seq::<FlagPerm>::empty()) =~= Seq::<FlagPermM>::empty());
        return Some((i + 2, Vec::new()));
    }
    let first = x_flag_perm(f, i + 1);
    match first {
        None => None,
        Some((j0, fl0)) => {
            let mut out: Vec<FlagPerm> = Vec::new();
            out.push(fl0);
            let mut j = j0;
            let n = f.len();
            proof {
                assert(flags_perm_m(out@) =~= seq![flag_perm_m(fl0)]);
            }
            loop
                invariant
                    n == f@.len(),
                    i < f@.len(),
                    f@[i as int] == 0x28u8,
                    i < j <= f@.len(),
                    !(i + 2 <= f@.len() && f@[i + 1] == 0x29u8),
                    p_flag_perm(f@, i + 1) is Some,
                    match p_fperms_rest(f@, j as int) {
                        Some((e, rst)) => p_fperm_list(f@, i as int) == Some(
                            (e, flags_perm_m(out@) + rst),
                        ),
                        None => p_fperm_list(f@, i as int) is None,
                    },
                decreases f@.len() - j,
            {
                if sp_at_x(f, j) {
                    match x_flag_perm(f, j + 1) {
                        Some((j2, fl2)) => {
                            proof {
                                if let Some((e, r2)) = p_fperms_rest(f@, j2 as int) {
                                    assert(p_fperms_rest(f@, j as int) == Some(
                                        (e, seq![flag_perm_m(fl2)] + r2),
                                    ));
                                    lemma_fperms_m_push(out@, fl2);
                                    assert(flags_perm_m(out@) + (seq![flag_perm_m(fl2)] + r2)
                                        =~= flags_perm_m(out@.push(fl2)) + r2);
                                }
                            }
                            out.push(fl2);
                            j = j2;
                        },
                        None => {
                            return None;
                        },
                    }
                } else if j < f.len() && f[j] == 0x29 {
                    proof {
                        assert(p_fperms_rest(f@, j as int) == Some(
                            (j + 1 as int, Seq::<FlagPermM>::empty()),
                        ));
                        assert(flags_perm_m(out@) + Seq::<FlagPermM>::empty() =~= flags_perm_m(
                            out@,
                        ));
                    }
                    return Some((j + 1, out));
                } else {
                    return None;
                }
            }
        },
    }
}

fn x_code_text(f: &[u8], i: usize) -> (r: Option<(usize, Vec<u8>)>)
    requires
        i <= f@.len(),
    ensures
        ({
            let e = code_text_end(f@, i as int);
            match r {
                Some((j, v)) => j as int == e && e > i && v@ == f@.subrange(i as int, e) && j
                    <= f@.len(),
                None => e == i,
            }
        }),
{
    let n = f.len();
    let mut j: usize = i;
    while j < n && is_code_text_char_x(f, j)
        invariant
            i <= j <= n == f@.len(),
            code_text_end(f@, i as int) == code_text_end(f@, j as int),
        decreases n - j,
    {
        assert(code_text_end(f@, j as int) == code_text_end(f@, j + 1 as int));
        j += 1;
    }
    assert(code_text_end(f@, j as int) == j as int);
    if j == i {
        None
    } else {
        let v = vstd::slice::slice_to_vec(vstd::slice::slice_subrange(f, i, j));
        Some((j, v))
    }
}

fn is_code_text_char_x(f: &[u8], j: usize) -> (r: bool)
    requires
        j < f@.len(),
    ensures
        r == is_code_text_char(f@[j as int]),
{
    is_text_char_x(f[j]) && f[j] != 0x5d
}

pub fn x_code(f: &[u8], i: usize) -> (r: Option<(usize, Code)>)
    requires
        i <= f@.len(),
    ensures
        match (r, p_code(f@, i as int)) {
            (Some((j, v)), Some((jm, vm))) => j as int == jm && crate::types::code_m(v) == vm && i
                < j <= f@.len(),
            (None, None) => true,
            _ => false,
        },
{
    let att = x_atom(f, i);
    match att {
        None => None,
        Some((j, a)) => {
            let n = f.len();
            proof {
                lemma_tok_bounds(f@, i as int);
                assert(j <= n);
            }
            if kw::ke_alert(a.as_slice()) {
                Some((j, Code::Alert))
            } else if kw::ke_parse(a.as_slice()) {
                Some((j, Code::Parse))
            } else if kw::ke_read_only(a.as_slice()) {
                Some((j, Code::ReadOnly))
            } else if kw::ke_read_write(a.as_slice()) {
                Some((j, Code::ReadWrite))
            } else if kw::ke_trycreate(a.as_slice()) {
                Some((j, Code::TryCreate))
            } else if kw::ke_uidnext(a.as_slice()) {
                if sp_at_x(f, j) {
                    match x_number(f, j + 1) {
                        Some((e, n)) => if n != 0 {
                            Some((e, Code::UidNext(n)))
                        } else {
                            None
                        },
                        None => None,
                    }
                } else {
                    None
                }
            } else if kw::ke_uidvalidity(a.as_slice()) {
                if sp_at_x(f, j) {
                    match x_number(f, j + 1) {
                        Some((e, n)) => if n != 0 {
                            Some((e, Code::UidValidity(n)))
                        } else {
                            None
                        },
                        None => None,
                    }
                } else {
                    None
                }
            } else if kw::ke_unseen(a.as_slice()) {
                if sp_at_x(f, j) {
                    match x_number(f, j + 1) {
                        Some((e, n)) => if n != 0 {
                            Some((e, Code::Unseen(n)))
                        } else {
                            None
                        },
                        None => None,
                    }
                } else {
                    None
                }
            } else if kw::ke_capability(a.as_slice()) {
                match x_caps_rest(f, j) {
                    Some((e, caps)) => if caps.len() >= 1 {
                        Some((e, Code::Capability(caps)))
                    } else {
                        None
                    },
                    None => None,
                }
            } else if kw::ke_permanentflags(a.as_slice()) {
                if sp_at_x(f, j) {
                    match x_fperm_list(f, j + 1) {
                        Some((e, v)) => Some((e, Code::PermanentFlags(v))),
                        None => None,
                    }
                } else {
                    None
                }
            } else {
                if sp_at_x(f, j) {
                    match x_code_text(f, j + 1) {
                        Some((e, t)) => Some((e, Code::Other(a, Some(t)))),
                        None => None,
                    }
                } else {
                    Some((j, Code::Other(a, None)))
                }
            }
        },
    }
}

/// `resp-text`: optional bracketed code, then the closing text.
pub open spec fn p_resp_text(f: Seq<u8>, i: int) -> Option<(int, Option<CodeM>, Seq<u8>)> {
    if 0 <= i < f.len() && f[i] == 0x5bu8 {
        match p_code(f, i + 1) {
            Some((j, c)) => {
                if j < f.len() && f[j] == 0x5du8 && sp_at(f, j + 1) {
                    match p_text(f, j + 2) {
                        Some((e, t)) => Some((e, Some(c), t)),
                        None => None,
                    }
                } else {
                    None
                }
            },
            None => None,
        }
    } else {
        match p_text(f, i) {
            Some((e, t)) => Some((e, None, t)),
            None => None,
        }
    }
}

pub fn x_resp_text(f: &[u8], i: usize) -> (r: Option<(usize, Option<Code>, Vec<u8>)>)
    requires
        i <= f@.len(),
    ensures
        match (r, p_resp_text(f@, i as int)) {
            (Some((j, c, t)), Some((jm, cm, tm))) => j as int == jm && crate::types::ocode_m(c)
                == cm && t@ == tm && j <= f@.len(),
            (None, None) => true,
            _ => false,
        },
{
    if i < f.len() && f[i] == 0x5b {
        match x_code(f, i + 1) {
            Some((j, c)) => {
                if j < f.len() && f[j] == 0x5d && sp_at_x(f, j + 1) {
                    match x_text(f, j + 2) {
                        Some((e, t)) => Some((e, Some(c), t)),
                        None => None,
                    }
                } else {
                    None
                }
            },
            None => None,
        }
    } else {
        match x_text(f, i) {
            Some((e, t)) => Some((e, None, t)),
            None => None,
        }
    }
}

} // verus!
