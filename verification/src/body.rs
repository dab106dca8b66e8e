//! MIME body structures: a single part, or a multipart list of nested
//! bodies.  Parsing is bounded by a nesting depth, as the surrounding
//! grammar fixes one.

use vstd::prelude::*;
use crate::tok::{lemma_tok_bounds, p_nstring, p_number, p_string, sp_at, sp_at_x, x_nstring, x_number, x_string};
use crate::types::{
    body_m, istr_m, nstr_m, params_m, BodyM, BodyStructure, IString, IStrM,
};

verus! {

broadcast use vstd::slice::axiom_spec_len;

/// `*(SP string SP string) ")"`: the tail of a parameter list.
pub open spec fn p_params_rest(f: Seq<u8>, i: int) -> Option<(int, Seq<(IStrM, IStrM)>)>
    decreases f.len() - i,
        when 0 <= i <= f.len()
        via p_params_rest_dec
{
    if sp_at(f, i) {
        match p_string(f, i + 1) {
            Some((j, k)) => if sp_at(f, j) {
                match p_string(f, j + 1) {
                    Some((j2, v)) => match p_params_rest(f, j2) {
                        Some((e, r)) => Some((e, seq![(k, v)] + r)),
                        None => None,
                    },
                    None => None,
                }
            } else {
                None
            },
            None => None,
        }
    } else if 0 <= i < f.len() && f[i] == 0x29u8 {
        Some((i + 1, Seq::empty()))
    } else {
        None
    }
}

#[via_fn]
proof fn p_params_rest_dec(f: Seq<u8>, i: int) {
    if sp_at(f, i) {
        lemma_tok_bounds(f, i + 1);
        if let Some((j, _)) = p_string(f, i + 1) {
            if sp_at(f, j) {
                lemma_tok_bounds(f, j + 1);
            }
        }
    }
}

/// `body-fld-param`: `(` string SP string *(SP string SP string) `)` or
/// `NIL` (empty model list).
pub open spec fn p_param_list(f: Seq<u8>, i: int) -> Option<(int, Seq<(IStrM, IStrM)>)> {
    if 0 <= i < f.len() && f[i] == 0x28u8 {
        match p_string(f, i + 1) {
            Some((j, k)) => if sp_at(f, j) {
                match p_string(f, j + 1) {
                    Some((j2, v)) => match p_params_rest(f, j2) {
                        Some((e, r)) => Some((e, seq![(k, v)] + r)),
                        None => None,
                    },
                    None => None,
                }
            } else {
                None
            },
            None => None,
        }
    } else {
        match crate::tok::p_atom(f, i) {
            Some((j, a)) => if crate::chars::eq_ci(a, crate::kw::kw_nil()) {
                Some((j, Seq::empty()))
            } else {
                None
            },
            None => None,
        }
    }
}

pub proof fn lemma_p_params_rest_bounds(f: Seq<u8>, i: int)
    requires
        0 <= i <= f.len(),
    ensures
        match p_params_rest(f, i) {
            Some((j, _)) => i < j <= f.len(),
            None => true,
        },
    decreases f.len() - i,
{
    if sp_at(f, i) {
        lemma_tok_bounds(f, i + 1);
        if let Some((j, _)) = p_string(f, i + 1) {
            if sp_at(f, j) {
                lemma_tok_bounds(f, j + 1);
                if let Some((j2, _)) = p_string(f, j + 1) {
                    lemma_p_params_rest_bounds(f, j2);
                }
            }
        }
    }
}

pub proof fn lemma_p_param_list_bounds(f: Seq<u8>, i: int)
    requires
        0 <= i <= f.len(),
    ensures
        match p_param_list(f, i) {
            Some((j, _)) => i < j <= f.len(),
            None => true,
        },
{
    lemma_tok_bounds(f, i);
    if 0 <= i < f.len() && f[i] == 0x28u8 {
        lemma_tok_bounds(f, i + 1);
        if let Some((j, _)) = p_string(f, i + 1) {
            if sp_at(f, j) {
                lemma_tok_bounds(f, j + 1);
                if let Some((j2, _)) = p_string(f, j + 1) {
                    lemma_p_params_rest_bounds(f, j2);
                }
            }
        }
    }
}

fn x_param_list(f: &[u8], i: usize) -> (r: Option<(usize, Vec<(IString, IString)>)>)
    requires
        i <= f@.len(),
    ensures
        match (r, p_param_list(f@, i as int)) {
            (Some((j, v)), Some((jm, vm))) => j as int == jm && params_m(v@) == vm && i < j
                <= f@.len(),
            (None, None) => true,
            _ => false,
        },
{
    let n = f.len();
    proof {
        lemma_p_param_list_bounds(f@, i as int);
    }
    if i < n && f[i] == 0x28 {
        let (j0, k0) = match x_string(f, i + 1) {
            Some(v) => v,
            None => {
                return None;
            },
        };
        if !sp_at_x(f, j0) {
            return None;
        }
        let (j1, v0) = match x_string(f, j0 + 1) {
            Some(v) => v,
            None => {
                return None;
            },
        };
        let mut out: Vec<(IString, IString)> = Vec::new();
        out.push((k0, v0));
        let mut j = j1;
        proof {
            lemma_tok_bounds(f@, i + 1 as int);
            lemma_tok_bounds(f@, j0 + 1 as int);
            assert(params_m(out@) =~= seq![(istr_m(k0), istr_m(v0))]);
        }
        loop
            invariant
                n == f@.len(),
                i < f@.len(),
                f@[i as int] == 0x28u8,
                i < j <= f@.len(),
                match p_params_rest(f@, j as int) {
                    Some((e, rst)) => p_param_list(f@, i as int) == Some(
                        (e, params_m(out@) + rst),
                    ),
                    None => p_param_list(f@, i as int) is None,
                },
            decreases f@.len() - j,
        {
            if sp_at_x(f, j) {
                let (j2, k2) = match x_string(f, j + 1) {
                    Some(v) => v,
                    None => {
                        return None;
                    },
                };
                if !sp_at_x(f, j2) {
                    return None;
                }
                let (j3, v2) = match x_string(f, j2 + 1) {
                    Some(v) => v,
                    None => {
                        return None;
                    },
                };
                proof {
                    lemma_tok_bounds(f@, j + 1 as int);
                    lemma_tok_bounds(f@, j2 + 1 as int);
                    if let Some((e, r2)) = p_params_rest(f@, j3 as int) {
                        assert(p_params_rest(f@, j as int) == Some(
                            (e, seq![(istr_m(k2), istr_m(v2))] + r2),
                        ));
                        assert(params_m(out@.push((k2, v2))) =~= params_m(out@).push(
                            (istr_m(k2), istr_m(v2)),
                        ));
                        assert(params_m(out@) + (seq![(istr_m(k2), istr_m(v2))] + r2)
                            =~= params_m(out@.push((k2, v2))) + r2);
                    }
                }
                out.push((k2, v2));
                j = j3;
            } else if j < n && f[j] == 0x29 {
                proof {
                    assert(p_params_rest(f@, j as int) == Some(
                        (j + 1 as int, Seq::<(IStrM, IStrM)>::empty()),
                    ));
                    assert(params_m(out@) + Seq::<(IStrM, IStrM)>::empty() =~= params_m(out@));
                }
                return Some((j + 1, out));
            } else {
                return None;
            }
        }
    } else {
        match crate::tok::x_atom(f, i) {
            Some((j, a)) => {
                if crate::kw::ke_nil(a.as_slice()) {
                    assert(params_m(Seq::<(IString, IString)>::empty()) =~= Seq::<
                        (IStrM, IStrM),
                    >::empty());
                    Some((j, Vec::new()))
                } else {
                    None
                }
            },
            None => None,
        }
    }
}

/// `body`, with a bound on nesting depth.
pub open spec fn p_body(f: Seq<u8>, i: int, depth: int) -> Option<(int, BodyM)>
    decreases depth, f.len() - i, 0int,
        when 0 <= i <= f.len()
        via p_body_dec
{
    if depth <= 0 {
        None
    } else if 0 <= i < f.len() && f[i] == 0x28u8 {
        if i + 2 <= f.len() && f[i + 1] == 0x28u8 {
            // multipart: 1*body SP media-subtype ")"
            match p_bodies(f, i + 1, depth - 1) {
                Some((j, parts)) => if parts.len() >= 1 && sp_at(f, j) {
                    match p_string(f, j + 1) {
                        Some((j2, subtype)) => if j2 < f.len() && f[j2] == 0x29u8 {
                            Some((j2 + 1, BodyM::Multipart { parts, subtype }))
                        } else {
                            None
                        },
                        None => None,
                    }
                } else {
                    None
                },
                None => None,
            }
        } else {
            // single part: string SP string SP params SP nstring SP nstring
            //              SP string SP number ")"
            match p_body_basic(f, i + 1) {
                Some((j, b)) => if j < f.len() && f[j] == 0x29u8 {
                    Some((j + 1, b))
                } else {
                    None
                },
                None => None,
            }
        }
    } else {
        None
    }
}

/// The fields of a single-part body, after the opening parenthesis.
pub open spec fn p_body_basic(f: Seq<u8>, i: int) -> Option<(int, BodyM)> {
    match p_string(f, i) {
        Some((j1, media_type)) => if sp_at(f, j1) {
            match p_string(f, j1 + 1) {
                Some((j2, media_subtype)) => if sp_at(f, j2) {
                    match p_param_list(f, j2 + 1) {
                        Some((j3, params)) => if sp_at(f, j3) {
                            match p_nstring(f, j3 + 1) {
                                Some((j4, id)) => if sp_at(f, j4) {
                                    match p_nstring(f, j4 + 1) {
                                        Some((j5, description)) => if sp_at(f, j5) {
                                            match p_string(f, j5 + 1) {
                                                Some((j6, encoding)) => if sp_at(f, j6) {
                                                    match p_number(f, j6 + 1) {
                                                        Some((j7, size)) => Some(
                                                            (
                                                                j7,
                                                                BodyM::Basic {
                                                                    media_type,
                                                                    media_subtype,
                                                                    params,
                                                                    id,
                                                                    description,
                                                                    encoding,
                                                                    size,
                                                                },
                                                            ),
                                                        ),
                                                        None => None,
                                                    }
                                                } else {
                                                    None
                                                },
                                                None => None,
                                            }
                                        } else {
                                            None
                                        },
                                        None => None,
                                    }
                                } else {
                                    None
                                },
                                None => None,
                            }
                        } else {
                            None
                        },
                        None => None,
                    }
                } else {
                    None
                },
                None => None,
            }
        } else {
            None
        },
        None => None,
    }
}

/// `1*body`, adjacent, ending before SP or the closing parenthesis.
pub open spec fn p_bodies(f: Seq<u8>, i: int, depth: int) -> Option<(int, Seq<BodyM>)>
    decreases depth, f.len() - i, 1int,
        when 0 <= i <= f.len()
        via p_bodies_dec
{
    if 0 <= i < f.len() && f[i] == 0x28u8 && depth > 0 {
        match p_body(f, i, depth) {
            Some((j, b)) => if i < j <= f.len() {
                match p_bodies(f, j, depth) {
                    Some((e, r)) => Some((e, seq![b] + r)),
                    None => None,
                }
            } else {
                None
            },
            None => None,
        }
    } else {
        Some((i, Seq::empty()))
    }
}

#[via_fn]
proof fn p_body_dec(f: Seq<u8>, i: int, depth: int) {
}

#[via_fn]
proof fn p_bodies_dec(f: Seq<u8>, i: int, depth: int) {
}

pub proof fn lemma_p_body_basic_bounds(f: Seq<u8>, i: int)
    requires
        0 <= i <= f.len(),
    ensures
        match p_body_basic(f, i) {
            Some((j, _)) => i < j <= f.len(),
            None => true,
        },
{
    lemma_tok_bounds(f, i);
    if let Some((j1, _)) = p_string(f, i) {
        if sp_at(f, j1) {
            lemma_tok_bounds(f, j1 + 1);
            if let Some((j2, _)) = p_string(f, j1 + 1) {
                if sp_at(f, j2) {
                    lemma_p_param_list_bounds(f, j2 + 1);
                    if let Some((j3, _)) = p_param_list(f, j2 + 1) {
                        if sp_at(f, j3) {
                            lemma_tok_bounds(f, j3 + 1);
                            if let Some((j4, _)) = p_nstring(f, j3 + 1) {
                                if sp_at(f, j4) {
                                    lemma_tok_bounds(f, j4 + 1);
                                    if let Some((j5, _)) = p_nstring(f, j4 + 1) {
                                        if sp_at(f, j5) {
                                            lemma_tok_bounds(f, j5 + 1);
                                            if let Some((j6, _)) = p_string(f, j5 + 1) {
                                                if sp_at(f, j6) {
                                                    lemma_tok_bounds(f, j6 + 1);
                                                }
                                            }
                                        }
                                    }
                                }
                            }
                        }
                    }
                }
            }
        }
    }
}

pub proof fn lemma_p_body_bounds(f: Seq<u8>, i: int, depth: int)
    requires
        0 <= i <= f.len(),
    ensures
        match p_body(f, i, depth) {
            Some((j, _)) => i < j <= f.len(),
            None => true,
        },
    decreases depth, f.len() - i, 2int,
{
    if depth <= 0 {
    } else if 0 <= i < f.len() && f[i] == 0x28u8 {
        if i + 2 <= f.len() && f[i + 1] == 0x28u8 {
            lemma_p_bodies_bounds(f, i + 1, depth - 1);
            if let Some((j, _)) = p_bodies(f, i + 1, depth - 1) {
                if sp_at(f, j) {
                    lemma_tok_bounds(f, j + 1);
                }
            }
        } else {
            lemma_p_body_basic_bounds(f, i + 1);
        }
    }
}

pub proof fn lemma_p_bodies_bounds(f: Seq<u8>, i: int, depth: int)
    requires
        0 <= i <= f.len(),
    ensures
        match p_bodies(f, i, depth) {
            Some((j, _)) => i <= j <= f.len(),
            None => true,
        },
    decreases depth, f.len() - i, 3int,
{
    if 0 <= i < f.len() && f[i] == 0x28u8 && depth > 0 {
        lemma_p_body_bounds(f, i, depth);
        if let Some((j, _)) = p_body(f, i, depth) {
            lemma_p_bodies_bounds(f, j, depth);
        }
    }
}

pub proof fn lemma_bodies_m_len(v: Vec<BodyStructure>, i: int)
    requires
        0 <= i <= v@.len(),
    ensures
        crate::types::bodies_m(v, i).len() == v@.len() - i,
    decreases v@.len() - i,
{
    if i < v@.len() {
        lemma_bodies_m_len(v, i + 1);
    }
}

/// Models of pushed parts grow at the tail.
pub proof fn lemma_bodies_m_grow(v1: Vec<BodyStructure>, v2: Vec<BodyStructure>, x: BodyStructure, i: int)
    requires
        0 <= i <= v1@.len(),
        v2@ == v1@.push(x),
    ensures
        crate::types::bodies_m(v2, i) =~= crate::types::bodies_m(v1, i) + seq![body_m(x)],
    decreases v1@.len() - i,
{
    if i < v1@.len() {
        lemma_bodies_m_grow(v1, v2, x, i + 1);
        assert(v2@[i] == v1@[i]);
    } else {
        assert(crate::types::bodies_m(v1, i) =~= Seq::<BodyM>::empty());
        assert(v2@[i] == x);
        assert(crate::types::bodies_m(v2, i + 1) =~= Seq::<BodyM>::empty());
    }
}

fn x_body_basic(f: &[u8], i: usize) -> (r: Option<(usize, BodyStructure)>)
    requires
        i <= f@.len(),
    ensures
        match (r, p_body_basic(f@, i as int)) {
            (Some((j, v)), Some((jm, vm))) => j as int == jm && body_m(v) == vm && j <= f@.len(),
            (None, None) => true,
            _ => false,
        },
{
    let n = f.len();
    let (j1, media_type) = match x_string(f, i) {
        Some(v) => v,
        None => {
            return None;
        },
    };
    if !sp_at_x(f, j1) {
        return None;
    }
    let (j2, media_subtype) = match x_string(f, j1 + 1) {
        Some(v) => v,
        None => {
            return None;
        },
    };
    if !sp_at_x(f, j2) {
        return None;
    }
    let (j3, params) = match x_param_list(f, j2 + 1) {
        Some(v) => v,
        None => {
            return None;
        },
    };
    if !sp_at_x(f, j3) {
        return None;
    }
    let (j4, id) = match x_nstring(f, j3 + 1) {
        Some(v) => v,
        None => {
            return None;
        },
    };
    if !sp_at_x(f, j4) {
        return None;
    }
    let (j5, description) = match x_nstring(f, j4 + 1) {
        Some(v) => v,
        None => {
            return None;
        },
    };
    if !sp_at_x(f, j5) {
        return None;
    }
    let (j6, encoding) = match x_string(f, j5 + 1) {
        Some(v) => v,
        None => {
            return None;
        },
    };
    if !sp_at_x(f, j6) {
        return None;
    }
    let (j7, size) = match x_number(f, j6 + 1) {
        Some(v) => v,
        None => {
            return None;
        },
    };
    Some(
        (
            j7,
            BodyStructure::Basic {
                media_type,
                media_subtype,
                params,
                id,
                description,
                encoding,
                size,
            },
        ),
    )
}

pub fn x_body(f: &[u8], i: usize, depth: u32) -> (r: Option<(usize, BodyStructure)>)
    requires
        i <= f@.len(),
    ensures
        match (r, p_body(f@, i as int, depth as int)) {
            (Some((j, v)), Some((jm, vm))) => j as int == jm && body_m(v) == vm && i < j
                <= f@.len(),
            (None, None) => true,
            _ => false,
        },
    decreases depth, f@.len() - i, 0int,
{
    proof {
        lemma_p_body_bounds(f@, i as int, depth as int);
    }
    let n = f.len();
    if depth == 0 {
        return None;
    }
    if !(i < n && f[i] == 0x28) {
        return None;
    }
    if n - i >= 2 && f[i + 1] == 0x28 {
        // multipart
        let mut parts: Vec<BodyStructure> = Vec::new();
        let mut j: usize = i + 1;
        proof {
            assert(crate::types::bodies_m(parts, 0) =~= Seq::<BodyM>::empty());
        }
        loop
            invariant
                n == f@.len(),
                i + 2 <= n,
                f@[i as int] == 0x28u8,
                f@[i + 1] == 0x28u8,
                i + 1 <= j <= f@.len(),
                depth >= 1,
                match p_bodies(f@, j as int, depth - 1) {
                    Some((e, rst)) => p_bodies(f@, i + 1 as int, depth - 1) == Some(
                        (e, crate::types::bodies_m(parts, 0) + rst),
                    ),
                    None => p_bodies(f@, i + 1 as int, depth - 1) is None,
                },
            decreases f@.len() - j,
        {
            if j < n && f[j] == 0x28 && depth > 1 {
                match x_body(f, j, depth - 1) {
                    Some((j2, b)) => {
                        let ghost vold = parts;
                        let ghost bb = b;
                        parts.push(b);
                        proof {
                            lemma_bodies_m_grow(vold, parts, bb, 0);
                            if let Some((e, r2)) = p_bodies(f@, j2 as int, depth - 1) {
                                assert(p_bodies(f@, j as int, depth - 1) == Some(
                                    (e, seq![body_m(bb)] + r2),
                                ));
                                assert(crate::types::bodies_m(vold, 0) + (seq![body_m(bb)] + r2)
                                    =~= crate::types::bodies_m(parts, 0) + r2);
                            }
                        }
                        j = j2;
                    },
                    None => {
                        proof {
                            assert(p_bodies(f@, j as int, depth - 1) is None);
                        }
                        return None;
                    },
                }
            } else {
                proof {
                    assert(p_bodies(f@, j as int, depth - 1) == Some(
                        (j as int, Seq::<BodyM>::empty()),
                    ));
                    assert(crate::types::bodies_m(parts, 0) + Seq::<BodyM>::empty()
                        =~= crate::types::bodies_m(parts, 0));
                }
                proof {
                    lemma_bodies_m_len(parts, 0);
                }
                if parts.len() >= 1 && sp_at_x(f, j) {
                    match x_string(f, j + 1) {
                        Some((j2, subtype)) => {
                            proof {
                                lemma_tok_bounds(f@, j + 1 as int);
                            }
                            if j2 < n && f[j2] == 0x29 {
                                return Some(
                                    (j2 + 1, BodyStructure::Multipart { parts, subtype }),
                                );
                            } else {
                                return None;
                            }
                        },
                        None => {
                            return None;
                        },
                    }
                } else {
                    return None;
                }
            }
        }
    } else {
        match x_body_basic(f, i + 1) {
            Some((j, b)) => {
                if j < n && f[j] == 0x29 {
                    Some((j + 1, b))
                } else {
                    None
                }
            },
            None => None,
        }
    }
}

} // verus!
