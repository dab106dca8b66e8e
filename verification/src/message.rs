//! Fetch results: `message-data`, `msg-att` and its dynamic and static
//! attributes, mirroring the grammar's ordered alternation.
//!
//! Attribute names are parsed by maximal-munch atoms, so `RFC822.TEXT`
//! can never be taken for bare `RFC822`, nor `BODYSTRUCTURE` for `BODY`.

use vstd::prelude::*;
use crate::body::{lemma_p_body_bounds, p_body, x_body};
use crate::chars::eq_ci;
use crate::datetime::{p_datetime, x_datetime};
use crate::envelope::{lemma_p_envelope_bounds, p_envelope, x_envelope};
use crate::flag::{p_flag_list, x_flag_list};
use crate::kw;
use crate::section::{lemma_p_section_bounds, p_section, x_section};
use crate::tok::{
    kw_at, lemma_tok_bounds, p_atom, p_nstring, p_number, p_nz_number, sp_at, sp_at_x, x_atom, x_nstring,
    x_number,
};
use crate::types::{
    msg_att_m, msg_atts_m, DataM, Data, MessageAttribute, MessageAttributeM,
};

verus! {

broadcast use vstd::slice::axiom_spec_len;

/// `msg-att-dynamic`: `FLAGS SP (flag list)`.
pub open spec fn p_msg_att_dynamic(f: Seq<u8>, i: int) -> Option<(int, MessageAttributeM)> {
    match p_atom(f, i) {
        Some((j, a)) => if eq_ci(a, kw::kw_flags()) {
            if sp_at(f, j) {
                match p_flag_list(f, j + 1) {
                    Some((e, v)) => Some((e, MessageAttributeM::Flags(v))),
                    None => None,
                }
            } else {
                None
            }
        } else {
            None
        },
        None => None,
    }
}

/// `msg-att-static`: the attributes that never change for a message,
/// tried in most-specific-first order.
pub open spec fn p_msg_att_static(f: Seq<u8>, i: int) -> Option<(int, MessageAttributeM)> {
    // `[` is an atom character, so `BODY[...` must be matched positionally
    // before maximal-munch atom classification.
    if kw_at(f, i, kw::kw_body()) && i + 4 < f.len() && f[i + 4] == 0x5bu8 {
        p_att_body_ext(f, i + 4)
    } else {
        p_msg_att_named(f, i)
    }
}

/// The attributes whose name is a whole atom.
pub open spec fn p_msg_att_named(f: Seq<u8>, i: int) -> Option<(int, MessageAttributeM)> {
    match p_atom(f, i) {
        None => None,
        Some((j, a)) => {
            if eq_ci(a, kw::kw_envelope()) {
                p_att_envelope(f, j)
            } else if eq_ci(a, kw::kw_internaldate()) {
                p_att_internaldate(f, j)
            } else if eq_ci(a, kw::kw_rfc822_header()) {
                if sp_at(f, j) {
                    match p_nstring(f, j + 1) {
                        Some((e, v)) => Some((e, MessageAttributeM::Rfc822Header(v))),
                        None => None,
                    }
                } else {
                    None
                }
            } else if eq_ci(a, kw::kw_rfc822_text()) {
                if sp_at(f, j) {
                    match p_nstring(f, j + 1) {
                        Some((e, v)) => Some((e, MessageAttributeM::Rfc822Text(v))),
                        None => None,
                    }
                } else {
                    None
                }
            } else if eq_ci(a, kw::kw_rfc822_size()) {
                if sp_at(f, j) {
                    match p_number(f, j + 1) {
                        Some((e, v)) => Some((e, MessageAttributeM::Rfc822Size(v))),
                        None => None,
                    }
                } else {
                    None
                }
            } else if eq_ci(a, kw::kw_rfc822()) {
                if sp_at(f, j) {
                    match p_nstring(f, j + 1) {
                        Some((e, v)) => Some((e, MessageAttributeM::Rfc822(v))),
                        None => None,
                    }
                } else {
                    None
                }
            } else if eq_ci(a, kw::kw_bodystructure()) {
                match p_att_body_payload(f, j) {
                    Some((e, v)) => Some((e, MessageAttributeM::BodyStructure(v))),
                    None => None,
                }
            } else if eq_ci(a, kw::kw_body()) {
                match p_att_body_payload(f, j) {
                    Some((e, v)) => Some((e, MessageAttributeM::Body(v))),
                    None => None,
                }
            } else if eq_ci(a, kw::kw_uid()) {
                // uniqueid = nz-number (strictly ascending per mailbox)
                if sp_at(f, j) {
                    match p_nz_number(f, j + 1) {
                        Some((e, v)) => Some((e, MessageAttributeM::Uid(v))),
                        None => None,
                    }
                } else {
                    None
                }
            } else {
                None
            }
        },
    }
}

/// SP then an envelope, after the `ENVELOPE` atom.
#[verifier::opaque]
pub open spec fn p_att_envelope(f: Seq<u8>, j: int) -> Option<(int, MessageAttributeM)> {
    if sp_at(f, j) {
        match p_envelope(f, j + 1) {
            Some((e, v)) => Some((e, MessageAttributeM::Envelope(v))),
            None => None,
        }
    } else {
        None
    }
}

#[verifier::rlimit(100)]
#[verifier::spinoff_prover]
fn x_att_envelope(f: &[u8], j: usize) -> (r: Option<(usize, MessageAttribute)>)
    requires
        j <= f@.len(),
    ensures
        match (r, p_att_envelope(f@, j as int)) {
            (Some((e, v)), Some((em, vm))) => e as int == em && msg_att_m(v) == vm && j < e
                <= f@.len(),
            (None, None) => true,
            _ => false,
        },
{
    proof {
        reveal(p_att_envelope);
    }
    let n = f.len();
    if sp_at_x(f, j) {
        assert(j < n);
        proof {
            lemma_p_envelope_bounds(f@, (j + 1) as int);
        }
        match x_envelope(f, j + 1) {
            Some((e, v)) => Some((e, MessageAttribute::Envelope(v))),
            None => None,
        }
    } else {
        None
    }
}

/// SP then a date-time, after the `INTERNALDATE` atom.
#[verifier::opaque]
pub open spec fn p_att_internaldate(f: Seq<u8>, j: int) -> Option<(int, MessageAttributeM)> {
    if sp_at(f, j) {
        match p_datetime(f, j + 1) {
            Some((e, v)) => Some((e, MessageAttributeM::InternalDate(v))),
            None => None,
        }
    } else {
        None
    }
}

#[verifier::rlimit(100)]
#[verifier::spinoff_prover]
fn x_att_internaldate(f: &[u8], j: usize) -> (r: Option<(usize, MessageAttribute)>)
    requires
        j <= f@.len(),
    ensures
        match (r, p_att_internaldate(f@, j as int)) {
            (Some((e, v)), Some((em, vm))) => e as int == em && msg_att_m(v) == vm && j < e
                <= f@.len(),
            (None, None) => true,
            _ => false,
        },
{
    proof {
        reveal(p_att_internaldate);
    }
    let n = f.len();
    if sp_at_x(f, j) {
        assert(j < n);
        match x_datetime(f, j + 1) {
            Some((e, v)) => Some((e, MessageAttribute::InternalDate(v))),
            None => None,
        }
    } else {
        None
    }
}

/// SP then a body structure, after the `BODY` or `BODYSTRUCTURE` atom.
#[verifier::opaque]
pub open spec fn p_att_body_payload(f: Seq<u8>, j: int) -> Option<(int, crate::types::BodyM)> {
    if sp_at(f, j) {
        p_body(f, j + 1, 8)
    } else {
        None
    }
}

#[verifier::rlimit(100)]
#[verifier::spinoff_prover]
fn x_att_body_payload(f: &[u8], j: usize) -> (r: Option<(usize, crate::types::BodyStructure)>)
    requires
        j <= f@.len(),
    ensures
        match (r, p_att_body_payload(f@, j as int)) {
            (Some((e, v)), Some((em, vm))) => e as int == em && crate::types::body_m(v) == vm && j
                < e <= f@.len(),
            (None, None) => true,
            _ => false,
        },
{
    proof {
        reveal(p_att_body_payload);
    }
    let n = f.len();
    if sp_at_x(f, j) {
        assert(j < n);
        x_body(f, j + 1, 8)
    } else {
        None
    }
}

/// `BODY` section `["<" number ">"]` SP nstring, starting at the `[`.
#[verifier::opaque]
pub open spec fn p_att_body_ext(f: Seq<u8>, j: int) -> Option<(int, MessageAttributeM)> {
    match p_section(f, j) {
        Some((j2, section)) => {
            let (j3, origin) = if j2 < f.len() && f[j2] == 0x3cu8 {
                match p_number(f, j2 + 1) {
                    Some((j4, n)) => if j4 < f.len() && f[j4] == 0x3eu8 {
                        (j4 + 1, Some(n))
                    } else {
                        (-1, None)
                    },
                    None => (-1, None),
                }
            } else {
                (j2, None)
            };
            if j3 >= 0 && sp_at(f, j3) {
                match p_nstring(f, j3 + 1) {
                    Some((e, data)) => Some(
                        (e, MessageAttributeM::BodyExt { section, origin, data }),
                    ),
                    None => None,
                }
            } else {
                None
            }
        },
        None => None,
    }
}

proof fn lemma_p_att_body_ext_bounds(f: Seq<u8>, j: int)
    requires
        0 <= j <= f.len(),
    ensures
        match p_att_body_ext(f, j) {
            Some((e, _)) => j < e <= f.len(),
            None => true,
        },
{
    reveal(p_att_body_ext);
    lemma_p_section_bounds(f, j);
    if let Some((j2, _)) = p_section(f, j) {
        if j2 < f.len() && f[j2] == 0x3cu8 {
            lemma_tok_bounds(f, j2 + 1);
            if let Some((j4, _)) = p_number(f, j2 + 1) {
                if j4 < f.len() && sp_at(f, j4 + 1) {
                    lemma_tok_bounds(f, j4 + 2);
                }
            }
        } else if sp_at(f, j2) {
            lemma_tok_bounds(f, j2 + 1);
        }
    }
}

fn x_att_body_ext(f: &[u8], j: usize) -> (r: Option<(usize, MessageAttribute)>)
    requires
        j <= f@.len(),
    ensures
        match (r, p_att_body_ext(f@, j as int)) {
            (Some((e, v)), Some((em, vm))) => e as int == em && msg_att_m(v) == vm && j < e
                <= f@.len(),
            (None, None) => true,
            _ => false,
        },
{
    proof {
        reveal(p_att_body_ext);
        lemma_p_att_body_ext_bounds(f@, j as int);
    }
    let n = f.len();
    match x_section(f, j) {
        Some((j2, section)) => {
            let (ok, j3, origin): (bool, usize, Option<u32>) = if j2 < n && f[j2] == 0x3c {
                match x_number(f, j2 + 1) {
                    Some((j4, nn)) => {
                        if j4 < n && f[j4] == 0x3e {
                            (true, j4 + 1, Some(nn))
                        } else {
                            (false, 0, None)
                        }
                    },
                    None => (false, 0, None),
                }
            } else {
                (true, j2, None)
            };
            if ok && sp_at_x(f, j3) {
                match x_nstring(f, j3 + 1) {
                    Some((e, data)) => Some(
                        (e, MessageAttribute::BodyExt { section, origin, data }),
                    ),
                    None => None,
                }
            } else {
                None
            }
        },
        None => None,
    }
}

/// `msg-att-dynamic / msg-att-static`.
pub open spec fn p_msg_att(f: Seq<u8>, i: int) -> Option<(int, MessageAttributeM)> {
    match p_msg_att_dynamic(f, i) {
        Some(r) => Some(r),
        None => p_msg_att_static(f, i),
    }
}

#[verifier::rlimit(100)]
#[verifier::spinoff_prover]
pub proof fn lemma_p_msg_att_bounds(f: Seq<u8>, i: int)
    requires
        0 <= i <= f.len(),
    ensures
        match p_msg_att(f, i) {
            Some((j, _)) => i < j <= f.len(),
            None => true,
        },
{
    reveal(p_att_envelope);
    reveal(p_att_internaldate);
    reveal(p_att_body_payload);
    lemma_tok_bounds(f, i);
    if kw_at(f, i, kw::kw_body()) && i + 4 < f.len() && f[i + 4] == 0x5bu8 {
        lemma_p_att_body_ext_bounds(f, i + 4);
    }
    if let Some((j, a)) = p_atom(f, i) {
        if sp_at(f, j) {
            lemma_tok_bounds(f, j + 1);
            crate::flag::lemma_p_flag_list_bounds(f, j + 1);
            lemma_p_envelope_bounds(f, j + 1);
            lemma_p_body_bounds(f, j + 1, 8);
        }
    }
}

/// Shape of the opaque attribute helpers: each yields only its own variant.
pub proof fn lemma_att_helper_shapes(f: Seq<u8>, j: int)
    ensures
        match p_att_envelope(f, j) {
            Some((_, att)) => att is Envelope,
            None => true,
        },
        match p_att_internaldate(f, j) {
            Some((_, att)) => att is InternalDate,
            None => true,
        },
        match p_att_body_ext(f, j) {
            Some((_, att)) => att is BodyExt,
            None => true,
        },
{
    reveal(p_att_envelope);
    reveal(p_att_internaldate);
    reveal(p_att_body_ext);
}

#[verifier::rlimit(100)]
#[verifier::spinoff_prover]
fn x_msg_att_dynamic(f: &[u8], i: usize) -> (r: Option<(usize, MessageAttribute)>)
    requires
        i <= f@.len(),
    ensures
        match (r, p_msg_att_dynamic(f@, i as int)) {
            (Some((j, v)), Some((jm, vm))) => j as int == jm && msg_att_m(v) == vm && i < j
                <= f@.len(),
            (None, None) => true,
            _ => false,
        },
{
    let n = f.len();
    match x_atom(f, i) {
        None => None,
        Some((j, a)) => {
            proof {
                lemma_tok_bounds(f@, i as int);
            }
            if kw::ke_flags(a.as_slice()) {
                if sp_at_x(f, j) {
                    assert(j < n);
                    match x_flag_list(f, j + 1) {
                        Some((e, v)) => Some((e, MessageAttribute::Flags(v))),
                        None => None,
                    }
                } else {
                    None
                }
            } else {
                None
            }
        },
    }
}

fn x_msg_att(f: &[u8], i: usize) -> (r: Option<(usize, MessageAttribute)>)
    requires
        i <= f@.len(),
    ensures
        match (r, p_msg_att(f@, i as int)) {
            (Some((j, v)), Some((jm, vm))) => j as int == jm && msg_att_m(v) == vm && i < j
                <= f@.len(),
            (None, None) => true,
            _ => false,
        },
{
    match x_msg_att_dynamic(f, i) {
        Some(r) => Some(r),
        None => x_msg_att_static(f, i),
    }
}

#[verifier::rlimit(100)]
#[verifier::spinoff_prover]
fn x_msg_att_static(f: &[u8], i: usize) -> (r: Option<(usize, MessageAttribute)>)
    requires
        i <= f@.len(),
    ensures
        match (r, p_msg_att_static(f@, i as int)) {
            (Some((j, v)), Some((jm, vm))) => j as int == jm && msg_att_m(v) == vm && i < j
                <= f@.len(),
            (None, None) => true,
            _ => false,
        },
{
    let n = f.len();
    if kw::kx_body(f, i) && i + 4 < n && f[i + 4] == 0x5b {
        return x_att_body_ext(f, i + 4);
    }
    let att = x_atom(f, i);
    match att {
        None => None,
        Some((j, a)) => {
            proof {
                lemma_tok_bounds(f@, i as int);
            }
            if kw::ke_envelope(a.as_slice()) {
                x_att_envelope(f, j)
            } else if kw::ke_internaldate(a.as_slice()) {
                x_att_internaldate(f, j)
            } else if kw::ke_rfc822_header(a.as_slice()) {
                if sp_at_x(f, j) {
                    proof {
                        lemma_tok_bounds(f@, (j + 1) as int);
                    }
                    match x_nstring(f, j + 1) {
                        Some((e, v)) => Some((e, MessageAttribute::Rfc822Header(v))),
                        None => None,
                    }
                } else {
                    None
                }
            } else if kw::ke_rfc822_text(a.as_slice()) {
                if sp_at_x(f, j) {
                    proof {
                        lemma_tok_bounds(f@, (j + 1) as int);
                    }
                    match x_nstring(f, j + 1) {
                        Some((e, v)) => Some((e, MessageAttribute::Rfc822Text(v))),
                        None => None,
                    }
                } else {
                    None
                }
            } else if kw::ke_rfc822_size(a.as_slice()) {
                if sp_at_x(f, j) {
                    proof {
                        lemma_tok_bounds(f@, (j + 1) as int);
                    }
                    match x_number(f, j + 1) {
                        Some((e, v)) => Some((e, MessageAttribute::Rfc822Size(v))),
                        None => None,
                    }
                } else {
                    None
                }
            } else if kw::ke_rfc822(a.as_slice()) {
                if sp_at_x(f, j) {
                    proof {
                        lemma_tok_bounds(f@, (j + 1) as int);
                    }
                    match x_nstring(f, j + 1) {
                        Some((e, v)) => Some((e, MessageAttribute::Rfc822(v))),
                        None => None,
                    }
                } else {
                    None
                }
            } else if kw::ke_bodystructure(a.as_slice()) {
                match x_att_body_payload(f, j) {
                    Some((e, v)) => Some((e, MessageAttribute::BodyStructure(v))),
                    None => None,
                }
            } else if kw::ke_body(a.as_slice()) {
                match x_att_body_payload(f, j) {
                    Some((e, v)) => Some((e, MessageAttribute::Body(v))),
                    None => None,
                }
            } else if kw::ke_uid(a.as_slice()) {
                if sp_at_x(f, j) {
                    proof {
                        lemma_tok_bounds(f@, (j + 1) as int);
                    }
                    match x_number(f, j + 1) {
                        Some((e, v)) => if v != 0 {
                            Some((e, MessageAttribute::Uid(v)))
                        } else {
                            None
                        },
                        None => None,
                    }
                } else {
                    None
                }
            } else {
                None
            }
        },
    }
}

/// `*(SP msg-att) ")"`.
pub open spec fn p_msg_atts_rest(f: Seq<u8>, i: int) -> Option<(int, Seq<MessageAttributeM>)>
    decreases f.len() - i,
        when 0 <= i <= f.len()
        via p_msg_atts_rest_dec
{
    if sp_at(f, i) {
        match p_msg_att(f, i + 1) {
            Some((j, a)) => if i + 1 < j <= f.len() {
                match p_msg_atts_rest(f, j) {
                    Some((e, r)) => Some((e, seq![a] + r)),
                    None => None,
                }
            } else {
                None
            },
            None => None,
        }
    } else if 0 <= i < f.len() && f[i] == 0x29u8 {
        Some((i + 1, Seq::empty()))
    } else {
        None
    }
}

#[via_fn]
proof fn p_msg_atts_rest_dec(f: Seq<u8>, i: int) {
}

/// `msg-att`: `(` attribute *(SP attribute) `)`.
pub open spec fn p_msg_att_list(f: Seq<u8>, i: int) -> Option<(int, Seq<MessageAttributeM>)> {
    if 0 <= i < f.len() && f[i] == 0x28u8 {
        match p_msg_att(f, i + 1) {
            Some((j, a)) => if i + 1 < j <= f.len() {
                match p_msg_atts_rest(f, j) {
                    Some((e, r)) => Some((e, seq![a] + r)),
                    None => None,
                }
            } else {
                None
            },
            None => None,
        }
    } else {
        None
    }
}

pub proof fn lemma_msg_atts_m_push(v: Seq<MessageAttribute>, x: MessageAttribute)
    ensures
        msg_atts_m(v.push(x)) =~= msg_atts_m(v).push(msg_att_m(x)),
{
}

pub fn x_msg_att_list(f: &[u8], i: usize) -> (r: Option<(usize, Vec<MessageAttribute>)>)
    requires
        i <= f@.len(),
    ensures
        match (r, p_msg_att_list(f@, i as int)) {
            (Some((j, v)), Some((jm, vm))) => j as int == jm && msg_atts_m(v@) == vm && i < j
                <= f@.len() && v@.len() >= 1,
            (None, None) => true,
            _ => false,
        },
{
    let n = f.len();
    if !(i < n && f[i] == 0x28) {
        return None;
    }
    let first = x_msg_att(f, i + 1);
    match first {
        None => None,
        Some((j0, a0)) => {
            let mut out: Vec<MessageAttribute> = Vec::new();
            out.push(a0);
            let mut j = j0;
            proof {
                assert(msg_atts_m(out@) =~= seq![msg_att_m(a0)]);
            }
            loop
                invariant
                    n == f@.len(),
                    i < f@.len(),
                    f@[i as int] == 0x28u8,
                    i < j <= f@.len(),
                    out@.len() >= 1,
                    p_msg_att(f@, i + 1) is Some,
                    i + 1 < p_msg_att(f@, i + 1)->Some_0.0 <= f@.len(),
                    match p_msg_atts_rest(f@, j as int) {
                        Some((e, rst)) => p_msg_att_list(f@, i as int) == Some(
                            (e, msg_atts_m(out@) + rst),
                        ),
                        None => p_msg_att_list(f@, i as int) is None,
                    },
                decreases f@.len() - j,
            {
                if sp_at_x(f, j) {
                    match x_msg_att(f, j + 1) {
                        Some((j2, a2)) => {
                            proof {
                                if let Some((e, r2)) = p_msg_atts_rest(f@, j2 as int) {
                                    assert(p_msg_atts_rest(f@, j as int) == Some(
                                        (e, seq![msg_att_m(a2)] + r2),
                                    ));
                                    lemma_msg_atts_m_push(out@, a2);
                                    assert(msg_atts_m(out@) + (seq![msg_att_m(a2)] + r2)
                                        =~= msg_atts_m(out@.push(a2)) + r2);
                                }
                            }
                            out.push(a2);
                            j = j2;
                        },
                        None => {
                            return None;
                        },
                    }
                } else if j < n && f[j] == 0x29 {
                    proof {
                        assert(p_msg_atts_rest(f@, j as int) == Some(
                            (j + 1 as int, Seq::<MessageAttributeM>::empty()),
                        ));
                        assert(msg_atts_m(out@) + Seq::<MessageAttributeM>::empty() =~= msg_atts_m(
                            out@,
                        ));
                    }
                    return Some((j + 1, out));
                } else {
                    return None;
                }
            }
        },
    }
}

/// `message-data`: nz-number SP (`EXPUNGE` / `FETCH` SP msg-att).
pub open spec fn p_message_data(f: Seq<u8>, i: int) -> Option<(int, DataM)> {
    match p_nz_number(f, i) {
        Some((j, n)) => if sp_at(f, j) {
            match p_atom(f, j + 1) {
                Some((j2, a)) => {
                    if eq_ci(a, kw::kw_expunge()) {
                        Some((j2, DataM::Expunge(n)))
                    } else if eq_ci(a, kw::kw_fetch()) {
                        if sp_at(f, j2) {
                            match p_msg_att_list(f, j2 + 1) {
                                Some((e, atts)) => Some(
                                    (e, DataM::Fetch { seq_or_uid: n, attributes: atts }),
                                ),
                                None => None,
                            }
                        } else {
                            None
                        }
                    } else {
                        None
                    }
                },
                None => None,
            }
        } else {
            None
        },
        None => None,
    }
}

pub fn x_message_data(f: &[u8], i: usize) -> (r: Option<(usize, Data)>)
    requires
        i <= f@.len(),
    ensures
        match (r, p_message_data(f@, i as int)) {
            (Some((j, v)), Some((jm, vm))) => j as int == jm && crate::types::data_m(v) == vm && j
                <= f@.len(),
            (None, None) => true,
            _ => false,
        },
{
    let n = f.len();
    let num = x_number(f, i);
    match num {
        Some((j, v)) => {
            if v == 0 {
                return None;
            }
            if !sp_at_x(f, j) {
                return None;
            }
            match x_atom(f, j + 1) {
                Some((j2, a)) => {
                    proof {
                        lemma_tok_bounds(f@, j + 1 as int);
                    }
                    if kw::ke_expunge(a.as_slice()) {
                        Some((j2, Data::Expunge(v)))
                    } else if kw::ke_fetch(a.as_slice()) {
                        if sp_at_x(f, j2) {
                            match x_msg_att_list(f, j2 + 1) {
                                Some((e, atts)) => Some(
                                    (e, Data::Fetch { seq_or_uid: v, attributes: atts }),
                                ),
                                None => None,
                            }
                        } else {
                            None
                        }
                    } else {
                        None
                    }
                },
                None => None,
            }
        },
        None => None,
    }
}

} // verus!
