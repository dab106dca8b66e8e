//! Envelopes and address lists, mirroring the bracketed list grammar.

use vstd::prelude::*;
use crate::kw;
use crate::tok::{lemma_tok_bounds, p_nstring, sp_at, sp_at_x, x_nstring, p_atom, x_atom};
use crate::chars::eq_ci;
use crate::types::{
    address_m, addresses_m, envelope_m, nstr_m, Address, AddressM, Envelope, EnvelopeM, IStrM,
};

verus! {

broadcast use vstd::slice::axiom_spec_len;

/// `address`: `(` nstring SP nstring SP nstring SP nstring `)`.
pub open spec fn p_address(f: Seq<u8>, i: int) -> Option<(int, AddressM)> {
    if 0 <= i < f.len() && f[i] == 0x28u8 {
        match p_nstring(f, i + 1) {
            Some((j1, name)) => if sp_at(f, j1) {
                match p_nstring(f, j1 + 1) {
                    Some((j2, adl)) => if sp_at(f, j2) {
                        match p_nstring(f, j2 + 1) {
                            Some((j3, mailbox)) => if sp_at(f, j3) {
                                match p_nstring(f, j3 + 1) {
                                    Some((j4, host)) => if j4 < f.len() && f[j4] == 0x29u8 {
                                        Some((j4 + 1, AddressM { name, adl, mailbox, host }))
                                    } else {
                                        None
                                    },
                                    None => None,
                                }
                            } else {
                                None
                            },
                            None => None,
                        }
                    } else {
                        None
                    },
                    None => None,
                }
            } else {
                None
            },
            None => None,
        }
    } else {
        None
    }
}

pub proof fn lemma_p_address_bounds(f: Seq<u8>, i: int)
    requires
        0 <= i <= f.len(),
    ensures
        match p_address(f, i) {
            Some((j, _)) => i < j <= f.len(),
            None => true,
        },
{
    if 0 <= i < f.len() && f[i] == 0x28u8 {
        lemma_tok_bounds(f, i + 1);
        if let Some((j1, _)) = p_nstring(f, i + 1) {
            if sp_at(f, j1) {
                lemma_tok_bounds(f, j1 + 1);
                if let Some((j2, _)) = p_nstring(f, j1 + 1) {
                    if sp_at(f, j2) {
                        lemma_tok_bounds(f, j2 + 1);
                        if let Some((j3, _)) = p_nstring(f, j2 + 1) {
                            if sp_at(f, j3) {
                                lemma_tok_bounds(f, j3 + 1);
                            }
                        }
                    }
                }
            }
        }
    }
}

pub fn x_address(f: &[u8], i: usize) -> (r: Option<(usize, Address)>)
    requires
        i <= f@.len(),
    ensures
        match (r, p_address(f@, i as int)) {
            (Some((j, v)), Some((jm, vm))) => j as int == jm && address_m(v) == vm && i < j
                <= f@.len(),
            (None, None) => true,
            _ => false,
        },
{
    proof {
        lemma_p_address_bounds(f@, i as int);
    }
    if !(i < f.len() && f[i] == 0x28) {
        return None;
    }
    let (j1, name) = match x_nstring(f, i + 1) {
        Some(v) => v,
        None => {
            return None;
        },
    };
    if !sp_at_x(f, j1) {
        return None;
    }
    let (j2, adl) = match x_nstring(f, j1 + 1) {
        Some(v) => v,
        None => {
            return None;
        },
    };
    if !sp_at_x(f, j2) {
        return None;
    }
    let (j3, mailbox) = match x_nstring(f, j2 + 1) {
        Some(v) => v,
        None => {
            return None;
        },
    };
    if !sp_at_x(f, j3) {
        return None;
    }
    let (j4, host) = match x_nstring(f, j3 + 1) {
        Some(v) => v,
        None => {
            return None;
        },
    };
    if j4 < f.len() && f[j4] == 0x29 {
        Some((j4 + 1, Address { name, adl, mailbox, host }))
    } else {
        None
    }
}

/// `1*address ")"`: one or more adjacent addresses up to the closing paren.
pub open spec fn p_addrs_rest(f: Seq<u8>, i: int) -> Option<(int, Seq<AddressM>)>
    decreases f.len() - i,
        when 0 <= i <= f.len()
        via p_addrs_rest_dec
{
    if 0 <= i < f.len() && f[i] == 0x29u8 {
        Some((i + 1, Seq::empty()))
    } else {
        match p_address(f, i) {
            Some((j, a)) => match p_addrs_rest(f, j) {
                Some((e, r)) => Some((e, seq![a] + r)),
                None => None,
            },
            None => None,
        }
    }
}

#[via_fn]
proof fn p_addrs_rest_dec(f: Seq<u8>, i: int) {
    lemma_p_address_bounds(f, i);
}

/// An envelope address slot: `(` 1*address `)` or `NIL` (empty model list).
pub open spec fn p_addr_list(f: Seq<u8>, i: int) -> Option<(int, Seq<AddressM>)> {
    if 0 <= i < f.len() && f[i] == 0x28u8 {
        match p_address(f, i + 1) {
            Some((j, a)) => match p_addrs_rest(f, j) {
                Some((e, r)) => Some((e, seq![a] + r)),
                None => None,
            },
            None => None,
        }
    } else {
        match p_atom(f, i) {
            Some((j, a)) => if eq_ci(a, kw::kw_nil()) {
                Some((j, Seq::empty()))
            } else {
                None
            },
            None => None,
        }
    }
}

pub proof fn lemma_p_addrs_rest_bounds(f: Seq<u8>, i: int)
    requires
        0 <= i <= f.len(),
    ensures
        match p_addrs_rest(f, i) {
            Some((j, _)) => i < j <= f.len(),
            None => true,
        },
    decreases f.len() - i,
{
    lemma_p_address_bounds(f, i);
    if !(0 <= i < f.len() && f[i] == 0x29u8) {
        if let Some((j, _)) = p_address(f, i) {
            lemma_p_addrs_rest_bounds(f, j);
        }
    }
}

pub proof fn lemma_p_addr_list_bounds(f: Seq<u8>, i: int)
    requires
        0 <= i <= f.len(),
    ensures
        match p_addr_list(f, i) {
            Some((j, _)) => i < j <= f.len(),
            None => true,
        },
{
    lemma_tok_bounds(f, i);
    if 0 <= i < f.len() && f[i] == 0x28u8 {
        lemma_p_address_bounds(f, i + 1);
        if let Some((j, _)) = p_address(f, i + 1) {
            lemma_p_addrs_rest_bounds(f, j);
        }
    }
}

pub proof fn lemma_p_envelope_bounds(f: Seq<u8>, i: int)
    requires
        0 <= i <= f.len(),
    ensures
        match p_envelope(f, i) {
            Some((j, _)) => i < j <= f.len(),
            None => true,
        },
{
    if 0 <= i < f.len() && f[i] == 0x28u8 {
        lemma_tok_bounds(f, i + 1);
        if let Some((j1, _)) = p_nstring(f, i + 1) {
            if sp_at(f, j1) {
                lemma_tok_bounds(f, j1 + 1);
                if let Some((j2, _)) = p_nstring(f, j1 + 1) {
                    if sp_at(f, j2) {
                        lemma_p_addr_list_bounds(f, j2 + 1);
                        if let Some((j3, _)) = p_addr_list(f, j2 + 1) {
                            if sp_at(f, j3) {
                                lemma_p_addr_list_bounds(f, j3 + 1);
                                if let Some((j4, _)) = p_addr_list(f, j3 + 1) {
                                    if sp_at(f, j4) {
                                        lemma_p_addr_list_bounds(f, j4 + 1);
                                        if let Some((j5, _)) = p_addr_list(f, j4 + 1) {
                                            if sp_at(f, j5) {
                                                lemma_p_env_tail_bounds(f, j5 + 1);
                                            }
                                        }
                                    }
                                }
                            }
                        }
                    }
                }
            }
        }
    }
}

proof fn lemma_p_env_tail_bounds(f: Seq<u8>, i: int)
    requires
        0 <= i <= f.len(),
    ensures
        match p_env_tail(f, i) {
            Some((j, _, _, _, _, _)) => i < j <= f.len(),
            None => true,
        },
{
    lemma_p_addr_list_bounds(f, i);
    if let Some((j6, _)) = p_addr_list(f, i) {
        if sp_at(f, j6) {
            lemma_p_addr_list_bounds(f, j6 + 1);
            if let Some((j7, _)) = p_addr_list(f, j6 + 1) {
                if sp_at(f, j7) {
                    lemma_p_addr_list_bounds(f, j7 + 1);
                    if let Some((j8, _)) = p_addr_list(f, j7 + 1) {
                        if sp_at(f, j8) {
                            lemma_tok_bounds(f, j8 + 1);
                            if let Some((j9, _)) = p_nstring(f, j8 + 1) {
                                if sp_at(f, j9) {
                                    lemma_tok_bounds(f, j9 + 1);
                                }
                            }
                        }
                    }
                }
            }
        }
    }
}

pub proof fn lemma_addresses_m_push(v: Seq<Address>, x: Address)
    ensures
        addresses_m(v.push(x)) =~= addresses_m(v).push(address_m(x)),
{
}

pub fn x_addr_list(f: &[u8], i: usize) -> (r: Option<(usize, Vec<Address>)>)
    requires
        i <= f@.len(),
    ensures
        match (r, p_addr_list(f@, i as int)) {
            (Some((j, v)), Some((jm, vm))) => j as int == jm && addresses_m(v@) == vm && i < j
                <= f@.len(),
            (None, None) => true,
            _ => false,
        },
{
    let n = f.len();
    if i < n && f[i] == 0x28 {
        let first = x_address(f, i + 1);
        match first {
            None => None,
            Some((j0, a0)) => {
                let mut out: Vec<Address> = Vec::new();
                out.push(a0);
                let mut j = j0;
                proof {
                    assert(addresses_m(out@) =~= seq![address_m(a0)]);
                }
                loop
                    invariant
                        n == f@.len(),
                        i < f@.len(),
                        f@[i as int] == 0x28u8,
                        i < j <= f@.len(),
                        p_address(f@, i + 1) is Some,
                        match p_addrs_rest(f@, j as int) {
                            Some((e, rst)) => p_addr_list(f@, i as int) == Some(
                                (e, addresses_m(out@) + rst),
                            ),
                            None => p_addr_list(f@, i as int) is None,
                        },
                    decreases f@.len() - j,
                {
                    if j < n && f[j] == 0x29 {
                        proof {
                            assert(p_addrs_rest(f@, j as int) == Some(
                                (j + 1 as int, Seq::<AddressM>::empty()),
                            ));
                            assert(addresses_m(out@) + Seq::<AddressM>::empty() =~= addresses_m(
                                out@,
                            ));
                        }
                        return Some((j + 1, out));
                    }
                    match x_address(f, j) {
                        Some((j2, a2)) => {
                            proof {
                                if let Some((e, r2)) = p_addrs_rest(f@, j2 as int) {
                                    assert(p_addrs_rest(f@, j as int) == Some(
                                        (e, seq![address_m(a2)] + r2),
                                    ));
                                    lemma_addresses_m_push(out@, a2);
                                    assert(addresses_m(out@) + (seq![address_m(a2)] + r2)
                                        =~= addresses_m(out@.push(a2)) + r2);
                                }
                            }
                            out.push(a2);
                            j = j2;
                        },
                        None => {
                            return None;
                        },
                    }
                }
            },
        }
    } else {
        match x_atom(f, i) {
            Some((j, a)) => {
                if kw::ke_nil(a.as_slice()) {
                    assert(addresses_m(Seq::<Address>::empty()) =~= Seq::<AddressM>::empty());
                    Some((j, Vec::new()))
                } else {
                    None
                }
            },
            None => None,
        }
    }
}

/// The first half of an envelope: `(` nstring SP nstring SP addr-list SP
/// addr-list SP addr-list SP.
pub open spec fn p_env_head(f: Seq<u8>, i: int) -> Option<
    (int, Option<IStrM>, Option<IStrM>, Seq<AddressM>, Seq<AddressM>, Seq<AddressM>),
> {
    if 0 <= i < f.len() && f[i] == 0x28u8 {
        match p_nstring(f, i + 1) {
            Some((j1, date)) => if sp_at(f, j1) {
                match p_nstring(f, j1 + 1) {
                    Some((j2, subject)) => if sp_at(f, j2) {
                        match p_addr_list(f, j2 + 1) {
                            Some((j3, from)) => if sp_at(f, j3) {
                                match p_addr_list(f, j3 + 1) {
                                    Some((j4, sender)) => if sp_at(f, j4) {
                                        match p_addr_list(f, j4 + 1) {
                                            Some((j5, reply_to)) => if sp_at(f, j5) {
                                                Some((j5 + 1, date, subject, from, sender, reply_to))
                                            } else {
                                                None
                                            },
                                            None => None,
                                        }
                                    } else {
                                        None
                                    },
                                    None => None,
                                }
                            } else {
                                None
                            },
                            None => None,
                        }
                    } else {
                        None
                    },
                    None => None,
                }
            } else {
                None
            },
            None => None,
        }
    } else {
        None
    }
}

/// The second half: addr-list SP addr-list SP addr-list SP nstring SP
/// nstring `)`.
pub open spec fn p_env_tail(f: Seq<u8>, i: int) -> Option<
    (int, Seq<AddressM>, Seq<AddressM>, Seq<AddressM>, Option<IStrM>, Option<IStrM>),
> {
    match p_addr_list(f, i) {
        Some((j6, to)) => if sp_at(f, j6) {
            match p_addr_list(f, j6 + 1) {
                Some((j7, cc)) => if sp_at(f, j7) {
                    match p_addr_list(f, j7 + 1) {
                        Some((j8, bcc)) => if sp_at(f, j8) {
                            match p_nstring(f, j8 + 1) {
                                Some((j9, in_reply_to)) => if sp_at(f, j9) {
                                    match p_nstring(f, j9 + 1) {
                                        Some((j10, message_id)) => if j10 < f.len() && f[j10]
                                            == 0x29u8 {
                                            Some((j10 + 1, to, cc, bcc, in_reply_to, message_id))
                                        } else {
                                            None
                                        },
                                        None => None,
                                    }
                                } else {
                                    None
                                },
                                None => None,
                            }
                        } else {
                            None
                        },
                        None => None,
                    }
                } else {
                    None
                },
                None => None,
            }
        } else {
            None
        },
        None => None,
    }
}

/// `envelope`: ten fields between parentheses.
pub open spec fn p_envelope(f: Seq<u8>, i: int) -> Option<(int, EnvelopeM)> {
    match p_env_head(f, i) {
        Some((j, date, subject, from, sender, reply_to)) => match p_env_tail(f, j) {
            Some((e, to, cc, bcc, in_reply_to, message_id)) => Some(
                (
                    e,
                    EnvelopeM {
                        date,
                        subject,
                        from,
                        sender,
                        reply_to,
                        to,
                        cc,
                        bcc,
                        in_reply_to,
                        message_id,
                    },
                ),
            ),
            None => None,
        },
        None => None,
    }
}

#[verifier::rlimit(100)]
#[verifier::spinoff_prover]
fn x_env_head(f: &[u8], i: usize) -> (r: Option<
    (usize, Option<crate::types::IString>, Option<crate::types::IString>, Vec<Address>, Vec<
        Address,
    >, Vec<Address>),
>)
    requires
        i <= f@.len(),
    ensures
        match (r, p_env_head(f@, i as int)) {
            (Some((j, d, s, a1, a2, a3)), Some((jm, dm, sm, m1, m2, m3))) => j as int == jm
                && nstr_m(d) == dm && nstr_m(s) == sm && addresses_m(a1@) == m1 && addresses_m(
                a2@,
            ) == m2 && addresses_m(a3@) == m3 && j <= f@.len(),
            (None, None) => true,
            _ => false,
        },
{
    let n = f.len();
    if !(i < n && f[i] == 0x28) {
        return None;
    }
    let (j1, date) = match x_nstring(f, i + 1) {
        Some(v) => v,
        None => {
            return None;
        },
    };
    if !sp_at_x(f, j1) {
        return None;
    }
    let (j2, subject) = match x_nstring(f, j1 + 1) {
        Some(v) => v,
        None => {
            return None;
        },
    };
    if !sp_at_x(f, j2) {
        return None;
    }
    let (j3, from) = match x_addr_list(f, j2 + 1) {
        Some(v) => v,
        None => {
            return None;
        },
    };
    if !sp_at_x(f, j3) {
        return None;
    }
    let (j4, sender) = match x_addr_list(f, j3 + 1) {
        Some(v) => v,
        None => {
            return None;
        },
    };
    if !sp_at_x(f, j4) {
        return None;
    }
    let (j5, reply_to) = match x_addr_list(f, j4 + 1) {
        Some(v) => v,
        None => {
            return None;
        },
    };
    if !sp_at_x(f, j5) {
        return None;
    }
    Some((j5 + 1, date, subject, from, sender, reply_to))
}

#[verifier::rlimit(100)]
#[verifier::spinoff_prover]
fn x_env_tail(f: &[u8], i: usize) -> (r: Option<
    (usize, Vec<Address>, Vec<Address>, Vec<Address>, Option<crate::types::IString>, Option<
        crate::types::IString,
    >),
>)
    requires
        i <= f@.len(),
    ensures
        match (r, p_env_tail(f@, i as int)) {
            (Some((j, a1, a2, a3, d, s)), Some((jm, m1, m2, m3, dm, sm))) => j as int == jm
                && addresses_m(a1@) == m1 && addresses_m(a2@) == m2 && addresses_m(a3@) == m3
                && nstr_m(d) == dm && nstr_m(s) == sm && j <= f@.len(),
            (None, None) => true,
            _ => false,
        },
{
    let n = f.len();
    let (j6, to) = match x_addr_list(f, i) {
        Some(v) => v,
        None => {
            return None;
        },
    };
    if !sp_at_x(f, j6) {
        return None;
    }
    let (j7, cc) = match x_addr_list(f, j6 + 1) {
        Some(v) => v,
        None => {
            return None;
        },
    };
    if !sp_at_x(f, j7) {
        return None;
    }
    let (j8, bcc) = match x_addr_list(f, j7 + 1) {
        Some(v) => v,
        None => {
            return None;
        },
    };
    if !sp_at_x(f, j8) {
        return None;
    }
    let (j9, in_reply_to) = match x_nstring(f, j8 + 1) {
        Some(v) => v,
        None => {
            return None;
        },
    };
    if !sp_at_x(f, j9) {
        return None;
    }
    let (j10, message_id) = match x_nstring(f, j9 + 1) {
        Some(v) => v,
        None => {
            return None;
        },
    };
    if j10 < f.len() && f[j10] == 0x29 {
        Some((j10 + 1, to, cc, bcc, in_reply_to, message_id))
    } else {
        None
    }
}

pub fn x_envelope(f: &[u8], i: usize) -> (r: Option<(usize, Envelope)>)
    requires
        i <= f@.len(),
    ensures
        match (r, p_envelope(f@, i as int)) {
            (Some((j, v)), Some((jm, vm))) => j as int == jm && envelope_m(v) == vm && j
                <= f@.len(),
            (None, None) => true,
            _ => false,
        },
{
    match x_env_head(f, i) {
        Some((j, date, subject, from, sender, reply_to)) => match x_env_tail(f, j) {
            Some((e, to, cc, bcc, in_reply_to, message_id)) => Some(
                (
                    e,
                    Envelope {
                        date,
                        subject,
                        from,
                        sender,
                        reply_to,
                        to,
                        cc,
                        bcc,
                        in_reply_to,
                        message_id,
                    },
                ),
            ),
            None => None,
        },
        None => None,
    }
}

} // verus!
