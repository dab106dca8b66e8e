//! The top-level response grammar: status responses, untagged server data
//! and continuation requests, each parsed from one complete frame.

use vstd::prelude::*;
use crate::chars::eq_ci;
use crate::code::{p_caps_rest, p_resp_text, x_caps_rest, x_resp_text};
use crate::flag::{p_flag_list, x_flag_list};
use crate::kw;
use crate::command::{classify_status_item, p_mailbox, x_mailbox, x_status_item};
use crate::message::{p_msg_att_list, x_msg_att_list};
use crate::tok::{
    crlf_at, crlf_at_x, lemma_tok_bounds, p_atom, p_number, p_tag_token, sp_at, sp_at_x, x_atom,
    x_number, x_tag_token,
};
use crate::types::{
    response_m, status_m, DataM, Data, Response, ResponseM, Status, StatusM, Tag,
};

verus! {

broadcast use vstd::slice::axiom_spec_len;

/// `*(SP nz-number)`: the numbers of a `SEARCH` response.
pub open spec fn p_nums_rest(f: Seq<u8>, i: int) -> Option<(int, Seq<u32>)>
    decreases f.len() - i,
        when 0 <= i <= f.len()
        via p_nums_rest_dec
{
    if sp_at(f, i) {
        match crate::tok::p_nz_number(f, i + 1) {
            Some((j, v)) => match p_nums_rest(f, j) {
                Some((e, r)) => Some((e, seq![v] + r)),
                None => None,
            },
            None => None,
        }
    } else {
        Some((i, Seq::empty()))
    }
}

#[via_fn]
proof fn p_nums_rest_dec(f: Seq<u8>, i: int) {
    if sp_at(f, i) {
        lemma_tok_bounds(f, i + 1);
    }
}

pub fn x_nums_rest(f: &[u8], i: usize) -> (r: Option<(usize, Vec<u32>)>)
    requires
        i <= f@.len(),
    ensures
        match (r, p_nums_rest(f@, i as int)) {
            (Some((j, v)), Some((jm, vm))) => j as int == jm && v@ == vm && i <= j <= f@.len(),
            (None, None) => true,
            _ => false,
        },
{
    let n = f.len();
    let mut out: Vec<u32> = Vec::new();
    let mut j = i;
    proof {
        assert(out@ =~= Seq::<u32>::empty());
    }
    loop
        invariant
            n == f@.len(),
            i <= j <= n,
            match p_nums_rest(f@, j as int) {
                Some((e, rst)) => p_nums_rest(f@, i as int) == Some((e, out@ + rst)),
                None => p_nums_rest(f@, i as int) is None,
            },
        decreases f@.len() - j,
    {
        if sp_at_x(f, j) {
            match x_number(f, j + 1) {
                Some((j2, v)) => {
                    if v == 0 {
                        return None;
                    }
                    proof {
                        lemma_tok_bounds(f@, (j + 1) as int);
                        if let Some((e, r2)) = p_nums_rest(f@, j2 as int) {
                            assert(p_nums_rest(f@, j as int) == Some((e, seq![v] + r2)));
                            assert(out@ + (seq![v] + r2) =~= out@.push(v) + r2);
                        }
                    }
                    out.push(v);
                    j = j2;
                },
                None => {
                    return None;
                },
            }
        } else {
            proof {
                assert(p_nums_rest(f@, j as int) == Some((j as int, Seq::<u32>::empty())));
                assert(out@ + Seq::<u32>::empty() =~= out@);
            }
            return Some((j, out));
        }
    }
}

/// `*(SP status-att SP number) ")"`.
pub open spec fn p_status_pairs_rest(f: Seq<u8>, i: int) -> Option<
    (int, Seq<(crate::types::StatusItem, u32)>),
>
    decreases f.len() - i,
        when 0 <= i <= f.len()
        via p_status_pairs_rest_dec
{
    if sp_at(f, i) {
        match p_atom(f, i + 1) {
            Some((j, a)) => match classify_status_item(a) {
                Some(it) => if sp_at(f, j) {
                    match p_number(f, j + 1) {
                        Some((j2, n)) => match p_status_pairs_rest(f, j2) {
                            Some((e, r)) => Some((e, seq![(it, n)] + r)),
                            None => None,
                        },
                        None => None,
                    }
                } else {
                    None
                },
                None => None,
            },
            None => None,
        }
    } else if 0 <= i < f.len() && f[i] == 0x29u8 {
        Some((i + 1, Seq::empty()))
    } else {
        None
    }
}

#[via_fn]
proof fn p_status_pairs_rest_dec(f: Seq<u8>, i: int) {
    if sp_at(f, i) {
        lemma_tok_bounds(f, i + 1);
        if let Some((j, _)) = p_atom(f, i + 1) {
            if sp_at(f, j) {
                lemma_tok_bounds(f, j + 1);
            }
        }
    }
}

/// `STATUS` data after its name atom: SP mailbox SP `(` [pairs] `)`.
#[verifier::opaque]
pub open spec fn p_status_data_tail(f: Seq<u8>, j: int) -> Option<(int, DataM)> {
    if sp_at(f, j) {
        match p_mailbox(f, j + 1) {
            Some((j2, mb)) => if sp_at(f, j2) && j2 + 1 < f.len() && f[j2 + 1] == 0x28u8 {
                if j2 + 2 < f.len() && f[j2 + 2] == 0x29u8 {
                    Some((j2 + 3, DataM::Status { mailbox: mb, items: Seq::empty() }))
                } else {
                    match p_atom(f, j2 + 2) {
                        Some((j3, a)) => match classify_status_item(a) {
                            Some(it) => if sp_at(f, j3) {
                                match p_number(f, j3 + 1) {
                                    Some((j4, n)) => match p_status_pairs_rest(f, j4) {
                                        Some((e, r)) => Some(
                                            (
                                                e,
                                                DataM::Status {
                                                    mailbox: mb,
                                                    items: seq![(it, n)] + r,
                                                },
                                            ),
                                        ),
                                        None => None,
                                    },
                                    None => None,
                                }
                            } else {
                                None
                            },
                            None => None,
                        },
                        None => None,
                    }
                }
            } else {
                None
            },
            None => None,
        }
    } else {
        None
    }
}

#[verifier::rlimit(100)]
#[verifier::spinoff_prover]
fn x_status_data_tail(f: &[u8], j: usize) -> (r: Option<(usize, Data)>)
    requires
        j <= f@.len(),
    ensures
        match (r, p_status_data_tail(f@, j as int)) {
            (Some((e, v)), Some((em, vm))) => e as int == em && crate::types::data_m(v) == vm && e
                <= f@.len(),
            (None, None) => true,
            _ => false,
        },
{
    proof {
        reveal(p_status_data_tail);
    }
    let n = f.len();
    if !sp_at_x(f, j) {
        return None;
    }
    let (j2, mb) = match x_mailbox(f, j + 1) {
        Some(v) => v,
        None => {
            return None;
        },
    };
    if !(sp_at_x(f, j2) && j2 + 1 < n && f[j2 + 1] == 0x28) {
        return None;
    }
    if j2 + 2 < n && f[j2 + 2] == 0x29 {
        return Some((j2 + 3, Data::Status { mailbox: mb, items: Vec::new() }));
    }
    let (j3, it0) = match x_status_item(f, j2 + 2) {
        Some(v) => v,
        None => {
            return None;
        },
    };
    if !sp_at_x(f, j3) {
        return None;
    }
    let (j4, n0) = match x_number(f, j3 + 1) {
        Some(v) => v,
        None => {
            return None;
        },
    };
    let mut out: Vec<(crate::types::StatusItem, u32)> = Vec::new();
    out.push((it0, n0));
    let mut j5 = j4;
    let ghost mbm = crate::types::mailbox_m(mb);
    proof {
        assert(out@ =~= seq![(it0, n0)]);
        if let Some((e, r)) = p_status_pairs_rest(f@, j4 as int) {
            assert(out@ + r =~= seq![(it0, n0)] + r);
        }
    }
    loop
        invariant
            n == f@.len(),
            j4 <= j5 <= f@.len(),
            mbm == crate::types::mailbox_m(mb),
            match p_status_pairs_rest(f@, j5 as int) {
                Some((e, rst)) => p_status_data_tail(f@, j as int) == Some(
                    (e, DataM::Status { mailbox: mbm, items: out@ + rst }),
                ),
                None => p_status_data_tail(f@, j as int) is None,
            },
        decreases f@.len() - j5,
    {
        if sp_at_x(f, j5) {
            match x_status_item(f, j5 + 1) {
                Some((j6, it2)) => {
                    if !sp_at_x(f, j6) {
                        return None;
                    }
                    match x_number(f, j6 + 1) {
                        Some((j7, n2)) => {
                            proof {
                                if let Some((e, r2)) = p_status_pairs_rest(f@, j7 as int) {
                                    assert(p_status_pairs_rest(f@, j5 as int) == Some(
                                        (e, seq![(it2, n2)] + r2),
                                    ));
                                    assert(out@ + (seq![(it2, n2)] + r2) =~= out@.push(
                                        (it2, n2),
                                    ) + r2);
                                }
                            }
                            out.push((it2, n2));
                            j5 = j7;
                        },
                        None => {
                            return None;
                        },
                    }
                },
                None => {
                    return None;
                },
            }
        } else if j5 < n && f[j5] == 0x29 {
            proof {
                assert(p_status_pairs_rest(f@, j5 as int) == Some(
                    (j5 + 1 as int, Seq::<(crate::types::StatusItem, u32)>::empty()),
                ));
                assert(out@ + Seq::<(crate::types::StatusItem, u32)>::empty() =~= out@);
            }
            return Some((j5 + 1, Data::Status { mailbox: mb, items: out }));
        } else {
            return None;
        }
    }
}

/// Numeric untagged data: number SP (`EXISTS` / `RECENT` / `EXPUNGE` /
/// `FETCH` SP msg-att).
pub open spec fn p_num_data(f: Seq<u8>, i: int) -> Option<(int, DataM)> {
    match p_number(f, i) {
        Some((j, n)) => if sp_at(f, j) {
            match p_atom(f, j + 1) {
                Some((j2, a)) => {
                    if eq_ci(a, kw::kw_exists()) {
                        Some((j2, DataM::Exists(n)))
                    } else if eq_ci(a, kw::kw_recent()) {
                        Some((j2, DataM::Recent(n)))
                    } else if eq_ci(a, kw::kw_expunge()) {
                        if n != 0 {
                            Some((j2, DataM::Expunge(n)))
                        } else {
                            None
                        }
                    } else if eq_ci(a, kw::kw_fetch()) {
                        if n != 0 && sp_at(f, j2) {
                            match p_msg_att_list(f, j2 + 1) {
                                Some((e, atts)) => Some(
                                    (e, DataM::Fetch { seq_or_uid: n, attributes: atts }),
                                ),
                                None => None,
                            }
                        } else {
                            None
                        }
                    } else {
                        None
                    }
                },
                None => None,
            }
        } else {
            None
        },
        None => None,
    }
}

fn x_num_data(f: &[u8], i: usize) -> (r: Option<(usize, Data)>)
    requires
        i <= f@.len(),
    ensures
        match (r, p_num_data(f@, i as int)) {
            (Some((j, v)), Some((jm, vm))) => j as int == jm && crate::types::data_m(v) == vm && j
                <= f@.len(),
            (None, None) => true,
            _ => false,
        },
{
    let n = f.len();
    match x_number(f, i) {
        Some((j, num)) => {
            if !sp_at_x(f, j) {
                return None;
            }
            match x_atom(f, j + 1) {
                Some((j2, a)) => {
                    proof {
                        lemma_tok_bounds(f@, (j + 1) as int);
                    }
                    if kw::ke_exists(a.as_slice()) {
                        Some((j2, Data::Exists(num)))
                    } else if kw::ke_recent(a.as_slice()) {
                        Some((j2, Data::Recent(num)))
                    } else if kw::ke_expunge(a.as_slice()) {
                        if num != 0 {
                            Some((j2, Data::Expunge(num)))
                        } else {
                            None
                        }
                    } else if kw::ke_fetch(a.as_slice()) {
                        if num != 0 && sp_at_x(f, j2) {
                            match x_msg_att_list(f, j2 + 1) {
                                Some((e, atts)) => Some(
                                    (e, Data::Fetch { seq_or_uid: num, attributes: atts }),
                                ),
                                None => None,
                            }
                        } else {
                            None
                        }
                    } else {
                        None
                    }
                },
                None => None,
            }
        },
        None => None,
    }
}

/// Whether `j` is exactly the final CRLF of the frame.
pub open spec fn ends_frame(f: Seq<u8>, j: int) -> bool {
    crlf_at(f, j) && j + 2 == f.len()
}

/// The untagged part after `* `: status, data, or numeric data.
pub open spec fn p_untagged(f: Seq<u8>, i: int) -> Option<ResponseM> {
    if 0 <= i < f.len() && crate::chars::is_digit(f[i]) {
        match p_num_data(f, i) {
            Some((j, d)) => if ends_frame(f, j) {
                Some(ResponseM::Data(d))
            } else {
                None
            },
            None => None,
        }
    } else {
        match p_atom(f, i) {
            Some((j, a)) => {
                if eq_ci(a, kw::kw_ok()) {
                    if sp_at(f, j) {
                        match p_resp_text(f, j + 1) {
                            Some((e, c, t)) => Some(
                                ResponseM::Status(StatusM::Okay { tag: None, code: c, text: t }),
                            ),
                            None => None,
                        }
                    } else {
                        None
                    }
                } else if eq_ci(a, kw::kw_no()) {
                    if sp_at(f, j) {
                        match p_resp_text(f, j + 1) {
                            Some((e, c, t)) => Some(
                                ResponseM::Status(StatusM::No { tag: None, code: c, text: t }),
                            ),
                            None => None,
                        }
                    } else {
                        None
                    }
                } else if eq_ci(a, kw::kw_bad()) {
                    if sp_at(f, j) {
                        match p_resp_text(f, j + 1) {
                            Some((e, c, t)) => Some(
                                ResponseM::Status(StatusM::Bad { tag: None, code: c, text: t }),
                            ),
                            None => None,
                        }
                    } else {
                        None
                    }
                } else if eq_ci(a, kw::kw_bye()) {
                    if sp_at(f, j) {
                        match p_resp_text(f, j + 1) {
                            Some((e, c, t)) => Some(
                                ResponseM::Status(StatusM::Bye { code: c, text: t }),
                            ),
                            None => None,
                        }
                    } else {
                        None
                    }
                } else if eq_ci(a, kw::kw_flags()) {
                    if sp_at(f, j) {
                        match p_flag_list(f, j + 1) {
                            Some((e, v)) => if ends_frame(f, e) {
                                Some(ResponseM::Data(DataM::Flags(v)))
                            } else {
                                None
                            },
                            None => None,
                        }
                    } else {
                        None
                    }
                } else if eq_ci(a, kw::kw_capability()) {
                    match p_caps_rest(f, j) {
                        Some((e, caps)) => if caps.len() >= 1 && ends_frame(f, e) {
                            Some(ResponseM::Data(DataM::Capability(caps)))
                        } else {
                            None
                        },
                        None => None,
                    }
                } else if eq_ci(a, kw::kw_search()) {
                    match p_nums_rest(f, j) {
                        Some((e, v)) => if ends_frame(f, e) {
                            Some(ResponseM::Data(DataM::Search(v)))
                        } else {
                            None
                        },
                        None => None,
                    }
                } else if eq_ci(a, kw::kw_status()) {
                    match p_status_data_tail(f, j) {
                        Some((e, d)) => if ends_frame(f, e) {
                            Some(ResponseM::Data(d))
                        } else {
                            None
                        },
                        None => None,
                    }
                } else {
                    None
                }
            },
            None => None,
        }
    }
}

/// Parses one complete response frame.
pub open spec fn p_response(f: Seq<u8>) -> Option<ResponseM> {
    if f.len() >= 2 && f[0] == 0x2bu8 && sp_at(f, 1) {
        match p_resp_text(f, 2) {
            Some((e, c, t)) => Some(ResponseM::CommandContinuationRequest { code: c, text: t }),
            None => None,
        }
    } else if f.len() >= 2 && f[0] == 0x2au8 && sp_at(f, 1) {
        p_untagged(f, 2)
    } else {
        match p_tag_token(f, 0) {
            Some((te, tag)) => if sp_at(f, te) {
                match p_atom(f, te + 1) {
                    Some((j, a)) => {
                        let kindsel = if eq_ci(a, kw::kw_ok()) {
                            1int
                        } else if eq_ci(a, kw::kw_no()) {
                            2int
                        } else if eq_ci(a, kw::kw_bad()) {
                            3int
                        } else {
                            0int
                        };
                        if kindsel != 0 && sp_at(f, j) {
                            match p_resp_text(f, j + 1) {
                                Some((e, c, t)) => Some(
                                    ResponseM::Status(
                                        if kindsel == 1 {
                                            StatusM::Okay { tag: Some(tag), code: c, text: t }
                                        } else if kindsel == 2 {
                                            StatusM::No { tag: Some(tag), code: c, text: t }
                                        } else {
                                            StatusM::Bad { tag: Some(tag), code: c, text: t }
                                        },
                                    ),
                                ),
                                None => None,
                            }
                        } else {
                            None
                        }
                    },
                    None => None,
                }
            } else {
                None
            },
            None => None,
        }
    }
}

#[verifier::rlimit(100)]
#[verifier::spinoff_prover]
fn x_untagged(f: &[u8], i: usize) -> (r: Option<Response>)
    requires
        i <= f@.len(),
    ensures
        match (r, p_untagged(f@, i as int)) {
            (Some(v), Some(vm)) => response_m(v) == vm,
            (None, None) => true,
            _ => false,
        },
{
    let n = f.len();
    if i < n && crate::chars::is_digit_x(f[i]) {
        match x_num_data(f, i) {
            Some((j, d)) => {
                if crlf_at_x(f, j) && j + 2 == n {
                    Some(Response::Data(d))
                } else {
                    None
                }
            },
            None => None,
        }
    } else {
        match x_atom(f, i) {
            Some((j, a)) => {
                proof {
                    lemma_tok_bounds(f@, i as int);
                }
                if kw::ke_ok(a.as_slice()) {
                    if sp_at_x(f, j) {
                        match x_resp_text(f, j + 1) {
                            Some((e, c, t)) => Some(
                                Response::Status(Status::Okay { tag: None, code: c, text: t }),
                            ),
                            None => None,
                        }
                    } else {
                        None
                    }
                } else if kw::ke_no(a.as_slice()) {
                    if sp_at_x(f, j) {
                        match x_resp_text(f, j + 1) {
                            Some((e, c, t)) => Some(
                                Response::Status(Status::No { tag: None, code: c, text: t }),
                            ),
                            None => None,
                        }
                    } else {
                        None
                    }
                } else if kw::ke_bad(a.as_slice()) {
                    if sp_at_x(f, j) {
                        match x_resp_text(f, j + 1) {
                            Some((e, c, t)) => Some(
                                Response::Status(Status::Bad { tag: None, code: c, text: t }),
                            ),
                            None => None,
                        }
                    } else {
                        None
                    }
                } else if kw::ke_bye(a.as_slice()) {
                    if sp_at_x(f, j) {
                        match x_resp_text(f, j + 1) {
                            Some((e, c, t)) => Some(
                                Response::Status(Status::Bye { code: c, text: t }),
                            ),
                            None => None,
                        }
                    } else {
                        None
                    }
                } else if kw::ke_flags(a.as_slice()) {
                    if sp_at_x(f, j) {
                        match x_flag_list(f, j + 1) {
                            Some((e, v)) => {
                                if crlf_at_x(f, e) && e + 2 == n {
                                    Some(Response::Data(Data::Flags(v)))
                                } else {
                                    None
                                }
                            },
                            None => None,
                        }
                    } else {
                        None
                    }
                } else if kw::ke_capability(a.as_slice()) {
                    match x_caps_rest(f, j) {
                        Some((e, caps)) => {
                            if caps.len() >= 1 && crlf_at_x(f, e) && e + 2 == n {
                                Some(Response::Data(Data::Capability(caps)))
                            } else {
                                None
                            }
                        },
                        None => None,
                    }
                } else if kw::ke_search(a.as_slice()) {
                    match x_nums_rest(f, j) {
                        Some((e, v)) => {
                            if crlf_at_x(f, e) && e + 2 == n {
                                Some(Response::Data(Data::Search(v)))
                            } else {
                                None
                            }
                        },
                        None => None,
                    }
                } else if kw::ke_status(a.as_slice()) {
                    match x_status_data_tail(f, j) {
                        Some((e, d)) => {
                            if crlf_at_x(f, e) && e + 2 == n {
                                Some(Response::Data(d))
                            } else {
                                None
                            }
                        },
                        None => None,
                    }
                } else {
                    None
                }
            },
            None => None,
        }
    }
}

/// Parses one complete response frame into a typed response.
#[verifier::rlimit(100)]
#[verifier::spinoff_prover]
pub fn x_response(f: &[u8]) -> (r: Option<Response>)
    ensures
        match (r, p_response(f@)) {
            (Some(v), Some(vm)) => response_m(v) == vm,
            (None, None) => true,
            _ => false,
        },
{
    let n = f.len();
    if n >= 2 && f[0] == 0x2b && sp_at_x(f, 1) {
        match x_resp_text(f, 2) {
            Some((e, c, t)) => Some(Response::CommandContinuationRequest { code: c, text: t }),
            None => None,
        }
    } else if n >= 2 && f[0] == 0x2a && sp_at_x(f, 1) {
        x_untagged(f, 2)
    } else {
        match x_tag_token(f, 0) {
            Some((te, tagb)) => {
                if !sp_at_x(f, te) {
                    return None;
                }
                match x_atom(f, te + 1) {
                    Some((j, a)) => {
                        proof {
                            lemma_tok_bounds(f@, (te + 1) as int);
                        }
                        let kindsel: u8 = if kw::ke_ok(a.as_slice()) {
                            1
                        } else if kw::ke_no(a.as_slice()) {
                            2
                        } else if kw::ke_bad(a.as_slice()) {
                            3
                        } else {
                            0
                        };
                        if kindsel != 0 && sp_at_x(f, j) {
                            match x_resp_text(f, j + 1) {
                                Some((e, c, t)) => {
                                    let tag = Tag { bytes: tagb };
                                    Some(
                                        Response::Status(
                                            if kindsel == 1 {
                                                Status::Okay { tag: Some(tag), code: c, text: t }
                                            } else if kindsel == 2 {
                                                Status::No { tag: Some(tag), code: c, text: t }
                                            } else {
                                                Status::Bad { tag: Some(tag), code: c, text: t }
                                            },
                                        ),
                                    )
                                },
                                None => None,
                            }
                        } else {
                            None
                        }
                    },
                    None => None,
                }
            },
            None => None,
        }
    }
}

} // verus!
