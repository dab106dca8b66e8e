//! The client command grammar: `tag SP command CRLF`, with the command
//! name parsed as one atom and classified case-insensitively.

use vstd::prelude::*;
use crate::chars::{eq_ci, is_digit, is_digit_x};
use crate::kw;
use crate::section::{p_section, x_section};
use crate::tok::{
    crlf_at, kw_at, lemma_tok_bounds, p_astr_atom, p_astring, p_atom, p_number, p_nz_number, p_string,
    p_tag_token, sp_at, sp_at_x, x_astr_atom, x_astring, x_atom, x_number, x_string, x_tag_token,
};
use crate::datetime::{p_datetime, x_datetime};
use crate::flag::{p_flag_list, x_flag_list};
use crate::tok::{p_literal, x_literal};
use crate::types::{
    astr_m, command_m, fetch_att_m, fetch_atts_m, flags_m, mailbox_m, AString, Command,
    CommandBody, CommandBodyM, CommandM, FetchArgs, FetchArgsM, FetchAtt, FetchAttM, FlagM,
    Mailbox, MailboxM, SearchKey, SeqItem, SeqNum, StatusItem, StoreKind, Tag,
};

verus! {

broadcast use vstd::slice::axiom_spec_len;

/// `mailbox`: `INBOX` (case-insensitively, as an atom) or an astring.
pub open spec fn p_mailbox(f: Seq<u8>, i: int) -> Option<(int, MailboxM)> {
    if 0 <= i < f.len() && (f[i] == 0x22u8 || f[i] == 0x7bu8) {
        match p_string(f, i) {
            Some((j, s)) => Some((j, MailboxM::Other(crate::types::AStrM::Str(s)))),
            None => None,
        }
    } else {
        match p_astr_atom(f, i) {
            Some((j, a)) => if eq_ci(a, kw::kw_inbox()) {
                Some((j, MailboxM::Inbox))
            } else {
                Some((j, MailboxM::Other(crate::types::AStrM::Atom(a))))
            },
            None => None,
        }
    }
}

pub fn x_mailbox(f: &[u8], i: usize) -> (r: Option<(usize, Mailbox)>)
    requires
        i <= f@.len(),
    ensures
        match (r, p_mailbox(f@, i as int)) {
            (Some((j, v)), Some((jm, vm))) => j as int == jm && mailbox_m(v) == vm && i < j
                <= f@.len(),
            (None, None) => true,
            _ => false,
        },
{
    proof {
        lemma_tok_bounds(f@, i as int);
    }
    if i < f.len() && (f[i] == 0x22 || f[i] == 0x7b) {
        match x_string(f, i) {
            Some((j, s)) => Some((j, Mailbox::Other(AString::Str(s)))),
            None => None,
        }
    } else {
        match x_astr_atom(f, i) {
            Some((j, a)) => {
                if kw::ke_inbox(a.as_slice()) {
                    Some((j, Mailbox::Inbox))
                } else {
                    Some((j, Mailbox::Other(AString::Atom(a))))
                }
            },
            None => None,
        }
    }
}

/// `seq-number`: `*` or a non-zero number.
pub open spec fn p_seq_num(f: Seq<u8>, i: int) -> Option<(int, SeqNum)> {
    if 0 <= i < f.len() && f[i] == 0x2au8 {
        Some((i + 1, SeqNum::Star))
    } else {
        match p_nz_number(f, i) {
            Some((j, n)) => Some((j, SeqNum::Num(n))),
            None => None,
        }
    }
}

/// `seq-range` or a single `seq-number`.
pub open spec fn p_seq_item(f: Seq<u8>, i: int) -> Option<(int, SeqItem)> {
    match p_seq_num(f, i) {
        Some((j, a)) => if j < f.len() && f[j] == 0x3au8 {
            match p_seq_num(f, j + 1) {
                Some((e, b)) => Some((e, SeqItem::Range(a, b))),
                None => None,
            }
        } else {
            Some((j, SeqItem::Single(a)))
        },
        None => None,
    }
}

pub proof fn lemma_p_seq_item_bounds(f: Seq<u8>, i: int)
    requires
        0 <= i <= f.len(),
    ensures
        match p_seq_item(f, i) {
            Some((j, _)) => i < j <= f.len(),
            None => true,
        },
{
    lemma_tok_bounds(f, i);
    if let Some((j, _)) = p_seq_num(f, i) {
        if j < f.len() {
            lemma_tok_bounds(f, j + 1);
        }
    }
}

fn x_seq_item(f: &[u8], i: usize) -> (r: Option<(usize, SeqItem)>)
    requires
        i <= f@.len(),
    ensures
        match (r, p_seq_item(f@, i as int)) {
            (Some((j, v)), Some((jm, vm))) => j as int == jm && v == vm && i < j <= f@.len(),
            (None, None) => true,
            _ => false,
        },
{
    proof {
        lemma_p_seq_item_bounds(f@, i as int);
    }
    let n = f.len();
    let first: Option<(usize, SeqNum)> = if i < n && f[i] == 0x2a {
        Some((i + 1, SeqNum::Star))
    } else {
        match x_number(f, i) {
            Some((j, v)) => if v != 0 {
                Some((j, SeqNum::Num(v)))
            } else {
                None
            },
            None => None,
        }
    };
    match first {
        Some((j, a)) => {
            if j < n && f[j] == 0x3a {
                let second: Option<(usize, SeqNum)> = if j + 1 < n && f[j + 1] == 0x2a {
                    Some((j + 2, SeqNum::Star))
                } else {
                    match x_number(f, j + 1) {
                        Some((e, v)) => if v != 0 {
                            Some((e, SeqNum::Num(v)))
                        } else {
                            None
                        },
                        None => None,
                    }
                };
                match second {
                    Some((e, b)) => Some((e, SeqItem::Range(a, b))),
                    None => None,
                }
            } else {
                Some((j, SeqItem::Single(a)))
            }
        },
        None => None,
    }
}

/// `*("," seq-item)`.
pub open spec fn p_seqset_rest(f: Seq<u8>, i: int) -> Option<(int, Seq<SeqItem>)>
    decreases f.len() - i,
        when 0 <= i <= f.len()
        via p_seqset_rest_dec
{
    if 0 <= i < f.len() && f[i] == 0x2cu8 {
        match p_seq_item(f, i + 1) {
            Some((j, v)) => match p_seqset_rest(f, j) {
                Some((e, r)) => Some((e, seq![v] + r)),
                None => None,
            },
            None => None,
        }
    } else {
        Some((i, Seq::empty()))
    }
}

#[via_fn]
proof fn p_seqset_rest_dec(f: Seq<u8>, i: int) {
    if 0 <= i < f.len() && f[i] == 0x2cu8 {
        lemma_p_seq_item_bounds(f, i + 1);
    }
}

/// `sequence-set`: one or more items separated by commas.
pub open spec fn p_seqset(f: Seq<u8>, i: int) -> Option<(int, Seq<SeqItem>)> {
    match p_seq_item(f, i) {
        Some((j, v)) => match p_seqset_rest(f, j) {
            Some((e, r)) => Some((e, seq![v] + r)),
            None => None,
        },
        None => None,
    }
}

fn x_seqset(f: &[u8], i: usize) -> (r: Option<(usize, Vec<SeqItem>)>)
    requires
        i <= f@.len(),
    ensures
        match (r, p_seqset(f@, i as int)) {
            (Some((j, v)), Some((jm, vm))) => j as int == jm && v@ == vm && i < j <= f@.len()
                && v@.len() >= 1,
            (None, None) => true,
            _ => false,
        },
{
    let n = f.len();
    match x_seq_item(f, i) {
        None => None,
        Some((j0, v0)) => {
            let mut out: Vec<SeqItem> = Vec::new();
            out.push(v0);
            let mut j = j0;
            proof {
                assert(out@ =~= seq![v0]);
            }
            loop
                invariant
                    n == f@.len(),
                    i < j <= f@.len(),
                    out@.len() >= 1,
                    match p_seqset_rest(f@, j as int) {
                        Some((e, rst)) => p_seqset(f@, i as int) == Some((e, out@ + rst)),
                        None => p_seqset(f@, i as int) is None,
                    },
                decreases f@.len() - j,
            {
                if j < n && f[j] == 0x2c {
                    match x_seq_item(f, j + 1) {
                        Some((j2, v2)) => {
                            proof {
                                if let Some((e, r2)) = p_seqset_rest(f@, j2 as int) {
                                    assert(p_seqset_rest(f@, j as int) == Some(
                                        (e, seq![v2] + r2),
                                    ));
                                    assert(out@ + (seq![v2] + r2) =~= out@.push(v2) + r2);
                                }
                            }
                            out.push(v2);
                            j = j2;
                        },
                        None => {
                            return None;
                        },
                    }
                } else {
                    proof {
                        assert(p_seqset_rest(f@, j as int) == Some(
                            (j as int, Seq::<SeqItem>::empty()),
                        ));
                        assert(out@ + Seq::<SeqItem>::empty() =~= out@);
                    }
                    return Some((j, out));
                }
            }
        },
    }
}

/// One `fetch-att`, most specific names first.
pub open spec fn p_fetch_att(f: Seq<u8>, i: int) -> Option<(int, FetchAttM)> {
    // `[` is an atom character, so the section forms must be matched
    // positionally before maximal-munch atom classification; the more
    // specific `BODY.PEEK` is tried before `BODY`.
    if kw_at(f, i, kw::kw_body_peek()) && i + 9 < f.len() && f[i + 9] == 0x5bu8 {
        p_fetch_body_section(f, i + 9, true)
    } else if kw_at(f, i, kw::kw_body()) && i + 4 < f.len() && f[i + 4] == 0x5bu8 {
        p_fetch_body_section(f, i + 4, false)
    } else {
        p_fetch_att_named(f, i)
    }
}

/// The fetch attributes whose name is a whole atom.
pub open spec fn p_fetch_att_named(f: Seq<u8>, i: int) -> Option<(int, FetchAttM)> {
    match p_atom(f, i) {
        None => None,
        Some((j, a)) => {
            if eq_ci(a, kw::kw_envelope()) {
                Some((j, FetchAttM::Envelope))
            } else if eq_ci(a, kw::kw_flags()) {
                Some((j, FetchAttM::Flags))
            } else if eq_ci(a, kw::kw_internaldate()) {
                Some((j, FetchAttM::InternalDate))
            } else if eq_ci(a, kw::kw_rfc822_header()) {
                Some((j, FetchAttM::Rfc822Header))
            } else if eq_ci(a, kw::kw_rfc822_size()) {
                Some((j, FetchAttM::Rfc822Size))
            } else if eq_ci(a, kw::kw_rfc822_text()) {
                Some((j, FetchAttM::Rfc822Text))
            } else if eq_ci(a, kw::kw_rfc822()) {
                Some((j, FetchAttM::Rfc822))
            } else if eq_ci(a, kw::kw_bodystructure()) {
                Some((j, FetchAttM::BodyStructure))
            } else if eq_ci(a, kw::kw_uid()) {
                Some((j, FetchAttM::Uid))
            } else if eq_ci(a, kw::kw_body()) {
                Some((j, FetchAttM::Body))
            } else {
                None
            }
        },
    }
}

/// `section ["<" number "." nz-number ">"]` of a `BODY`/`BODY.PEEK` att.
pub open spec fn p_fetch_body_section(f: Seq<u8>, j: int, peek: bool) -> Option<
    (int, FetchAttM),
> {
    match p_section(f, j) {
        Some((j2, section)) => {
            if j2 < f.len() && f[j2] == 0x3cu8 {
                match p_number(f, j2 + 1) {
                    Some((j3, a)) => if j3 < f.len() && f[j3] == 0x2eu8 {
                        match p_nz_number(f, j3 + 1) {
                            Some((j4, b)) => if j4 < f.len() && f[j4] == 0x3eu8 {
                                Some(
                                    (
                                        j4 + 1,
                                        FetchAttM::BodySection {
                                            peek,
                                            section,
                                            partial: Some((a, b)),
                                        },
                                    ),
                                )
                            } else {
                                None
                            },
                            None => None,
                        }
                    } else {
                        None
                    },
                    None => None,
                }
            } else {
                Some((j2, FetchAttM::BodySection { peek, section, partial: None }))
            }
        },
        None => None,
    }
}

pub proof fn lemma_p_fetch_att_bounds(f: Seq<u8>, i: int)
    requires
        0 <= i <= f.len(),
    ensures
        match p_fetch_att(f, i) {
            Some((j, _)) => i < j <= f.len(),
            None => true,
        },
{
    lemma_tok_bounds(f, i);
    lemma_p_fetch_body_section_bounds(f, i + 9);
    lemma_p_fetch_body_section_bounds(f, i + 4);
}

proof fn lemma_p_fetch_body_section_bounds(f: Seq<u8>, j: int)
    requires
        0 <= j,
    ensures
        forall|pk: bool|
            match #[trigger] p_fetch_body_section(f, j, pk) {
                Some((e, _)) => j < e <= f.len(),
                None => true,
            },
{
    assert forall|pk: bool|
        match #[trigger] p_fetch_body_section(f, j, pk) {
            Some((e, _)) => j < e <= f.len(),
            None => true,
        } by {
        if j <= f.len() {
            crate::section::lemma_p_section_bounds(f, j);
            if let Some((j2, _)) = p_section(f, j) {
                if j2 < f.len() && f[j2] == 0x3cu8 {
                    lemma_tok_bounds(f, j2 + 1);
                    if let Some((j3, _)) = p_number(f, j2 + 1) {
                        if j3 < f.len() {
                            lemma_tok_bounds(f, j3 + 1);
                        }
                    }
                }
            }
        }
    }
}

#[verifier::rlimit(100)]
#[verifier::spinoff_prover]
fn x_fetch_att(f: &[u8], i: usize) -> (r: Option<(usize, FetchAtt)>)
    requires
        i <= f@.len(),
    ensures
        match (r, p_fetch_att(f@, i as int)) {
            (Some((j, v)), Some((jm, vm))) => j as int == jm && fetch_att_m(v) == vm && i < j
                <= f@.len(),
            (None, None) => true,
            _ => false,
        },
{
    proof {
        lemma_p_fetch_att_bounds(f@, i as int);
    }
    let n = f.len();
    if kw::kx_body_peek(f, i) && i + 9 < n && f[i + 9] == 0x5b {
        return x_fetch_body_section(f, i + 9, true);
    }
    if kw::kx_body(f, i) && i + 4 < n && f[i + 4] == 0x5b {
        return x_fetch_body_section(f, i + 4, false);
    }
    match x_atom(f, i) {
        None => None,
        Some((j, a)) => {
            proof {
                lemma_tok_bounds(f@, i as int);
            }
            if kw::ke_envelope(a.as_slice()) {
                Some((j, FetchAtt::Envelope))
            } else if kw::ke_flags(a.as_slice()) {
                Some((j, FetchAtt::Flags))
            } else if kw::ke_internaldate(a.as_slice()) {
                Some((j, FetchAtt::InternalDate))
            } else if kw::ke_rfc822_header(a.as_slice()) {
                Some((j, FetchAtt::Rfc822Header))
            } else if kw::ke_rfc822_size(a.as_slice()) {
                Some((j, FetchAtt::Rfc822Size))
            } else if kw::ke_rfc822_text(a.as_slice()) {
                Some((j, FetchAtt::Rfc822Text))
            } else if kw::ke_rfc822(a.as_slice()) {
                Some((j, FetchAtt::Rfc822))
            } else if kw::ke_bodystructure(a.as_slice()) {
                Some((j, FetchAtt::BodyStructure))
            } else if kw::ke_uid(a.as_slice()) {
                Some((j, FetchAtt::Uid))
            } else if kw::ke_body(a.as_slice()) {
                Some((j, FetchAtt::Body))
            } else {
                None
            }
        },
    }
}

fn x_fetch_body_section(f: &[u8], j: usize, peek: bool) -> (r: Option<(usize, FetchAtt)>)
    requires
        j <= f@.len(),
    ensures
        match (r, p_fetch_body_section(f@, j as int, peek)) {
            (Some((e, v)), Some((em, vm))) => e as int == em && fetch_att_m(v) == vm && j < e
                <= f@.len(),
            (None, None) => true,
            _ => false,
        },
{
    let n = f.len();
    match x_section(f, j) {
        Some((j2, section)) => {
            if j2 < n && f[j2] == 0x3c {
                match x_number(f, j2 + 1) {
                    Some((j3, a)) => {
                        if j3 < n && f[j3] == 0x2e {
                            proof {
                                lemma_tok_bounds(f@, (j3 + 1) as int);
                            }
                            match x_number(f, j3 + 1) {
                                Some((j4, b)) => {
                                    if b != 0 && j4 < n && f[j4] == 0x3e {
                                        Some(
                                            (
                                                j4 + 1,
                                                FetchAtt::BodySection {
                                                    peek,
                                                    section,
                                                    partial: Some((a, b)),
                                                },
                                            ),
                                        )
                                    } else {
                                        None
                                    }
                                },
                                None => None,
                            }
                        } else {
                            None
                        }
                    },
                    None => None,
                }
            } else {
                Some((j2, FetchAtt::BodySection { peek, section, partial: None }))
            }
        },
        None => None,
    }
}

/// `*(SP fetch-att) ")"`.
pub open spec fn p_fetch_atts_rest(f: Seq<u8>, i: int) -> Option<(int, Seq<FetchAttM>)>
    decreases f.len() - i,
        when 0 <= i <= f.len()
        via p_fetch_atts_rest_dec
{
    if sp_at(f, i) {
        match p_fetch_att(f, i + 1) {
            Some((j, v)) => match p_fetch_atts_rest(f, j) {
                Some((e, r)) => Some((e, seq![v] + r)),
                None => None,
            },
            None => None,
        }
    } else if 0 <= i < f.len() && f[i] == 0x29u8 {
        Some((i + 1, Seq::empty()))
    } else {
        None
    }
}

#[via_fn]
proof fn p_fetch_atts_rest_dec(f: Seq<u8>, i: int) {
    if sp_at(f, i) {
        lemma_p_fetch_att_bounds(f, i + 1);
    }
}

/// The attribute part of `FETCH`: a macro, one attribute, or a list.
pub open spec fn p_fetch_args(f: Seq<u8>, i: int) -> Option<(int, FetchArgsM)> {
    if 0 <= i < f.len() && f[i] == 0x28u8 {
        match p_fetch_att(f, i + 1) {
            Some((j, v)) => match p_fetch_atts_rest(f, j) {
                Some((e, r)) => Some((e, FetchArgsM::List(seq![v] + r))),
                None => None,
            },
            None => None,
        }
    } else {
        match p_atom(f, i) {
            Some((j, a)) => {
                if eq_ci(a, kw::kw_all()) {
                    Some((j, FetchArgsM::All))
                } else if eq_ci(a, kw::kw_full()) {
                    Some((j, FetchArgsM::Full))
                } else if eq_ci(a, kw::kw_fast()) {
                    Some((j, FetchArgsM::Fast))
                } else {
                    match p_fetch_att(f, i) {
                        Some((e, v)) => Some((e, FetchArgsM::Single(v))),
                        None => None,
                    }
                }
            },
            None => None,
        }
    }
}

pub proof fn lemma_fetch_atts_m_push(v: Seq<FetchAtt>, x: FetchAtt)
    ensures
        fetch_atts_m(v.push(x)) =~= fetch_atts_m(v).push(fetch_att_m(x)),
{
}

#[verifier::rlimit(100)]
#[verifier::spinoff_prover]
fn x_fetch_args(f: &[u8], i: usize) -> (r: Option<(usize, FetchArgs)>)
    requires
        i <= f@.len(),
    ensures
        match (r, p_fetch_args(f@, i as int)) {
            (Some((j, v)), Some((jm, vm))) => j as int == jm && crate::types::fetch_args_m(v)
                == vm && i < j <= f@.len(),
            (None, None) => true,
            _ => false,
        },
{
    let n = f.len();
    if i < n && f[i] == 0x28 {
        match x_fetch_att(f, i + 1) {
            None => None,
            Some((j0, v0)) => {
                let mut out: Vec<FetchAtt> = Vec::new();
                out.push(v0);
                let mut j = j0;
                proof {
                    assert(fetch_atts_m(out@) =~= seq![fetch_att_m(v0)]);
                }
                loop
                    invariant
                        n == f@.len(),
                        i < f@.len(),
                        f@[i as int] == 0x28u8,
                        i < j <= f@.len(),
                        p_fetch_att(f@, i + 1) is Some,
                        match p_fetch_atts_rest(f@, j as int) {
                            Some((e, rst)) => p_fetch_args(f@, i as int) == Some(
                                (e, FetchArgsM::List(fetch_atts_m(out@) + rst)),
                            ),
                            None => p_fetch_args(f@, i as int) is None,
                        },
                    decreases f@.len() - j,
                {
                    if sp_at_x(f, j) {
                        match x_fetch_att(f, j + 1) {
                            Some((j2, v2)) => {
                                proof {
                                    if let Some((e, r2)) = p_fetch_atts_rest(f@, j2 as int) {
                                        assert(p_fetch_atts_rest(f@, j as int) == Some(
                                            (e, seq![fetch_att_m(v2)] + r2),
                                        ));
                                        lemma_fetch_atts_m_push(out@, v2);
                                        assert(fetch_atts_m(out@) + (seq![fetch_att_m(v2)] + r2)
                                            =~= fetch_atts_m(out@.push(v2)) + r2);
                                    }
                                }
                                out.push(v2);
                                j = j2;
                            },
                            None => {
                                return None;
                            },
                        }
                    } else if j < n && f[j] == 0x29 {
                        proof {
                            assert(p_fetch_atts_rest(f@, j as int) == Some(
                                (j + 1 as int, Seq::<FetchAttM>::empty()),
                            ));
                            assert(fetch_atts_m(out@) + Seq::<FetchAttM>::empty() =~= fetch_atts_m(
                                out@,
                            ));
                        }
                        return Some((j + 1, FetchArgs::List(out)));
                    } else {
                        return None;
                    }
                }
            },
        }
    } else {
        match x_atom(f, i) {
            Some((j, a)) => {
                proof {
                    lemma_tok_bounds(f@, i as int);
                }
                if kw::ke_all(a.as_slice()) {
                    Some((j, FetchArgs::All))
                } else if kw::ke_full(a.as_slice()) {
                    Some((j, FetchArgs::Full))
                } else if kw::ke_fast(a.as_slice()) {
                    Some((j, FetchArgs::Fast))
                } else {
                    match x_fetch_att(f, i) {
                        Some((e, v)) => Some((e, FetchArgs::Single(v))),
                        None => None,
                    }
                }
            },
            None => None,
        }
    }
}


/// The `FLAGS.SILENT` form of the store attribute name.
pub open spec fn kw_flags_silent() -> Seq<u8> {
    kw::kw_flags() + kw::kw_silent_suffix()
}

/// One `STATUS` item name.
pub open spec fn classify_status_item(a: Seq<u8>) -> Option<StatusItem> {
    if eq_ci(a, kw::kw_messages()) {
        Some(StatusItem::Messages)
    } else if eq_ci(a, kw::kw_recent()) {
        Some(StatusItem::Recent)
    } else if eq_ci(a, kw::kw_uidnext()) {
        Some(StatusItem::UidNext)
    } else if eq_ci(a, kw::kw_uidvalidity()) {
        Some(StatusItem::UidValidity)
    } else if eq_ci(a, kw::kw_unseen()) {
        Some(StatusItem::Unseen)
    } else {
        None
    }
}

/// `*(SP status-att) ")"`.
pub open spec fn p_status_rest(f: Seq<u8>, i: int) -> Option<(int, Seq<StatusItem>)>
    decreases f.len() - i,
        when 0 <= i <= f.len()
        via p_status_rest_dec
{
    if sp_at(f, i) {
        match p_atom(f, i + 1) {
            Some((j, a)) => match classify_status_item(a) {
                Some(it) => match p_status_rest(f, j) {
                    Some((e, r)) => Some((e, seq![it] + r)),
                    None => None,
                },
                None => None,
            },
            None => None,
        }
    } else if 0 <= i < f.len() && f[i] == 0x29u8 {
        Some((i + 1, Seq::empty()))
    } else {
        None
    }
}

#[via_fn]
proof fn p_status_rest_dec(f: Seq<u8>, i: int) {
    if sp_at(f, i) {
        lemma_tok_bounds(f, i + 1);
    }
}

/// `(` status-att *(SP status-att) `)`, non-empty.
pub open spec fn p_status_list(f: Seq<u8>, i: int) -> Option<(int, Seq<StatusItem>)> {
    if 0 <= i < f.len() && f[i] == 0x28u8 {
        match p_atom(f, i + 1) {
            Some((j, a)) => match classify_status_item(a) {
                Some(it) => match p_status_rest(f, j) {
                    Some((e, r)) => Some((e, seq![it] + r)),
                    None => None,
                },
                None => None,
            },
            None => None,
        }
    } else {
        None
    }
}

pub fn x_status_item(f: &[u8], i: usize) -> (r: Option<(usize, StatusItem)>)
    requires
        i <= f@.len(),
    ensures
        match (r, p_atom(f@, i as int)) {
            (Some((j, v)), Some((jm, am))) => j as int == jm && classify_status_item(am) == Some(
                v,
            ) && i < j <= f@.len(),
            (None, Some((jm, am))) => classify_status_item(am) is None,
            (None, None) => true,
            _ => false,
        },
{
    proof {
        lemma_tok_bounds(f@, i as int);
    }
    match x_atom(f, i) {
        Some((j, a)) => {
            if kw::ke_messages(a.as_slice()) {
                Some((j, StatusItem::Messages))
            } else if kw::ke_recent(a.as_slice()) {
                Some((j, StatusItem::Recent))
            } else if kw::ke_uidnext(a.as_slice()) {
                Some((j, StatusItem::UidNext))
            } else if kw::ke_uidvalidity(a.as_slice()) {
                Some((j, StatusItem::UidValidity))
            } else if kw::ke_unseen(a.as_slice()) {
                Some((j, StatusItem::Unseen))
            } else {
                None
            }
        },
        None => None,
    }
}

fn x_status_list(f: &[u8], i: usize) -> (r: Option<(usize, Vec<StatusItem>)>)
    requires
        i <= f@.len(),
    ensures
        match (r, p_status_list(f@, i as int)) {
            (Some((j, v)), Some((jm, vm))) => j as int == jm && v@ == vm && i < j <= f@.len()
                && v@.len() >= 1,
            (None, None) => true,
            _ => false,
        },
{
    let n = f.len();
    if !(i < n && f[i] == 0x28) {
        return None;
    }
    let first = x_status_item(f, i + 1);
    match first {
        None => None,
        Some((j0, it0)) => {
            let mut out: Vec<StatusItem> = Vec::new();
            out.push(it0);
            let mut j = j0;
            proof {
                assert(out@ =~= seq![it0]);
            }
            loop
                invariant
                    n == f@.len(),
                    i < f@.len(),
                    f@[i as int] == 0x28u8,
                    i < j <= f@.len(),
                    out@.len() >= 1,
                    match p_status_rest(f@, j as int) {
                        Some((e, rst)) => p_status_list(f@, i as int) == Some((e, out@ + rst)),
                        None => p_status_list(f@, i as int) is None,
                    },
                decreases f@.len() - j,
            {
                if sp_at_x(f, j) {
                    match x_status_item(f, j + 1) {
                        Some((j2, it2)) => {
                            proof {
                                if let Some((e, r2)) = p_status_rest(f@, j2 as int) {
                                    assert(p_status_rest(f@, j as int) == Some(
                                        (e, seq![it2] + r2),
                                    ));
                                    assert(out@ + (seq![it2] + r2) =~= out@.push(it2) + r2);
                                }
                            }
                            out.push(it2);
                            j = j2;
                        },
                        None => {
                            return None;
                        },
                    }
                } else if j < n && f[j] == 0x29 {
                    proof {
                        assert(p_status_rest(f@, j as int) == Some(
                            (j + 1 as int, Seq::<StatusItem>::empty()),
                        ));
                        assert(out@ + Seq::<StatusItem>::empty() =~= out@);
                    }
                    return Some((j + 1, out));
                } else {
                    return None;
                }
            }
        },
    }
}

/// One zero-argument `SEARCH` key name.
pub open spec fn classify_search_key(a: Seq<u8>) -> Option<SearchKey> {
    if eq_ci(a, kw::kw_all()) {
        Some(SearchKey::All)
    } else if eq_ci(a, kw::kw_answered()) {
        Some(SearchKey::Answered)
    } else if eq_ci(a, kw::kw_deleted()) {
        Some(SearchKey::Deleted)
    } else if eq_ci(a, kw::kw_draft()) {
        Some(SearchKey::Draft)
    } else if eq_ci(a, kw::kw_flagged()) {
        Some(SearchKey::Flagged)
    } else if eq_ci(a, kw::kw_new()) {
        Some(SearchKey::New)
    } else if eq_ci(a, kw::kw_old()) {
        Some(SearchKey::Old)
    } else if eq_ci(a, kw::kw_recent()) {
        Some(SearchKey::Recent)
    } else if eq_ci(a, kw::kw_seen()) {
        Some(SearchKey::Seen)
    } else if eq_ci(a, kw::kw_unanswered()) {
        Some(SearchKey::Unanswered)
    } else if eq_ci(a, kw::kw_undeleted()) {
        Some(SearchKey::Undeleted)
    } else if eq_ci(a, kw::kw_undraft()) {
        Some(SearchKey::Undraft)
    } else if eq_ci(a, kw::kw_unflagged()) {
        Some(SearchKey::Unflagged)
    } else if eq_ci(a, kw::kw_unseen()) {
        Some(SearchKey::Unseen)
    } else {
        None
    }
}

/// `*(SP search-key)`.
pub open spec fn p_skeys_rest(f: Seq<u8>, i: int) -> Option<(int, Seq<SearchKey>)>
    decreases f.len() - i,
        when 0 <= i <= f.len()
        via p_skeys_rest_dec
{
    if sp_at(f, i) {
        match p_atom(f, i + 1) {
            Some((j, a)) => match classify_search_key(a) {
                Some(sk) => match p_skeys_rest(f, j) {
                    Some((e, r)) => Some((e, seq![sk] + r)),
                    None => None,
                },
                None => None,
            },
            None => None,
        }
    } else {
        Some((i, Seq::empty()))
    }
}

#[via_fn]
proof fn p_skeys_rest_dec(f: Seq<u8>, i: int) {
    if sp_at(f, i) {
        lemma_tok_bounds(f, i + 1);
    }
}

#[verifier::rlimit(100)]
#[verifier::spinoff_prover]
fn x_skeys_rest(f: &[u8], i: usize) -> (r: Option<(usize, Vec<SearchKey>)>)
    requires
        i <= f@.len(),
    ensures
        match (r, p_skeys_rest(f@, i as int)) {
            (Some((j, v)), Some((jm, vm))) => j as int == jm && v@ == vm && i <= j <= f@.len(),
            (None, None) => true,
            _ => false,
        },
{
    let n = f.len();
    let mut out: Vec<SearchKey> = Vec::new();
    let mut j = i;
    proof {
        assert(out@ =~= Seq::<SearchKey>::empty());
    }
    loop
        invariant
            n == f@.len(),
            i <= j <= n,
            match p_skeys_rest(f@, j as int) {
                Some((e, rst)) => p_skeys_rest(f@, i as int) == Some((e, out@ + rst)),
                None => p_skeys_rest(f@, i as int) is None,
            },
        decreases f@.len() - j,
    {
        if sp_at_x(f, j) {
            match x_atom(f, j + 1) {
                Some((j2, a)) => {
                    proof {
                        lemma_tok_bounds(f@, (j + 1) as int);
                    }
                    let sk: Option<SearchKey> = if kw::ke_all(a.as_slice()) {
                        Some(SearchKey::All)
                    } else if kw::ke_answered(a.as_slice()) {
                        Some(SearchKey::Answered)
                    } else if kw::ke_deleted(a.as_slice()) {
                        Some(SearchKey::Deleted)
                    } else if kw::ke_draft(a.as_slice()) {
                        Some(SearchKey::Draft)
                    } else if kw::ke_flagged(a.as_slice()) {
                        Some(SearchKey::Flagged)
                    } else if kw::ke_new(a.as_slice()) {
                        Some(SearchKey::New)
                    } else if kw::ke_old(a.as_slice()) {
                        Some(SearchKey::Old)
                    } else if kw::ke_recent(a.as_slice()) {
                        Some(SearchKey::Recent)
                    } else if kw::ke_seen(a.as_slice()) {
                        Some(SearchKey::Seen)
                    } else if kw::ke_unanswered(a.as_slice()) {
                        Some(SearchKey::Unanswered)
                    } else if kw::ke_undeleted(a.as_slice()) {
                        Some(SearchKey::Undeleted)
                    } else if kw::ke_undraft(a.as_slice()) {
                        Some(SearchKey::Undraft)
                    } else if kw::ke_unflagged(a.as_slice()) {
                        Some(SearchKey::Unflagged)
                    } else if kw::ke_unseen(a.as_slice()) {
                        Some(SearchKey::Unseen)
                    } else {
                        None
                    };
                    match sk {
                        Some(key) => {
                            proof {
                                if let Some((e, r2)) = p_skeys_rest(f@, j2 as int) {
                                    assert(p_skeys_rest(f@, j as int) == Some(
                                        (e, seq![key] + r2),
                                    ));
                                    assert(out@ + (seq![key] + r2) =~= out@.push(key) + r2);
                                }
                            }
                            out.push(key);
                            j = j2;
                        },
                        None => {
                            return None;
                        },
                    }
                },
                None => {
                    return None;
                },
            }
        } else {
            proof {
                assert(p_skeys_rest(f@, j as int) == Some(
                    (j as int, Seq::<SearchKey>::empty()),
                ));
                assert(out@ + Seq::<SearchKey>::empty() =~= out@);
            }
            return Some((j, out));
        }
    }
}


/// The arguments of `STATUS`, after its name atom at `j`.
#[verifier::opaque]
pub open spec fn p_status_tail(f: Seq<u8>, j: int) -> Option<(int, CommandBodyM)> {
    if sp_at(f, j) {
        match p_mailbox(f, j + 1) {
            Some((j2, mb)) => if sp_at(f, j2) {
                match p_status_list(f, j2 + 1) {
                    Some((e, items)) => if items.len() >= 1 {
                        Some((e, CommandBodyM::Status { mailbox: mb, items }))
                    } else {
                        None
                    },
                    None => None,
                }
            } else {
                None
            },
            None => None,
        }
    } else {
        None
    }
}

/// The arguments of `APPEND`, after its name atom at `j`.
#[verifier::opaque]
pub open spec fn p_append_tail(f: Seq<u8>, j: int) -> Option<(int, CommandBodyM)> {
        if sp_at(f, j) {
            match p_mailbox(f, j + 1) {
                Some((j2, mb)) => if sp_at(f, j2) {
                    let step1 = if j2 + 1 < f.len() && f[j2 + 1] == 0x28u8 {
                        match p_flag_list(f, j2 + 1) {
                            Some((e1, fl)) => if sp_at(f, e1) {
                                Some((e1 + 1, fl))
                            } else {
                                None
                            },
                            None => None,
                        }
                    } else {
                        Some((j2 + 1, Seq::<FlagM>::empty()))
                    };
                    match step1 {
                        None => None,
                        Some((i4, flags)) => {
                            let step2 = if 0 <= i4 < f.len() && f[i4] == 0x22u8 {
                                match p_datetime(f, i4) {
                                    Some((e2, d)) => if sp_at(f, e2) {
                                        Some((e2 + 1, Some(d)))
                                    } else {
                                        None
                                    },
                                    None => None,
                                }
                            } else {
                                Some((i4, None))
                            };
                            match step2 {
                                None => None,
                                Some((i5, date)) => match p_literal(f, i5) {
                                    Some((e, data, m)) => Some(
                                        (
                                            e,
                                            CommandBodyM::Append {
                                                mailbox: mb,
                                                flags,
                                                date,
                                                message: data,
                                                mode: m,
                                            },
                                        ),
                                    ),
                                    None => None,
                                },
                            }
                        },
                    }
                } else {
                    None
                },
                None => None,
            }
        } else {
            None
        }
}

/// The arguments of `STORE`, after its name atom at `j`.
#[verifier::opaque]
pub open spec fn p_store_tail(f: Seq<u8>, j: int) -> Option<(int, CommandBodyM)> {
        if sp_at(f, j) {
            match p_seqset(f, j + 1) {
                Some((j2, set)) => if sp_at(f, j2) {
                    let (i3, kind) = if j2 + 2 <= f.len() && f[j2 + 1] == 0x2bu8 {
                        (j2 + 2, StoreKind::Add)
                    } else if j2 + 2 <= f.len() && f[j2 + 1] == 0x2du8 {
                        (j2 + 2, StoreKind::Remove)
                    } else {
                        (j2 + 1, StoreKind::Replace)
                    };
                    match p_atom(f, i3) {
                        Some((j3, fa)) => {
                            let silent = if eq_ci(fa, kw::kw_flags()) {
                                Some(false)
                            } else if eq_ci(fa, kw_flags_silent()) {
                                Some(true)
                            } else {
                                None
                            };
                            match silent {
                                Some(sil) => if sp_at(f, j3) {
                                    match p_flag_list(f, j3 + 1) {
                                        Some((e, fl)) => Some(
                                            (
                                                e,
                                                CommandBodyM::Store {
                                                    sequence_set: set,
                                                    kind,
                                                    silent: sil,
                                                    flags: fl,
                                                },
                                            ),
                                        ),
                                        None => None,
                                    }
                                } else {
                                    None
                                },
                                None => None,
                            }
                        },
                        None => None,
                    }
                } else {
                    None
                },
                None => None,
            }
        } else {
            None
        }
}

/// The keys of `SEARCH`, after its name atom at `j`.
#[verifier::opaque]
pub open spec fn p_search_tail(f: Seq<u8>, j: int) -> Option<(int, CommandBodyM)> {
    match p_skeys_rest(f, j) {
        Some((e, keys)) => if keys.len() >= 1 {
            Some((e, CommandBodyM::Search { keys }))
        } else {
            None
        },
        None => None,
    }
}


#[verifier::rlimit(100)]
#[verifier::spinoff_prover]
fn x_status_tail(f: &[u8], j: usize) -> (r: Option<(usize, CommandBody)>)
    requires
        j <= f@.len(),
    ensures
        match (r, p_status_tail(f@, j as int)) {
            (Some((e, v)), Some((em, vm))) => e as int == em && crate::types::body_cmd_m(v) == vm
                && e <= f@.len(),
            (None, None) => true,
            _ => false,
        },
{
    proof {
        reveal(p_status_tail);
    }
    let n = f.len();
    if sp_at_x(f, j) {
        match x_mailbox(f, j + 1) {
            Some((j2, mb)) => {
                if sp_at_x(f, j2) {
                    match x_status_list(f, j2 + 1) {
                        Some((e, items)) => Some((e, CommandBody::Status { mailbox: mb, items })),
                        None => None,
                    }
                } else {
                    None
                }
            },
            None => None,
        }
    } else {
        None
    }
}

#[verifier::rlimit(100)]
#[verifier::spinoff_prover]
fn x_append_tail(f: &[u8], j: usize) -> (r: Option<(usize, CommandBody)>)
    requires
        j <= f@.len(),
    ensures
        match (r, p_append_tail(f@, j as int)) {
            (Some((e, v)), Some((em, vm))) => e as int == em && crate::types::body_cmd_m(v) == vm
                && e <= f@.len(),
            (None, None) => true,
            _ => false,
        },
{
    proof {
        reveal(p_append_tail);
    }
    let n = f.len();
    if sp_at_x(f, j) {
        match x_mailbox(f, j + 1) {
                                        Some((j2, mb)) => {
                        if !sp_at_x(f, j2) {
                            return None;
                        }
                        let (i4, flags): (usize, Vec<crate::types::Flag>) = if j2 + 1 < n
                            && f[j2 + 1] == 0x28 {
                            match x_flag_list(f, j2 + 1) {
                                Some((e1, fl)) => {
                                    if sp_at_x(f, e1) {
                                        (e1 + 1, fl)
                                    } else {
                                        return None;
                                    }
                                },
                                None => {
                                    return None;
                                },
                            }
                        } else {
                            (j2 + 1, Vec::new())
                        };
                        proof {
                            assert(flags_m(Seq::<crate::types::Flag>::empty()) =~= Seq::<
                                FlagM,
                            >::empty());
                        }
                        let (i5, date): (usize, Option<crate::types::DateTime>) = if i4 < n
                            && f[i4] == 0x22 {
                            match x_datetime(f, i4) {
                                Some((e2, d)) => {
                                    if sp_at_x(f, e2) {
                                        (e2 + 1, Some(d))
                                    } else {
                                        return None;
                                    }
                                },
                                None => {
                                    return None;
                                },
                            }
                        } else {
                            (i4, None)
                        };
                        match x_literal(f, i5) {
                            Some((e, data, m)) => Some(
                                (
                                    e,
                                    CommandBody::Append {
                                        mailbox: mb,
                                        flags,
                                        date,
                                        message: data,
                                        mode: m,
                                    },
                                ),
                            ),
                            None => None,
                        }
                    },
                    None => None,
        }
    } else {
        None
    }
}

#[verifier::rlimit(100)]
#[verifier::spinoff_prover]
fn x_store_tail(f: &[u8], j: usize) -> (r: Option<(usize, CommandBody)>)
    requires
        j <= f@.len(),
    ensures
        match (r, p_store_tail(f@, j as int)) {
            (Some((e, v)), Some((em, vm))) => e as int == em && crate::types::body_cmd_m(v) == vm
                && e <= f@.len(),
            (None, None) => true,
            _ => false,
        },
{
    proof {
        reveal(p_store_tail);
    }
    let n = f.len();
    if sp_at_x(f, j) {
                match x_seqset(f, j + 1) {
                    Some((j2, set)) => {
                        if !sp_at_x(f, j2) {
                            return None;
                        }
                        let (i3, kind): (usize, StoreKind) = if n - j2 >= 2 && f[j2 + 1]
                            == 0x2b {
                            (j2 + 2, StoreKind::Add)
                        } else if n - j2 >= 2 && f[j2 + 1] == 0x2d {
                            (j2 + 2, StoreKind::Remove)
                        } else {
                            (j2 + 1, StoreKind::Replace)
                        };
                        match x_atom(f, i3) {
                            Some((j3, fa)) => {
                                let fsil: &[u8] = &[70u8, 76, 65, 71, 83, 46, 83, 73, 76,
                                    69, 78, 84];
                                assert(fsil@ =~= kw_flags_silent());
                                let silent: Option<bool> = if kw::ke_flags(fa.as_slice()) {
                                    Some(false)
                                } else if crate::chars::eq_ci_x(fa.as_slice(), fsil) {
                                    Some(true)
                                } else {
                                    None
                                };
                                match silent {
                                    Some(sil) => {
                                        if sp_at_x(f, j3) {
                                            match x_flag_list(f, j3 + 1) {
                                                Some((e, fl)) => Some(
                                                    (
                                                        e,
                                                        CommandBody::Store {
                                                            sequence_set: set,
                                                            kind,
                                                            silent: sil,
                                                            flags: fl,
                                                        },
                                                    ),
                                                ),
                                                None => None,
                                            }
                                        } else {
                                            None
                                        }
                                    },
                                    None => None,
                                }
                            },
                            None => None,
                        }
                    },
                    None => None,
        }
    } else {
        None
    }
}

fn x_search_tail(f: &[u8], j: usize) -> (r: Option<(usize, CommandBody)>)
    requires
        j <= f@.len(),
    ensures
        match (r, p_search_tail(f@, j as int)) {
            (Some((e, v)), Some((em, vm))) => e as int == em && crate::types::body_cmd_m(v) == vm
                && e <= f@.len(),
            (None, None) => true,
            _ => false,
        },
{
    proof {
        reveal(p_search_tail);
    }
    match x_skeys_rest(f, j) {
        Some((e, keys)) => {
            if keys.len() >= 1 {
                Some((e, CommandBody::Search { keys }))
            } else {
                None
            }
        },
        None => None,
    }
}

/// The command body after `tag SP`, ending just before the final CRLF.
pub open spec fn p_command_body(f: Seq<u8>, i: int) -> Option<(int, CommandBodyM)> {
    match p_atom(f, i) {
        None => None,
        Some((j, a)) => {
            if eq_ci(a, kw::kw_capability()) {
                Some((j, CommandBodyM::Capability))
            } else if eq_ci(a, kw::kw_noop()) {
                Some((j, CommandBodyM::Noop))
            } else if eq_ci(a, kw::kw_logout()) {
                Some((j, CommandBodyM::Logout))
            } else if eq_ci(a, kw::kw_login()) {
                if sp_at(f, j) {
                    match p_astring(f, j + 1) {
                        Some((j2, u)) => if sp_at(f, j2) {
                            match p_astring(f, j2 + 1) {
                                Some((e, p)) => Some(
                                    (e, CommandBodyM::Login { username: u, password: p }),
                                ),
                                None => None,
                            }
                        } else {
                            None
                        },
                        None => None,
                    }
                } else {
                    None
                }
            } else if eq_ci(a, kw::kw_authenticate()) {
                if sp_at(f, j) {
                    match p_atom(f, j + 1) {
                        Some((e, m)) => Some((e, CommandBodyM::Authenticate { mechanism: m })),
                        None => None,
                    }
                } else {
                    None
                }
            } else if eq_ci(a, kw::kw_select()) {
                if sp_at(f, j) {
                    match p_mailbox(f, j + 1) {
                        Some((e, m)) => Some((e, CommandBodyM::Select { mailbox: m })),
                        None => None,
                    }
                } else {
                    None
                }
            } else if eq_ci(a, kw::kw_examine()) {
                if sp_at(f, j) {
                    match p_mailbox(f, j + 1) {
                        Some((e, m)) => Some((e, CommandBodyM::Examine { mailbox: m })),
                        None => None,
                    }
                } else {
                    None
                }
            } else if eq_ci(a, kw::kw_create()) {
                if sp_at(f, j) {
                    match p_mailbox(f, j + 1) {
                        Some((e, m)) => Some((e, CommandBodyM::Create { mailbox: m })),
                        None => None,
                    }
                } else {
                    None
                }
            } else if eq_ci(a, kw::kw_delete()) {
                if sp_at(f, j) {
                    match p_mailbox(f, j + 1) {
                        Some((e, m)) => Some((e, CommandBodyM::Delete { mailbox: m })),
                        None => None,
                    }
                } else {
                    None
                }
            } else if eq_ci(a, kw::kw_rename()) {
                if sp_at(f, j) {
                    match p_mailbox(f, j + 1) {
                        Some((j2, m1)) => if sp_at(f, j2) {
                            match p_mailbox(f, j2 + 1) {
                                Some((e, m2)) => Some(
                                    (e, CommandBodyM::Rename { from: m1, to: m2 }),
                                ),
                                None => None,
                            }
                        } else {
                            None
                        },
                        None => None,
                    }
                } else {
                    None
                }
            } else if eq_ci(a, kw::kw_status()) {
                p_status_tail(f, j)
            } else if eq_ci(a, kw::kw_append()) {
                p_append_tail(f, j)
            } else if eq_ci(a, kw::kw_store()) {
                p_store_tail(f, j)
            } else if eq_ci(a, kw::kw_search()) {
                p_search_tail(f, j)
            } else if eq_ci(a, kw::kw_fetch()) {
                if sp_at(f, j) {
                    match p_seqset(f, j + 1) {
                        Some((j2, set)) => if sp_at(f, j2) {
                            match p_fetch_args(f, j2 + 1) {
                                Some((e, args)) => Some(
                                    (
                                        e,
                                        CommandBodyM::Fetch {
                                            sequence_set: set,
                                            attributes: args,
                                        },
                                    ),
                                ),
                                None => None,
                            }
                        } else {
                            None
                        },
                        None => None,
                    }
                } else {
                    None
                }
            } else if eq_ci(a, kw::kw_copy()) {
                if sp_at(f, j) {
                    match p_seqset(f, j + 1) {
                        Some((j2, set)) => if sp_at(f, j2) {
                            match p_mailbox(f, j2 + 1) {
                                Some((e, m)) => Some(
                                    (e, CommandBodyM::Copy { sequence_set: set, mailbox: m }),
                                ),
                                None => None,
                            }
                        } else {
                            None
                        },
                        None => None,
                    }
                } else {
                    None
                }
            } else {
                None
            }
        },
    }
}

/// Parses one complete command frame: `tag SP body CRLF`.
pub open spec fn p_command(f: Seq<u8>) -> Option<CommandM> {
    match p_tag_token(f, 0) {
        Some((te, tag)) => if sp_at(f, te) {
            match p_command_body(f, te + 1) {
                Some((j, body)) => if crlf_at(f, j) && j + 2 == f.len() {
                    Some(CommandM { tag, body })
                } else {
                    None
                },
                None => None,
            }
        } else {
            None
        },
        None => None,
    }
}

#[verifier::rlimit(100)]
#[verifier::spinoff_prover]
fn x_command_body(f: &[u8], i: usize) -> (r: Option<(usize, CommandBody)>)
    requires
        i <= f@.len(),
    ensures
        match (r, p_command_body(f@, i as int)) {
            (Some((j, v)), Some((jm, vm))) => j as int == jm && crate::types::body_cmd_m(v) == vm
                && j <= f@.len(),
            (None, None) => true,
            _ => false,
        },
{
    let n = f.len();
    match x_atom(f, i) {
        None => None,
        Some((j, a)) => {
            proof {
                lemma_tok_bounds(f@, i as int);
            }
            if kw::ke_capability(a.as_slice()) {
                Some((j, CommandBody::Capability))
            } else if kw::ke_noop(a.as_slice()) {
                Some((j, CommandBody::Noop))
            } else if kw::ke_logout(a.as_slice()) {
                Some((j, CommandBody::Logout))
            } else if kw::ke_login(a.as_slice()) {
                if sp_at_x(f, j) {
                    match x_astring(f, j + 1) {
                        Some((j2, u)) => {
                            if sp_at_x(f, j2) {
                                match x_astring(f, j2 + 1) {
                                    Some((e, p)) => Some(
                                        (e, CommandBody::Login { username: u, password: p }),
                                    ),
                                    None => None,
                                }
                            } else {
                                None
                            }
                        },
                        None => None,
                    }
                } else {
                    None
                }
            } else if kw::ke_authenticate(a.as_slice()) {
                if sp_at_x(f, j) {
                    match x_atom(f, j + 1) {
                        Some((e, m)) => Some((e, CommandBody::Authenticate { mechanism: m })),
                        None => None,
                    }
                } else {
                    None
                }
            } else if kw::ke_select(a.as_slice()) {
                if sp_at_x(f, j) {
                    match x_mailbox(f, j + 1) {
                        Some((e, m)) => Some((e, CommandBody::Select { mailbox: m })),
                        None => None,
                    }
                } else {
                    None
                }
            } else if kw::ke_examine(a.as_slice()) {
                if sp_at_x(f, j) {
                    match x_mailbox(f, j + 1) {
                        Some((e, m)) => Some((e, CommandBody::Examine { mailbox: m })),
                        None => None,
                    }
                } else {
                    None
                }
            } else if kw::ke_create(a.as_slice()) {
                if sp_at_x(f, j) {
                    match x_mailbox(f, j + 1) {
                        Some((e, m)) => Some((e, CommandBody::Create { mailbox: m })),
                        None => None,
                    }
                } else {
                    None
                }
            } else if kw::ke_delete(a.as_slice()) {
                if sp_at_x(f, j) {
                    match x_mailbox(f, j + 1) {
                        Some((e, m)) => Some((e, CommandBody::Delete { mailbox: m })),
                        None => None,
                    }
                } else {
                    None
                }
            } else if kw::ke_rename(a.as_slice()) {
                if sp_at_x(f, j) {
                    match x_mailbox(f, j + 1) {
                        Some((j2, m1)) => {
                            if sp_at_x(f, j2) {
                                match x_mailbox(f, j2 + 1) {
                                    Some((e, m2)) => Some(
                                        (e, CommandBody::Rename { from: m1, to: m2 }),
                                    ),
                                    None => None,
                                }
                            } else {
                                None
                            }
                        },
                        None => None,
                    }
                } else {
                    None
                }
            } else if kw::ke_status(a.as_slice()) {
                x_status_tail(f, j)
            } else if kw::ke_append(a.as_slice()) {
                x_append_tail(f, j)
            } else if kw::ke_store(a.as_slice()) {
                x_store_tail(f, j)
            } else if kw::ke_search(a.as_slice()) {
                x_search_tail(f, j)
            } else if kw::ke_fetch(a.as_slice()) {
                if sp_at_x(f, j) {
                    match x_seqset(f, j + 1) {
                        Some((j2, set)) => {
                            if sp_at_x(f, j2) {
                                match x_fetch_args(f, j2 + 1) {
                                    Some((e, args)) => Some(
                                        (
                                            e,
                                            CommandBody::Fetch {
                                                sequence_set: set,
                                                attributes: args,
                                            },
                                        ),
                                    ),
                                    None => None,
                                }
                            } else {
                                None
                            }
                        },
                        None => None,
                    }
                } else {
                    None
                }
            } else if kw::ke_copy(a.as_slice()) {
                if sp_at_x(f, j) {
                    match x_seqset(f, j + 1) {
                        Some((j2, set)) => {
                            if sp_at_x(f, j2) {
                                match x_mailbox(f, j2 + 1) {
                                    Some((e, m)) => Some(
                                        (e, CommandBody::Copy { sequence_set: set, mailbox: m }),
                                    ),
                                    None => None,
                                }
                            } else {
                                None
                            }
                        },
                        None => None,
                    }
                } else {
                    None
                }
            } else {
                None
            }
        },
    }
}

/// Each argument tail only parses when a SP follows the command name.
proof fn lemma_tails_sp(f: Seq<u8>, j: int)
    requires
        0 <= j <= f.len(),
    ensures
        p_status_tail(f, j) is Some ==> sp_at(f, j),
        p_append_tail(f, j) is Some ==> sp_at(f, j),
        p_store_tail(f, j) is Some ==> sp_at(f, j),
        p_search_tail(f, j) is Some ==> sp_at(f, j),
{
    reveal(p_status_tail);
    reveal(p_append_tail);
    reveal(p_store_tail);
    reveal(p_search_tail);
}

/// In a parsed command the name after `tag SP` is one of the accepted
/// command words, terminated by SP or the closing CR.
#[verifier::rlimit(100)]
#[verifier::spinoff_prover]
pub proof fn lemma_p_command_name(f: Seq<u8>)
    requires
        p_command(f) is Some,
    ensures
        match p_tag_token(f, 0) {
            Some((te, _)) => {
                &&& 0 < te < f.len()
                &&& sp_at(f, te)
                &&& match p_atom(f, te + 1) {
                    Some((j0, a)) => {
                        &&& j0 < f.len()
                        &&& (f[j0] == 0x20u8 || f[j0] == 13u8)
                        &&& (eq_ci(a, kw::kw_capability()) || eq_ci(a, kw::kw_noop()) || eq_ci(
                            a,
                            kw::kw_logout(),
                        ) || eq_ci(a, kw::kw_login()) || eq_ci(a, kw::kw_authenticate()) || eq_ci(
                            a,
                            kw::kw_select(),
                        ) || eq_ci(a, kw::kw_examine()) || eq_ci(a, kw::kw_create()) || eq_ci(
                            a,
                            kw::kw_delete(),
                        ) || eq_ci(a, kw::kw_rename()) || eq_ci(a, kw::kw_status()) || eq_ci(
                            a,
                            kw::kw_append(),
                        ) || eq_ci(a, kw::kw_store()) || eq_ci(a, kw::kw_search()) || eq_ci(
                            a,
                            kw::kw_fetch(),
                        ) || eq_ci(a, kw::kw_copy()))
                    },
                    None => false,
                }
            },
            None => false,
        },
{
    lemma_tok_bounds(f, 0);
    if let Some((te, _)) = p_tag_token(f, 0) {
        if sp_at(f, te) {
            lemma_tok_bounds(f, te + 1);
            crate::tok::lemma_atom_end_bounds_pub(f, te + 1);
            lemma_tails_sp(f, crate::tok::atom_end(f, te + 1));
        }
    }
}

/// In a parsed command whose name is followed by SP, the next byte opens
/// an argument: an astring atom, a quoted string, a literal, or `*`.
#[verifier::rlimit(100)]
#[verifier::spinoff_prover]
pub proof fn lemma_p_command_arg(f: Seq<u8>)
    requires
        p_command(f) is Some,
    ensures
        match p_tag_token(f, 0) {
            Some((te, _)) => match p_atom(f, te + 1) {
                Some((j0, _)) => f[j0] == 0x20u8 ==> j0 + 1 < f.len()
                    && crate::viable::arg_start_ok(f[j0 + 1]),
                None => true,
            },
            None => true,
        },
{
    reveal(p_status_tail);
    reveal(p_append_tail);
    reveal(p_store_tail);
    reveal(p_search_tail);
    lemma_tok_bounds(f, 0);
    if let Some((te, _)) = p_tag_token(f, 0) {
        if sp_at(f, te) {
            lemma_tok_bounds(f, te + 1);
            if let Some((j0, a)) = p_atom(f, te + 1) {
                if sp_at(f, j0) {
                    lemma_tok_bounds(f, j0 + 1);
                }
            }
        }
    }
}

/// Parses one complete command frame into a typed command.
pub fn x_command(f: &[u8]) -> (r: Option<Command>)
    ensures
        match (r, p_command(f@)) {
            (Some(v), Some(vm)) => command_m(v) == vm,
            (None, None) => true,
            _ => false,
        },
{
    let n = f.len();
    match x_tag_token(f, 0) {
        Some((te, tagb)) => {
            if !sp_at_x(f, te) {
                return None;
            }
            match x_command_body(f, te + 1) {
                Some((j, body)) => {
                    if crate::tok::crlf_at_x(f, j) && j + 2 == n {
                        Some(Command { tag: Tag { bytes: tagb }, body })
                    } else {
                        None
                    }
                },
                None => None,
            }
        },
        None => None,
    }
}

} // verus!
