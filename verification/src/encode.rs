//! Encoding: typed messages back into wire bytes, split into fragments.
//!
//! A message is first flattened into a sequence of emissions: plain byte
//! runs and literal payloads.  Assembly folds the emissions into fragments:
//! a literal closes the current line with its announcement `{n}` (or
//! `{n+}`) and CRLF; a synchronizing payload becomes a `Literal` fragment
//! that must wait for the peer's continuation, a non-synchronizing payload
//! is a further `Line`.  The final line is closed with CRLF.

use vstd::prelude::*;
use crate::kw;
use crate::types::{
    astr_m, istr_m, mailbox_m, AString, AStrM, Command, CommandBody, CommandBodyM, CommandM,
    FetchArgs, FetchArgsM, FetchAtt, FetchAttM, FragM, Fragment, frag_m, frags_m, IString, IStrM,
    LiteralMode, Mailbox, MailboxM, Msgtext, MsgtextM, PartText, PartTextM, Section, SectionM,
    SeqItem, SeqNum, astrs_m, fetch_att_m, fetch_atts_m, msgtext_m, part_text_m, section_m,
    osection_m,
};

verus! {

broadcast use
    vstd::slice::axiom_spec_len,
    vstd::std_specs::vec::axiom_vec_decreases_to_view,
    vstd::std_specs::vec::axiom_vec_index_decreases,
    vstd::seq::axiom_seq_index_decreases,
;

// ---------------------------------------------------------------------------
// byte-level pieces
// ---------------------------------------------------------------------------

/// Decimal digits of `n`, most significant first.
pub open spec fn dec_digits(n: int) -> Seq<u8>
    decreases n,
{
    if n < 10 {
        seq![(0x30 + if n >= 0 {
            n
        } else {
            0
        }) as u8]
    } else {
        dec_digits(n / 10).push((0x30 + n % 10) as u8)
    }
}

pub fn v_num(n: u32) -> (r: Vec<u8>)
    ensures
        r@ == dec_digits(n as int),
    decreases n,
{
    if n < 10 {
        let mut v: Vec<u8> = Vec::new();
        v.push(0x30 + n as u8);
        assert(v@ =~= dec_digits(n as int));
        v
    } else {
        let mut v = v_num(n / 10);
        v.push(0x30 + (n % 10) as u8);
        assert(v@ =~= dec_digits(n as int));
        v
    }
}

pub fn v_num_us(n: usize) -> (r: Vec<u8>)
    ensures
        r@ == dec_digits(n as int),
    decreases n,
{
    if n < 10 {
        let mut v: Vec<u8> = Vec::new();
        v.push(0x30 + n as u8);
        assert(v@ =~= dec_digits(n as int));
        v
    } else {
        let mut v = v_num_us(n / 10);
        v.push(0x30 + (n % 10) as u8);
        assert(v@ =~= dec_digits(n as int));
        v
    }
}

/// Quoted-string escaping: `"` and `\` get a leading backslash.
pub open spec fn esc_q(q: Seq<u8>) -> Seq<u8>
    decreases q.len(),
{
    if q.len() == 0 {
        Seq::empty()
    } else {
        let h = if q[0] == 0x22u8 || q[0] == 0x5cu8 {
            seq![0x5cu8, q[0]]
        } else {
            seq![q[0]]
        };
        h + esc_q(q.drop_first())
    }
}

pub fn v_esc_q(q: &[u8]) -> (r: Vec<u8>)
    ensures
        r@ == esc_q(q@),
{
    let mut out: Vec<u8> = Vec::new();
    let mut k: usize = 0;
    proof {
        assert(q@.skip(0) =~= q@);
        assert(out@ + esc_q(q@) =~= esc_q(q@));
    }
    while k < q.len()
        invariant
            k <= q@.len(),
            out@ + esc_q(q@.skip(k as int)) =~= esc_q(q@),
        decreases q@.len() - k,
    {
        proof {
            assert(q@.skip(k as int).len() > 0);
            assert(q@.skip(k as int)[0] == q@[k as int]);
            assert(q@.skip(k as int).drop_first() =~= q@.skip(k + 1));
        }
        let b = q[k];
        if b == 0x22 || b == 0x5c {
            out.push(0x5c);
            out.push(b);
        } else {
            out.push(b);
        }
        proof {
            assert(out@ + esc_q(q@.skip(k + 1)) =~= esc_q(q@));
        }
        k += 1;
    }
    proof {
        assert(q@.skip(q@.len() as int) =~= Seq::<u8>::empty());
        assert(out@ + Seq::<u8>::empty() =~= out@);
    }
    out
}

/// A copy of a byte vector, via its slice view.
fn dup(v: &Vec<u8>) -> (r: Vec<u8>)
    ensures
        r@ == v@,
{
    vstd::slice::slice_to_vec(v.as_slice())
}

// ---------------------------------------------------------------------------
// emissions
// ---------------------------------------------------------------------------

/// One emission: a plain byte run or a literal payload.
pub enum Emit {
    B(Vec<u8>),
    L(Vec<u8>, LiteralMode),
}

pub enum EmitM {
    B(Seq<u8>),
    L(Seq<u8>, LiteralMode),
}

pub open spec fn emit_m(e: Emit) -> EmitM {
    match e {
        Emit::B(v) => EmitM::B(v@),
        Emit::L(v, m) => EmitM::L(v@, m),
    }
}

pub open spec fn emits_m(v: Seq<Emit>) -> Seq<EmitM> {
    Seq::new(v.len(), |i: int| emit_m(v[i]))
}

pub proof fn lemma_emits_m_push(v: Seq<Emit>, x: Emit)
    ensures
        emits_m(v.push(x)) =~= emits_m(v).push(emit_m(x)),
{
}

/// Emissions of an IMAP string.
pub open spec fn emits_istr(s: IStrM) -> Seq<EmitM> {
    match s {
        IStrM::Quoted(q) => seq![EmitM::B(seq![0x22u8] + esc_q(q) + seq![0x22u8])],
        IStrM::Literal { data, mode } => seq![EmitM::L(data, mode)],
    }
}

pub open spec fn emits_astr(a: AStrM) -> Seq<EmitM> {
    match a {
        AStrM::Atom(x) => seq![EmitM::B(x)],
        AStrM::Str(s) => emits_istr(s),
    }
}

pub open spec fn emits_mailbox(m: MailboxM) -> Seq<EmitM> {
    match m {
        MailboxM::Inbox => seq![EmitM::B(kw::kw_inbox())],
        MailboxM::Other(a) => emits_astr(a),
    }
}

/// A byte-run builder used while flattening: pushing an `Emit::B` run.
fn push_b(out: &mut Vec<Emit>, v: Vec<u8>)
    ensures
        emits_m(final(out)@) =~= emits_m(old(out)@).push(EmitM::B(v@)),
{
    let ghost vv = v@;
    out.push(Emit::B(v));
    proof {
        lemma_emits_m_push(old(out)@, Emit::B(v));
    }
}

/// Pushes a literal emission.
fn push_lit(out: &mut Vec<Emit>, d: Vec<u8>, m: LiteralMode)
    ensures
        emits_m(final(out)@) =~= emits_m(old(out)@).push(EmitM::L(d@, m)),
{
    let ghost dv = d@;
    out.push(Emit::L(d, m));
    proof {
        lemma_emits_m_push(old(out)@, Emit::L(d, m));
    }
}

fn push_istr(out: &mut Vec<Emit>, s: &IString)
    ensures
        emits_m(final(out)@) =~= emits_m(old(out)@) + emits_istr(istr_m(*s)),
{
    match s {
        IString::Quoted(q) => {
            let mut b: Vec<u8> = Vec::new();
            b.push(0x22);
            let mut e = v_esc_q(q.as_slice());
            b.append(&mut e);
            b.push(0x22);
            assert(b@ =~= seq![0x22u8] + esc_q(q@) + seq![0x22u8]);
            push_b(out, b);
            assert(emits_m(out@) =~= emits_m(old(out)@) + emits_istr(istr_m(*s)));
        },
        IString::Literal { data, mode } => {
            let d = dup(data);
            let ghost x = Emit::L(d, *mode);
            out.push(Emit::L(d, *mode));
            proof {
                lemma_emits_m_push(old(out)@, x);
                assert(emits_m(out@) =~= emits_m(old(out)@) + emits_istr(istr_m(*s)));
            }
        },
    }
}

fn push_astr(out: &mut Vec<Emit>, a: &AString)
    ensures
        emits_m(final(out)@) =~= emits_m(old(out)@) + emits_astr(astr_m(*a)),
{
    match a {
        AString::Atom(x) => {
            push_b(out, dup(x));
            assert(emits_m(out@) =~= emits_m(old(out)@) + emits_astr(astr_m(*a)));
        },
        AString::Str(s) => {
            push_istr(out, s);
        },
    }
}

fn push_mailbox(out: &mut Vec<Emit>, m: &Mailbox)
    ensures
        emits_m(final(out)@) =~= emits_m(old(out)@) + emits_mailbox(mailbox_m(*m)),
{
    match m {
        Mailbox::Inbox => {
            let w: Vec<u8> = vstd::slice::slice_to_vec(&[73u8, 78u8, 66u8, 79u8, 88u8]);
            assert(w@ =~= kw::kw_inbox());
            push_b(out, w);
            assert(emits_m(out@) =~= emits_m(old(out)@) + emits_mailbox(mailbox_m(*m)));
        },
        Mailbox::Other(a) => {
            push_astr(out, a);
        },
    }
}

// ---------------------------------------------------------------------------
// assembly into fragments
// ---------------------------------------------------------------------------

/// The literal announcement closing a line: `{n}` or `{n+}` then CRLF.
pub open spec fn ann(len: int, plus: bool) -> Seq<u8> {
    seq![0x7bu8] + dec_digits(len) + (if plus {
        seq![0x2bu8]
    } else {
        Seq::<u8>::empty()
    }) + seq![0x7du8, 13u8, 10u8]
}

/// Folds emissions into fragments; `cur` is the line being built.
pub open spec fn fold_emits(es: Seq<EmitM>, frags: Seq<FragM>, cur: Seq<u8>) -> Seq<FragM>
    decreases es.len(),
{
    if es.len() == 0 {
        frags.push(FragM::Line { data: cur + seq![13u8, 10u8] })
    } else {
        match es[0] {
            EmitM::B(b) => fold_emits(es.drop_first(), frags, cur + b),
            EmitM::L(d, LiteralMode::Sync) => fold_emits(
                es.drop_first(),
                frags.push(FragM::Line { data: cur + ann(d.len() as int, false) }).push(
                    FragM::Literal { data: d, mode: LiteralMode::Sync },
                ),
                Seq::empty(),
            ),
            EmitM::L(d, LiteralMode::NonSync) => fold_emits(
                es.drop_first(),
                frags.push(FragM::Line { data: cur + ann(d.len() as int, true) }).push(
                    FragM::Line { data: d },
                ),
                Seq::empty(),
            ),
        }
    }
}

/// The bytes of a fragment sequence, concatenated.
pub open spec fn frags_bytes(fs: Seq<FragM>) -> Seq<u8>
    decreases fs.len(),
{
    if fs.len() == 0 {
        Seq::empty()
    } else {
        (match fs[0] {
            FragM::Line { data } => data,
            FragM::Literal { data, .. } => data,
        }) + frags_bytes(fs.drop_first())
    }
}

pub proof fn lemma_frags_m_push(v: Seq<Fragment>, x: Fragment)
    ensures
        frags_m(v.push(x)) =~= frags_m(v).push(frag_m(x)),
{
}

/// Exec assembly: folds emissions into fragments.
fn assemble(es: Vec<Emit>) -> (r: Vec<Fragment>)
    ensures
        frags_m(r@) =~= fold_emits(emits_m(es@), Seq::empty(), Seq::empty()),
{
    let mut frags: Vec<Fragment> = Vec::new();
    let mut cur: Vec<u8> = Vec::new();
    let n = es.len();
    let mut k: usize = 0;
    proof {
        assert(frags_m(frags@) =~= Seq::<FragM>::empty());
        assert(emits_m(es@).skip(0) =~= emits_m(es@));
    }
    while k < n
        invariant
            k <= n == es@.len(),
            fold_emits(emits_m(es@), Seq::empty(), Seq::empty()) == fold_emits(
                emits_m(es@).skip(k as int),
                frags_m(frags@),
                cur@,
            ),
        decreases n - k,
    {
        proof {
            assert(emits_m(es@).skip(k as int).len() > 0);
            assert(emits_m(es@).skip(k as int)[0] == emit_m(es@[k as int]));
            assert(emits_m(es@).skip(k as int).drop_first() =~= emits_m(es@).skip(k + 1));
        }
        match &es[k] {
            Emit::B(b) => {
                let ghost cur0 = cur@;
                let mut bb = dup(b);
                cur.append(&mut bb);
                proof {
                    assert(cur@ =~= cur0 + b@);
                }
            },
            Emit::L(d, m) => {
                let dd = dup(d);
                let mm = *m;
                let mut line = cur;
                cur = Vec::new();
                let ghost line0 = line@;
                line.push(0x7b);
                let mut digits = v_num_us(d.len());
                line.append(&mut digits);
                match mm {
                    LiteralMode::Sync => {
                        line.push(0x7d);
                        line.push(13);
                        line.push(10);
                        proof {
                            assert(line@ =~= line0 + ann(d@.len() as int, false));
                        }
                        let ghost f0 = frags@;
                        let lf = Fragment::Line { data: line };
                        frags.push(lf);
                        proof {
                            lemma_frags_m_push(f0, lf);
                        }
                        let ghost f1 = frags@;
                        let tf = Fragment::Literal { data: dd, mode: LiteralMode::Sync };
                        frags.push(tf);
                        proof {
                            lemma_frags_m_push(f1, tf);
                        }
                    },
                    LiteralMode::NonSync => {
                        line.push(0x2b);
                        line.push(0x7d);
                        line.push(13);
                        line.push(10);
                        proof {
                            assert(line@ =~= line0 + ann(d@.len() as int, true));
                        }
                        let ghost f0 = frags@;
                        let lf = Fragment::Line { data: line };
                        frags.push(lf);
                        proof {
                            lemma_frags_m_push(f0, lf);
                        }
                        let ghost f1 = frags@;
                        let tf = Fragment::Line { data: dd };
                        frags.push(tf);
                        proof {
                            lemma_frags_m_push(f1, tf);
                        }
                    },
                }
            },
        }
        k += 1;
    }
    proof {
        assert(emits_m(es@).skip(n as int).len() == 0);
    }
    let ghost f0 = frags@;
    let ghost cur0 = cur@;
    let mut line = cur;
    line.push(13);
    line.push(10);
    proof {
        assert(line@ =~= cur0 + seq![13u8, 10u8]);
    }
    let lf = Fragment::Line { data: line };
    frags.push(lf);
    proof {
        lemma_frags_m_push(f0, lf);
        assert(fold_emits(emits_m(es@).skip(n as int), frags_m(f0), cur0) == frags_m(f0).push(
            FragM::Line { data: cur0 + seq![13u8, 10u8] },
        ));
        assert(frags_m(frags@) =~= fold_emits(emits_m(es@), Seq::empty(), Seq::empty()));
    }
    frags
}


// ---------------------------------------------------------------------------
// response codes and greetings (byte-only encodings)
// ---------------------------------------------------------------------------

/// `1*(SP atom)` from index `k`.
pub open spec fn enc_caps_from(v: Seq<Seq<u8>>, k: int) -> Seq<u8>
    decreases v.len() - k,
{
    if 0 <= k < v.len() {
        seq![0x20u8] + v[k] + enc_caps_from(v, k + 1)
    } else {
        Seq::empty()
    }
}

fn v_caps(v: &Vec<Vec<u8>>, k: usize) -> (r: Vec<u8>)
    requires
        k <= v@.len(),
    ensures
        r@ == enc_caps_from(crate::types::atoms_m(v@), k as int),
    decreases v@.len() - k,
{
    if k < v.len() {
        let mut out: Vec<u8> = Vec::new();
        out.push(0x20);
        let mut h = dup(&v[k]);
        out.append(&mut h);
        let mut t = v_caps(v, k + 1);
        out.append(&mut t);
        proof {
            assert(crate::types::atoms_m(v@)[k as int] == v@[k as int]@);
            assert(out@ =~= enc_caps_from(crate::types::atoms_m(v@), k as int));
        }
        out
    } else {
        Vec::new()
    }
}

/// One flag: system flags with a backslash, keywords bare.
pub open spec fn enc_flag(f: crate::types::FlagM) -> Seq<u8> {
    match f {
        crate::types::FlagM::Answered => seq![0x5cu8] + kw::kw_answered(),
        crate::types::FlagM::Deleted => seq![0x5cu8] + kw::kw_deleted(),
        crate::types::FlagM::Draft => seq![0x5cu8] + kw::kw_draft(),
        crate::types::FlagM::Flagged => seq![0x5cu8] + kw::kw_flagged(),
        crate::types::FlagM::Seen => seq![0x5cu8] + kw::kw_seen(),
        crate::types::FlagM::Recent => seq![0x5cu8] + kw::kw_recent(),
        crate::types::FlagM::Keyword(a) => a,
        crate::types::FlagM::Extension(a) => seq![0x5cu8] + a,
    }
}

fn v_flag(f: &crate::types::Flag) -> (r: Vec<u8>)
    ensures
        r@ == enc_flag(crate::types::flag_m(*f)),
{
    let mut out: Vec<u8> = Vec::new();
    match f {
        crate::types::Flag::Answered => {
            out.push(0x5c);
            let mut w = vstd::slice::slice_to_vec(&[65u8, 78, 83, 87, 69, 82, 69, 68]);
            out.append(&mut w);
            assert(out@ =~= seq![0x5cu8] + kw::kw_answered());
        },
        crate::types::Flag::Deleted => {
            out.push(0x5c);
            let mut w = vstd::slice::slice_to_vec(&[68u8, 69, 76, 69, 84, 69, 68]);
            out.append(&mut w);
            assert(out@ =~= seq![0x5cu8] + kw::kw_deleted());
        },
        crate::types::Flag::Draft => {
            out.push(0x5c);
            let mut w = vstd::slice::slice_to_vec(&[68u8, 82, 65, 70, 84]);
            out.append(&mut w);
            assert(out@ =~= seq![0x5cu8] + kw::kw_draft());
        },
        crate::types::Flag::Flagged => {
            out.push(0x5c);
            let mut w = vstd::slice::slice_to_vec(&[70u8, 76, 65, 71, 71, 69, 68]);
            out.append(&mut w);
            assert(out@ =~= seq![0x5cu8] + kw::kw_flagged());
        },
        crate::types::Flag::Seen => {
            out.push(0x5c);
            let mut w = vstd::slice::slice_to_vec(&[83u8, 69, 69, 78]);
            out.append(&mut w);
            assert(out@ =~= seq![0x5cu8] + kw::kw_seen());
        },
        crate::types::Flag::Recent => {
            out.push(0x5c);
            let mut w = vstd::slice::slice_to_vec(&[82u8, 69, 67, 69, 78, 84]);
            out.append(&mut w);
            assert(out@ =~= seq![0x5cu8] + kw::kw_recent());
        },
        crate::types::Flag::Keyword(a) => {
            let mut w = dup(a);
            out.append(&mut w);
            assert(out@ =~= enc_flag(crate::types::flag_m(*f)));
        },
        crate::types::Flag::Extension(a) => {
            out.push(0x5c);
            let mut w = dup(a);
            out.append(&mut w);
            assert(out@ =~= seq![0x5cu8] + a@);
        },
    }
    out
}

pub open spec fn enc_fperm(f: crate::types::FlagPermM) -> Seq<u8> {
    match f {
        crate::types::FlagPermM::Flag(g) => enc_flag(g),
        crate::types::FlagPermM::Asterisk => seq![0x5cu8, 0x2au8],
    }
}

/// Space-separated permanent flags from index `k`.
pub open spec fn enc_fperms_from(v: Seq<crate::types::FlagPermM>, k: int) -> Seq<u8>
    decreases v.len() - k,
{
    if 0 <= k < v.len() {
        (if k > 0 {
            seq![0x20u8]
        } else {
            Seq::<u8>::empty()
        }) + enc_fperm(v[k]) + enc_fperms_from(v, k + 1)
    } else {
        Seq::empty()
    }
}

fn v_fperms(v: &Vec<crate::types::FlagPerm>, k: usize) -> (r: Vec<u8>)
    requires
        k <= v@.len(),
    ensures
        r@ == enc_fperms_from(crate::types::flags_perm_m(v@), k as int),
    decreases v@.len() - k,
{
    if k < v.len() {
        let mut out: Vec<u8> = Vec::new();
        if k > 0 {
            out.push(0x20);
        }
        let mut h = match &v[k] {
            crate::types::FlagPerm::Flag(g) => v_flag(g),
            crate::types::FlagPerm::Asterisk => {
                let w: Vec<u8> = vstd::slice::slice_to_vec(&[0x5cu8, 0x2au8]);
                w
            },
        };
        out.append(&mut h);
        let mut t = v_fperms(v, k + 1);
        out.append(&mut t);
        proof {
            assert(crate::types::flags_perm_m(v@)[k as int] == crate::types::flag_perm_m(
                v@[k as int],
            ));
            assert(out@ =~= enc_fperms_from(crate::types::flags_perm_m(v@), k as int));
        }
        out
    } else {
        Vec::new()
    }
}

/// A status-response code, without the surrounding brackets.
pub open spec fn enc_code(c: crate::types::CodeM) -> Seq<u8> {
    match c {
        crate::types::CodeM::Alert => kw::kw_alert(),
        crate::types::CodeM::Parse => kw::kw_parse(),
        crate::types::CodeM::ReadOnly => kw::kw_read_only(),
        crate::types::CodeM::ReadWrite => kw::kw_read_write(),
        crate::types::CodeM::TryCreate => kw::kw_trycreate(),
        crate::types::CodeM::UidNext(n) => kw::kw_uidnext() + seq![0x20u8] + dec_digits(n as int),
        crate::types::CodeM::UidValidity(n) => kw::kw_uidvalidity() + seq![0x20u8] + dec_digits(
            n as int,
        ),
        crate::types::CodeM::Unseen(n) => kw::kw_unseen() + seq![0x20u8] + dec_digits(n as int),
        crate::types::CodeM::Capability(v) => kw::kw_capability() + enc_caps_from(v, 0),
        crate::types::CodeM::PermanentFlags(v) => kw::kw_permanentflags() + seq![0x20u8, 0x28u8]
            + enc_fperms_from(v, 0) + seq![0x29u8],
        crate::types::CodeM::Other(a, t) => a + (match t {
            Some(x) => seq![0x20u8] + x,
            None => Seq::<u8>::empty(),
        }),
    }
}

#[verifier::rlimit(60)]
fn v_code(c: &crate::types::Code) -> (r: Vec<u8>)
    ensures
        r@ == enc_code(crate::types::code_m(*c)),
{
    let mut out: Vec<u8> = Vec::new();
    match c {
        crate::types::Code::Alert => {
            let mut w = vstd::slice::slice_to_vec(&[65u8, 76, 69, 82, 84]);
            out.append(&mut w);
            assert(out@ =~= kw::kw_alert());
        },
        crate::types::Code::Parse => {
            let mut w = vstd::slice::slice_to_vec(&[80u8, 65, 82, 83, 69]);
            out.append(&mut w);
            assert(out@ =~= kw::kw_parse());
        },
        crate::types::Code::ReadOnly => {
            let mut w = vstd::slice::slice_to_vec(&[82u8, 69, 65, 68, 45, 79, 78, 76, 89]);
            out.append(&mut w);
            assert(out@ =~= kw::kw_read_only());
        },
        crate::types::Code::ReadWrite => {
            let mut w = vstd::slice::slice_to_vec(&[82u8, 69, 65, 68, 45, 87, 82, 73, 84, 69]);
            out.append(&mut w);
            assert(out@ =~= kw::kw_read_write());
        },
        crate::types::Code::TryCreate => {
            let mut w = vstd::slice::slice_to_vec(&[84u8, 82, 89, 67, 82, 69, 65, 84, 69]);
            out.append(&mut w);
            assert(out@ =~= kw::kw_trycreate());
        },
        crate::types::Code::UidNext(n) => {
            let mut w = vstd::slice::slice_to_vec(&[85u8, 73, 68, 78, 69, 88, 84]);
            out.append(&mut w);
            out.push(0x20);
            let mut d = v_num(*n);
            out.append(&mut d);
            assert(out@ =~= kw::kw_uidnext() + seq![0x20u8] + dec_digits(*n as int));
        },
        crate::types::Code::UidValidity(n) => {
            let mut w = vstd::slice::slice_to_vec(
                &[85u8, 73, 68, 86, 65, 76, 73, 68, 73, 84, 89],
            );
            out.append(&mut w);
            out.push(0x20);
            let mut d = v_num(*n);
            out.append(&mut d);
            assert(out@ =~= kw::kw_uidvalidity() + seq![0x20u8] + dec_digits(*n as int));
        },
        crate::types::Code::Unseen(n) => {
            let mut w = vstd::slice::slice_to_vec(&[85u8, 78, 83, 69, 69, 78]);
            out.append(&mut w);
            out.push(0x20);
            let mut d = v_num(*n);
            out.append(&mut d);
            assert(out@ =~= kw::kw_unseen() + seq![0x20u8] + dec_digits(*n as int));
        },
        crate::types::Code::Capability(v) => {
            let mut w = vstd::slice::slice_to_vec(&[67u8, 65, 80, 65, 66, 73, 76, 73, 84, 89]);
            out.append(&mut w);
            let mut t = v_caps(v, 0);
            out.append(&mut t);
            assert(out@ =~= kw::kw_capability() + enc_caps_from(crate::types::atoms_m(v@), 0));
        },
        crate::types::Code::PermanentFlags(v) => {
            let mut w = vstd::slice::slice_to_vec(
                &[80u8, 69, 82, 77, 65, 78, 69, 78, 84, 70, 76, 65, 71, 83],
            );
            out.append(&mut w);
            out.push(0x20);
            out.push(0x28);
            let mut t = v_fperms(v, 0);
            out.append(&mut t);
            out.push(0x29);
            assert(out@ =~= kw::kw_permanentflags() + seq![0x20u8, 0x28u8] + enc_fperms_from(
                crate::types::flags_perm_m(v@),
                0,
            ) + seq![0x29u8]);
        },
        crate::types::Code::Other(a, t) => {
            let mut w = dup(a);
            out.append(&mut w);
            match t {
                Some(x) => {
                    out.push(0x20);
                    let mut y = dup(x);
                    out.append(&mut y);
                    assert(out@ =~= a@ + (seq![0x20u8] + x@));
                },
                None => {
                    assert(out@ =~= a@ + Seq::<u8>::empty());
                },
            }
        },
    }
    out
}

/// The full wire bytes of a greeting.
pub open spec fn enc_greeting(g: crate::types::GreetingM) -> Seq<u8> {
    seq![0x2au8, 0x20u8] + (match g.kind {
        crate::types::GreetingKind::Okay => kw::kw_ok(),
        crate::types::GreetingKind::PreAuth => kw::kw_preauth(),
        crate::types::GreetingKind::Bye => kw::kw_bye(),
    }) + seq![0x20u8] + (match g.code {
        Some(c) => seq![0x5bu8] + enc_code(c) + seq![0x5du8, 0x20u8],
        None => Seq::<u8>::empty(),
    }) + g.text + seq![13u8, 10u8]
}

/// Encodes a greeting into its wire bytes.
pub fn encode_greeting_bytes(g: &crate::types::Greeting) -> (r: Vec<u8>)
    requires
        crate::types::greeting_wf(crate::types::greeting_m(*g)),
    ensures
        r@ == enc_greeting(crate::types::greeting_m(*g)),
{
    let mut out: Vec<u8> = Vec::new();
    out.push(0x2a);
    out.push(0x20);
    match g.kind {
        crate::types::GreetingKind::Okay => {
            let mut w = vstd::slice::slice_to_vec(&[79u8, 75]);
            out.append(&mut w);
        },
        crate::types::GreetingKind::PreAuth => {
            let mut w = vstd::slice::slice_to_vec(&[80u8, 82, 69, 65, 85, 84, 72]);
            out.append(&mut w);
        },
        crate::types::GreetingKind::Bye => {
            let mut w = vstd::slice::slice_to_vec(&[66u8, 89, 69]);
            out.append(&mut w);
        },
    }
    out.push(0x20);
    match &g.code {
        Some(c) => {
            out.push(0x5b);
            let mut cb = v_code(c);
            out.append(&mut cb);
            out.push(0x5d);
            out.push(0x20);
        },
        None => {},
    }
    let mut t = dup(&g.text);
    out.append(&mut t);
    out.push(13);
    out.push(10);
    proof {
        assert(out@ =~= enc_greeting(crate::types::greeting_m(*g)));
    }
    out
}


// ---------------------------------------------------------------------------
// command emissions
// ---------------------------------------------------------------------------

pub open spec fn enc_seq_num(n: SeqNum) -> Seq<u8> {
    match n {
        SeqNum::Num(v) => dec_digits(v as int),
        SeqNum::Star => seq![0x2au8],
    }
}

pub open spec fn enc_seq_item(x: SeqItem) -> Seq<u8> {
    match x {
        SeqItem::Single(n) => enc_seq_num(n),
        SeqItem::Range(a, b) => enc_seq_num(a) + seq![0x3au8] + enc_seq_num(b),
    }
}

/// Comma-separated sequence set from index `k`.
pub open spec fn enc_seqset_from(v: Seq<SeqItem>, k: int) -> Seq<u8>
    decreases v.len() - k,
{
    if 0 <= k < v.len() {
        (if k > 0 {
            seq![0x2cu8]
        } else {
            Seq::<u8>::empty()
        }) + enc_seq_item(v[k]) + enc_seqset_from(v, k + 1)
    } else {
        Seq::empty()
    }
}

fn v_seq_num(n: &SeqNum) -> (r: Vec<u8>)
    ensures
        r@ == enc_seq_num(*n),
{
    match n {
        SeqNum::Num(v) => v_num(*v),
        SeqNum::Star => {
            let mut out: Vec<u8> = Vec::new();
            out.push(0x2a);
            assert(out@ =~= seq![0x2au8]);
            out
        },
    }
}

fn v_seqset(v: &Vec<SeqItem>, k: usize) -> (r: Vec<u8>)
    requires
        k <= v@.len(),
    ensures
        r@ == enc_seqset_from(v@, k as int),
    decreases v@.len() - k,
{
    if k < v.len() {
        let mut out: Vec<u8> = Vec::new();
        if k > 0 {
            out.push(0x2c);
        }
        match &v[k] {
            SeqItem::Single(n) => {
                let mut h = v_seq_num(n);
                out.append(&mut h);
            },
            SeqItem::Range(a, b) => {
                let mut h = v_seq_num(a);
                out.append(&mut h);
                out.push(0x3a);
                let mut t2 = v_seq_num(b);
                out.append(&mut t2);
            },
        }
        let mut t = v_seqset(v, k + 1);
        out.append(&mut t);
        proof {
            assert(out@ =~= enc_seqset_from(v@, k as int));
        }
        out
    } else {
        Vec::new()
    }
}

/// Space-separated astrings (a header list's fields) from index `k`.
pub open spec fn emits_astrs_from(v: Seq<AStrM>, k: int) -> Seq<EmitM>
    decreases v.len() - k,
{
    if 0 <= k < v.len() {
        (if k > 0 {
            seq![EmitM::B(seq![0x20u8])]
        } else {
            Seq::<EmitM>::empty()
        }) + emits_astr(v[k]) + emits_astrs_from(v, k + 1)
    } else {
        Seq::empty()
    }
}

fn push_sp(out: &mut Vec<Emit>)
    ensures
        emits_m(final(out)@) =~= emits_m(old(out)@).push(EmitM::B(seq![0x20u8])),
{
    let mut w: Vec<u8> = Vec::new();
    w.push(0x20);
    assert(w@ =~= seq![0x20u8]);
    push_b(out, w);
}

fn push_astrs(out: &mut Vec<Emit>, v: &Vec<AString>, k: usize)
    requires
        k <= v@.len(),
    ensures
        emits_m(final(out)@) =~= emits_m(old(out)@) + emits_astrs_from(astrs_m(v@), k as int),
    decreases v@.len() - k,
{
    if k < v.len() {
        if k > 0 {
            push_sp(out);
        }
        push_astr(out, &v[k]);
        push_astrs(out, v, k + 1);
        proof {
            assert(astrs_m(v@)[k as int] == astr_m(v@[k as int]));
            assert(emits_m(final(out)@) =~= emits_m(old(out)@) + emits_astrs_from(
                astrs_m(v@),
                k as int,
            ));
        }
    } else {
        assert(emits_m(final(out)@) =~= emits_m(old(out)@) + Seq::<EmitM>::empty());
    }
}

/// Emissions of `section-msgtext`.
pub open spec fn emits_msgtext(m: MsgtextM) -> Seq<EmitM> {
    match m {
        MsgtextM::Header => seq![EmitM::B(kw::kw_header())],
        MsgtextM::Text => seq![EmitM::B(kw::kw_text())],
        MsgtextM::HeaderFields(v) => seq![
            EmitM::B(kw::kw_header_fields() + seq![0x20u8, 0x28u8]),
        ] + emits_astrs_from(v, 0) + seq![EmitM::B(seq![0x29u8])],
        MsgtextM::HeaderFieldsNot(v) => seq![
            EmitM::B(kw::kw_header_fields_not() + seq![0x20u8, 0x28u8]),
        ] + emits_astrs_from(v, 0) + seq![EmitM::B(seq![0x29u8])],
    }
}

fn push_msgtext(out: &mut Vec<Emit>, m: &Msgtext)
    ensures
        emits_m(final(out)@) =~= emits_m(old(out)@) + emits_msgtext(msgtext_m(*m)),
{
    match m {
        Msgtext::Header => {
            let w = vstd::slice::slice_to_vec(&[72u8, 69, 65, 68, 69, 82]);
            assert(w@ =~= kw::kw_header());
            push_b(out, w);
        },
        Msgtext::Text => {
            let w = vstd::slice::slice_to_vec(&[84u8, 69, 88, 84]);
            assert(w@ =~= kw::kw_text());
            push_b(out, w);
        },
        Msgtext::HeaderFields(v) => {
            let mut w = vstd::slice::slice_to_vec(
                &[72u8, 69, 65, 68, 69, 82, 46, 70, 73, 69, 76, 68, 83],
            );
            w.push(0x20);
            w.push(0x28);
            assert(w@ =~= kw::kw_header_fields() + seq![0x20u8, 0x28u8]);
            push_b(out, w);
            push_astrs(out, v, 0);
            let mut c: Vec<u8> = Vec::new();
            c.push(0x29);
            assert(c@ =~= seq![0x29u8]);
            push_b(out, c);
            proof {
                assert(emits_m(final(out)@) =~= emits_m(old(out)@) + emits_msgtext(
                    msgtext_m(*m),
                ));
            }
        },
        Msgtext::HeaderFieldsNot(v) => {
            let mut w = vstd::slice::slice_to_vec(
                &[72u8, 69, 65, 68, 69, 82, 46, 70, 73, 69, 76, 68, 83, 46, 78, 79, 84],
            );
            w.push(0x20);
            w.push(0x28);
            assert(w@ =~= kw::kw_header_fields_not() + seq![0x20u8, 0x28u8]);
            push_b(out, w);
            push_astrs(out, v, 0);
            let mut c: Vec<u8> = Vec::new();
            c.push(0x29);
            assert(c@ =~= seq![0x29u8]);
            push_b(out, c);
            proof {
                assert(emits_m(final(out)@) =~= emits_m(old(out)@) + emits_msgtext(
                    msgtext_m(*m),
                ));
            }
        },
    }
}

/// Emissions of a `section`, brackets included.
pub open spec fn emits_section(s: Option<SectionM>) -> Seq<EmitM> {
    seq![EmitM::B(seq![0x5bu8])] + (match s {
        None => Seq::<EmitM>::empty(),
        Some(SectionM::Msgtext(m)) => emits_msgtext(m),
        Some(SectionM::Part { part, text }) => seq![EmitM::B(enc_part_from(part, 0))] + (match text {
            Some(PartTextM::Mime) => seq![EmitM::B(seq![0x2eu8] + kw::kw_mime())],
            Some(PartTextM::Msgtext(m)) => seq![EmitM::B(seq![0x2eu8])] + emits_msgtext(m),
            None => Seq::<EmitM>::empty(),
        }),
    }) + seq![EmitM::B(seq![0x5du8])]
}

/// The dotted part path from index `k`.
pub open spec fn enc_part_from(v: Seq<u32>, k: int) -> Seq<u8>
    decreases v.len() - k,
{
    if 0 <= k < v.len() {
        (if k > 0 {
            seq![0x2eu8]
        } else {
            Seq::<u8>::empty()
        }) + dec_digits(v[k] as int) + enc_part_from(v, k + 1)
    } else {
        Seq::empty()
    }
}

fn v_part(v: &Vec<u32>, k: usize) -> (r: Vec<u8>)
    requires
        k <= v@.len(),
    ensures
        r@ == enc_part_from(v@, k as int),
    decreases v@.len() - k,
{
    if k < v.len() {
        let mut out: Vec<u8> = Vec::new();
        if k > 0 {
            out.push(0x2e);
        }
        let mut h = v_num(v[k]);
        out.append(&mut h);
        let mut t = v_part(v, k + 1);
        out.append(&mut t);
        proof {
            assert(out@ =~= enc_part_from(v@, k as int));
        }
        out
    } else {
        Vec::new()
    }
}

#[verifier::rlimit(60)]
#[verifier::spinoff_prover]
fn push_section(out: &mut Vec<Emit>, s: &Option<Section>)
    ensures
        emits_m(final(out)@) =~= emits_m(old(out)@) + emits_section(osection_m(*s)),
{
    let mut ob: Vec<u8> = Vec::new();
    ob.push(0x5b);
    assert(ob@ =~= seq![0x5bu8]);
    push_b(out, ob);
    match s {
        None => {},
        Some(Section::Msgtext(m)) => {
            push_msgtext(out, m);
        },
        Some(Section::Part { part, text }) => {
            push_b(out, v_part(part, 0));
            match text {
                Some(PartText::Mime) => {
                    let mut w: Vec<u8> = Vec::new();
                    w.push(0x2e);
                    let mut kwv = vstd::slice::slice_to_vec(&[77u8, 73, 77, 69]);
                    w.append(&mut kwv);
                    assert(w@ =~= seq![0x2eu8] + kw::kw_mime());
                    push_b(out, w);
                },
                Some(PartText::Msgtext(m)) => {
                    let mut w: Vec<u8> = Vec::new();
                    w.push(0x2e);
                    assert(w@ =~= seq![0x2eu8]);
                    push_b(out, w);
                    push_msgtext(out, m);
                },
                None => {},
            }
        },
    }
    let mut cb: Vec<u8> = Vec::new();
    cb.push(0x5d);
    assert(cb@ =~= seq![0x5du8]);
    push_b(out, cb);
    proof {
        assert(emits_m(final(out)@) =~= emits_m(old(out)@) + emits_section(osection_m(*s)));
    }
}

/// Emissions of one `fetch-att`.
pub open spec fn emits_fetch_att(a: FetchAttM) -> Seq<EmitM> {
    match a {
        FetchAttM::Envelope => seq![EmitM::B(kw::kw_envelope())],
        FetchAttM::Flags => seq![EmitM::B(kw::kw_flags())],
        FetchAttM::InternalDate => seq![EmitM::B(kw::kw_internaldate())],
        FetchAttM::Rfc822 => seq![EmitM::B(kw::kw_rfc822())],
        FetchAttM::Rfc822Header => seq![EmitM::B(kw::kw_rfc822_header())],
        FetchAttM::Rfc822Size => seq![EmitM::B(kw::kw_rfc822_size())],
        FetchAttM::Rfc822Text => seq![EmitM::B(kw::kw_rfc822_text())],
        FetchAttM::Body => seq![EmitM::B(kw::kw_body())],
        FetchAttM::BodyStructure => seq![EmitM::B(kw::kw_bodystructure())],
        FetchAttM::Uid => seq![EmitM::B(kw::kw_uid())],
        FetchAttM::BodySection { peek, section, partial } => seq![
            EmitM::B(
                if peek {
                    kw::kw_body_peek()
                } else {
                    kw::kw_body()
                },
            ),
        ] + emits_section(section) + (match partial {
            Some((a0, b0)) => seq![
                EmitM::B(
                    seq![0x3cu8] + dec_digits(a0 as int) + seq![0x2eu8] + dec_digits(b0 as int)
                        + seq![0x3eu8],
                ),
            ],
            None => Seq::<EmitM>::empty(),
        }),
    }
}

#[verifier::rlimit(100)]
#[verifier::spinoff_prover]
fn push_fetch_att(out: &mut Vec<Emit>, a: &FetchAtt)
    ensures
        emits_m(final(out)@) =~= emits_m(old(out)@) + emits_fetch_att(fetch_att_m(*a)),
{
    match a {
        FetchAtt::Envelope => {
            let w = vstd::slice::slice_to_vec(&[69u8, 78, 86, 69, 76, 79, 80, 69]);
            assert(w@ =~= kw::kw_envelope());
            push_b(out, w);
        },
        FetchAtt::Flags => {
            let w = vstd::slice::slice_to_vec(&[70u8, 76, 65, 71, 83]);
            assert(w@ =~= kw::kw_flags());
            push_b(out, w);
        },
        FetchAtt::InternalDate => {
            let w = vstd::slice::slice_to_vec(
                &[73u8, 78, 84, 69, 82, 78, 65, 76, 68, 65, 84, 69],
            );
            assert(w@ =~= kw::kw_internaldate());
            push_b(out, w);
        },
        FetchAtt::Rfc822 => {
            let w = vstd::slice::slice_to_vec(&[82u8, 70, 67, 56, 50, 50]);
            assert(w@ =~= kw::kw_rfc822());
            push_b(out, w);
        },
        FetchAtt::Rfc822Header => {
            let w = vstd::slice::slice_to_vec(
                &[82u8, 70, 67, 56, 50, 50, 46, 72, 69, 65, 68, 69, 82],
            );
            assert(w@ =~= kw::kw_rfc822_header());
            push_b(out, w);
        },
        FetchAtt::Rfc822Size => {
            let w = vstd::slice::slice_to_vec(&[82u8, 70, 67, 56, 50, 50, 46, 83, 73, 90, 69]);
            assert(w@ =~= kw::kw_rfc822_size());
            push_b(out, w);
        },
        FetchAtt::Rfc822Text => {
            let w = vstd::slice::slice_to_vec(&[82u8, 70, 67, 56, 50, 50, 46, 84, 69, 88, 84]);
            assert(w@ =~= kw::kw_rfc822_text());
            push_b(out, w);
        },
        FetchAtt::Body => {
            let w = vstd::slice::slice_to_vec(&[66u8, 79, 68, 89]);
            assert(w@ =~= kw::kw_body());
            push_b(out, w);
        },
        FetchAtt::BodyStructure => {
            let w = vstd::slice::slice_to_vec(
                &[66u8, 79, 68, 89, 83, 84, 82, 85, 67, 84, 85, 82, 69],
            );
            assert(w@ =~= kw::kw_bodystructure());
            push_b(out, w);
        },
        FetchAtt::Uid => {
            let w = vstd::slice::slice_to_vec(&[85u8, 73, 68]);
            assert(w@ =~= kw::kw_uid());
            push_b(out, w);
        },
        FetchAtt::BodySection { peek, section, partial } => {
            if *peek {
                let w = vstd::slice::slice_to_vec(&[66u8, 79, 68, 89, 46, 80, 69, 69, 75]);
                assert(w@ =~= kw::kw_body_peek());
                push_b(out, w);
            } else {
                let w = vstd::slice::slice_to_vec(&[66u8, 79, 68, 89]);
                assert(w@ =~= kw::kw_body());
                push_b(out, w);
            }
            push_section(out, section);
            match partial {
                Some((a0, b0)) => {
                    let mut w: Vec<u8> = Vec::new();
                    w.push(0x3c);
                    let mut d1 = v_num(*a0);
                    w.append(&mut d1);
                    w.push(0x2e);
                    let mut d2 = v_num(*b0);
                    w.append(&mut d2);
                    w.push(0x3e);
                    assert(w@ =~= seq![0x3cu8] + dec_digits(*a0 as int) + seq![0x2eu8]
                        + dec_digits(*b0 as int) + seq![0x3eu8]);
                    push_b(out, w);
                },
                None => {},
            }
            proof {
                assert(emits_m(final(out)@) =~= emits_m(old(out)@) + emits_fetch_att(
                    fetch_att_m(*a),
                ));
            }
        },
    }
}

/// Space-separated fetch attributes from index `k`.
pub open spec fn emits_fetch_atts_from(v: Seq<FetchAttM>, k: int) -> Seq<EmitM>
    decreases v.len() - k,
{
    if 0 <= k < v.len() {
        (if k > 0 {
            seq![EmitM::B(seq![0x20u8])]
        } else {
            Seq::<EmitM>::empty()
        }) + emits_fetch_att(v[k]) + emits_fetch_atts_from(v, k + 1)
    } else {
        Seq::empty()
    }
}

fn push_fetch_atts(out: &mut Vec<Emit>, v: &Vec<FetchAtt>, k: usize)
    requires
        k <= v@.len(),
    ensures
        emits_m(final(out)@) =~= emits_m(old(out)@) + emits_fetch_atts_from(
            fetch_atts_m(v@),
            k as int,
        ),
    decreases v@.len() - k,
{
    if k < v.len() {
        if k > 0 {
            push_sp(out);
        }
        push_fetch_att(out, &v[k]);
        push_fetch_atts(out, v, k + 1);
        proof {
            assert(fetch_atts_m(v@)[k as int] == fetch_att_m(v@[k as int]));
            assert(emits_m(final(out)@) =~= emits_m(old(out)@) + emits_fetch_atts_from(
                fetch_atts_m(v@),
                k as int,
            ));
        }
    } else {
        assert(emits_m(final(out)@) =~= emits_m(old(out)@) + Seq::<EmitM>::empty());
    }
}

/// Emissions of the fetch attribute part.
pub open spec fn emits_fetch_args(a: FetchArgsM) -> Seq<EmitM> {
    match a {
        FetchArgsM::All => seq![EmitM::B(kw::kw_all())],
        FetchArgsM::Full => seq![EmitM::B(kw::kw_full())],
        FetchArgsM::Fast => seq![EmitM::B(kw::kw_fast())],
        FetchArgsM::Single(x) => emits_fetch_att(x),
        FetchArgsM::List(v) => seq![EmitM::B(seq![0x28u8])] + emits_fetch_atts_from(v, 0) + seq![
            EmitM::B(seq![0x29u8]),
        ],
    }
}

fn push_fetch_args(out: &mut Vec<Emit>, a: &FetchArgs)
    ensures
        emits_m(final(out)@) =~= emits_m(old(out)@) + emits_fetch_args(
            crate::types::fetch_args_m(*a),
        ),
{
    match a {
        FetchArgs::All => {
            let w = vstd::slice::slice_to_vec(&[65u8, 76, 76]);
            assert(w@ =~= kw::kw_all());
            push_b(out, w);
        },
        FetchArgs::Full => {
            let w = vstd::slice::slice_to_vec(&[70u8, 85, 76, 76]);
            assert(w@ =~= kw::kw_full());
            push_b(out, w);
        },
        FetchArgs::Fast => {
            let w = vstd::slice::slice_to_vec(&[70u8, 65, 83, 84]);
            assert(w@ =~= kw::kw_fast());
            push_b(out, w);
        },
        FetchArgs::Single(x) => {
            push_fetch_att(out, x);
        },
        FetchArgs::List(v) => {
            let mut ob: Vec<u8> = Vec::new();
            ob.push(0x28);
            assert(ob@ =~= seq![0x28u8]);
            push_b(out, ob);
            push_fetch_atts(out, v, 0);
            let mut cb: Vec<u8> = Vec::new();
            cb.push(0x29);
            assert(cb@ =~= seq![0x29u8]);
            push_b(out, cb);
            proof {
                assert(emits_m(final(out)@) =~= emits_m(old(out)@) + emits_fetch_args(
                    crate::types::fetch_args_m(*a),
                ));
            }
        },
    }
}


/// A `STATUS` command item word.
pub open spec fn enc_status_item(it: crate::types::StatusItem) -> Seq<u8> {
    match it {
        crate::types::StatusItem::Messages => kw::kw_messages(),
        crate::types::StatusItem::Recent => kw::kw_recent(),
        crate::types::StatusItem::UidNext => kw::kw_uidnext(),
        crate::types::StatusItem::UidValidity => kw::kw_uidvalidity(),
        crate::types::StatusItem::Unseen => kw::kw_unseen(),
    }
}

/// Space-separated status items from index `k`.
pub open spec fn enc_status_items_from(v: Seq<crate::types::StatusItem>, k: int) -> Seq<u8>
    decreases v.len() - k,
{
    if 0 <= k < v.len() {
        (if k > 0 {
            seq![0x20u8]
        } else {
            Seq::<u8>::empty()
        }) + enc_status_item(v[k]) + enc_status_items_from(v, k + 1)
    } else {
        Seq::empty()
    }
}

fn v_status_item(it: &crate::types::StatusItem) -> (r: Vec<u8>)
    ensures
        r@ == enc_status_item(*it),
{
    match it {
        crate::types::StatusItem::Messages => {
            let w = vstd::slice::slice_to_vec(&[77u8, 69, 83, 83, 65, 71, 69, 83]);
            assert(w@ =~= kw::kw_messages());
            w
        },
        crate::types::StatusItem::Recent => {
            let w = vstd::slice::slice_to_vec(&[82u8, 69, 67, 69, 78, 84]);
            assert(w@ =~= kw::kw_recent());
            w
        },
        crate::types::StatusItem::UidNext => {
            let w = vstd::slice::slice_to_vec(&[85u8, 73, 68, 78, 69, 88, 84]);
            assert(w@ =~= kw::kw_uidnext());
            w
        },
        crate::types::StatusItem::UidValidity => {
            let w = vstd::slice::slice_to_vec(&[85u8, 73, 68, 86, 65, 76, 73, 68, 73, 84, 89]);
            assert(w@ =~= kw::kw_uidvalidity());
            w
        },
        crate::types::StatusItem::Unseen => {
            let w = vstd::slice::slice_to_vec(&[85u8, 78, 83, 69, 69, 78]);
            assert(w@ =~= kw::kw_unseen());
            w
        },
    }
}

fn v_status_items(v: &Vec<crate::types::StatusItem>, k: usize) -> (r: Vec<u8>)
    requires
        k <= v@.len(),
    ensures
        r@ == enc_status_items_from(v@, k as int),
    decreases v@.len() - k,
{
    if k < v.len() {
        let mut out: Vec<u8> = Vec::new();
        if k > 0 {
            out.push(0x20);
        }
        let mut h = v_status_item(&v[k]);
        out.append(&mut h);
        let mut t = v_status_items(v, k + 1);
        out.append(&mut t);
        proof {
            assert(out@ =~= enc_status_items_from(v@, k as int));
        }
        out
    } else {
        Vec::new()
    }
}

/// A `SEARCH` key word.
pub open spec fn enc_search_key(sk: crate::types::SearchKey) -> Seq<u8> {
    match sk {
        crate::types::SearchKey::All => kw::kw_all(),
        crate::types::SearchKey::Answered => kw::kw_answered(),
        crate::types::SearchKey::Deleted => kw::kw_deleted(),
        crate::types::SearchKey::Draft => kw::kw_draft(),
        crate::types::SearchKey::Flagged => kw::kw_flagged(),
        crate::types::SearchKey::New => kw::kw_new(),
        crate::types::SearchKey::Old => kw::kw_old(),
        crate::types::SearchKey::Recent => kw::kw_recent(),
        crate::types::SearchKey::Seen => kw::kw_seen(),
        crate::types::SearchKey::Unanswered => kw::kw_unanswered(),
        crate::types::SearchKey::Undeleted => kw::kw_undeleted(),
        crate::types::SearchKey::Undraft => kw::kw_undraft(),
        crate::types::SearchKey::Unflagged => kw::kw_unflagged(),
        crate::types::SearchKey::Unseen => kw::kw_unseen(),
    }
}

/// `SP search-key` for every key from index `k`.
pub open spec fn enc_search_keys_from(v: Seq<crate::types::SearchKey>, k: int) -> Seq<u8>
    decreases v.len() - k,
{
    if 0 <= k < v.len() {
        seq![0x20u8] + enc_search_key(v[k]) + enc_search_keys_from(v, k + 1)
    } else {
        Seq::empty()
    }
}

fn v_search_key(sk: &crate::types::SearchKey) -> (r: Vec<u8>)
    ensures
        r@ == enc_search_key(*sk),
{
    match sk {
        crate::types::SearchKey::All => {
            let w = vstd::slice::slice_to_vec(&[65u8, 76, 76]);
            assert(w@ =~= kw::kw_all());
            w
        },
        crate::types::SearchKey::Answered => {
            let w = vstd::slice::slice_to_vec(&[65u8, 78, 83, 87, 69, 82, 69, 68]);
            assert(w@ =~= kw::kw_answered());
            w
        },
        crate::types::SearchKey::Deleted => {
            let w = vstd::slice::slice_to_vec(&[68u8, 69, 76, 69, 84, 69, 68]);
            assert(w@ =~= kw::kw_deleted());
            w
        },
        crate::types::SearchKey::Draft => {
            let w = vstd::slice::slice_to_vec(&[68u8, 82, 65, 70, 84]);
            assert(w@ =~= kw::kw_draft());
            w
        },
        crate::types::SearchKey::Flagged => {
            let w = vstd::slice::slice_to_vec(&[70u8, 76, 65, 71, 71, 69, 68]);
            assert(w@ =~= kw::kw_flagged());
            w
        },
        crate::types::SearchKey::New => {
            let w = vstd::slice::slice_to_vec(&[78u8, 69, 87]);
            assert(w@ =~= kw::kw_new());
            w
        },
        crate::types::SearchKey::Old => {
            let w = vstd::slice::slice_to_vec(&[79u8, 76, 68]);
            assert(w@ =~= kw::kw_old());
            w
        },
        crate::types::SearchKey::Recent => {
            let w = vstd::slice::slice_to_vec(&[82u8, 69, 67, 69, 78, 84]);
            assert(w@ =~= kw::kw_recent());
            w
        },
        crate::types::SearchKey::Seen => {
            let w = vstd::slice::slice_to_vec(&[83u8, 69, 69, 78]);
            assert(w@ =~= kw::kw_seen());
            w
        },
        crate::types::SearchKey::Unanswered => {
            let w = vstd::slice::slice_to_vec(&[85u8, 78, 65, 78, 83, 87, 69, 82, 69, 68]);
            assert(w@ =~= kw::kw_unanswered());
            w
        },
        crate::types::SearchKey::Undeleted => {
            let w = vstd::slice::slice_to_vec(&[85u8, 78, 68, 69, 76, 69, 84, 69, 68]);
            assert(w@ =~= kw::kw_undeleted());
            w
        },
        crate::types::SearchKey::Undraft => {
            let w = vstd::slice::slice_to_vec(&[85u8, 78, 68, 82, 65, 70, 84]);
            assert(w@ =~= kw::kw_undraft());
            w
        },
        crate::types::SearchKey::Unflagged => {
            let w = vstd::slice::slice_to_vec(&[85u8, 78, 70, 76, 65, 71, 71, 69, 68]);
            assert(w@ =~= kw::kw_unflagged());
            w
        },
        crate::types::SearchKey::Unseen => {
            let w = vstd::slice::slice_to_vec(&[85u8, 78, 83, 69, 69, 78]);
            assert(w@ =~= kw::kw_unseen());
            w
        },
    }
}

fn v_search_keys(v: &Vec<crate::types::SearchKey>, k: usize) -> (r: Vec<u8>)
    requires
        k <= v@.len(),
    ensures
        r@ == enc_search_keys_from(v@, k as int),
    decreases v@.len() - k,
{
    if k < v.len() {
        let mut out: Vec<u8> = Vec::new();
        out.push(0x20);
        let mut h = v_search_key(&v[k]);
        out.append(&mut h);
        let mut t = v_search_keys(v, k + 1);
        out.append(&mut t);
        proof {
            assert(out@ =~= enc_search_keys_from(v@, k as int));
        }
        out
    } else {
        Vec::new()
    }
}

/// The store operation sign: nothing, `+` or `-`.
pub open spec fn enc_store_sign(kind: crate::types::StoreKind) -> Seq<u8> {
    match kind {
        crate::types::StoreKind::Replace => Seq::<u8>::empty(),
        crate::types::StoreKind::Add => seq![0x2bu8],
        crate::types::StoreKind::Remove => seq![0x2du8],
    }
}

/// Emissions of a whole command: tag, SP, name and arguments.
pub open spec fn emits_command(c: CommandM) -> Seq<EmitM> {
    seq![EmitM::B(c.tag + seq![0x20u8])] + emits_body_cmd(c.body)
}

pub open spec fn emits_body_cmd(b: CommandBodyM) -> Seq<EmitM> {
    match b {
        CommandBodyM::Capability => seq![EmitM::B(kw::kw_capability())],
        CommandBodyM::Noop => seq![EmitM::B(kw::kw_noop())],
        CommandBodyM::Logout => seq![EmitM::B(kw::kw_logout())],
        CommandBodyM::Login { username, password } => seq![
            EmitM::B(kw::kw_login() + seq![0x20u8]),
        ] + emits_astr(username) + seq![EmitM::B(seq![0x20u8])] + emits_astr(password),
        CommandBodyM::Authenticate { mechanism } => seq![
            EmitM::B(kw::kw_authenticate() + seq![0x20u8] + mechanism),
        ],
        CommandBodyM::Select { mailbox } => seq![EmitM::B(kw::kw_select() + seq![0x20u8])]
            + emits_mailbox(mailbox),
        CommandBodyM::Examine { mailbox } => seq![EmitM::B(kw::kw_examine() + seq![0x20u8])]
            + emits_mailbox(mailbox),
        CommandBodyM::Create { mailbox } => seq![EmitM::B(kw::kw_create() + seq![0x20u8])]
            + emits_mailbox(mailbox),
        CommandBodyM::Delete { mailbox } => seq![EmitM::B(kw::kw_delete() + seq![0x20u8])]
            + emits_mailbox(mailbox),
        CommandBodyM::Rename { from, to } => seq![EmitM::B(kw::kw_rename() + seq![0x20u8])]
            + emits_mailbox(from) + seq![EmitM::B(seq![0x20u8])] + emits_mailbox(to),
        CommandBodyM::Status { mailbox, items } => seq![EmitM::B(kw::kw_status() + seq![0x20u8])]
            + emits_mailbox(mailbox) + seq![
            EmitM::B(seq![0x20u8, 0x28u8] + enc_status_items_from(items, 0) + seq![0x29u8]),
        ],
        CommandBodyM::Append { mailbox, flags, date, message, mode } => seq![
            EmitM::B(kw::kw_append() + seq![0x20u8]),
        ] + emits_mailbox(mailbox) + (if flags.len() > 0 {
            seq![EmitM::B(seq![0x20u8] + enc_flag_list(flags))]
        } else {
            Seq::<EmitM>::empty()
        }) + (match date {
            Some(d) => seq![EmitM::B(seq![0x20u8] + enc_datetime(clamp_dt(d)))],
            None => Seq::<EmitM>::empty(),
        }) + seq![EmitM::B(seq![0x20u8]), EmitM::L(message, mode)],
        CommandBodyM::Fetch { sequence_set, attributes } => seq![
            EmitM::B(kw::kw_fetch() + seq![0x20u8] + enc_seqset_from(sequence_set, 0) + seq![
                0x20u8,
            ]),
        ] + emits_fetch_args(attributes),
        CommandBodyM::Store { sequence_set, kind, silent, flags } => seq![
            EmitM::B(
                kw::kw_store() + seq![0x20u8] + enc_seqset_from(sequence_set, 0) + seq![0x20u8]
                    + enc_store_sign(kind) + kw::kw_flags() + (if silent {
                    kw::kw_silent_suffix()
                } else {
                    Seq::<u8>::empty()
                }) + seq![0x20u8] + enc_flag_list(flags),
            ),
        ],
        CommandBodyM::Search { keys } => seq![
            EmitM::B(kw::kw_search() + enc_search_keys_from(keys, 0)),
        ],
        CommandBodyM::Copy { sequence_set, mailbox } => seq![
            EmitM::B(kw::kw_copy() + seq![0x20u8] + enc_seqset_from(sequence_set, 0) + seq![
                0x20u8,
            ]),
        ] + emits_mailbox(mailbox),
    }
}

#[verifier::rlimit(100)]
#[verifier::spinoff_prover]
fn emit_command(c: &Command) -> (r: Vec<Emit>)
    ensures
        emits_m(r@) =~= emits_command(crate::types::command_m(*c)),
{
    let mut out: Vec<Emit> = Vec::new();
    let mut head = dup(&c.tag.bytes);
    head.push(0x20);
    assert(head@ =~= c.tag.bytes@ + seq![0x20u8]);
    push_b(&mut out, head);
    match &c.body {
        CommandBody::Capability => {
            let w = vstd::slice::slice_to_vec(&[67u8, 65, 80, 65, 66, 73, 76, 73, 84, 89]);
            assert(w@ =~= kw::kw_capability());
            push_b(&mut out, w);
        },
        CommandBody::Noop => {
            let w = vstd::slice::slice_to_vec(&[78u8, 79, 79, 80]);
            assert(w@ =~= kw::kw_noop());
            push_b(&mut out, w);
        },
        CommandBody::Logout => {
            let w = vstd::slice::slice_to_vec(&[76u8, 79, 71, 79, 85, 84]);
            assert(w@ =~= kw::kw_logout());
            push_b(&mut out, w);
        },
        CommandBody::Login { username, password } => {
            let mut w = vstd::slice::slice_to_vec(&[76u8, 79, 71, 73, 78]);
            w.push(0x20);
            assert(w@ =~= kw::kw_login() + seq![0x20u8]);
            push_b(&mut out, w);
            push_astr(&mut out, username);
            push_sp(&mut out);
            push_astr(&mut out, password);
        },
        CommandBody::Authenticate { mechanism } => {
            let mut w = vstd::slice::slice_to_vec(
                &[65u8, 85, 84, 72, 69, 78, 84, 73, 67, 65, 84, 69],
            );
            w.push(0x20);
            let mut m2 = dup(mechanism);
            w.append(&mut m2);
            assert(w@ =~= kw::kw_authenticate() + seq![0x20u8] + mechanism@);
            push_b(&mut out, w);
        },
        CommandBody::Select { mailbox } => {
            let mut w = vstd::slice::slice_to_vec(&[83u8, 69, 76, 69, 67, 84]);
            w.push(0x20);
            assert(w@ =~= kw::kw_select() + seq![0x20u8]);
            push_b(&mut out, w);
            push_mailbox(&mut out, mailbox);
        },
        CommandBody::Examine { mailbox } => {
            let mut w = vstd::slice::slice_to_vec(&[69u8, 88, 65, 77, 73, 78, 69]);
            w.push(0x20);
            assert(w@ =~= kw::kw_examine() + seq![0x20u8]);
            push_b(&mut out, w);
            push_mailbox(&mut out, mailbox);
        },
        CommandBody::Create { mailbox } => {
            let mut w = vstd::slice::slice_to_vec(&[67u8, 82, 69, 65, 84, 69]);
            w.push(0x20);
            assert(w@ =~= kw::kw_create() + seq![0x20u8]);
            push_b(&mut out, w);
            push_mailbox(&mut out, mailbox);
        },
        CommandBody::Delete { mailbox } => {
            let mut w = vstd::slice::slice_to_vec(&[68u8, 69, 76, 69, 84, 69]);
            w.push(0x20);
            assert(w@ =~= kw::kw_delete() + seq![0x20u8]);
            push_b(&mut out, w);
            push_mailbox(&mut out, mailbox);
        },
        CommandBody::Rename { from, to } => {
            let mut w = vstd::slice::slice_to_vec(&[82u8, 69, 78, 65, 77, 69]);
            w.push(0x20);
            assert(w@ =~= kw::kw_rename() + seq![0x20u8]);
            push_b(&mut out, w);
            push_mailbox(&mut out, from);
            push_sp(&mut out);
            push_mailbox(&mut out, to);
        },
        CommandBody::Status { mailbox, items } => {
            let mut w = vstd::slice::slice_to_vec(&[83u8, 84, 65, 84, 85, 83]);
            w.push(0x20);
            assert(w@ =~= kw::kw_status() + seq![0x20u8]);
            push_b(&mut out, w);
            push_mailbox(&mut out, mailbox);
            let mut t: Vec<u8> = Vec::new();
            t.push(0x20);
            t.push(0x28);
            let mut its = v_status_items(items, 0);
            t.append(&mut its);
            t.push(0x29);
            assert(t@ =~= seq![0x20u8, 0x28u8] + enc_status_items_from(items@, 0) + seq![
                0x29u8,
            ]);
            push_b(&mut out, t);
            proof {
                assert(emits_m(out@) =~= emits_command(crate::types::command_m(*c)));
            }
        },
        CommandBody::Append { mailbox, flags, date, message, mode } => {
            let mut w = vstd::slice::slice_to_vec(&[65u8, 80, 80, 69, 78, 68]);
            w.push(0x20);
            assert(w@ =~= kw::kw_append() + seq![0x20u8]);
            push_b(&mut out, w);
            push_mailbox(&mut out, mailbox);
            if flags.len() > 0 {
                let mut fb: Vec<u8> = Vec::new();
                fb.push(0x20);
                let mut fl = v_flag_list(flags);
                fb.append(&mut fl);
                assert(fb@ =~= seq![0x20u8] + enc_flag_list(crate::types::flags_m(flags@)));
                push_b(&mut out, fb);
            }
            match date {
                Some(d) => {
                    let mut db: Vec<u8> = Vec::new();
                    db.push(0x20);
                    let cd = clamp_dt_x(d);
                    let mut dt = v_datetime(&cd);
                    db.append(&mut dt);
                    assert(db@ =~= seq![0x20u8] + enc_datetime(clamp_dt(*d)));
                    push_b(&mut out, db);
                },
                None => {},
            }
            push_sp(&mut out);
            push_lit(&mut out, dup(message), *mode);
            proof {
                assert(emits_m(out@) =~= emits_command(crate::types::command_m(*c)));
            }
        },
        CommandBody::Fetch { sequence_set, attributes } => {
            let mut w = vstd::slice::slice_to_vec(&[70u8, 69, 84, 67, 72]);
            w.push(0x20);
            let mut ss = v_seqset(sequence_set, 0);
            w.append(&mut ss);
            w.push(0x20);
            assert(w@ =~= kw::kw_fetch() + seq![0x20u8] + enc_seqset_from(sequence_set@, 0)
                + seq![0x20u8]);
            push_b(&mut out, w);
            push_fetch_args(&mut out, attributes);
        },
        CommandBody::Store { sequence_set, kind, silent, flags } => {
            let mut w = vstd::slice::slice_to_vec(&[83u8, 84, 79, 82, 69]);
            w.push(0x20);
            let mut ss = v_seqset(sequence_set, 0);
            w.append(&mut ss);
            w.push(0x20);
            match kind {
                crate::types::StoreKind::Replace => {},
                crate::types::StoreKind::Add => {
                    w.push(0x2b);
                },
                crate::types::StoreKind::Remove => {
                    w.push(0x2d);
                },
            }
            let mut fw = vstd::slice::slice_to_vec(&[70u8, 76, 65, 71, 83]);
            w.append(&mut fw);
            if *silent {
                let mut sfx = vstd::slice::slice_to_vec(&[46u8, 83, 73, 76, 69, 78, 84]);
                w.append(&mut sfx);
            }
            w.push(0x20);
            let mut fl = v_flag_list(flags);
            w.append(&mut fl);
            assert(w@ =~= kw::kw_store() + seq![0x20u8] + enc_seqset_from(sequence_set@, 0)
                + seq![0x20u8] + enc_store_sign(*kind) + kw::kw_flags() + (if *silent {
                kw::kw_silent_suffix()
            } else {
                Seq::<u8>::empty()
            }) + seq![0x20u8] + enc_flag_list(crate::types::flags_m(flags@)));
            push_b(&mut out, w);
            proof {
                assert(emits_m(out@) =~= emits_command(crate::types::command_m(*c)));
            }
        },
        CommandBody::Search { keys } => {
            let mut w = vstd::slice::slice_to_vec(&[83u8, 69, 65, 82, 67, 72]);
            let mut ks = v_search_keys(keys, 0);
            w.append(&mut ks);
            assert(w@ =~= kw::kw_search() + enc_search_keys_from(keys@, 0));
            push_b(&mut out, w);
            proof {
                assert(emits_m(out@) =~= emits_command(crate::types::command_m(*c)));
            }
        },
        CommandBody::Copy { sequence_set, mailbox } => {
            let mut w = vstd::slice::slice_to_vec(&[67u8, 79, 80, 89]);
            w.push(0x20);
            let mut ss = v_seqset(sequence_set, 0);
            w.append(&mut ss);
            w.push(0x20);
            assert(w@ =~= kw::kw_copy() + seq![0x20u8] + enc_seqset_from(sequence_set@, 0)
                + seq![0x20u8]);
            push_b(&mut out, w);
            push_mailbox(&mut out, mailbox);
        },
    }
    proof {
        assert(emits_m(out@) =~= emits_command(crate::types::command_m(*c)));
    }
    out
}

// ---------------------------------------------------------------------------
// the encoded message
// ---------------------------------------------------------------------------

/// The fragments of a command: its emissions folded into lines and
/// literal payloads.
pub open spec fn enc_command_frags(c: CommandM) -> Seq<FragM> {
    fold_emits(emits_command(c), Seq::empty(), Seq::empty())
}

/// A finite, restartable sequence of output fragments.
pub struct Encoded {
    /// The fragments not yet produced, in order.
    pub frags: Vec<Fragment>,
}

impl Encoded {
    /// The model: the fragments still to be produced.
    pub open spec fn remaining(&self) -> Seq<FragM> {
        frags_m(self.frags@)
    }

    /// Produces the next fragment, or signals exhaustion.
    pub fn next(&mut self) -> (r: Option<Fragment>)
        ensures
            match r {
                Some(fr) => old(self).remaining().len() > 0 && old(self).remaining() == seq![
                    frag_m(fr),
                ] + final(self).remaining(),
                None => old(self).remaining().len() == 0 && final(self).remaining()
                    == old(self).remaining(),
            },
    {
        if self.frags.len() == 0 {
            return None;
        }
        let fr = self.frags.remove(0);
        proof {
            assert(frags_m(old(self).frags@) =~= seq![frag_m(fr)] + frags_m(self.frags@));
        }
        Some(fr)
    }

    /// Drains the remaining fragments into one contiguous byte buffer;
    /// after a dump the sequence is exhausted.
    pub fn dump(&mut self) -> (r: Vec<u8>)
        ensures
            r@ == frags_bytes(old(self).remaining()),
            final(self).remaining().len() == 0,
    {
        let mut out: Vec<u8> = Vec::new();
        loop
            invariant
                frags_bytes(old(self).remaining()) == out@ + frags_bytes(self.remaining()),
            decreases self.frags@.len(),
        {
            if self.frags.len() == 0 {
                proof {
                    assert(frags_bytes(self.remaining()) =~= Seq::<u8>::empty());
                    assert(out@ + Seq::<u8>::empty() =~= out@);
                }
                return out;
            }
            let ghost pre = frags_m(self.frags@);
            let fr = self.frags.remove(0);
            proof {
                assert(pre =~= seq![frag_m(fr)] + frags_m(self.frags@));
                assert(pre.drop_first() =~= frags_m(self.frags@));
            }
            match fr {
                Fragment::Line { data } => {
                    let mut d = data;
                    out.append(&mut d);
                },
                Fragment::Literal { data, .. } => {
                    let mut d = data;
                    out.append(&mut d);
                },
            }
            proof {
                assert(frags_bytes(old(self).remaining()) == out@ + frags_bytes(
                    self.remaining(),
                ));
            }
        }
    }
}

// ---------------------------------------------------------------------------
// codecs
// ---------------------------------------------------------------------------

/// The stateless greeting codec.
pub struct GreetingCodec {
}

impl GreetingCodec {
    pub fn new() -> (r: GreetingCodec) {
        GreetingCodec {  }
    }

    /// Decodes one greeting from the start of `input`.
    pub fn decode(&self, input: &[u8]) -> (r: Result<
        (Vec<u8>, crate::types::Greeting),
        crate::types::GreetingDecodeError,
    >)
        ensures
            match (r, crate::codec::spec_decode_greeting(input@)) {
                (
                    Ok((rem, g)),
                    crate::codec::GreetingDec::Done { end, greeting },
                ) => rem@ == input@.subrange(end, input@.len() as int) && crate::types::greeting_m(
                    g,
                ) == greeting,
                (
                    Err(crate::types::GreetingDecodeError::Incomplete),
                    crate::codec::GreetingDec::Incomplete,
                ) => true,
                (
                    Err(crate::types::GreetingDecodeError::Failed),
                    crate::codec::GreetingDec::Failed,
                ) => true,
                _ => false,
            },
    {
        crate::codec::decode_greeting(input)
    }

    /// Encodes a greeting as a single-line fragment sequence.
    pub fn encode(&self, g: &crate::types::Greeting) -> (r: Encoded)
        requires
            crate::types::greeting_wf(crate::types::greeting_m(*g)),
        ensures
            r.remaining() =~= seq![
                FragM::Line { data: enc_greeting(crate::types::greeting_m(*g)) },
            ],
            frags_bytes(r.remaining()) =~= enc_greeting(crate::types::greeting_m(*g)),
    {
        let bytes = encode_greeting_bytes(g);
        let mut frags: Vec<Fragment> = Vec::new();
        frags.push(Fragment::Line { data: bytes });
        proof {
            assert(frags_m(frags@) =~= seq![
                FragM::Line { data: enc_greeting(crate::types::greeting_m(*g)) },
            ]);
            let fs = seq![FragM::Line { data: enc_greeting(crate::types::greeting_m(*g)) }];
            assert(fs.drop_first() =~= Seq::<FragM>::empty());
            assert(frags_bytes(fs.drop_first()) == Seq::<u8>::empty());
            assert(frags_bytes(fs) =~= enc_greeting(crate::types::greeting_m(*g)));
        }
        Encoded { frags }
    }
}

/// The stateless command codec.
pub struct CommandCodec {
}

impl CommandCodec {
    pub fn new() -> (r: CommandCodec) {
        CommandCodec {  }
    }

    /// Decodes one command from the start of `input`.
    pub fn decode(&self, input: &[u8]) -> (r: Result<
        (Vec<u8>, crate::types::Command),
        crate::types::CommandDecodeError,
    >)
        ensures
            match (r, crate::codec::spec_decode_command(input@)) {
                (Ok((rem, c)), crate::codec::CommandDec::Done { end, command }) => rem@
                    == input@.subrange(end, input@.len() as int) && crate::types::command_m(c)
                    == command,
                (
                    Err(crate::types::CommandDecodeError::Incomplete),
                    crate::codec::CommandDec::Incomplete,
                ) => true,
                (
                    Err(crate::types::CommandDecodeError::LiteralFound { tag: t1, length: l1, mode: m1 }),
                    crate::codec::CommandDec::LiteralFound { tag: t2, length: l2, mode: m2 },
                ) => t1.bytes@ == t2 && l1 == l2 && m1 == m2,
                (
                    Err(crate::types::CommandDecodeError::Failed),
                    crate::codec::CommandDec::Failed,
                ) => true,
                _ => false,
            },
    {
        crate::codec::decode_command(input)
    }

    /// Encodes a command into its fragment sequence: lines and literal
    /// payloads in transmission order.
    pub fn encode(&self, c: &crate::types::Command) -> (r: Encoded)
        requires
            crate::types::command_wf(crate::types::command_m(*c)),
        ensures
            r.remaining() =~= enc_command_frags(crate::types::command_m(*c)),
    {
        let es = emit_command(c);
        let frags = assemble(es);
        Encoded { frags }
    }
}

/// The stateless response codec.
pub struct ResponseCodec {
}

impl ResponseCodec {
    pub fn new() -> (r: ResponseCodec) {
        ResponseCodec {  }
    }

    /// Decodes one response from the start of `input`.
    pub fn decode(&self, input: &[u8]) -> (r: Result<
        (Vec<u8>, crate::types::Response),
        crate::types::ResponseDecodeError,
    >)
        ensures
            match (r, crate::codec::spec_decode_response(input@)) {
                (Ok((rem, resp)), crate::codec::ResponseDec::Done { end, response }) => rem@
                    == input@.subrange(end, input@.len() as int) && crate::types::response_m(resp)
                    == response,
                (
                    Err(crate::types::ResponseDecodeError::Incomplete),
                    crate::codec::ResponseDec::Incomplete,
                ) => true,
                (
                    Err(crate::types::ResponseDecodeError::LiteralFound { length: l1 }),
                    crate::codec::ResponseDec::LiteralFound { length: l2 },
                ) => l1 == l2,
                (
                    Err(crate::types::ResponseDecodeError::Failed),
                    crate::codec::ResponseDec::Failed,
                ) => true,
                _ => false,
            },
    {
        crate::codec::decode_response(input)
    }
}



// ---------------------------------------------------------------------------
// response emissions
// ---------------------------------------------------------------------------

/// `nstring`: `NIL` or a string.
pub open spec fn emits_nstr(s: Option<IStrM>) -> Seq<EmitM> {
    match s {
        None => seq![EmitM::B(kw::kw_nil())],
        Some(v) => emits_istr(v),
    }
}

fn push_nstr(out: &mut Vec<Emit>, s: &Option<IString>)
    ensures
        emits_m(final(out)@) =~= emits_m(old(out)@) + emits_nstr(crate::types::nstr_m(*s)),
{
    match s {
        None => {
            let w = vstd::slice::slice_to_vec(&[78u8, 73, 76]);
            assert(w@ =~= kw::kw_nil());
            push_b(out, w);
        },
        Some(v) => {
            push_istr(out, v);
        },
    }
}

/// A date-time forced into its field ranges; the identity on well-formed
/// values.
pub open spec fn clamp_dt(d: crate::types::DateTime) -> crate::types::DateTime {
    crate::types::DateTime {
        day: if 1 <= d.day <= 31 {
            d.day
        } else {
            1
        },
        month: if 1 <= d.month <= 12 {
            d.month
        } else {
            1
        },
        year: if d.year <= 9999 {
            d.year
        } else {
            0
        },
        hour: if d.hour <= 23 {
            d.hour
        } else {
            0
        },
        minute: if d.minute <= 59 {
            d.minute
        } else {
            0
        },
        second: if d.second <= 60 {
            d.second
        } else {
            0
        },
        zone_negative: d.zone_negative,
        zone_hours: if d.zone_hours <= 23 {
            d.zone_hours
        } else {
            0
        },
        zone_minutes: if d.zone_minutes <= 59 {
            d.zone_minutes
        } else {
            0
        },
    }
}

fn clamp_dt_x(d: &crate::types::DateTime) -> (r: crate::types::DateTime)
    ensures
        r == clamp_dt(*d),
        crate::types::datetime_wf(r),
{
    crate::types::DateTime {
        day: if 1 <= d.day && d.day <= 31 {
            d.day
        } else {
            1
        },
        month: if 1 <= d.month && d.month <= 12 {
            d.month
        } else {
            1
        },
        year: if d.year <= 9999 {
            d.year
        } else {
            0
        },
        hour: if d.hour <= 23 {
            d.hour
        } else {
            0
        },
        minute: if d.minute <= 59 {
            d.minute
        } else {
            0
        },
        second: if d.second <= 60 {
            d.second
        } else {
            0
        },
        zone_negative: d.zone_negative,
        zone_hours: if d.zone_hours <= 23 {
            d.zone_hours
        } else {
            0
        },
        zone_minutes: if d.zone_minutes <= 59 {
            d.zone_minutes
        } else {
            0
        },
    }
}

/// Two zero-padded decimal digits of `n` (for `n` up to 99).
pub open spec fn d2s(n: int) -> Seq<u8> {
    seq![(0x30 + n / 10) as u8, (0x30 + n % 10) as u8]
}

/// `date-time` between double quotes, with a two-digit day.
pub open spec fn enc_datetime(d: crate::types::DateTime) -> Seq<u8> {
    seq![0x22u8] + d2s(d.day as int) + seq![0x2du8] + (match d.month {
        1u8 => kw::kw_jan(),
        2u8 => kw::kw_feb(),
        3u8 => kw::kw_mar(),
        4u8 => kw::kw_apr(),
        5u8 => kw::kw_may(),
        6u8 => kw::kw_jun(),
        7u8 => kw::kw_jul(),
        8u8 => kw::kw_aug(),
        9u8 => kw::kw_sep(),
        10u8 => kw::kw_oct(),
        11u8 => kw::kw_nov(),
        _ => kw::kw_dec(),
    }) + seq![0x2du8] + d2s(d.year as int / 100) + d2s(d.year as int % 100) + seq![0x20u8] + d2s(
        d.hour as int,
    ) + seq![0x3au8] + d2s(d.minute as int) + seq![0x3au8] + d2s(d.second as int) + seq![0x20u8]
        + seq![
        (if d.zone_negative {
            0x2du8
        } else {
            0x2bu8
        }),
    ] + d2s(d.zone_hours as int) + d2s(d.zone_minutes as int) + seq![0x22u8]
}

fn push_d2(out: &mut Vec<u8>, n: u8)
    requires
        n <= 99,
    ensures
        final(out)@ =~= old(out)@ + d2s(n as int),
{
    out.push(0x30 + n / 10);
    out.push(0x30 + n % 10);
}

#[verifier::rlimit(60)]
fn v_datetime(d: &crate::types::DateTime) -> (r: Vec<u8>)
    requires
        crate::types::datetime_wf(*d),
    ensures
        r@ == enc_datetime(*d),
{
    let mut out: Vec<u8> = Vec::new();
    out.push(0x22);
    push_d2(&mut out, d.day);
    out.push(0x2d);
    let mon: &[u8] = match d.month {
        1 => &[74u8, 65, 78],
        2 => &[70u8, 69, 66],
        3 => &[77u8, 65, 82],
        4 => &[65u8, 80, 82],
        5 => &[77u8, 65, 89],
        6 => &[74u8, 85, 78],
        7 => &[74u8, 85, 76],
        8 => &[65u8, 85, 71],
        9 => &[83u8, 69, 80],
        10 => &[79u8, 67, 84],
        11 => &[78u8, 79, 86],
        _ => &[68u8, 69, 67],
    };
    let mut mv = vstd::slice::slice_to_vec(mon);
    out.append(&mut mv);
    out.push(0x2d);
    push_d2(&mut out, (d.year / 100) as u8);
    push_d2(&mut out, (d.year % 100) as u8);
    out.push(0x20);
    push_d2(&mut out, d.hour);
    out.push(0x3a);
    push_d2(&mut out, d.minute);
    out.push(0x3a);
    push_d2(&mut out, d.second);
    out.push(0x20);
    if d.zone_negative {
        out.push(0x2d);
    } else {
        out.push(0x2b);
    }
    push_d2(&mut out, d.zone_hours);
    push_d2(&mut out, d.zone_minutes);
    out.push(0x22);
    proof {
        assert(out@ =~= enc_datetime(*d));
    }
    out
}

/// One address: four nstrings between parentheses.
pub open spec fn emits_address(a: crate::types::AddressM) -> Seq<EmitM> {
    seq![EmitM::B(seq![0x28u8])] + emits_nstr(a.name) + seq![EmitM::B(seq![0x20u8])] + emits_nstr(
        a.adl,
    ) + seq![EmitM::B(seq![0x20u8])] + emits_nstr(a.mailbox) + seq![EmitM::B(seq![0x20u8])]
        + emits_nstr(a.host) + seq![EmitM::B(seq![0x29u8])]
}

fn push_address(out: &mut Vec<Emit>, a: &crate::types::Address)
    ensures
        emits_m(final(out)@) =~= emits_m(old(out)@) + emits_address(crate::types::address_m(*a)),
{
    let mut ob: Vec<u8> = Vec::new();
    ob.push(0x28);
    assert(ob@ =~= seq![0x28u8]);
    push_b(out, ob);
    push_nstr(out, &a.name);
    push_sp(out);
    push_nstr(out, &a.adl);
    push_sp(out);
    push_nstr(out, &a.mailbox);
    push_sp(out);
    push_nstr(out, &a.host);
    let mut cb: Vec<u8> = Vec::new();
    cb.push(0x29);
    assert(cb@ =~= seq![0x29u8]);
    push_b(out, cb);
    proof {
        assert(emits_m(final(out)@) =~= emits_m(old(out)@) + emits_address(
            crate::types::address_m(*a),
        ));
    }
}

/// Adjacent addresses from index `k`.
pub open spec fn emits_addresses_from(v: Seq<crate::types::AddressM>, k: int) -> Seq<EmitM>
    decreases v.len() - k,
{
    if 0 <= k < v.len() {
        emits_address(v[k]) + emits_addresses_from(v, k + 1)
    } else {
        Seq::empty()
    }
}

/// An envelope address slot: `(` 1*address `)`, or `NIL` for the empty list.
pub open spec fn emits_addr_list(v: Seq<crate::types::AddressM>) -> Seq<EmitM> {
    if v.len() == 0 {
        seq![EmitM::B(kw::kw_nil())]
    } else {
        seq![EmitM::B(seq![0x28u8])] + emits_addresses_from(v, 0) + seq![EmitM::B(seq![0x29u8])]
    }
}

fn push_addresses(out: &mut Vec<Emit>, v: &Vec<crate::types::Address>, k: usize)
    requires
        k <= v@.len(),
    ensures
        emits_m(final(out)@) =~= emits_m(old(out)@) + emits_addresses_from(
            crate::types::addresses_m(v@),
            k as int,
        ),
    decreases v@.len() - k,
{
    if k < v.len() {
        push_address(out, &v[k]);
        push_addresses(out, v, k + 1);
        proof {
            assert(crate::types::addresses_m(v@)[k as int] == crate::types::address_m(
                v@[k as int],
            ));
            assert(emits_m(final(out)@) =~= emits_m(old(out)@) + emits_addresses_from(
                crate::types::addresses_m(v@),
                k as int,
            ));
        }
    } else {
        assert(emits_m(final(out)@) =~= emits_m(old(out)@) + Seq::<EmitM>::empty());
    }
}

fn push_addr_list(out: &mut Vec<Emit>, v: &Vec<crate::types::Address>)
    ensures
        emits_m(final(out)@) =~= emits_m(old(out)@) + emits_addr_list(
            crate::types::addresses_m(v@),
        ),
{
    if v.len() == 0 {
        let w = vstd::slice::slice_to_vec(&[78u8, 73, 76]);
        assert(w@ =~= kw::kw_nil());
        push_b(out, w);
    } else {
        let mut ob: Vec<u8> = Vec::new();
        ob.push(0x28);
        assert(ob@ =~= seq![0x28u8]);
        push_b(out, ob);
        push_addresses(out, v, 0);
        let mut cb: Vec<u8> = Vec::new();
        cb.push(0x29);
        assert(cb@ =~= seq![0x29u8]);
        push_b(out, cb);
        proof {
            assert(emits_m(final(out)@) =~= emits_m(old(out)@) + emits_addr_list(
                crate::types::addresses_m(v@),
            ));
        }
    }
}

/// An envelope: ten fields between parentheses.
pub open spec fn emits_envelope(e: crate::types::EnvelopeM) -> Seq<EmitM> {
    seq![EmitM::B(seq![0x28u8])] + emits_nstr(e.date) + seq![EmitM::B(seq![0x20u8])] + emits_nstr(
        e.subject,
    ) + seq![EmitM::B(seq![0x20u8])] + emits_addr_list(e.from) + seq![EmitM::B(seq![0x20u8])]
        + emits_addr_list(e.sender) + seq![EmitM::B(seq![0x20u8])] + emits_addr_list(e.reply_to)
        + seq![EmitM::B(seq![0x20u8])] + emits_addr_list(e.to) + seq![EmitM::B(seq![0x20u8])]
        + emits_addr_list(e.cc) + seq![EmitM::B(seq![0x20u8])] + emits_addr_list(e.bcc) + seq![
        EmitM::B(seq![0x20u8]),
    ] + emits_nstr(e.in_reply_to) + seq![EmitM::B(seq![0x20u8])] + emits_nstr(e.message_id)
        + seq![EmitM::B(seq![0x29u8])]
}

#[verifier::rlimit(100)]
#[verifier::spinoff_prover]
fn push_envelope(out: &mut Vec<Emit>, e: &crate::types::Envelope)
    ensures
        emits_m(final(out)@) =~= emits_m(old(out)@) + emits_envelope(
            crate::types::envelope_m(*e),
        ),
{
    let mut ob: Vec<u8> = Vec::new();
    ob.push(0x28);
    assert(ob@ =~= seq![0x28u8]);
    push_b(out, ob);
    push_nstr(out, &e.date);
    push_sp(out);
    push_nstr(out, &e.subject);
    push_sp(out);
    push_addr_list(out, &e.from);
    push_sp(out);
    push_addr_list(out, &e.sender);
    push_sp(out);
    push_addr_list(out, &e.reply_to);
    push_sp(out);
    push_addr_list(out, &e.to);
    push_sp(out);
    push_addr_list(out, &e.cc);
    push_sp(out);
    push_addr_list(out, &e.bcc);
    push_sp(out);
    push_nstr(out, &e.in_reply_to);
    push_sp(out);
    push_nstr(out, &e.message_id);
    let mut cb: Vec<u8> = Vec::new();
    cb.push(0x29);
    assert(cb@ =~= seq![0x29u8]);
    push_b(out, cb);
    proof {
        assert(emits_m(final(out)@) =~= emits_m(old(out)@) + emits_envelope(
            crate::types::envelope_m(*e),
        ));
    }
}

/// One parameter pair list: `(` string SP string ... `)`, or `NIL`.
pub open spec fn emits_params_from(v: Seq<(IStrM, IStrM)>, k: int) -> Seq<EmitM>
    decreases v.len() - k,
{
    if 0 <= k < v.len() {
        (if k > 0 {
            seq![EmitM::B(seq![0x20u8])]
        } else {
            Seq::<EmitM>::empty()
        }) + emits_istr(v[k].0) + seq![EmitM::B(seq![0x20u8])] + emits_istr(v[k].1)
            + emits_params_from(v, k + 1)
    } else {
        Seq::empty()
    }
}

pub open spec fn emits_param_list(v: Seq<(IStrM, IStrM)>) -> Seq<EmitM> {
    if v.len() == 0 {
        seq![EmitM::B(kw::kw_nil())]
    } else {
        seq![EmitM::B(seq![0x28u8])] + emits_params_from(v, 0) + seq![EmitM::B(seq![0x29u8])]
    }
}

fn push_params(out: &mut Vec<Emit>, v: &Vec<(IString, IString)>, k: usize)
    requires
        k <= v@.len(),
    ensures
        emits_m(final(out)@) =~= emits_m(old(out)@) + emits_params_from(
            crate::types::params_m(v@),
            k as int,
        ),
    decreases v@.len() - k,
{
    if k < v.len() {
        if k > 0 {
            push_sp(out);
        }
        push_istr(out, &v[k].0);
        push_sp(out);
        push_istr(out, &v[k].1);
        push_params(out, v, k + 1);
        proof {
            assert(crate::types::params_m(v@)[k as int] == (
                istr_m(v@[k as int].0),
                istr_m(v@[k as int].1),
            ));
            assert(emits_m(final(out)@) =~= emits_m(old(out)@) + emits_params_from(
                crate::types::params_m(v@),
                k as int,
            ));
        }
    } else {
        assert(emits_m(final(out)@) =~= emits_m(old(out)@) + Seq::<EmitM>::empty());
    }
}

fn push_param_list(out: &mut Vec<Emit>, v: &Vec<(IString, IString)>)
    ensures
        emits_m(final(out)@) =~= emits_m(old(out)@) + emits_param_list(
            crate::types::params_m(v@),
        ),
{
    if v.len() == 0 {
        let w = vstd::slice::slice_to_vec(&[78u8, 73, 76]);
        assert(w@ =~= kw::kw_nil());
        push_b(out, w);
    } else {
        let mut ob: Vec<u8> = Vec::new();
        ob.push(0x28);
        assert(ob@ =~= seq![0x28u8]);
        push_b(out, ob);
        push_params(out, v, 0);
        let mut cb: Vec<u8> = Vec::new();
        cb.push(0x29);
        assert(cb@ =~= seq![0x29u8]);
        push_b(out, cb);
        proof {
            assert(emits_m(final(out)@) =~= emits_m(old(out)@) + emits_param_list(
                crate::types::params_m(v@),
            ));
        }
    }
}

/// A body structure, recursively.
pub open spec fn emits_body_structure(b: crate::types::BodyM) -> Seq<EmitM>
    decreases b, 0int,
{
    match b {
        crate::types::BodyM::Basic {
            media_type,
            media_subtype,
            params,
            id,
            description,
            encoding,
            size,
        } => seq![EmitM::B(seq![0x28u8])] + emits_istr(media_type) + seq![
            EmitM::B(seq![0x20u8]),
        ] + emits_istr(media_subtype) + seq![EmitM::B(seq![0x20u8])] + emits_param_list(params)
            + seq![EmitM::B(seq![0x20u8])] + emits_nstr(id) + seq![EmitM::B(seq![0x20u8])]
            + emits_nstr(description) + seq![EmitM::B(seq![0x20u8])] + emits_istr(encoding)
            + seq![EmitM::B(seq![0x20u8] + dec_digits(size as int))] + seq![
            EmitM::B(seq![0x29u8]),
        ],
        crate::types::BodyM::Multipart { parts, subtype } => seq![EmitM::B(seq![0x28u8])]
            + emits_bodies_from(parts, 0) + seq![EmitM::B(seq![0x20u8])] + emits_istr(subtype)
            + seq![EmitM::B(seq![0x29u8])],
    }
}

/// Adjacent nested bodies from index `k`.
pub open spec fn emits_bodies_from(v: Seq<crate::types::BodyM>, k: int) -> Seq<EmitM>
    decreases v, v.len() - k + 1,
{
    if 0 <= k < v.len() {
        emits_body_structure(v[k]) + emits_bodies_from(v, k + 1)
    } else {
        Seq::empty()
    }
}

#[verifier::rlimit(100)]
#[verifier::spinoff_prover]
fn push_body_structure(out: &mut Vec<Emit>, b: &crate::types::BodyStructure)
    ensures
        emits_m(final(out)@) =~= emits_m(old(out)@) + emits_body_structure(
            crate::types::body_m(*b),
        ),
    decreases b, 0int,
{
    let mut ob: Vec<u8> = Vec::new();
    ob.push(0x28);
    assert(ob@ =~= seq![0x28u8]);
    push_b(out, ob);
    match b {
        crate::types::BodyStructure::Basic {
            media_type,
            media_subtype,
            params,
            id,
            description,
            encoding,
            size,
        } => {
            push_istr(out, media_type);
            push_sp(out);
            push_istr(out, media_subtype);
            push_sp(out);
            push_param_list(out, params);
            push_sp(out);
            push_nstr(out, id);
            push_sp(out);
            push_nstr(out, description);
            push_sp(out);
            push_istr(out, encoding);
            let mut nb: Vec<u8> = Vec::new();
            nb.push(0x20);
            let mut dg = v_num(*size);
            nb.append(&mut dg);
            assert(nb@ =~= seq![0x20u8] + dec_digits(*size as int));
            push_b(out, nb);
        },
        crate::types::BodyStructure::Multipart { parts, subtype } => {
            push_bodies(out, parts, 0);
            push_sp(out);
            push_istr(out, subtype);
        },
    }
    let mut cb: Vec<u8> = Vec::new();
    cb.push(0x29);
    assert(cb@ =~= seq![0x29u8]);
    push_b(out, cb);
    proof {
        assert(emits_m(final(out)@) =~= emits_m(old(out)@) + emits_body_structure(
            crate::types::body_m(*b),
        ));
    }
}

fn push_bodies(out: &mut Vec<Emit>, v: &Vec<crate::types::BodyStructure>, k: usize)
    requires
        k <= v@.len(),
    ensures
        emits_m(final(out)@) =~= emits_m(old(out)@) + emits_bodies_from(
            crate::types::bodies_m(*v, 0),
            k as int,
        ),
    decreases v, v@.len() - k + 1int,
{
    proof {
        crate::body::lemma_bodies_m_len(*v, 0);
    }
    if k < v.len() {
        proof {
            assert(decreases_to!(v => v@));
            assert(decreases_to!(v@ => v@[k as int]));
        }
        push_body_structure(out, &v[k]);
        push_bodies(out, v, k + 1);
        proof {
            lemma_bodies_m_index(*v, k as int);
            assert(emits_m(final(out)@) =~= emits_m(old(out)@) + emits_bodies_from(
                crate::types::bodies_m(*v, 0),
                k as int,
            ));
        }
    } else {
        assert(emits_m(final(out)@) =~= emits_m(old(out)@) + Seq::<EmitM>::empty());
    }
}

/// The model of part `k` is the model of the part.
pub proof fn lemma_bodies_m_index(v: Vec<crate::types::BodyStructure>, k: int)
    requires
        0 <= k < v@.len(),
    ensures
        crate::types::bodies_m(v, 0)[k] == crate::types::body_m(v@[k]),
    decreases k,
{
    crate::body::lemma_bodies_m_len(v, 0);
    lemma_bodies_m_skip(v, 0, k);
    crate::body::lemma_bodies_m_len(v, k);
    assert(crate::types::bodies_m(v, k)[0] == crate::types::body_m(v@[k]));
    assert(crate::types::bodies_m(v, 0).skip(k)[0] == crate::types::bodies_m(v, 0)[k]);
}

proof fn lemma_bodies_m_skip(v: Vec<crate::types::BodyStructure>, i: int, k: int)
    requires
        0 <= i <= k <= v@.len(),
    ensures
        crate::types::bodies_m(v, i).skip(k - i) == crate::types::bodies_m(v, k),
    decreases k - i,
{
    crate::body::lemma_bodies_m_len(v, i);
    if i < k {
        lemma_bodies_m_skip(v, i + 1, k);
        crate::body::lemma_bodies_m_len(v, i + 1);
        assert(crate::types::bodies_m(v, i).skip(k - i) =~= crate::types::bodies_m(
            v,
            i + 1,
        ).skip(k - i - 1));
    } else {
        assert(crate::types::bodies_m(v, i).skip(0) =~= crate::types::bodies_m(v, i));
    }
}


// ---------------------------------------------------------------------------
// message attributes, server data, status and whole responses
// ---------------------------------------------------------------------------

/// One flag list between parentheses: `(` flag *(SP flag) `)`.
pub open spec fn enc_flags_from(v: Seq<crate::types::FlagM>, k: int) -> Seq<u8>
    decreases v.len() - k,
{
    if 0 <= k < v.len() {
        (if k > 0 {
            seq![0x20u8]
        } else {
            Seq::<u8>::empty()
        }) + enc_flag(v[k]) + enc_flags_from(v, k + 1)
    } else {
        Seq::empty()
    }
}

pub open spec fn enc_flag_list(v: Seq<crate::types::FlagM>) -> Seq<u8> {
    seq![0x28u8] + enc_flags_from(v, 0) + seq![0x29u8]
}

fn v_flags(v: &Vec<crate::types::Flag>, k: usize) -> (r: Vec<u8>)
    requires
        k <= v@.len(),
    ensures
        r@ == enc_flags_from(crate::types::flags_m(v@), k as int),
    decreases v@.len() - k,
{
    if k < v.len() {
        let mut out: Vec<u8> = Vec::new();
        if k > 0 {
            out.push(0x20);
        }
        let mut h = v_flag(&v[k]);
        out.append(&mut h);
        let mut t = v_flags(v, k + 1);
        out.append(&mut t);
        proof {
            assert(crate::types::flags_m(v@)[k as int] == crate::types::flag_m(v@[k as int]));
            assert(out@ =~= enc_flags_from(crate::types::flags_m(v@), k as int));
        }
        out
    } else {
        Vec::new()
    }
}

fn v_flag_list(v: &Vec<crate::types::Flag>) -> (r: Vec<u8>)
    ensures
        r@ == enc_flag_list(crate::types::flags_m(v@)),
{
    let mut out: Vec<u8> = Vec::new();
    out.push(0x28);
    let mut t = v_flags(v, 0);
    out.append(&mut t);
    out.push(0x29);
    proof {
        assert(out@ =~= enc_flag_list(crate::types::flags_m(v@)));
    }
    out
}

/// One fetch-result attribute.
pub open spec fn emits_msg_att(a: crate::types::MessageAttributeM) -> Seq<EmitM> {
    match a {
        crate::types::MessageAttributeM::Flags(v) => seq![
            EmitM::B(kw::kw_flags() + seq![0x20u8] + enc_flag_list(v)),
        ],
        crate::types::MessageAttributeM::Envelope(e) => seq![
            EmitM::B(kw::kw_envelope() + seq![0x20u8]),
        ] + emits_envelope(e),
        crate::types::MessageAttributeM::InternalDate(d) => seq![
            EmitM::B(kw::kw_internaldate() + seq![0x20u8] + enc_datetime(clamp_dt(d))),
        ],
        crate::types::MessageAttributeM::Rfc822(s) => seq![
            EmitM::B(kw::kw_rfc822() + seq![0x20u8]),
        ] + emits_nstr(s),
        crate::types::MessageAttributeM::Rfc822Header(s) => seq![
            EmitM::B(kw::kw_rfc822_header() + seq![0x20u8]),
        ] + emits_nstr(s),
        crate::types::MessageAttributeM::Rfc822Text(s) => seq![
            EmitM::B(kw::kw_rfc822_text() + seq![0x20u8]),
        ] + emits_nstr(s),
        crate::types::MessageAttributeM::Rfc822Size(n) => seq![
            EmitM::B(kw::kw_rfc822_size() + seq![0x20u8] + dec_digits(n as int)),
        ],
        crate::types::MessageAttributeM::Body(b) => seq![EmitM::B(kw::kw_body() + seq![0x20u8])]
            + emits_body_structure(b),
        crate::types::MessageAttributeM::BodyStructure(b) => seq![
            EmitM::B(kw::kw_bodystructure() + seq![0x20u8]),
        ] + emits_body_structure(b),
        crate::types::MessageAttributeM::BodyExt { section, origin, data } => seq![
            EmitM::B(kw::kw_body()),
        ] + emits_section(section) + (match origin {
            Some(n) => seq![EmitM::B(seq![0x3cu8] + dec_digits(n as int) + seq![0x3eu8])],
            None => Seq::<EmitM>::empty(),
        }) + seq![EmitM::B(seq![0x20u8])] + emits_nstr(data),
        crate::types::MessageAttributeM::Uid(n) => seq![
            EmitM::B(kw::kw_uid() + seq![0x20u8] + dec_digits(n as int)),
        ],
    }
}

#[verifier::rlimit(100)]
#[verifier::spinoff_prover]
fn push_msg_att(out: &mut Vec<Emit>, a: &crate::types::MessageAttribute)
    ensures
        emits_m(final(out)@) =~= emits_m(old(out)@) + emits_msg_att(crate::types::msg_att_m(*a)),
{
    match a {
        crate::types::MessageAttribute::Flags(v) => {
            let mut w = vstd::slice::slice_to_vec(&[70u8, 76, 65, 71, 83]);
            w.push(0x20);
            let mut fl = v_flag_list(v);
            w.append(&mut fl);
            assert(w@ =~= kw::kw_flags() + seq![0x20u8] + enc_flag_list(
                crate::types::flags_m(v@),
            ));
            push_b(out, w);
        },
        crate::types::MessageAttribute::Envelope(e) => {
            let mut w = vstd::slice::slice_to_vec(&[69u8, 78, 86, 69, 76, 79, 80, 69]);
            w.push(0x20);
            assert(w@ =~= kw::kw_envelope() + seq![0x20u8]);
            push_b(out, w);
            push_envelope(out, e);
        },
        crate::types::MessageAttribute::InternalDate(d) => {
            let mut w = vstd::slice::slice_to_vec(
                &[73u8, 78, 84, 69, 82, 78, 65, 76, 68, 65, 84, 69],
            );
            w.push(0x20);
            let cd = clamp_dt_x(d);
            let mut dt = v_datetime(&cd);
            w.append(&mut dt);
            assert(w@ =~= kw::kw_internaldate() + seq![0x20u8] + enc_datetime(clamp_dt(*d)));
            push_b(out, w);
        },
        crate::types::MessageAttribute::Rfc822(s) => {
            let mut w = vstd::slice::slice_to_vec(&[82u8, 70, 67, 56, 50, 50]);
            w.push(0x20);
            assert(w@ =~= kw::kw_rfc822() + seq![0x20u8]);
            push_b(out, w);
            push_nstr(out, s);
        },
        crate::types::MessageAttribute::Rfc822Header(s) => {
            let mut w = vstd::slice::slice_to_vec(
                &[82u8, 70, 67, 56, 50, 50, 46, 72, 69, 65, 68, 69, 82],
            );
            w.push(0x20);
            assert(w@ =~= kw::kw_rfc822_header() + seq![0x20u8]);
            push_b(out, w);
            push_nstr(out, s);
        },
        crate::types::MessageAttribute::Rfc822Text(s) => {
            let mut w = vstd::slice::slice_to_vec(
                &[82u8, 70, 67, 56, 50, 50, 46, 84, 69, 88, 84],
            );
            w.push(0x20);
            assert(w@ =~= kw::kw_rfc822_text() + seq![0x20u8]);
            push_b(out, w);
            push_nstr(out, s);
        },
        crate::types::MessageAttribute::Rfc822Size(n) => {
            let mut w = vstd::slice::slice_to_vec(
                &[82u8, 70, 67, 56, 50, 50, 46, 83, 73, 90, 69],
            );
            w.push(0x20);
            let mut dg = v_num(*n);
            w.append(&mut dg);
            assert(w@ =~= kw::kw_rfc822_size() + seq![0x20u8] + dec_digits(*n as int));
            push_b(out, w);
        },
        crate::types::MessageAttribute::Body(b) => {
            let mut w = vstd::slice::slice_to_vec(&[66u8, 79, 68, 89]);
            w.push(0x20);
            assert(w@ =~= kw::kw_body() + seq![0x20u8]);
            push_b(out, w);
            push_body_structure(out, b);
        },
        crate::types::MessageAttribute::BodyStructure(b) => {
            let mut w = vstd::slice::slice_to_vec(
                &[66u8, 79, 68, 89, 83, 84, 82, 85, 67, 84, 85, 82, 69],
            );
            w.push(0x20);
            assert(w@ =~= kw::kw_bodystructure() + seq![0x20u8]);
            push_b(out, w);
            push_body_structure(out, b);
        },
        crate::types::MessageAttribute::BodyExt { section, origin, data } => {
            let w = vstd::slice::slice_to_vec(&[66u8, 79, 68, 89]);
            assert(w@ =~= kw::kw_body());
            push_b(out, w);
            push_section(out, section);
            match origin {
                Some(n) => {
                    let mut ob: Vec<u8> = Vec::new();
                    ob.push(0x3c);
                    let mut dg = v_num(*n);
                    ob.append(&mut dg);
                    ob.push(0x3e);
                    assert(ob@ =~= seq![0x3cu8] + dec_digits(*n as int) + seq![0x3eu8]);
                    push_b(out, ob);
                },
                None => {},
            }
            push_sp(out);
            push_nstr(out, data);
            proof {
                assert(emits_m(final(out)@) =~= emits_m(old(out)@) + emits_msg_att(
                    crate::types::msg_att_m(*a),
                ));
            }
        },
        crate::types::MessageAttribute::Uid(n) => {
            let mut w = vstd::slice::slice_to_vec(&[85u8, 73, 68]);
            w.push(0x20);
            let mut dg = v_num(*n);
            w.append(&mut dg);
            assert(w@ =~= kw::kw_uid() + seq![0x20u8] + dec_digits(*n as int));
            push_b(out, w);
        },
    }
}

/// Space-separated attributes from index `k`.
pub open spec fn emits_msg_atts_from(v: Seq<crate::types::MessageAttributeM>, k: int) -> Seq<
    EmitM,
>
    decreases v.len() - k,
{
    if 0 <= k < v.len() {
        (if k > 0 {
            seq![EmitM::B(seq![0x20u8])]
        } else {
            Seq::<EmitM>::empty()
        }) + emits_msg_att(v[k]) + emits_msg_atts_from(v, k + 1)
    } else {
        Seq::empty()
    }
}

fn push_msg_atts(out: &mut Vec<Emit>, v: &Vec<crate::types::MessageAttribute>, k: usize)
    requires
        k <= v@.len(),
    ensures
        emits_m(final(out)@) =~= emits_m(old(out)@) + emits_msg_atts_from(
            crate::types::msg_atts_m(v@),
            k as int,
        ),
    decreases v@.len() - k,
{
    if k < v.len() {
        if k > 0 {
            push_sp(out);
        }
        push_msg_att(out, &v[k]);
        push_msg_atts(out, v, k + 1);
        proof {
            assert(crate::types::msg_atts_m(v@)[k as int] == crate::types::msg_att_m(
                v@[k as int],
            ));
            assert(emits_m(final(out)@) =~= emits_m(old(out)@) + emits_msg_atts_from(
                crate::types::msg_atts_m(v@),
                k as int,
            ));
        }
    } else {
        assert(emits_m(final(out)@) =~= emits_m(old(out)@) + Seq::<EmitM>::empty());
    }
}

/// `SP nz-number` search results from index `k`.
pub open spec fn enc_search_from(v: Seq<u32>, k: int) -> Seq<u8>
    decreases v.len() - k,
{
    if 0 <= k < v.len() {
        seq![0x20u8] + dec_digits(v[k] as int) + enc_search_from(v, k + 1)
    } else {
        Seq::empty()
    }
}

fn v_search(v: &Vec<u32>, k: usize) -> (r: Vec<u8>)
    requires
        k <= v@.len(),
    ensures
        r@ == enc_search_from(v@, k as int),
    decreases v@.len() - k,
{
    if k < v.len() {
        let mut out: Vec<u8> = Vec::new();
        out.push(0x20);
        let mut dg = v_num(v[k]);
        out.append(&mut dg);
        let mut t = v_search(v, k + 1);
        out.append(&mut t);
        proof {
            assert(out@ =~= enc_search_from(v@, k as int));
        }
        out
    } else {
        Vec::new()
    }
}

/// `status-att SP number` pairs, space-separated, from index `k`.
pub open spec fn enc_status_pairs_from(v: Seq<(crate::types::StatusItem, u32)>, k: int) -> Seq<
    u8,
>
    decreases v.len() - k,
{
    if 0 <= k < v.len() {
        (if k > 0 {
            seq![0x20u8]
        } else {
            Seq::<u8>::empty()
        }) + enc_status_item(v[k].0) + seq![0x20u8] + dec_digits(v[k].1 as int)
            + enc_status_pairs_from(v, k + 1)
    } else {
        Seq::empty()
    }
}

fn v_status_pairs(v: &Vec<(crate::types::StatusItem, u32)>, k: usize) -> (r: Vec<u8>)
    requires
        k <= v@.len(),
    ensures
        r@ == enc_status_pairs_from(v@, k as int),
    decreases v@.len() - k,
{
    if k < v.len() {
        let mut out: Vec<u8> = Vec::new();
        if k > 0 {
            out.push(0x20);
        }
        let mut h = v_status_item(&v[k].0);
        out.append(&mut h);
        out.push(0x20);
        let mut d = v_num(v[k].1);
        out.append(&mut d);
        let mut t = v_status_pairs(v, k + 1);
        out.append(&mut t);
        proof {
            assert(out@ =~= enc_status_pairs_from(v@, k as int));
        }
        out
    } else {
        Vec::new()
    }
}

/// Untagged server data, starting after `* ` and ending before CRLF.
pub open spec fn emits_data(d: crate::types::DataM) -> Seq<EmitM> {
    match d {
        crate::types::DataM::Capability(v) => seq![
            EmitM::B(kw::kw_capability() + enc_caps_from(v, 0)),
        ],
        crate::types::DataM::Flags(v) => seq![
            EmitM::B(kw::kw_flags() + seq![0x20u8] + enc_flag_list(v)),
        ],
        crate::types::DataM::Exists(n) => seq![
            EmitM::B(dec_digits(n as int) + seq![0x20u8] + kw::kw_exists()),
        ],
        crate::types::DataM::Recent(n) => seq![
            EmitM::B(dec_digits(n as int) + seq![0x20u8] + kw::kw_recent()),
        ],
        crate::types::DataM::Expunge(n) => seq![
            EmitM::B(dec_digits(n as int) + seq![0x20u8] + kw::kw_expunge()),
        ],
        crate::types::DataM::Search(v) => seq![EmitM::B(kw::kw_search() + enc_search_from(v, 0))],
        crate::types::DataM::Status { mailbox, items } => seq![
            EmitM::B(kw::kw_status() + seq![0x20u8]),
        ] + emits_mailbox(mailbox) + seq![
            EmitM::B(seq![0x20u8, 0x28u8] + enc_status_pairs_from(items, 0) + seq![0x29u8]),
        ],
        crate::types::DataM::Fetch { seq_or_uid, attributes } => seq![
            EmitM::B(
                dec_digits(seq_or_uid as int) + seq![0x20u8] + kw::kw_fetch() + seq![
                    0x20u8,
                    0x28u8,
                ],
            ),
        ] + emits_msg_atts_from(attributes, 0) + seq![EmitM::B(seq![0x29u8])],
    }
}

#[verifier::rlimit(100)]
#[verifier::spinoff_prover]
fn push_data(out: &mut Vec<Emit>, d: &crate::types::Data)
    ensures
        emits_m(final(out)@) =~= emits_m(old(out)@) + emits_data(crate::types::data_m(*d)),
{
    match d {
        crate::types::Data::Capability(v) => {
            let mut w = vstd::slice::slice_to_vec(&[67u8, 65, 80, 65, 66, 73, 76, 73, 84, 89]);
            let mut t = v_caps(v, 0);
            w.append(&mut t);
            assert(w@ =~= kw::kw_capability() + enc_caps_from(crate::types::atoms_m(v@), 0));
            push_b(out, w);
        },
        crate::types::Data::Flags(v) => {
            let mut w = vstd::slice::slice_to_vec(&[70u8, 76, 65, 71, 83]);
            w.push(0x20);
            let mut t = v_flag_list(v);
            w.append(&mut t);
            assert(w@ =~= kw::kw_flags() + seq![0x20u8] + enc_flag_list(
                crate::types::flags_m(v@),
            ));
            push_b(out, w);
        },
        crate::types::Data::Exists(n) => {
            let mut w = v_num(*n);
            w.push(0x20);
            let mut kwv = vstd::slice::slice_to_vec(&[69u8, 88, 73, 83, 84, 83]);
            w.append(&mut kwv);
            assert(w@ =~= dec_digits(*n as int) + seq![0x20u8] + kw::kw_exists());
            push_b(out, w);
        },
        crate::types::Data::Recent(n) => {
            let mut w = v_num(*n);
            w.push(0x20);
            let mut kwv = vstd::slice::slice_to_vec(&[82u8, 69, 67, 69, 78, 84]);
            w.append(&mut kwv);
            assert(w@ =~= dec_digits(*n as int) + seq![0x20u8] + kw::kw_recent());
            push_b(out, w);
        },
        crate::types::Data::Expunge(n) => {
            let mut w = v_num(*n);
            w.push(0x20);
            let mut kwv = vstd::slice::slice_to_vec(&[69u8, 88, 80, 85, 78, 71, 69]);
            w.append(&mut kwv);
            assert(w@ =~= dec_digits(*n as int) + seq![0x20u8] + kw::kw_expunge());
            push_b(out, w);
        },
        crate::types::Data::Search(v) => {
            let mut w = vstd::slice::slice_to_vec(&[83u8, 69, 65, 82, 67, 72]);
            let mut t = v_search(v, 0);
            w.append(&mut t);
            assert(w@ =~= kw::kw_search() + enc_search_from(v@, 0));
            push_b(out, w);
        },
        crate::types::Data::Status { mailbox, items } => {
            let mut w = vstd::slice::slice_to_vec(&[83u8, 84, 65, 84, 85, 83]);
            w.push(0x20);
            assert(w@ =~= kw::kw_status() + seq![0x20u8]);
            push_b(out, w);
            push_mailbox(out, mailbox);
            let mut t: Vec<u8> = Vec::new();
            t.push(0x20);
            t.push(0x28);
            let mut ps = v_status_pairs(items, 0);
            t.append(&mut ps);
            t.push(0x29);
            assert(t@ =~= seq![0x20u8, 0x28u8] + enc_status_pairs_from(items@, 0) + seq![
                0x29u8,
            ]);
            push_b(out, t);
            proof {
                assert(emits_m(final(out)@) =~= emits_m(old(out)@) + emits_data(
                    crate::types::data_m(*d),
                ));
            }
        },
        crate::types::Data::Fetch { seq_or_uid, attributes } => {
            let mut w = v_num(*seq_or_uid);
            w.push(0x20);
            let mut kwv = vstd::slice::slice_to_vec(&[70u8, 69, 84, 67, 72]);
            w.append(&mut kwv);
            w.push(0x20);
            w.push(0x28);
            assert(w@ =~= dec_digits(*seq_or_uid as int) + seq![0x20u8] + kw::kw_fetch() + seq![
                0x20u8,
                0x28u8,
            ]);
            push_b(out, w);
            push_msg_atts(out, attributes, 0);
            let mut cb: Vec<u8> = Vec::new();
            cb.push(0x29);
            assert(cb@ =~= seq![0x29u8]);
            push_b(out, cb);
            proof {
                assert(emits_m(final(out)@) =~= emits_m(old(out)@) + emits_data(
                    crate::types::data_m(*d),
                ));
            }
        },
    }
}

/// `resp-text`: the optional bracketed code, then the text.
pub open spec fn enc_resp_text(code: Option<crate::types::CodeM>, text: Seq<u8>) -> Seq<u8> {
    (match code {
        Some(c) => seq![0x5bu8] + enc_code(c) + seq![0x5du8, 0x20u8],
        None => Seq::<u8>::empty(),
    }) + text
}

fn v_resp_text(code: &Option<crate::types::Code>, text: &Vec<u8>) -> (r: Vec<u8>)
    ensures
        r@ == enc_resp_text(crate::types::ocode_m(*code), text@),
{
    let mut out: Vec<u8> = Vec::new();
    match code {
        Some(c) => {
            out.push(0x5b);
            let mut cb = v_code(c);
            out.append(&mut cb);
            out.push(0x5d);
            out.push(0x20);
        },
        None => {},
    }
    let mut t = dup(text);
    out.append(&mut t);
    proof {
        assert(out@ =~= enc_resp_text(crate::types::ocode_m(*code), text@));
    }
    out
}

/// A whole response: status, untagged data, or a continuation request.
pub open spec fn emits_response(r: crate::types::ResponseM) -> Seq<EmitM> {
    match r {
        crate::types::ResponseM::Status(st) => match st {
            crate::types::StatusM::Okay { tag, code, text } => seq![
                EmitM::B(
                    enc_status_head(tag) + kw::kw_ok() + seq![0x20u8] + enc_resp_text(code, text),
                ),
            ],
            crate::types::StatusM::No { tag, code, text } => seq![
                EmitM::B(
                    enc_status_head(tag) + kw::kw_no() + seq![0x20u8] + enc_resp_text(code, text),
                ),
            ],
            crate::types::StatusM::Bad { tag, code, text } => seq![
                EmitM::B(
                    enc_status_head(tag) + kw::kw_bad() + seq![0x20u8] + enc_resp_text(
                        code,
                        text,
                    ),
                ),
            ],
            crate::types::StatusM::Bye { code, text } => seq![
                EmitM::B(
                    seq![0x2au8, 0x20u8] + kw::kw_bye() + seq![0x20u8] + enc_resp_text(
                        code,
                        text,
                    ),
                ),
            ],
        },
        crate::types::ResponseM::Data(d) => seq![EmitM::B(seq![0x2au8, 0x20u8])] + emits_data(d),
        crate::types::ResponseM::CommandContinuationRequest { code, text } => seq![
            EmitM::B(seq![0x2bu8, 0x20u8] + enc_resp_text(code, text)),
        ],
    }
}

/// `tag SP` for a tagged status, `* ` for an untagged one.
pub open spec fn enc_status_head(tag: Option<Seq<u8>>) -> Seq<u8> {
    match tag {
        Some(t) => t + seq![0x20u8],
        None => seq![0x2au8, 0x20u8],
    }
}

fn v_status_head(tag: &Option<crate::types::Tag>) -> (r: Vec<u8>)
    ensures
        r@ == enc_status_head(crate::types::otag_m(*tag)),
{
    match tag {
        Some(t) => {
            let mut out = dup(&t.bytes);
            out.push(0x20);
            assert(out@ =~= t.bytes@ + seq![0x20u8]);
            out
        },
        None => {
            let mut out: Vec<u8> = Vec::new();
            out.push(0x2a);
            out.push(0x20);
            assert(out@ =~= seq![0x2au8, 0x20u8]);
            out
        },
    }
}

#[verifier::rlimit(100)]
#[verifier::spinoff_prover]
fn emit_response(r: &crate::types::Response) -> (es: Vec<Emit>)
    ensures
        emits_m(es@) =~= emits_response(crate::types::response_m(*r)),
{
    let mut out: Vec<Emit> = Vec::new();
    match r {
        crate::types::Response::Status(st) => {
            match st {
                crate::types::Status::Okay { tag, code, text } => {
                    let mut w = v_status_head(tag);
                    let mut kv = vstd::slice::slice_to_vec(&[79u8, 75]);
                    assert(kv@ =~= kw::kw_ok());
                    w.append(&mut kv);
                    w.push(0x20);
                    let mut rt = v_resp_text(code, text);
                    w.append(&mut rt);
                    assert(w@ =~= enc_status_head(crate::types::otag_m(*tag)) + kw::kw_ok() + seq![
                        0x20u8,
                    ] + enc_resp_text(crate::types::ocode_m(*code), text@));
                    push_b(&mut out, w);
                },
                crate::types::Status::No { tag, code, text } => {
                    let mut w = v_status_head(tag);
                    let mut kv = vstd::slice::slice_to_vec(&[78u8, 79]);
                    assert(kv@ =~= kw::kw_no());
                    w.append(&mut kv);
                    w.push(0x20);
                    let mut rt = v_resp_text(code, text);
                    w.append(&mut rt);
                    assert(w@ =~= enc_status_head(crate::types::otag_m(*tag)) + kw::kw_no() + seq![
                        0x20u8,
                    ] + enc_resp_text(crate::types::ocode_m(*code), text@));
                    push_b(&mut out, w);
                },
                crate::types::Status::Bad { tag, code, text } => {
                    let mut w = v_status_head(tag);
                    let mut kv = vstd::slice::slice_to_vec(&[66u8, 65, 68]);
                    assert(kv@ =~= kw::kw_bad());
                    w.append(&mut kv);
                    w.push(0x20);
                    let mut rt = v_resp_text(code, text);
                    w.append(&mut rt);
                    assert(w@ =~= enc_status_head(crate::types::otag_m(*tag)) + kw::kw_bad() + seq![
                        0x20u8,
                    ] + enc_resp_text(crate::types::ocode_m(*code), text@));
                    push_b(&mut out, w);
                },
                crate::types::Status::Bye { code, text } => {
                    let mut w: Vec<u8> = Vec::new();
                    w.push(0x2a);
                    w.push(0x20);
                    let mut kv = vstd::slice::slice_to_vec(&[66u8, 89, 69]);
                    assert(kv@ =~= kw::kw_bye());
                    w.append(&mut kv);
                    w.push(0x20);
                    let mut rt = v_resp_text(code, text);
                    w.append(&mut rt);
                    assert(w@ =~= seq![0x2au8, 0x20u8] + kw::kw_bye() + seq![0x20u8]
                        + enc_resp_text(crate::types::ocode_m(*code), text@));
                    push_b(&mut out, w);
                },
            }
            proof {
                assert(emits_m(out@) =~= emits_response(crate::types::response_m(*r)));
            }
        },
        crate::types::Response::Data(d) => {
            let mut h: Vec<u8> = Vec::new();
            h.push(0x2a);
            h.push(0x20);
            assert(h@ =~= seq![0x2au8, 0x20u8]);
            push_b(&mut out, h);
            push_data(&mut out, d);
            proof {
                assert(emits_m(out@) =~= emits_response(crate::types::response_m(*r)));
            }
        },
        crate::types::Response::CommandContinuationRequest { code, text } => {
            let mut w: Vec<u8> = Vec::new();
            w.push(0x2b);
            w.push(0x20);
            let mut rt = v_resp_text(code, text);
            w.append(&mut rt);
            assert(w@ =~= seq![0x2bu8, 0x20u8] + enc_resp_text(
                crate::types::ocode_m(*code),
                text@,
            ));
            push_b(&mut out, w);
        },
    }
    out
}

/// The fragments of a response: its emissions folded into lines and
/// literal payloads.
pub open spec fn enc_response_frags(r: crate::types::ResponseM) -> Seq<FragM> {
    fold_emits(emits_response(r), Seq::empty(), Seq::empty())
}

impl ResponseCodec {
    /// Encodes a response into its fragment sequence: lines and literal
    /// payloads in transmission order.
    pub fn encode(&self, r: &crate::types::Response) -> (e: Encoded)
        requires
            crate::types::response_wf(crate::types::response_m(*r)),
        ensures
            e.remaining() =~= enc_response_frags(crate::types::response_m(*r)),
    {
        let es = emit_response(r);
        let frags = assemble(es);
        Encoded { frags }
    }
}

} // verus!




