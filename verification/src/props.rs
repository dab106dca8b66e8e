//! The decoder and encoder laws: incremental equivalence, longest-match
//! precedence, announcement ordering and idempotent failure.

use vstd::prelude::*;
use crate::chars::{is_atom_char, up};
use crate::codec::{
    spec_decode_command, spec_decode_greeting, spec_decode_greeting_framed, spec_decode_response,
    spec_decode_response_framed, CommandDec, GreetingDec, ResponseDec,
};
use crate::viable::{
    command_name_doomed, greeting_doomed, lemma_atom_end_cut, lemma_command_name_doomed_ext,
    lemma_greeting_doomed_ext, lemma_name_viable_cut, lemma_response_doomed_ext,
    lemma_tag_precheck_of, lemma_tag_run_chars, response_doomed,
};
use crate::encode::{
    ann, emits_command, emits_response, enc_command_frags, enc_response_frags, fold_emits, EmitM,
};
use crate::frame::{
    find_crlf, lemma_find_crlf_cut, lemma_find_crlf_ext, lemma_find_crlf_props,
    lemma_line_literal_agree, lemma_scan_frame_ext, lemma_scan_frame_prefix,
    lemma_tag_precheck_ext, lemma_tag_precheck_ge, lemma_tag_precheck_prefix, line_literal,
    scan_frame, tag_precheck, FrameSpec, TagCheck,
};
use crate::kw;
use crate::message::{p_msg_att_static, p_msg_att_dynamic};
use crate::tok::{atom_end, kw_at, p_atom};
use crate::types::{CommandM, FragM, MessageAttributeM};

verus! {

// ---------------------------------------------------------------------------
// idempotent failure: once `Failed`, appended bytes never change it
// ---------------------------------------------------------------------------

/// A completed frame keeps its end under appended bytes, and its end is
/// within the scanned bytes.
proof fn lemma_scan_done_bounds(s: Seq<u8>, from: int)
    requires
        0 <= from <= s.len(),
        scan_frame(s, from) is Done,
    ensures
        2 <= scan_frame(s, from)->Done_end <= s.len(),
    decreases s.len() - from,
{
    lemma_find_crlf_props(s, from);
    let ci = find_crlf(s, from)->Some_0;
    match line_literal(s, from, ci) {
        None => {},
        Some((n, plus)) => {
            crate::frame::lemma_digits_back_props(s, from, ci);
            if ci + 2 + n <= s.len() {
                lemma_scan_done_bounds(s, ci + 2 + n);
            }
        },
    }
}

/// Once greeting decoding fails on a prefix, appending bytes cannot
/// change the outcome.
pub proof fn idempotent_failure_greeting(s: Seq<u8>, ext: Seq<u8>)
    requires
        spec_decode_greeting(s) is Failed,
    ensures
        spec_decode_greeting(s + ext) is Failed,
{
    if greeting_doomed(s) {
        lemma_greeting_doomed_ext(s, ext);
    } else {
        lemma_find_crlf_props(s, 0);
        let ci = find_crlf(s, 0)->Some_0;
        lemma_find_crlf_ext(s, ext, 0);
        assert((s + ext).subrange(0, ci + 2) =~= s.subrange(0, ci + 2));
    }
}

/// Once response decoding fails on a prefix, appending bytes cannot
/// change the outcome.
pub proof fn idempotent_failure_response(s: Seq<u8>, ext: Seq<u8>)
    requires
        spec_decode_response(s) is Failed,
    ensures
        spec_decode_response(s + ext) is Failed,
{
    if response_doomed(s) {
        lemma_response_doomed_ext(s, ext);
    } else {
        lemma_scan_done_bounds(s, 0);
        let end = scan_frame(s, 0)->Done_end;
        lemma_scan_frame_ext(s, ext, 0);
        assert((s + ext).subrange(0, end) =~= s.subrange(0, end));
    }
}

/// Once command decoding fails on a prefix, appending bytes cannot
/// change the outcome.
pub proof fn idempotent_failure_command(s: Seq<u8>, ext: Seq<u8>)
    requires
        spec_decode_command(s) is Failed,
    ensures
        spec_decode_command(s + ext) is Failed,
{
    match tag_precheck(s, 0) {
        TagCheck::Bad => {
            lemma_tag_precheck_ext(s, ext, 0);
        },
        TagCheck::Incomplete => {},
        TagCheck::Found { sp } => {
            lemma_tag_precheck_ext(s, ext, 0);
            lemma_tag_precheck_ge(s, 0);
            if command_name_doomed(s, sp + 1) {
                lemma_command_name_doomed_ext(s, ext, sp + 1);
            } else {
                if !command_name_doomed(s + ext, sp + 1) {
                    lemma_scan_done_bounds(s, 0);
                    let end = scan_frame(s, 0)->Done_end;
                    lemma_scan_frame_ext(s, ext, 0);
                    assert((s + ext).subrange(0, end) =~= s.subrange(0, end));
                }
            }
        },
    }
}

// ---------------------------------------------------------------------------
// incremental equivalence: prefixes of a decodable buffer never fail
// ---------------------------------------------------------------------------

/// A strict prefix of a decodable greeting buffer is `Incomplete`.
/// Since decoding is a pure function of the buffer, resubmitting the
/// prefix concatenated with the missing bytes is the original decode.
pub proof fn incremental_greeting(s: Seq<u8>, k: int)
    requires
        spec_decode_greeting(s) is Done,
        0 <= k < spec_decode_greeting(s)->Done_end,
    ensures
        spec_decode_greeting(s.subrange(0, k)) is Incomplete,
{
    lemma_find_crlf_props(s, 0);
    lemma_greeting_prefix_not_doomed(s, k);
    lemma_find_crlf_cut(s, k, 0);
}

/// No prefix of a decodable greeting buffer is doomed.
proof fn lemma_greeting_prefix_not_doomed(s: Seq<u8>, k: int)
    requires
        spec_decode_greeting(s) is Done,
        0 <= k <= s.len(),
    ensures
        !greeting_doomed(s.subrange(0, k)),
{
    lemma_find_crlf_props(s, 0);
    let ci = find_crlf(s, 0)->Some_0;
    let f = s.subrange(0, ci + 2);
    let p = s.subrange(0, k);
    // skeleton bytes
    assert(f[0] == 0x2au8 && f[1] == 0x20u8);
    assert(s[0] == 0x2au8 && s[1] == 0x20u8);
    if k >= 3 {
        // the kind atom of the frame is exactly one of the three words,
        // terminated by SP; so the cut name stays viable
        let j = crate::tok::atom_end(f, 2);
        crate::tok::lemma_tok_bounds(f, 2);
        let a = f.subrange(2, j);
        lemma_atom_end_cut(s, ci + 2, 2);
        assert(crate::tok::atom_end(s, 2) == j);
        assert(s.subrange(2, j) =~= a);
        assert(s[j] == f[j]);
        if crate::chars::eq_ci(a, kw::kw_ok()) {
            lemma_name_viable_cut(s, k, 2, kw::kw_ok(), false);
        } else if crate::chars::eq_ci(a, kw::kw_preauth()) {
            lemma_name_viable_cut(s, k, 2, kw::kw_preauth(), false);
        } else {
            lemma_name_viable_cut(s, k, 2, kw::kw_bye(), false);
        }
        // the byte after `kind SP` opens the frame's resp-text
        lemma_atom_end_cut(s, k, 2);
        if k > j + 1 {
            assert(p[j + 1] == f[j + 1]);
            assert(crate::viable::resp_text_start_ok(f[j + 1]));
        }
        assert(!crate::viable::after_name_doomed(p, 2, false));
    }
}

/// A strict prefix of a decodable response buffer is `Incomplete` or
/// blocked on a literal, never failed.
pub proof fn incremental_response(s: Seq<u8>, k: int)
    requires
        spec_decode_response(s) is Done,
        0 <= k < spec_decode_response(s)->Done_end,
    ensures
        spec_decode_response(s.subrange(0, k)) is Incomplete || spec_decode_response(
            s.subrange(0, k),
        ) is LiteralFound,
{
    lemma_scan_done_bounds(s, 0);
    lemma_response_prefix_not_doomed(s, k);
    lemma_scan_frame_prefix(s, k, 0);
}

/// No prefix of a decodable response buffer is doomed.
#[verifier::rlimit(100)]
#[verifier::spinoff_prover]
proof fn lemma_response_prefix_not_doomed(s: Seq<u8>, k: int)
    requires
        spec_decode_response(s) is Done,
        0 <= k <= s.len(),
    ensures
        !response_doomed(s.subrange(0, k)),
{
    lemma_scan_done_bounds(s, 0);
    let end = scan_frame(s, 0)->Done_end;
    let f = s.subrange(0, end);
    let p = s.subrange(0, k);
    if f.len() >= 2 && f[0] == 0x2bu8 && crate::tok::sp_at(f, 1) {
        assert(s[0] == 0x2bu8 && s[1] == 0x20u8);
    } else if f.len() >= 2 && f[0] == 0x2au8 && crate::tok::sp_at(f, 1) {
        assert(s[0] == 0x2au8 && s[1] == 0x20u8);
    } else {
        // tagged: the frame begins with a non-empty tag run and SP, so the
        // pre-check of any prefix is found-or-incomplete, never bad
        let te = crate::tok::tag_end(f, 0);
        crate::tok::lemma_tok_bounds(f, 0);
        lemma_tag_run_chars(f, 0);
        assert(crate::tok::p_tag_token(f, 0) is Some);
        assert(crate::tok::sp_at(f, te));
        assert forall|t: int| 0 <= t < te implies crate::chars::is_tag_char(
            #[trigger] s[t],
        ) by {
            assert(f[t] == s[t]);
            assert(crate::chars::is_tag_char(f[t]));
        }
        assert(s[te] == f[te]);
        lemma_tag_precheck_of(s, te);
        lemma_tag_precheck_prefix(s, k, 0);
    }
}

/// A strict prefix of a decodable command buffer is `Incomplete` or
/// blocked on a literal, never failed.
pub proof fn incremental_command(s: Seq<u8>, k: int)
    requires
        spec_decode_command(s) is Done,
        0 <= k < spec_decode_command(s)->Done_end,
    ensures
        spec_decode_command(s.subrange(0, k)) is Incomplete || spec_decode_command(
            s.subrange(0, k),
        ) is LiteralFound,
{
    lemma_scan_done_bounds(s, 0);
    lemma_tag_precheck_prefix(s, k, 0);
    lemma_tag_precheck_ge(s, 0);
    lemma_command_prefix_not_doomed(s, k);
    lemma_scan_frame_prefix(s, k, 0);
}

/// In a prefix of a decodable command buffer whose tag pre-check has
/// found the tag, the command name is not doomed.
#[verifier::rlimit(100)]
#[verifier::spinoff_prover]
proof fn lemma_command_prefix_not_doomed(s: Seq<u8>, k: int)
    requires
        spec_decode_command(s) is Done,
        0 <= k <= s.len(),
    ensures
        match tag_precheck(s.subrange(0, k), 0) {
            TagCheck::Found { sp } => !command_name_doomed(s.subrange(0, k), sp + 1),
            _ => true,
        },
{
    lemma_scan_done_bounds(s, 0);
    let end = scan_frame(s, 0)->Done_end;
    let f = s.subrange(0, end);
    let p = s.subrange(0, k);
    crate::command::lemma_p_command_name(f);
    let te = crate::tok::p_tag_token(f, 0)->Some_0.0;
    // the pre-check of the full buffer and of the prefix find this tag
    lemma_tag_run_chars(f, 0);
    assert(te == crate::tok::tag_end(f, 0));
    assert forall|t: int| 0 <= t < te implies crate::chars::is_tag_char(#[trigger] s[t]) by {
        assert(f[t] == s[t]);
        assert(crate::chars::is_tag_char(f[t]));
    }
    assert(s[te] == f[te]);
    lemma_tag_precheck_of(s, te);
    lemma_tag_precheck_prefix(s, k, 0);
    if te < k {
        // the name atom of the frame is one of the accepted words with a
        // SP or CR terminator; the cut name stays viable
        let j0 = crate::tok::p_atom(f, te + 1)->Some_0.0;
        let a = crate::tok::p_atom(f, te + 1)->Some_0.1;
        crate::tok::lemma_tok_bounds(f, te + 1);
        lemma_atom_end_cut(s, end, te + 1);
        assert(crate::tok::atom_end(s, te + 1) == j0);
        assert(s.subrange(te + 1, j0) =~= a);
        assert(s[j0] == f[j0]);
        lemma_name_cut_cases(s, k, te + 1, a, j0);
        // the byte after `name SP` opens the frame's first argument
        crate::command::lemma_p_command_arg(f);
        lemma_atom_end_cut(s, k, te + 1);
        if s[j0] == 0x20u8 && k > j0 + 1 {
            assert(p[j0 + 1] == f[j0 + 1]);
            assert(crate::viable::arg_start_ok(f[j0 + 1]));
        }
        assert(!crate::viable::after_name_doomed(p, te + 1, true));
    }
}

/// A name equal to one of the accepted command words, terminated by SP or
/// CR, keeps a viable cut in every prefix.
proof fn lemma_name_cut_cases(s: Seq<u8>, k: int, i: int, a: Seq<u8>, j0: int)
    requires
        0 <= i <= k <= s.len(),
        crate::tok::atom_end(s, i) == j0,
        j0 < s.len(),
        a == s.subrange(i, j0),
        s[j0] == 0x20u8 || s[j0] == 13u8,
        crate::chars::eq_ci(a, kw::kw_capability()) || crate::chars::eq_ci(a, kw::kw_noop())
            || crate::chars::eq_ci(a, kw::kw_logout()) || crate::chars::eq_ci(a, kw::kw_login())
            || crate::chars::eq_ci(a, kw::kw_authenticate()) || crate::chars::eq_ci(
            a,
            kw::kw_select(),
        ) || crate::chars::eq_ci(a, kw::kw_examine()) || crate::chars::eq_ci(a, kw::kw_create())
            || crate::chars::eq_ci(a, kw::kw_delete()) || crate::chars::eq_ci(a, kw::kw_rename())
            || crate::chars::eq_ci(a, kw::kw_status()) || crate::chars::eq_ci(a, kw::kw_append())
            || crate::chars::eq_ci(a, kw::kw_store()) || crate::chars::eq_ci(a, kw::kw_search())
            || crate::chars::eq_ci(a, kw::kw_fetch()) || crate::chars::eq_ci(a, kw::kw_copy()),
    ensures
        !crate::viable::command_name_unknown(s.subrange(0, k), i),
{
    if crate::chars::eq_ci(a, kw::kw_capability()) {
        lemma_name_viable_cut(s, k, i, kw::kw_capability(), true);
    } else if crate::chars::eq_ci(a, kw::kw_noop()) {
        lemma_name_viable_cut(s, k, i, kw::kw_noop(), true);
    } else if crate::chars::eq_ci(a, kw::kw_logout()) {
        lemma_name_viable_cut(s, k, i, kw::kw_logout(), true);
    } else if crate::chars::eq_ci(a, kw::kw_login()) {
        lemma_name_viable_cut(s, k, i, kw::kw_login(), true);
    } else if crate::chars::eq_ci(a, kw::kw_authenticate()) {
        lemma_name_viable_cut(s, k, i, kw::kw_authenticate(), true);
    } else if crate::chars::eq_ci(a, kw::kw_select()) {
        lemma_name_viable_cut(s, k, i, kw::kw_select(), true);
    } else if crate::chars::eq_ci(a, kw::kw_examine()) {
        lemma_name_viable_cut(s, k, i, kw::kw_examine(), true);
    } else if crate::chars::eq_ci(a, kw::kw_create()) {
        lemma_name_viable_cut(s, k, i, kw::kw_create(), true);
    } else if crate::chars::eq_ci(a, kw::kw_delete()) {
        lemma_name_viable_cut(s, k, i, kw::kw_delete(), true);
    } else if crate::chars::eq_ci(a, kw::kw_rename()) {
        lemma_name_viable_cut(s, k, i, kw::kw_rename(), true);
    } else if crate::chars::eq_ci(a, kw::kw_status()) {
        lemma_name_viable_cut(s, k, i, kw::kw_status(), true);
    } else if crate::chars::eq_ci(a, kw::kw_append()) {
        lemma_name_viable_cut(s, k, i, kw::kw_append(), true);
    } else if crate::chars::eq_ci(a, kw::kw_store()) {
        lemma_name_viable_cut(s, k, i, kw::kw_store(), true);
    } else if crate::chars::eq_ci(a, kw::kw_search()) {
        lemma_name_viable_cut(s, k, i, kw::kw_search(), true);
    } else if crate::chars::eq_ci(a, kw::kw_fetch()) {
        lemma_name_viable_cut(s, k, i, kw::kw_fetch(), true);
    } else {
        lemma_name_viable_cut(s, k, i, kw::kw_copy(), true);
    }
}

// ---------------------------------------------------------------------------
// longest-match precedence
// ---------------------------------------------------------------------------

/// A run of bytes matching an all-atom-character keyword extends the atom.
proof fn lemma_atom_end_extends(f: Seq<u8>, i: int, j: int)
    requires
        0 <= i <= j <= f.len(),
        forall|t: int| i <= t < j ==> is_atom_char(#[trigger] f[t]),
    ensures
        atom_end(f, i) >= j,
    decreases j - i,
{
    crate::tok::lemma_atom_end_bounds_pub(f, i);
    if i < j {
        lemma_atom_end_extends(f, i + 1, j);
    }
}

/// Text beginning `RFC822.TEXT` is never parsed as the bare `RFC822`
/// attribute: the atom is taken by maximal munch, so the longer name wins.
#[verifier::rlimit(100)]
#[verifier::spinoff_prover]
pub proof fn longest_match_rfc822_text(f: Seq<u8>, i: int)
    requires
        0 <= i,
        kw_at(f, i, kw::kw_rfc822_text()),
    ensures
        match p_msg_att_static(f, i) {
            Some((_, att)) => !(att is Rfc822),
            None => true,
        },
{
    assert forall|t: int| i <= t < i + 11 implies is_atom_char(#[trigger] f[t]) by {
        assert(up(f[t]) == up(kw::kw_rfc822_text()[t - i]));
    }
    assert(i + 11 <= f.len());
    assert(p_msg_att_static(f, i) == crate::message::p_msg_att_named(f, i)) by {
        assert(up(f[i + 0]) == up(kw::kw_rfc822_text()[0]));
    }
    lemma_atom_end_extends(f, i, i + 11);
    crate::tok::lemma_tok_bounds(f, i);
    if let Some((j, a)) = p_atom(f, i) {
        assert(a.len() >= 11);
        assert(!crate::chars::eq_ci(a, kw::kw_rfc822()));
        crate::message::lemma_att_helper_shapes(f, j);
    }
}

/// Text beginning `BODYSTRUCTURE` is never parsed as the bare `BODY`
/// attribute (nor as a section form of it).
#[verifier::rlimit(100)]
#[verifier::spinoff_prover]
pub proof fn longest_match_bodystructure(f: Seq<u8>, i: int)
    requires
        0 <= i,
        kw_at(f, i, kw::kw_bodystructure()),
    ensures
        match p_msg_att_static(f, i) {
            Some((_, att)) => !(att is Body) && !(att is BodyExt),
            None => true,
        },
{
    assert forall|t: int| i <= t < i + 13 implies is_atom_char(#[trigger] f[t]) by {
        assert(up(f[t]) == up(kw::kw_bodystructure()[t - i]));
    }
    assert(i + 13 <= f.len());
    // the positional BODY-section branch is not taken: the byte after
    // `BODY` is the S of `STRUCTURE`, not `[`
    assert(p_msg_att_static(f, i) == crate::message::p_msg_att_named(f, i)) by {
        assert(up(f[i + 4]) == up(kw::kw_bodystructure()[4]));
        assert(f[i + 4] != 0x5bu8);
    }
    lemma_atom_end_extends(f, i, i + 13);
    crate::tok::lemma_tok_bounds(f, i);
    if let Some((j, a)) = p_atom(f, i) {
        assert(a.len() >= 13);
        assert(!crate::chars::eq_ci(a, kw::kw_body()));
        crate::message::lemma_att_helper_shapes(f, j);
    }
}

// ---------------------------------------------------------------------------
// ordering invariant: announcements precede literal payloads
// ---------------------------------------------------------------------------

/// `a` ends with `b`.
pub open spec fn ends_with(a: Seq<u8>, b: Seq<u8>) -> bool {
    a.len() >= b.len() && a.subrange(a.len() - b.len(), a.len() as int) == b
}

/// Every literal fragment is directly preceded by a line fragment whose
/// bytes end with the literal's announcement.
pub open spec fn frags_announced(fs: Seq<FragM>) -> bool {
    forall|k: int|
        0 <= k < fs.len() && (#[trigger] fs[k]) is Literal ==> k > 0 && fs[k - 1] is Line
            && ends_with(fs[k - 1]->Line_data, ann(fs[k]->Literal_data.len() as int, false))
}

proof fn lemma_fold_announced(es: Seq<EmitM>, frags: Seq<FragM>, cur: Seq<u8>)
    requires
        frags_announced(frags),
    ensures
        frags_announced(fold_emits(es, frags, cur)),
    decreases es.len(),
{
    if es.len() == 0 {
        let fs = frags.push(FragM::Line { data: cur + seq![13u8, 10u8] });
        assert forall|k: int| 0 <= k < fs.len() && (#[trigger] fs[k]) is Literal implies k > 0
            && fs[k - 1] is Line && ends_with(
            fs[k - 1]->Line_data,
            ann(fs[k]->Literal_data.len() as int, false),
        ) by {
            assert(fs[k] == frags[k]);
            if k >= 1 {
                assert(fs[k - 1] == frags[k - 1]);
            }
        }
    } else {
        match es[0] {
            EmitM::B(b) => {
                lemma_fold_announced(es.drop_first(), frags, cur + b);
            },
            EmitM::L(d, crate::types::LiteralMode::Sync) => {
                let line = FragM::Line { data: cur + ann(d.len() as int, false) };
                let lit = FragM::Literal { data: d, mode: crate::types::LiteralMode::Sync };
                let fs = frags.push(line).push(lit);
                assert(ends_with(cur + ann(d.len() as int, false), ann(d.len() as int, false)))
                    by {
                    let a = cur + ann(d.len() as int, false);
                    let b = ann(d.len() as int, false);
                    assert(a.subrange(a.len() - b.len(), a.len() as int) =~= b);
                }
                assert forall|k: int| 0 <= k < fs.len() && (#[trigger] fs[k]) is Literal implies k
                    > 0 && fs[k - 1] is Line && ends_with(
                    fs[k - 1]->Line_data,
                    ann(fs[k]->Literal_data.len() as int, false),
                ) by {
                    if k < frags.len() {
                        assert(fs[k] == frags[k]);
                        if k >= 1 {
                            assert(fs[k - 1] == frags[k - 1]);
                        }
                    } else if k == frags.len() {
                        assert(fs[k] == line);
                    } else {
                        assert(fs[k] == lit);
                        assert(fs[k - 1] == line);
                    }
                }
                lemma_fold_announced(es.drop_first(), fs, Seq::empty());
            },
            EmitM::L(d, crate::types::LiteralMode::NonSync) => {
                let line = FragM::Line { data: cur + ann(d.len() as int, true) };
                let lit = FragM::Line { data: d };
                let fs = frags.push(line).push(lit);
                assert forall|k: int| 0 <= k < fs.len() && (#[trigger] fs[k]) is Literal implies k
                    > 0 && fs[k - 1] is Line && ends_with(
                    fs[k - 1]->Line_data,
                    ann(fs[k]->Literal_data.len() as int, false),
                ) by {
                    if k < frags.len() {
                        assert(fs[k] == frags[k]);
                        if k >= 1 {
                            assert(fs[k - 1] == frags[k - 1]);
                        }
                    }
                }
                lemma_fold_announced(es.drop_first(), fs, Seq::empty());
            },
        }
    }
}

/// Encoding a command always yields the announcing line fragment strictly
/// before the corresponding literal payload fragment.
pub proof fn ordering_invariant_command(c: CommandM)
    ensures
        frags_announced(enc_command_frags(c)),
{
    assert(frags_announced(Seq::<FragM>::empty()));
    lemma_fold_announced(emits_command(c), Seq::empty(), Seq::empty());
}

/// Encoding a response always yields the announcing line fragment strictly
/// before the corresponding literal payload fragment.
pub proof fn ordering_invariant_response(r: crate::types::ResponseM)
    ensures
        frags_announced(enc_response_frags(r)),
{
    assert(frags_announced(Seq::<FragM>::empty()));
    lemma_fold_announced(emits_response(r), Seq::empty(), Seq::empty());
}

} // verus!
