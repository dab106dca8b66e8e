//! Message framing: finding the extent of one complete message in a byte
//! stream before parsing it.
//!
//! A message is a sequence of CRLF-terminated lines; a line ending in a
//! literal announcement `{n}` or `{n+}` is followed by `n` raw payload
//! bytes and a further line.  The scan yields one of three outcomes:
//! the message is complete up to an end position, more line bytes are
//! needed, or an announced literal's payload is not yet present.
//!
//! All incremental reasoning of the decoders rests on this module: a
//! completed frame never changes when bytes are appended, and a strict
//! prefix of a complete frame never scans as complete.

use vstd::prelude::*;
use crate::chars::{is_digit, is_tag_char, is_tag_char_x};
use crate::tok::{dval, digits_end, p_number, x_number};

verus! {

/// Position of the first CRLF at or after `from`, if any.
pub open spec fn find_crlf(s: Seq<u8>, from: int) -> Option<int>
    decreases s.len() - from,
{
    if from < 0 || from + 2 > s.len() {
        None
    } else if s[from] == 13u8 && s[from + 1] == 10u8 {
        Some(from)
    } else {
        find_crlf(s, from + 1)
    }
}

pub proof fn lemma_find_crlf_props(s: Seq<u8>, from: int)
    requires
        0 <= from <= s.len(),
    ensures
        match find_crlf(s, from) {
            Some(ci) => {
                &&& from <= ci
                &&& ci + 2 <= s.len()
                &&& s[ci] == 13u8
                &&& s[ci + 1] == 10u8
                &&& forall|t: int| from <= t < ci ==> !(s[t] == 13u8 && #[trigger] s[t + 1] == 10u8)
            },
            None => forall|t: int|
                from <= t && t + 2 <= s.len() ==> !(s[t] == 13u8 && #[trigger] s[t + 1] == 10u8),
        },
    decreases s.len() - from,
{
    if from + 2 > s.len() {
    } else if s[from] == 13u8 && s[from + 1] == 10u8 {
    } else {
        lemma_find_crlf_props(s, from + 1);
    }
}

/// A completed search is unaffected by appended bytes.
pub proof fn lemma_find_crlf_ext(s: Seq<u8>, ext: Seq<u8>, from: int)
    requires
        0 <= from <= s.len(),
        find_crlf(s, from).is_some(),
    ensures
        find_crlf(s + ext, from) == find_crlf(s, from),
    decreases s.len() - from,
{
    assert((s + ext).len() == s.len() + ext.len());
    if s[from] == 13u8 && s[from + 1] == 10u8 {
        assert((s + ext)[from] == 13u8 && (s + ext)[from + 1] == 10u8);
    } else {
        assert((s + ext)[from] == s[from] && (s + ext)[from + 1] == s[from + 1]);
        lemma_find_crlf_ext(s, ext, from + 1);
    }
}

/// In a strict prefix cut before the first CRLF, no CRLF is found.
pub proof fn lemma_find_crlf_cut(s: Seq<u8>, k: int, from: int)
    requires
        0 <= from <= s.len(),
        0 <= k <= s.len(),
        match find_crlf(s, from) {
            Some(ci) => k <= ci + 1,
            None => true,
        },
    ensures
        find_crlf(s.subrange(0, k), from) is None,
    decreases s.len() - from,
{
    let p = s.subrange(0, k);
    if from + 2 > p.len() {
    } else {
        assert(p[from] == s[from] && p[from + 1] == s[from + 1]);
        if s[from] == 13u8 && s[from + 1] == 10u8 {
        } else {
            lemma_find_crlf_cut(s, k, from + 1);
        }
    }
}

pub fn find_crlf_x(s: &[u8], from: usize) -> (r: Option<usize>)
    requires
        from <= s@.len(),
    ensures
        match (r, find_crlf(s@, from as int)) {
            (Some(j), Some(jm)) => j as int == jm && j + 2 <= s@.len(),
            (None, None) => true,
            _ => false,
        },
{
    let n = s.len();
    let mut j: usize = from;
    loop
        invariant
            from <= j <= n == s@.len(),
            find_crlf(s@, from as int) == find_crlf(s@, j as int),
        decreases n - j,
    {
        if n - j < 2 {
            return None;
        }
        if s[j] == 13 && s[j + 1] == 10 {
            return Some(j);
        }
        assert(find_crlf(s@, j as int) == find_crlf(s@, j + 1 as int));
        j += 1;
    }
}

/// Start of the maximal digit run that ends at `k` (scanning backwards,
/// not below `start`).
pub open spec fn digits_back(s: Seq<u8>, start: int, k: int) -> int
    decreases k - start,
{
    if start < k && k <= s.len() && 0 <= k - 1 && is_digit(s[k - 1]) {
        digits_back(s, start, k - 1)
    } else {
        k
    }
}

pub proof fn lemma_digits_back_props(s: Seq<u8>, start: int, k: int)
    requires
        0 <= start <= k <= s.len(),
    ensures
        start <= digits_back(s, start, k) <= k,
        forall|t: int| digits_back(s, start, k) <= t < k ==> is_digit(#[trigger] s[t]),
    decreases k - start,
{
    if start < k && is_digit(s[k - 1]) {
        lemma_digits_back_props(s, start, k - 1);
    }
}

/// If `f[i..j]` are digits and the run cannot extend right, then the
/// forward maximal run from `i` ends exactly at `j`.
pub proof fn lemma_digits_end_of_run(f: Seq<u8>, i: int, j: int)
    requires
        0 <= i <= j <= f.len(),
        forall|t: int| i <= t < j ==> is_digit(#[trigger] f[t]),
        j == f.len() || !is_digit(f[j]),
    ensures
        digits_end(f, i) == j,
    decreases j - i,
{
    if i < j {
        lemma_digits_end_of_run(f, i + 1, j);
    }
}

/// The literal announcement at the tail of the line `s[start..ci]`,
/// if the line ends with `{n}` or `{n+}` for a non-zero 32-bit `n`.
pub open spec fn line_literal(s: Seq<u8>, start: int, ci: int) -> Option<(int, bool)> {
    if start < 0 || ci <= start || ci > s.len() {
        None
    } else if s[ci - 1] != 0x7du8 {
        None
    } else {
        let close = ci - 1;
        let plus = close - 1 >= start && s[close - 1] == 0x2bu8;
        let dend = if plus {
            close - 1
        } else {
            close
        };
        let dstart = digits_back(s, start, dend);
        if dstart < dend && dstart - 1 >= start && s[dstart - 1] == 0x7bu8 && 1 <= dval(
            s,
            dstart,
            dend,
        ) <= u32::MAX {
            Some((dval(s, dstart, dend), plus))
        } else {
            None
        }
    }
}

pub fn line_literal_x(s: &[u8], start: usize, ci: usize) -> (r: Option<(u32, bool)>)
    requires
        start <= ci <= s@.len(),
    ensures
        match (r, line_literal(s@, start as int, ci as int)) {
            (Some((n, p)), Some((nm, pm))) => n as int == nm && p == pm,
            (None, None) => true,
            _ => false,
        },
{
    if ci <= start {
        return None;
    }
    if s[ci - 1] != 0x7d {
        return None;
    }
    let close = ci - 1;
    let plus = close >= start + 1 && s[close - 1] == 0x2b;
    let dend = if plus {
        close - 1
    } else {
        close
    };
    // scan the digit run backwards
    let mut k: usize = dend;
    while k > start && is_digit_run_step(s, k)
        invariant
            start <= k <= dend <= s@.len(),
            digits_back(s@, start as int, dend as int) == digits_back(s@, start as int, k as int),
            forall|t: int| k <= t < dend ==> is_digit(#[trigger] s@[t]),
        decreases k,
    {
        assert(digits_back(s@, start as int, k as int) == digits_back(
            s@,
            start as int,
            k - 1 as int,
        ));
        k -= 1;
    }
    assert(digits_back(s@, start as int, k as int) == k as int);
    let dstart = k;
    if !(dstart < dend && dstart >= start + 1 && s[dstart - 1] == 0x7b) {
        proof {
            lemma_digits_back_props(s@, start as int, dend as int);
        }
        return None;
    }
    proof {
        lemma_digits_end_of_run(s@, dstart as int, dend as int);
        crate::tok::lemma_dval_nonneg(s@, dstart as int, dend as int);
    }
    match x_number(s, dstart) {
        Some((e, v)) => {
            if v >= 1 {
                Some((v, plus))
            } else {
                None
            }
        },
        None => None,
    }
}

/// One backward step test of the digit run scan.
fn is_digit_run_step(s: &[u8], k: usize) -> (r: bool)
    requires
        1 <= k <= s@.len(),
    ensures
        r == is_digit(s@[k - 1]),
{
    crate::chars::is_digit_x(s[k - 1])
}

/// Outcome of a frame scan.
pub enum FrameSpec {
    /// No complete message yet: the current line lacks its CRLF.
    Incomplete,
    /// One complete message occupies `s[0..end]`.
    Done { end: int },
    /// A literal of `length` bytes was announced but its payload is not
    /// fully present; `plus` marks the non-synchronizing form.
    Literal { length: u32, plus: bool },
}

/// Scans for the end of one message starting at `from`.
pub open spec fn scan_frame(s: Seq<u8>, from: int) -> FrameSpec
    decreases s.len() - from,
        when 0 <= from <= s.len()
        via scan_frame_dec
{
    match find_crlf(s, from) {
        None => FrameSpec::Incomplete,
        Some(ci) => match line_literal(s, from, ci) {
            None => FrameSpec::Done { end: ci + 2 },
            Some((n, plus)) => if ci + 2 + n <= s.len() {
                scan_frame(s, ci + 2 + n)
            } else {
                FrameSpec::Literal { length: n as u32, plus }
            },
        },
    }
}

#[via_fn]
proof fn scan_frame_dec(s: Seq<u8>, from: int) {
    lemma_find_crlf_props(s, from);
}

/// An announced literal's declared length is never zero.
pub proof fn lemma_scan_literal_nonzero(s: Seq<u8>, from: int)
    requires
        0 <= from <= s.len(),
        scan_frame(s, from) is Literal,
    ensures
        scan_frame(s, from)->Literal_length >= 1,
    decreases s.len() - from,
{
    lemma_find_crlf_props(s, from);
    let ci = find_crlf(s, from)->Some_0;
    match line_literal(s, from, ci) {
        None => {},
        Some((n, plus)) => {
            if ci + 2 + n <= s.len() {
                lemma_scan_literal_nonzero(s, ci + 2 + n);
            }
        },
    }
}

/// Exec counterpart of [`FrameSpec`].
pub enum Frame {
    Incomplete,
    Done { end: usize },
    Literal { length: u32, plus: bool },
}

pub fn scan_frame_x(s: &[u8]) -> (r: Frame)
    ensures
        match (r, scan_frame(s@, 0)) {
            (Frame::Incomplete, FrameSpec::Incomplete) => true,
            (Frame::Done { end }, FrameSpec::Done { end: em }) => end as int == em && end
                <= s@.len(),
            (Frame::Literal { length, plus }, FrameSpec::Literal { length: lm, plus: pm }) => {
                length == lm && plus == pm
            },
            _ => false,
        },
{
    let n = s.len();
    let mut pos: usize = 0;
    loop
        invariant
            pos <= n == s@.len(),
            scan_frame(s@, 0) == scan_frame(s@, pos as int),
        decreases n - pos,
    {
        match find_crlf_x(s, pos) {
            None => {
                return Frame::Incomplete;
            },
            Some(ci) => {
                proof {
                    lemma_find_crlf_props(s@, pos as int);
                }
                match line_literal_x(s, pos, ci) {
                    None => {
                        return Frame::Done { end: ci + 2 };
                    },
                    Some((nv, plus)) => {
                        if nv as usize <= n - ci - 2 {
                            pos = ci + 2 + nv as usize;
                        } else {
                            return Frame::Literal { length: nv, plus };
                        }
                    },
                }
            },
        }
    }
}

// ---------------------------------------------------------------------------
// command tag pre-check
// ---------------------------------------------------------------------------

/// Result of scanning a command buffer for `tag SP`.
pub enum TagCheck {
    /// Only tag characters so far and no SP: wait for more bytes.
    Incomplete,
    /// A byte that can never begin a valid command was found.
    Bad,
    /// A non-empty tag ends at the SP at position `sp`.
    Found { sp: int },
}

/// Scans for the command tag: the bytes before the first SP must all be
/// tag characters and there must be at least one.
pub open spec fn tag_precheck(s: Seq<u8>, i: int) -> TagCheck
    decreases s.len() - i,
{
    if i < 0 || i >= s.len() {
        TagCheck::Incomplete
    } else if s[i] == 0x20u8 {
        if i == 0 {
            TagCheck::Bad
        } else {
            TagCheck::Found { sp: i }
        }
    } else if is_tag_char(s[i]) {
        tag_precheck(s, i + 1)
    } else {
        TagCheck::Bad
    }
}

/// Exec counterpart of [`TagCheck`].
pub enum TagCheckX {
    Incomplete,
    Bad,
    Found { sp: usize },
}

pub fn tag_precheck_x(s: &[u8]) -> (r: TagCheckX)
    ensures
        match (r, tag_precheck(s@, 0)) {
            (TagCheckX::Incomplete, TagCheck::Incomplete) => true,
            (TagCheckX::Bad, TagCheck::Bad) => true,
            (TagCheckX::Found { sp }, TagCheck::Found { sp: spm }) => sp as int == spm && 0 < sp
                < s@.len(),
            _ => false,
        },
{
    let n = s.len();
    let mut i: usize = 0;
    loop
        invariant
            i <= n == s@.len(),
            tag_precheck(s@, 0) == tag_precheck(s@, i as int),
            i > 0 ==> forall|t: int| 0 <= t < i ==> is_tag_char(#[trigger] s@[t]),
        decreases n - i,
    {
        if i >= n {
            return TagCheckX::Incomplete;
        }
        if s[i] == 0x20 {
            if i == 0 {
                return TagCheckX::Bad;
            } else {
                return TagCheckX::Found { sp: i };
            }
        }
        if !is_tag_char_x(s[i]) {
            return TagCheckX::Bad;
        }
        assert(tag_precheck(s@, i as int) == tag_precheck(s@, i + 1 as int));
        i += 1;
    }
}

// ---------------------------------------------------------------------------
// stability under appended bytes, and behaviour on prefixes
// ---------------------------------------------------------------------------

pub proof fn lemma_digits_back_agree(a: Seq<u8>, b: Seq<u8>, start: int, k: int)
    requires
        0 <= start <= k,
        k <= a.len(),
        k <= b.len(),
        forall|t: int| start <= t < k ==> a[t] == b[t],
    ensures
        digits_back(a, start, k) == digits_back(b, start, k),
    decreases k - start,
{
    if start < k && is_digit(a[k - 1]) {
        lemma_digits_back_agree(a, b, start, k - 1);
    }
}

pub proof fn lemma_dval_agree(a: Seq<u8>, b: Seq<u8>, i: int, j: int)
    requires
        0 <= i,
        j <= a.len(),
        j <= b.len(),
        forall|t: int| i <= t < j ==> a[t] == b[t],
    ensures
        dval(a, i, j) == dval(b, i, j),
    decreases j - i,
{
    if i < j {
        lemma_dval_agree(a, b, i, j - 1);
    }
}

/// The announcement at a line's tail depends only on the line's bytes.
pub proof fn lemma_line_literal_agree(a: Seq<u8>, b: Seq<u8>, start: int, ci: int)
    requires
        0 <= start,
        ci <= a.len(),
        ci <= b.len(),
        forall|t: int| start <= t < ci ==> a[t] == b[t],
    ensures
        line_literal(a, start, ci) == line_literal(b, start, ci),
{
    if start < ci {
        if a[ci - 1] == 0x7du8 {
            let close = ci - 1;
            let plus = close - 1 >= start && a[close - 1] == 0x2bu8;
            let dend = if plus {
                close - 1
            } else {
                close
            };
            lemma_digits_back_agree(a, b, start, dend);
            lemma_digits_back_props(a, start, dend);
            let dstart = digits_back(a, start, dend);
            lemma_dval_agree(a, b, dstart, dend);
        }
    }
}

/// A frame that scanned as complete keeps the same end when bytes are
/// appended.
pub proof fn lemma_scan_frame_ext(s: Seq<u8>, ext: Seq<u8>, from: int)
    requires
        0 <= from <= s.len(),
        scan_frame(s, from) is Done,
    ensures
        scan_frame(s + ext, from) == scan_frame(s, from),
    decreases s.len() - from,
{
    lemma_find_crlf_props(s, from);
    let ci = find_crlf(s, from)->Some_0;
    lemma_find_crlf_ext(s, ext, from);
    assert(forall|t: int| from <= t < ci ==> (s + ext)[t] == s[t]);
    lemma_line_literal_agree(s, s + ext, from, ci);
    match line_literal(s, from, ci) {
        None => {},
        Some((n, plus)) => {
            lemma_digits_back_props(s, from, ci);
            assert(n >= 1);
            assert(ci + 2 + n <= s.len());
            lemma_scan_frame_ext(s, ext, ci + 2 + n);
        },
    }
}

/// The tag pre-check keeps a decided outcome when bytes are appended.
pub proof fn lemma_tag_precheck_ext(s: Seq<u8>, ext: Seq<u8>, i: int)
    requires
        0 <= i <= s.len(),
        !(tag_precheck(s, i) is Incomplete),
    ensures
        tag_precheck(s + ext, i) == tag_precheck(s, i),
    decreases s.len() - i,
{
    if i < s.len() {
        assert((s + ext)[i] == s[i]);
        if s[i] == 0x20u8 {
        } else if is_tag_char(s[i]) {
            lemma_tag_precheck_ext(s, ext, i + 1);
        }
    }
}

/// A found SP lies at or after the scan start.
pub proof fn lemma_tag_precheck_ge(s: Seq<u8>, i: int)
    requires
        0 <= i,
    ensures
        match tag_precheck(s, i) {
            TagCheck::Found { sp } => i <= sp < s.len() && s[sp] == 0x20u8,
            _ => true,
        },
    decreases s.len() - i,
{
    if i < s.len() && s[i] != 0x20u8 && is_tag_char(s[i]) {
        lemma_tag_precheck_ge(s, i + 1);
    }
}

/// On a prefix, the tag pre-check gives the same decided outcome or waits.
pub proof fn lemma_tag_precheck_prefix(s: Seq<u8>, k: int, i: int)
    requires
        0 <= i <= k <= s.len(),
    ensures
        match tag_precheck(s, i) {
            TagCheck::Found { sp } => if sp < k {
                tag_precheck(s.subrange(0, k), i) == TagCheck::Found { sp }
            } else {
                tag_precheck(s.subrange(0, k), i) is Incomplete
            },
            TagCheck::Bad => tag_precheck(s.subrange(0, k), i) is Bad || tag_precheck(
                s.subrange(0, k),
                i,
            ) is Incomplete,
            TagCheck::Incomplete => tag_precheck(s.subrange(0, k), i) is Incomplete,
        },
    decreases s.len() - i,
{
    let p = s.subrange(0, k);
    if i >= k {
        assert(tag_precheck(p, i) is Incomplete);
        lemma_tag_precheck_ge(s, i);
    } else {
        assert(p[i] == s[i]);
        if s[i] == 0x20u8 {
        } else if is_tag_char(s[i]) {
            lemma_tag_precheck_prefix(s, k, i + 1);
        }
    }
}

/// A strict prefix of a complete frame is incomplete or blocked on a
/// literal: it never scans as complete, and never with another end.
pub proof fn lemma_scan_frame_prefix(s: Seq<u8>, k: int, from: int)
    requires
        0 <= from <= k <= s.len(),
        scan_frame(s, from) is Done,
        k < scan_frame(s, from)->Done_end,
    ensures
        scan_frame(s.subrange(0, k), from) is Incomplete || scan_frame(
            s.subrange(0, k),
            from,
        ) is Literal,
    decreases s.len() - from,
{
    let p = s.subrange(0, k);
    let end = scan_frame(s, from)->Done_end;
    lemma_find_crlf_props(s, from);
    let ci = find_crlf(s, from)->Some_0;
    match line_literal(s, from, ci) {
        None => {
            // end == ci + 2 and k < end, so the prefix cuts the final CRLF
            lemma_find_crlf_cut(s, k, from);
        },
        Some((n, plus)) => {
            lemma_digits_back_props(s, from, ci);
            assert(n >= 1);
            assert(ci + 2 + n <= s.len());
            if k <= ci + 1 {
                lemma_find_crlf_cut(s, k, from);
            } else {
                // the prefix still contains the announcing line
                assert(forall|t: int| from <= t < ci ==> p[t] == s[t]);
                lemma_find_crlf_props(p, from);
                assert(p[ci] == 13u8 && p[ci + 1] == 10u8);
                lemma_find_crlf_same(s, p, from, ci);
                lemma_line_literal_agree(s, p, from, ci);
                if ci + 2 + n <= k {
                    lemma_scan_frame_prefix(s, k, ci + 2 + n);
                } else {
                    assert(scan_frame(p, from) == FrameSpec::Literal {
                        length: n as u32,
                        plus,
                    });
                }
            }
        },
    }
}

/// Two byte sequences agreeing up to and including a CRLF find the same
/// first CRLF.
pub proof fn lemma_find_crlf_same(s: Seq<u8>, p: Seq<u8>, from: int, ci: int)
    requires
        0 <= from <= ci,
        ci + 2 <= s.len(),
        ci + 2 <= p.len(),
        forall|t: int| from <= t < ci + 2 ==> p[t] == s[t],
        find_crlf(s, from) == Some(ci),
    ensures
        find_crlf(p, from) == Some(ci),
    decreases s.len() - from,
{
    lemma_find_crlf_props(s, from);
    if from == ci {
    } else {
        lemma_find_crlf_same(s, p, from + 1, ci);
    }
}

} // verus!
