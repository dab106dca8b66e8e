//! Protocol keyword tables: each keyword as a spec byte sequence (upper case)
//! and an exec matcher that tests it case-insensitively at a position.

use vstd::prelude::*;

use crate::tok::{kw_at, match_ci};
use crate::chars::{eq_ci, eq_ci_x};

verus! {

/// `OK`
pub open spec fn kw_ok() -> Seq<u8> {
    seq![79u8, 75u8]
}

/// Case-insensitive test for `OK` at position `i`.
pub fn kx_ok(f: &[u8], i: usize) -> (r: bool)
    requires i <= f@.len(),
    ensures r == kw_at(f@, i as int, kw_ok()),
{
    let w: &[u8] = &[79u8, 75u8];
    assert(w@ =~= kw_ok());
    match_ci(f, i, w)
}

/// `NO`
pub open spec fn kw_no() -> Seq<u8> {
    seq![78u8, 79u8]
}

/// Case-insensitive test for `NO` at position `i`.
pub fn kx_no(f: &[u8], i: usize) -> (r: bool)
    requires i <= f@.len(),
    ensures r == kw_at(f@, i as int, kw_no()),
{
    let w: &[u8] = &[78u8, 79u8];
    assert(w@ =~= kw_no());
    match_ci(f, i, w)
}

/// `BAD`
pub open spec fn kw_bad() -> Seq<u8> {
    seq![66u8, 65u8, 68u8]
}

/// Case-insensitive test for `BAD` at position `i`.
pub fn kx_bad(f: &[u8], i: usize) -> (r: bool)
    requires i <= f@.len(),
    ensures r == kw_at(f@, i as int, kw_bad()),
{
    let w: &[u8] = &[66u8, 65u8, 68u8];
    assert(w@ =~= kw_bad());
    match_ci(f, i, w)
}

/// `BYE`
pub open spec fn kw_bye() -> Seq<u8> {
    seq![66u8, 89u8, 69u8]
}

/// Case-insensitive test for `BYE` at position `i`.
pub fn kx_bye(f: &[u8], i: usize) -> (r: bool)
    requires i <= f@.len(),
    ensures r == kw_at(f@, i as int, kw_bye()),
{
    let w: &[u8] = &[66u8, 89u8, 69u8];
    assert(w@ =~= kw_bye());
    match_ci(f, i, w)
}

/// `PREAUTH`
pub open spec fn kw_preauth() -> Seq<u8> {
    seq![80u8, 82u8, 69u8, 65u8, 85u8, 84u8, 72u8]
}

/// Case-insensitive test for `PREAUTH` at position `i`.
pub fn kx_preauth(f: &[u8], i: usize) -> (r: bool)
    requires i <= f@.len(),
    ensures r == kw_at(f@, i as int, kw_preauth()),
{
    let w: &[u8] = &[80u8, 82u8, 69u8, 65u8, 85u8, 84u8, 72u8];
    assert(w@ =~= kw_preauth());
    match_ci(f, i, w)
}

/// `ALERT`
pub open spec fn kw_alert() -> Seq<u8> {
    seq![65u8, 76u8, 69u8, 82u8, 84u8]
}

/// Case-insensitive test for `ALERT` at position `i`.
pub fn kx_alert(f: &[u8], i: usize) -> (r: bool)
    requires i <= f@.len(),
    ensures r == kw_at(f@, i as int, kw_alert()),
{
    let w: &[u8] = &[65u8, 76u8, 69u8, 82u8, 84u8];
    assert(w@ =~= kw_alert());
    match_ci(f, i, w)
}

/// `PARSE`
pub open spec fn kw_parse() -> Seq<u8> {
    seq![80u8, 65u8, 82u8, 83u8, 69u8]
}

/// Case-insensitive test for `PARSE` at position `i`.
pub fn kx_parse(f: &[u8], i: usize) -> (r: bool)
    requires i <= f@.len(),
    ensures r == kw_at(f@, i as int, kw_parse()),
{
    let w: &[u8] = &[80u8, 65u8, 82u8, 83u8, 69u8];
    assert(w@ =~= kw_parse());
    match_ci(f, i, w)
}

/// `READ-ONLY`
pub open spec fn kw_read_only() -> Seq<u8> {
    seq![82u8, 69u8, 65u8, 68u8, 45u8, 79u8, 78u8, 76u8, 89u8]
}

/// Case-insensitive test for `READ-ONLY` at position `i`.
pub fn kx_read_only(f: &[u8], i: usize) -> (r: bool)
    requires i <= f@.len(),
    ensures r == kw_at(f@, i as int, kw_read_only()),
{
    let w: &[u8] = &[82u8, 69u8, 65u8, 68u8, 45u8, 79u8, 78u8, 76u8, 89u8];
    assert(w@ =~= kw_read_only());
    match_ci(f, i, w)
}

/// `READ-WRITE`
pub open spec fn kw_read_write() -> Seq<u8> {
    seq![82u8, 69u8, 65u8, 68u8, 45u8, 87u8, 82u8, 73u8, 84u8, 69u8]
}

/// Case-insensitive test for `READ-WRITE` at position `i`.
pub fn kx_read_write(f: &[u8], i: usize) -> (r: bool)
    requires i <= f@.len(),
    ensures r == kw_at(f@, i as int, kw_read_write()),
{
    let w: &[u8] = &[82u8, 69u8, 65u8, 68u8, 45u8, 87u8, 82u8, 73u8, 84u8, 69u8];
    assert(w@ =~= kw_read_write());
    match_ci(f, i, w)
}

/// `TRYCREATE`
pub open spec fn kw_trycreate() -> Seq<u8> {
    seq![84u8, 82u8, 89u8, 67u8, 82u8, 69u8, 65u8, 84u8, 69u8]
}

/// Case-insensitive test for `TRYCREATE` at position `i`.
pub fn kx_trycreate(f: &[u8], i: usize) -> (r: bool)
    requires i <= f@.len(),
    ensures r == kw_at(f@, i as int, kw_trycreate()),
{
    let w: &[u8] = &[84u8, 82u8, 89u8, 67u8, 82u8, 69u8, 65u8, 84u8, 69u8];
    assert(w@ =~= kw_trycreate());
    match_ci(f, i, w)
}

/// `UIDNEXT`
pub open spec fn kw_uidnext() -> Seq<u8> {
    seq![85u8, 73u8, 68u8, 78u8, 69u8, 88u8, 84u8]
}

/// Case-insensitive test for `UIDNEXT` at position `i`.
pub fn kx_uidnext(f: &[u8], i: usize) -> (r: bool)
    requires i <= f@.len(),
    ensures r == kw_at(f@, i as int, kw_uidnext()),
{
    let w: &[u8] = &[85u8, 73u8, 68u8, 78u8, 69u8, 88u8, 84u8];
    assert(w@ =~= kw_uidnext());
    match_ci(f, i, w)
}

/// `UIDVALIDITY`
pub open spec fn kw_uidvalidity() -> Seq<u8> {
    seq![85u8, 73u8, 68u8, 86u8, 65u8, 76u8, 73u8, 68u8, 73u8, 84u8, 89u8]
}

/// Case-insensitive test for `UIDVALIDITY` at position `i`.
pub fn kx_uidvalidity(f: &[u8], i: usize) -> (r: bool)
    requires i <= f@.len(),
    ensures r == kw_at(f@, i as int, kw_uidvalidity()),
{
    let w: &[u8] = &[85u8, 73u8, 68u8, 86u8, 65u8, 76u8, 73u8, 68u8, 73u8, 84u8, 89u8];
    assert(w@ =~= kw_uidvalidity());
    match_ci(f, i, w)
}

/// `UNSEEN`
pub open spec fn kw_unseen() -> Seq<u8> {
    seq![85u8, 78u8, 83u8, 69u8, 69u8, 78u8]
}

/// Case-insensitive test for `UNSEEN` at position `i`.
pub fn kx_unseen(f: &[u8], i: usize) -> (r: bool)
    requires i <= f@.len(),
    ensures r == kw_at(f@, i as int, kw_unseen()),
{
    let w: &[u8] = &[85u8, 78u8, 83u8, 69u8, 69u8, 78u8];
    assert(w@ =~= kw_unseen());
    match_ci(f, i, w)
}

/// `CAPABILITY`
pub open spec fn kw_capability() -> Seq<u8> {
    seq![67u8, 65u8, 80u8, 65u8, 66u8, 73u8, 76u8, 73u8, 84u8, 89u8]
}

/// Case-insensitive test for `CAPABILITY` at position `i`.
pub fn kx_capability(f: &[u8], i: usize) -> (r: bool)
    requires i <= f@.len(),
    ensures r == kw_at(f@, i as int, kw_capability()),
{
    let w: &[u8] = &[67u8, 65u8, 80u8, 65u8, 66u8, 73u8, 76u8, 73u8, 84u8, 89u8];
    assert(w@ =~= kw_capability());
    match_ci(f, i, w)
}

/// `PERMANENTFLAGS`
pub open spec fn kw_permanentflags() -> Seq<u8> {
    seq![80u8, 69u8, 82u8, 77u8, 65u8, 78u8, 69u8, 78u8, 84u8, 70u8, 76u8, 65u8, 71u8, 83u8]
}

/// Case-insensitive test for `PERMANENTFLAGS` at position `i`.
pub fn kx_permanentflags(f: &[u8], i: usize) -> (r: bool)
    requires i <= f@.len(),
    ensures r == kw_at(f@, i as int, kw_permanentflags()),
{
    let w: &[u8] = &[80u8, 69u8, 82u8, 77u8, 65u8, 78u8, 69u8, 78u8, 84u8, 70u8, 76u8, 65u8, 71u8, 83u8];
    assert(w@ =~= kw_permanentflags());
    match_ci(f, i, w)
}

/// `EXISTS`
pub open spec fn kw_exists() -> Seq<u8> {
    seq![69u8, 88u8, 73u8, 83u8, 84u8, 83u8]
}

/// Case-insensitive test for `EXISTS` at position `i`.
pub fn kx_exists(f: &[u8], i: usize) -> (r: bool)
    requires i <= f@.len(),
    ensures r == kw_at(f@, i as int, kw_exists()),
{
    let w: &[u8] = &[69u8, 88u8, 73u8, 83u8, 84u8, 83u8];
    assert(w@ =~= kw_exists());
    match_ci(f, i, w)
}

/// `RECENT`
pub open spec fn kw_recent() -> Seq<u8> {
    seq![82u8, 69u8, 67u8, 69u8, 78u8, 84u8]
}

/// Case-insensitive test for `RECENT` at position `i`.
pub fn kx_recent(f: &[u8], i: usize) -> (r: bool)
    requires i <= f@.len(),
    ensures r == kw_at(f@, i as int, kw_recent()),
{
    let w: &[u8] = &[82u8, 69u8, 67u8, 69u8, 78u8, 84u8];
    assert(w@ =~= kw_recent());
    match_ci(f, i, w)
}

/// `EXPUNGE`
pub open spec fn kw_expunge() -> Seq<u8> {
    seq![69u8, 88u8, 80u8, 85u8, 78u8, 71u8, 69u8]
}

/// Case-insensitive test for `EXPUNGE` at position `i`.
pub fn kx_expunge(f: &[u8], i: usize) -> (r: bool)
    requires i <= f@.len(),
    ensures r == kw_at(f@, i as int, kw_expunge()),
{
    let w: &[u8] = &[69u8, 88u8, 80u8, 85u8, 78u8, 71u8, 69u8];
    assert(w@ =~= kw_expunge());
    match_ci(f, i, w)
}

/// `FETCH`
pub open spec fn kw_fetch() -> Seq<u8> {
    seq![70u8, 69u8, 84u8, 67u8, 72u8]
}

/// Case-insensitive test for `FETCH` at position `i`.
pub fn kx_fetch(f: &[u8], i: usize) -> (r: bool)
    requires i <= f@.len(),
    ensures r == kw_at(f@, i as int, kw_fetch()),
{
    let w: &[u8] = &[70u8, 69u8, 84u8, 67u8, 72u8];
    assert(w@ =~= kw_fetch());
    match_ci(f, i, w)
}

/// `SEARCH`
pub open spec fn kw_search() -> Seq<u8> {
    seq![83u8, 69u8, 65u8, 82u8, 67u8, 72u8]
}

/// Case-insensitive test for `SEARCH` at position `i`.
pub fn kx_search(f: &[u8], i: usize) -> (r: bool)
    requires i <= f@.len(),
    ensures r == kw_at(f@, i as int, kw_search()),
{
    let w: &[u8] = &[83u8, 69u8, 65u8, 82u8, 67u8, 72u8];
    assert(w@ =~= kw_search());
    match_ci(f, i, w)
}

/// `FLAGS`
pub open spec fn kw_flags() -> Seq<u8> {
    seq![70u8, 76u8, 65u8, 71u8, 83u8]
}

/// Case-insensitive test for `FLAGS` at position `i`.
pub fn kx_flags(f: &[u8], i: usize) -> (r: bool)
    requires i <= f@.len(),
    ensures r == kw_at(f@, i as int, kw_flags()),
{
    let w: &[u8] = &[70u8, 76u8, 65u8, 71u8, 83u8];
    assert(w@ =~= kw_flags());
    match_ci(f, i, w)
}

/// `ENVELOPE`
pub open spec fn kw_envelope() -> Seq<u8> {
    seq![69u8, 78u8, 86u8, 69u8, 76u8, 79u8, 80u8, 69u8]
}

/// Case-insensitive test for `ENVELOPE` at position `i`.
pub fn kx_envelope(f: &[u8], i: usize) -> (r: bool)
    requires i <= f@.len(),
    ensures r == kw_at(f@, i as int, kw_envelope()),
{
    let w: &[u8] = &[69u8, 78u8, 86u8, 69u8, 76u8, 79u8, 80u8, 69u8];
    assert(w@ =~= kw_envelope());
    match_ci(f, i, w)
}

/// `INTERNALDATE`
pub open spec fn kw_internaldate() -> Seq<u8> {
    seq![73u8, 78u8, 84u8, 69u8, 82u8, 78u8, 65u8, 76u8, 68u8, 65u8, 84u8, 69u8]
}

/// Case-insensitive test for `INTERNALDATE` at position `i`.
pub fn kx_internaldate(f: &[u8], i: usize) -> (r: bool)
    requires i <= f@.len(),
    ensures r == kw_at(f@, i as int, kw_internaldate()),
{
    let w: &[u8] = &[73u8, 78u8, 84u8, 69u8, 82u8, 78u8, 65u8, 76u8, 68u8, 65u8, 84u8, 69u8];
    assert(w@ =~= kw_internaldate());
    match_ci(f, i, w)
}

/// `RFC822`
pub open spec fn kw_rfc822() -> Seq<u8> {
    seq![82u8, 70u8, 67u8, 56u8, 50u8, 50u8]
}

/// Case-insensitive test for `RFC822` at position `i`.
pub fn kx_rfc822(f: &[u8], i: usize) -> (r: bool)
    requires i <= f@.len(),
    ensures r == kw_at(f@, i as int, kw_rfc822()),
{
    let w: &[u8] = &[82u8, 70u8, 67u8, 56u8, 50u8, 50u8];
    assert(w@ =~= kw_rfc822());
    match_ci(f, i, w)
}

/// `RFC822.HEADER`
pub open spec fn kw_rfc822_header() -> Seq<u8> {
    seq![82u8, 70u8, 67u8, 56u8, 50u8, 50u8, 46u8, 72u8, 69u8, 65u8, 68u8, 69u8, 82u8]
}

/// Case-insensitive test for `RFC822.HEADER` at position `i`.
pub fn kx_rfc822_header(f: &[u8], i: usize) -> (r: bool)
    requires i <= f@.len(),
    ensures r == kw_at(f@, i as int, kw_rfc822_header()),
{
    let w: &[u8] = &[82u8, 70u8, 67u8, 56u8, 50u8, 50u8, 46u8, 72u8, 69u8, 65u8, 68u8, 69u8, 82u8];
    assert(w@ =~= kw_rfc822_header());
    match_ci(f, i, w)
}

/// `RFC822.TEXT`
pub open spec fn kw_rfc822_text() -> Seq<u8> {
    seq![82u8, 70u8, 67u8, 56u8, 50u8, 50u8, 46u8, 84u8, 69u8, 88u8, 84u8]
}

/// Case-insensitive test for `RFC822.TEXT` at position `i`.
pub fn kx_rfc822_text(f: &[u8], i: usize) -> (r: bool)
    requires i <= f@.len(),
    ensures r == kw_at(f@, i as int, kw_rfc822_text()),
{
    let w: &[u8] = &[82u8, 70u8, 67u8, 56u8, 50u8, 50u8, 46u8, 84u8, 69u8, 88u8, 84u8];
    assert(w@ =~= kw_rfc822_text());
    match_ci(f, i, w)
}

/// `RFC822.SIZE`
pub open spec fn kw_rfc822_size() -> Seq<u8> {
    seq![82u8, 70u8, 67u8, 56u8, 50u8, 50u8, 46u8, 83u8, 73u8, 90u8, 69u8]
}

/// Case-insensitive test for `RFC822.SIZE` at position `i`.
pub fn kx_rfc822_size(f: &[u8], i: usize) -> (r: bool)
    requires i <= f@.len(),
    ensures r == kw_at(f@, i as int, kw_rfc822_size()),
{
    let w: &[u8] = &[82u8, 70u8, 67u8, 56u8, 50u8, 50u8, 46u8, 83u8, 73u8, 90u8, 69u8];
    assert(w@ =~= kw_rfc822_size());
    match_ci(f, i, w)
}

/// `BODY`
pub open spec fn kw_body() -> Seq<u8> {
    seq![66u8, 79u8, 68u8, 89u8]
}

/// Case-insensitive test for `BODY` at position `i`.
pub fn kx_body(f: &[u8], i: usize) -> (r: bool)
    requires i <= f@.len(),
    ensures r == kw_at(f@, i as int, kw_body()),
{
    let w: &[u8] = &[66u8, 79u8, 68u8, 89u8];
    assert(w@ =~= kw_body());
    match_ci(f, i, w)
}

/// `BODYSTRUCTURE`
pub open spec fn kw_bodystructure() -> Seq<u8> {
    seq![66u8, 79u8, 68u8, 89u8, 83u8, 84u8, 82u8, 85u8, 67u8, 84u8, 85u8, 82u8, 69u8]
}

/// Case-insensitive test for `BODYSTRUCTURE` at position `i`.
pub fn kx_bodystructure(f: &[u8], i: usize) -> (r: bool)
    requires i <= f@.len(),
    ensures r == kw_at(f@, i as int, kw_bodystructure()),
{
    let w: &[u8] = &[66u8, 79u8, 68u8, 89u8, 83u8, 84u8, 82u8, 85u8, 67u8, 84u8, 85u8, 82u8, 69u8];
    assert(w@ =~= kw_bodystructure());
    match_ci(f, i, w)
}

/// `BODY.PEEK`
pub open spec fn kw_body_peek() -> Seq<u8> {
    seq![66u8, 79u8, 68u8, 89u8, 46u8, 80u8, 69u8, 69u8, 75u8]
}

/// Case-insensitive test for `BODY.PEEK` at position `i`.
pub fn kx_body_peek(f: &[u8], i: usize) -> (r: bool)
    requires i <= f@.len(),
    ensures r == kw_at(f@, i as int, kw_body_peek()),
{
    let w: &[u8] = &[66u8, 79u8, 68u8, 89u8, 46u8, 80u8, 69u8, 69u8, 75u8];
    assert(w@ =~= kw_body_peek());
    match_ci(f, i, w)
}

/// `UID`
pub open spec fn kw_uid() -> Seq<u8> {
    seq![85u8, 73u8, 68u8]
}

/// Case-insensitive test for `UID` at position `i`.
pub fn kx_uid(f: &[u8], i: usize) -> (r: bool)
    requires i <= f@.len(),
    ensures r == kw_at(f@, i as int, kw_uid()),
{
    let w: &[u8] = &[85u8, 73u8, 68u8];
    assert(w@ =~= kw_uid());
    match_ci(f, i, w)
}

/// `NIL`
pub open spec fn kw_nil() -> Seq<u8> {
    seq![78u8, 73u8, 76u8]
}

/// Case-insensitive test for `NIL` at position `i`.
pub fn kx_nil(f: &[u8], i: usize) -> (r: bool)
    requires i <= f@.len(),
    ensures r == kw_at(f@, i as int, kw_nil()),
{
    let w: &[u8] = &[78u8, 73u8, 76u8];
    assert(w@ =~= kw_nil());
    match_ci(f, i, w)
}

/// `INBOX`
pub open spec fn kw_inbox() -> Seq<u8> {
    seq![73u8, 78u8, 66u8, 79u8, 88u8]
}

/// Case-insensitive test for `INBOX` at position `i`.
pub fn kx_inbox(f: &[u8], i: usize) -> (r: bool)
    requires i <= f@.len(),
    ensures r == kw_at(f@, i as int, kw_inbox()),
{
    let w: &[u8] = &[73u8, 78u8, 66u8, 79u8, 88u8];
    assert(w@ =~= kw_inbox());
    match_ci(f, i, w)
}

/// `LOGIN`
pub open spec fn kw_login() -> Seq<u8> {
    seq![76u8, 79u8, 71u8, 73u8, 78u8]
}

/// Case-insensitive test for `LOGIN` at position `i`.
pub fn kx_login(f: &[u8], i: usize) -> (r: bool)
    requires i <= f@.len(),
    ensures r == kw_at(f@, i as int, kw_login()),
{
    let w: &[u8] = &[76u8, 79u8, 71u8, 73u8, 78u8];
    assert(w@ =~= kw_login());
    match_ci(f, i, w)
}

/// `LOGOUT`
pub open spec fn kw_logout() -> Seq<u8> {
    seq![76u8, 79u8, 71u8, 79u8, 85u8, 84u8]
}

/// Case-insensitive test for `LOGOUT` at position `i`.
pub fn kx_logout(f: &[u8], i: usize) -> (r: bool)
    requires i <= f@.len(),
    ensures r == kw_at(f@, i as int, kw_logout()),
{
    let w: &[u8] = &[76u8, 79u8, 71u8, 79u8, 85u8, 84u8];
    assert(w@ =~= kw_logout());
    match_ci(f, i, w)
}

/// `NOOP`
pub open spec fn kw_noop() -> Seq<u8> {
    seq![78u8, 79u8, 79u8, 80u8]
}

/// Case-insensitive test for `NOOP` at position `i`.
pub fn kx_noop(f: &[u8], i: usize) -> (r: bool)
    requires i <= f@.len(),
    ensures r == kw_at(f@, i as int, kw_noop()),
{
    let w: &[u8] = &[78u8, 79u8, 79u8, 80u8];
    assert(w@ =~= kw_noop());
    match_ci(f, i, w)
}

/// `SELECT`
pub open spec fn kw_select() -> Seq<u8> {
    seq![83u8, 69u8, 76u8, 69u8, 67u8, 84u8]
}

/// Case-insensitive test for `SELECT` at position `i`.
pub fn kx_select(f: &[u8], i: usize) -> (r: bool)
    requires i <= f@.len(),
    ensures r == kw_at(f@, i as int, kw_select()),
{
    let w: &[u8] = &[83u8, 69u8, 76u8, 69u8, 67u8, 84u8];
    assert(w@ =~= kw_select());
    match_ci(f, i, w)
}

/// `EXAMINE`
pub open spec fn kw_examine() -> Seq<u8> {
    seq![69u8, 88u8, 65u8, 77u8, 73u8, 78u8, 69u8]
}

/// Case-insensitive test for `EXAMINE` at position `i`.
pub fn kx_examine(f: &[u8], i: usize) -> (r: bool)
    requires i <= f@.len(),
    ensures r == kw_at(f@, i as int, kw_examine()),
{
    let w: &[u8] = &[69u8, 88u8, 65u8, 77u8, 73u8, 78u8, 69u8];
    assert(w@ =~= kw_examine());
    match_ci(f, i, w)
}

/// `CREATE`
pub open spec fn kw_create() -> Seq<u8> {
    seq![67u8, 82u8, 69u8, 65u8, 84u8, 69u8]
}

/// Case-insensitive test for `CREATE` at position `i`.
pub fn kx_create(f: &[u8], i: usize) -> (r: bool)
    requires i <= f@.len(),
    ensures r == kw_at(f@, i as int, kw_create()),
{
    let w: &[u8] = &[67u8, 82u8, 69u8, 65u8, 84u8, 69u8];
    assert(w@ =~= kw_create());
    match_ci(f, i, w)
}

/// `DELETE`
pub open spec fn kw_delete() -> Seq<u8> {
    seq![68u8, 69u8, 76u8, 69u8, 84u8, 69u8]
}

/// Case-insensitive test for `DELETE` at position `i`.
pub fn kx_delete(f: &[u8], i: usize) -> (r: bool)
    requires i <= f@.len(),
    ensures r == kw_at(f@, i as int, kw_delete()),
{
    let w: &[u8] = &[68u8, 69u8, 76u8, 69u8, 84u8, 69u8];
    assert(w@ =~= kw_delete());
    match_ci(f, i, w)
}

/// `RENAME`
pub open spec fn kw_rename() -> Seq<u8> {
    seq![82u8, 69u8, 78u8, 65u8, 77u8, 69u8]
}

/// Case-insensitive test for `RENAME` at position `i`.
pub fn kx_rename(f: &[u8], i: usize) -> (r: bool)
    requires i <= f@.len(),
    ensures r == kw_at(f@, i as int, kw_rename()),
{
    let w: &[u8] = &[82u8, 69u8, 78u8, 65u8, 77u8, 69u8];
    assert(w@ =~= kw_rename());
    match_ci(f, i, w)
}

/// `STATUS`
pub open spec fn kw_status() -> Seq<u8> {
    seq![83u8, 84u8, 65u8, 84u8, 85u8, 83u8]
}

/// Case-insensitive test for `STATUS` at position `i`.
pub fn kx_status(f: &[u8], i: usize) -> (r: bool)
    requires i <= f@.len(),
    ensures r == kw_at(f@, i as int, kw_status()),
{
    let w: &[u8] = &[83u8, 84u8, 65u8, 84u8, 85u8, 83u8];
    assert(w@ =~= kw_status());
    match_ci(f, i, w)
}

/// `APPEND`
pub open spec fn kw_append() -> Seq<u8> {
    seq![65u8, 80u8, 80u8, 69u8, 78u8, 68u8]
}

/// Case-insensitive test for `APPEND` at position `i`.
pub fn kx_append(f: &[u8], i: usize) -> (r: bool)
    requires i <= f@.len(),
    ensures r == kw_at(f@, i as int, kw_append()),
{
    let w: &[u8] = &[65u8, 80u8, 80u8, 69u8, 78u8, 68u8];
    assert(w@ =~= kw_append());
    match_ci(f, i, w)
}

/// `STORE`
pub open spec fn kw_store() -> Seq<u8> {
    seq![83u8, 84u8, 79u8, 82u8, 69u8]
}

/// Case-insensitive test for `STORE` at position `i`.
pub fn kx_store(f: &[u8], i: usize) -> (r: bool)
    requires i <= f@.len(),
    ensures r == kw_at(f@, i as int, kw_store()),
{
    let w: &[u8] = &[83u8, 84u8, 79u8, 82u8, 69u8];
    assert(w@ =~= kw_store());
    match_ci(f, i, w)
}

/// `COPY`
pub open spec fn kw_copy() -> Seq<u8> {
    seq![67u8, 79u8, 80u8, 89u8]
}

/// Case-insensitive test for `COPY` at position `i`.
pub fn kx_copy(f: &[u8], i: usize) -> (r: bool)
    requires i <= f@.len(),
    ensures r == kw_at(f@, i as int, kw_copy()),
{
    let w: &[u8] = &[67u8, 79u8, 80u8, 89u8];
    assert(w@ =~= kw_copy());
    match_ci(f, i, w)
}

/// `AUTHENTICATE`
pub open spec fn kw_authenticate() -> Seq<u8> {
    seq![65u8, 85u8, 84u8, 72u8, 69u8, 78u8, 84u8, 73u8, 67u8, 65u8, 84u8, 69u8]
}

/// Case-insensitive test for `AUTHENTICATE` at position `i`.
pub fn kx_authenticate(f: &[u8], i: usize) -> (r: bool)
    requires i <= f@.len(),
    ensures r == kw_at(f@, i as int, kw_authenticate()),
{
    let w: &[u8] = &[65u8, 85u8, 84u8, 72u8, 69u8, 78u8, 84u8, 73u8, 67u8, 65u8, 84u8, 69u8];
    assert(w@ =~= kw_authenticate());
    match_ci(f, i, w)
}

/// `MESSAGES`
pub open spec fn kw_messages() -> Seq<u8> {
    seq![77u8, 69u8, 83u8, 83u8, 65u8, 71u8, 69u8, 83u8]
}

/// Case-insensitive test for `MESSAGES` at position `i`.
pub fn kx_messages(f: &[u8], i: usize) -> (r: bool)
    requires i <= f@.len(),
    ensures r == kw_at(f@, i as int, kw_messages()),
{
    let w: &[u8] = &[77u8, 69u8, 83u8, 83u8, 65u8, 71u8, 69u8, 83u8];
    assert(w@ =~= kw_messages());
    match_ci(f, i, w)
}

/// `HEADER.FIELDS.NOT`
pub open spec fn kw_header_fields_not() -> Seq<u8> {
    seq![72u8, 69u8, 65u8, 68u8, 69u8, 82u8, 46u8, 70u8, 73u8, 69u8, 76u8, 68u8, 83u8, 46u8, 78u8, 79u8, 84u8]
}

/// Case-insensitive test for `HEADER.FIELDS.NOT` at position `i`.
pub fn kx_header_fields_not(f: &[u8], i: usize) -> (r: bool)
    requires i <= f@.len(),
    ensures r == kw_at(f@, i as int, kw_header_fields_not()),
{
    let w: &[u8] = &[72u8, 69u8, 65u8, 68u8, 69u8, 82u8, 46u8, 70u8, 73u8, 69u8, 76u8, 68u8, 83u8, 46u8, 78u8, 79u8, 84u8];
    assert(w@ =~= kw_header_fields_not());
    match_ci(f, i, w)
}

/// `HEADER.FIELDS`
pub open spec fn kw_header_fields() -> Seq<u8> {
    seq![72u8, 69u8, 65u8, 68u8, 69u8, 82u8, 46u8, 70u8, 73u8, 69u8, 76u8, 68u8, 83u8]
}

/// Case-insensitive test for `HEADER.FIELDS` at position `i`.
pub fn kx_header_fields(f: &[u8], i: usize) -> (r: bool)
    requires i <= f@.len(),
    ensures r == kw_at(f@, i as int, kw_header_fields()),
{
    let w: &[u8] = &[72u8, 69u8, 65u8, 68u8, 69u8, 82u8, 46u8, 70u8, 73u8, 69u8, 76u8, 68u8, 83u8];
    assert(w@ =~= kw_header_fields());
    match_ci(f, i, w)
}

/// `HEADER`
pub open spec fn kw_header() -> Seq<u8> {
    seq![72u8, 69u8, 65u8, 68u8, 69u8, 82u8]
}

/// Case-insensitive test for `HEADER` at position `i`.
pub fn kx_header(f: &[u8], i: usize) -> (r: bool)
    requires i <= f@.len(),
    ensures r == kw_at(f@, i as int, kw_header()),
{
    let w: &[u8] = &[72u8, 69u8, 65u8, 68u8, 69u8, 82u8];
    assert(w@ =~= kw_header());
    match_ci(f, i, w)
}

/// `TEXT`
pub open spec fn kw_text() -> Seq<u8> {
    seq![84u8, 69u8, 88u8, 84u8]
}

/// Case-insensitive test for `TEXT` at position `i`.
pub fn kx_text(f: &[u8], i: usize) -> (r: bool)
    requires i <= f@.len(),
    ensures r == kw_at(f@, i as int, kw_text()),
{
    let w: &[u8] = &[84u8, 69u8, 88u8, 84u8];
    assert(w@ =~= kw_text());
    match_ci(f, i, w)
}

/// `MIME`
pub open spec fn kw_mime() -> Seq<u8> {
    seq![77u8, 73u8, 77u8, 69u8]
}

/// Case-insensitive test for `MIME` at position `i`.
pub fn kx_mime(f: &[u8], i: usize) -> (r: bool)
    requires i <= f@.len(),
    ensures r == kw_at(f@, i as int, kw_mime()),
{
    let w: &[u8] = &[77u8, 73u8, 77u8, 69u8];
    assert(w@ =~= kw_mime());
    match_ci(f, i, w)
}

/// `ALL`
pub open spec fn kw_all() -> Seq<u8> {
    seq![65u8, 76u8, 76u8]
}

/// Case-insensitive test for `ALL` at position `i`.
pub fn kx_all(f: &[u8], i: usize) -> (r: bool)
    requires i <= f@.len(),
    ensures r == kw_at(f@, i as int, kw_all()),
{
    let w: &[u8] = &[65u8, 76u8, 76u8];
    assert(w@ =~= kw_all());
    match_ci(f, i, w)
}

/// `FULL`
pub open spec fn kw_full() -> Seq<u8> {
    seq![70u8, 85u8, 76u8, 76u8]
}

/// Case-insensitive test for `FULL` at position `i`.
pub fn kx_full(f: &[u8], i: usize) -> (r: bool)
    requires i <= f@.len(),
    ensures r == kw_at(f@, i as int, kw_full()),
{
    let w: &[u8] = &[70u8, 85u8, 76u8, 76u8];
    assert(w@ =~= kw_full());
    match_ci(f, i, w)
}

/// `FAST`
pub open spec fn kw_fast() -> Seq<u8> {
    seq![70u8, 65u8, 83u8, 84u8]
}

/// Case-insensitive test for `FAST` at position `i`.
pub fn kx_fast(f: &[u8], i: usize) -> (r: bool)
    requires i <= f@.len(),
    ensures r == kw_at(f@, i as int, kw_fast()),
{
    let w: &[u8] = &[70u8, 65u8, 83u8, 84u8];
    assert(w@ =~= kw_fast());
    match_ci(f, i, w)
}

/// `.SILENT`
pub open spec fn kw_silent_suffix() -> Seq<u8> {
    seq![46u8, 83u8, 73u8, 76u8, 69u8, 78u8, 84u8]
}

/// Case-insensitive test for `.SILENT` at position `i`.
pub fn kx_silent_suffix(f: &[u8], i: usize) -> (r: bool)
    requires i <= f@.len(),
    ensures r == kw_at(f@, i as int, kw_silent_suffix()),
{
    let w: &[u8] = &[46u8, 83u8, 73u8, 76u8, 69u8, 78u8, 84u8];
    assert(w@ =~= kw_silent_suffix());
    match_ci(f, i, w)
}

/// `ANSWERED`
pub open spec fn kw_answered() -> Seq<u8> {
    seq![65u8, 78u8, 83u8, 87u8, 69u8, 82u8, 69u8, 68u8]
}

/// Case-insensitive test for `ANSWERED` at position `i`.
pub fn kx_answered(f: &[u8], i: usize) -> (r: bool)
    requires i <= f@.len(),
    ensures r == kw_at(f@, i as int, kw_answered()),
{
    let w: &[u8] = &[65u8, 78u8, 83u8, 87u8, 69u8, 82u8, 69u8, 68u8];
    assert(w@ =~= kw_answered());
    match_ci(f, i, w)
}

/// `DELETED`
pub open spec fn kw_deleted() -> Seq<u8> {
    seq![68u8, 69u8, 76u8, 69u8, 84u8, 69u8, 68u8]
}

/// Case-insensitive test for `DELETED` at position `i`.
pub fn kx_deleted(f: &[u8], i: usize) -> (r: bool)
    requires i <= f@.len(),
    ensures r == kw_at(f@, i as int, kw_deleted()),
{
    let w: &[u8] = &[68u8, 69u8, 76u8, 69u8, 84u8, 69u8, 68u8];
    assert(w@ =~= kw_deleted());
    match_ci(f, i, w)
}

/// `DRAFT`
pub open spec fn kw_draft() -> Seq<u8> {
    seq![68u8, 82u8, 65u8, 70u8, 84u8]
}

/// Case-insensitive test for `DRAFT` at position `i`.
pub fn kx_draft(f: &[u8], i: usize) -> (r: bool)
    requires i <= f@.len(),
    ensures r == kw_at(f@, i as int, kw_draft()),
{
    let w: &[u8] = &[68u8, 82u8, 65u8, 70u8, 84u8];
    assert(w@ =~= kw_draft());
    match_ci(f, i, w)
}

/// `FLAGGED`
pub open spec fn kw_flagged() -> Seq<u8> {
    seq![70u8, 76u8, 65u8, 71u8, 71u8, 69u8, 68u8]
}

/// Case-insensitive test for `FLAGGED` at position `i`.
pub fn kx_flagged(f: &[u8], i: usize) -> (r: bool)
    requires i <= f@.len(),
    ensures r == kw_at(f@, i as int, kw_flagged()),
{
    let w: &[u8] = &[70u8, 76u8, 65u8, 71u8, 71u8, 69u8, 68u8];
    assert(w@ =~= kw_flagged());
    match_ci(f, i, w)
}

/// `SEEN`
pub open spec fn kw_seen() -> Seq<u8> {
    seq![83u8, 69u8, 69u8, 78u8]
}

/// Case-insensitive test for `SEEN` at position `i`.
pub fn kx_seen(f: &[u8], i: usize) -> (r: bool)
    requires i <= f@.len(),
    ensures r == kw_at(f@, i as int, kw_seen()),
{
    let w: &[u8] = &[83u8, 69u8, 69u8, 78u8];
    assert(w@ =~= kw_seen());
    match_ci(f, i, w)
}

/// `NEW`
pub open spec fn kw_new() -> Seq<u8> {
    seq![78u8, 69u8, 87u8]
}

/// Case-insensitive test for `NEW` at position `i`.
pub fn kx_new(f: &[u8], i: usize) -> (r: bool)
    requires i <= f@.len(),
    ensures r == kw_at(f@, i as int, kw_new()),
{
    let w: &[u8] = &[78u8, 69u8, 87u8];
    assert(w@ =~= kw_new());
    match_ci(f, i, w)
}

/// `OLD`
pub open spec fn kw_old() -> Seq<u8> {
    seq![79u8, 76u8, 68u8]
}

/// Case-insensitive test for `OLD` at position `i`.
pub fn kx_old(f: &[u8], i: usize) -> (r: bool)
    requires i <= f@.len(),
    ensures r == kw_at(f@, i as int, kw_old()),
{
    let w: &[u8] = &[79u8, 76u8, 68u8];
    assert(w@ =~= kw_old());
    match_ci(f, i, w)
}

/// `UNANSWERED`
pub open spec fn kw_unanswered() -> Seq<u8> {
    seq![85u8, 78u8, 65u8, 78u8, 83u8, 87u8, 69u8, 82u8, 69u8, 68u8]
}

/// Case-insensitive test for `UNANSWERED` at position `i`.
pub fn kx_unanswered(f: &[u8], i: usize) -> (r: bool)
    requires i <= f@.len(),
    ensures r == kw_at(f@, i as int, kw_unanswered()),
{
    let w: &[u8] = &[85u8, 78u8, 65u8, 78u8, 83u8, 87u8, 69u8, 82u8, 69u8, 68u8];
    assert(w@ =~= kw_unanswered());
    match_ci(f, i, w)
}

/// `UNDELETED`
pub open spec fn kw_undeleted() -> Seq<u8> {
    seq![85u8, 78u8, 68u8, 69u8, 76u8, 69u8, 84u8, 69u8, 68u8]
}

/// Case-insensitive test for `UNDELETED` at position `i`.
pub fn kx_undeleted(f: &[u8], i: usize) -> (r: bool)
    requires i <= f@.len(),
    ensures r == kw_at(f@, i as int, kw_undeleted()),
{
    let w: &[u8] = &[85u8, 78u8, 68u8, 69u8, 76u8, 69u8, 84u8, 69u8, 68u8];
    assert(w@ =~= kw_undeleted());
    match_ci(f, i, w)
}

/// `UNFLAGGED`
pub open spec fn kw_unflagged() -> Seq<u8> {
    seq![85u8, 78u8, 70u8, 76u8, 65u8, 71u8, 71u8, 69u8, 68u8]
}

/// Case-insensitive test for `UNFLAGGED` at position `i`.
pub fn kx_unflagged(f: &[u8], i: usize) -> (r: bool)
    requires i <= f@.len(),
    ensures r == kw_at(f@, i as int, kw_unflagged()),
{
    let w: &[u8] = &[85u8, 78u8, 70u8, 76u8, 65u8, 71u8, 71u8, 69u8, 68u8];
    assert(w@ =~= kw_unflagged());
    match_ci(f, i, w)
}

/// `UNDRAFT`
pub open spec fn kw_undraft() -> Seq<u8> {
    seq![85u8, 78u8, 68u8, 82u8, 65u8, 70u8, 84u8]
}

/// Case-insensitive test for `UNDRAFT` at position `i`.
pub fn kx_undraft(f: &[u8], i: usize) -> (r: bool)
    requires i <= f@.len(),
    ensures r == kw_at(f@, i as int, kw_undraft()),
{
    let w: &[u8] = &[85u8, 78u8, 68u8, 82u8, 65u8, 70u8, 84u8];
    assert(w@ =~= kw_undraft());
    match_ci(f, i, w)
}

/// `JAN`
pub open spec fn kw_jan() -> Seq<u8> {
    seq![74u8, 65u8, 78u8]
}

/// Case-insensitive test for `JAN` at position `i`.
pub fn kx_jan(f: &[u8], i: usize) -> (r: bool)
    requires i <= f@.len(),
    ensures r == kw_at(f@, i as int, kw_jan()),
{
    let w: &[u8] = &[74u8, 65u8, 78u8];
    assert(w@ =~= kw_jan());
    match_ci(f, i, w)
}

/// `FEB`
pub open spec fn kw_feb() -> Seq<u8> {
    seq![70u8, 69u8, 66u8]
}

/// Case-insensitive test for `FEB` at position `i`.
pub fn kx_feb(f: &[u8], i: usize) -> (r: bool)
    requires i <= f@.len(),
    ensures r == kw_at(f@, i as int, kw_feb()),
{
    let w: &[u8] = &[70u8, 69u8, 66u8];
    assert(w@ =~= kw_feb());
    match_ci(f, i, w)
}

/// `MAR`
pub open spec fn kw_mar() -> Seq<u8> {
    seq![77u8, 65u8, 82u8]
}

/// Case-insensitive test for `MAR` at position `i`.
pub fn kx_mar(f: &[u8], i: usize) -> (r: bool)
    requires i <= f@.len(),
    ensures r == kw_at(f@, i as int, kw_mar()),
{
    let w: &[u8] = &[77u8, 65u8, 82u8];
    assert(w@ =~= kw_mar());
    match_ci(f, i, w)
}

/// `APR`
pub open spec fn kw_apr() -> Seq<u8> {
    seq![65u8, 80u8, 82u8]
}

/// Case-insensitive test for `APR` at position `i`.
pub fn kx_apr(f: &[u8], i: usize) -> (r: bool)
    requires i <= f@.len(),
    ensures r == kw_at(f@, i as int, kw_apr()),
{
    let w: &[u8] = &[65u8, 80u8, 82u8];
    assert(w@ =~= kw_apr());
    match_ci(f, i, w)
}

/// `MAY`
pub open spec fn kw_may() -> Seq<u8> {
    seq![77u8, 65u8, 89u8]
}

/// Case-insensitive test for `MAY` at position `i`.
pub fn kx_may(f: &[u8], i: usize) -> (r: bool)
    requires i <= f@.len(),
    ensures r == kw_at(f@, i as int, kw_may()),
{
    let w: &[u8] = &[77u8, 65u8, 89u8];
    assert(w@ =~= kw_may());
    match_ci(f, i, w)
}

/// `JUN`
pub open spec fn kw_jun() -> Seq<u8> {
    seq![74u8, 85u8, 78u8]
}

/// Case-insensitive test for `JUN` at position `i`.
pub fn kx_jun(f: &[u8], i: usize) -> (r: bool)
    requires i <= f@.len(),
    ensures r == kw_at(f@, i as int, kw_jun()),
{
    let w: &[u8] = &[74u8, 85u8, 78u8];
    assert(w@ =~= kw_jun());
    match_ci(f, i, w)
}

/// `JUL`
pub open spec fn kw_jul() -> Seq<u8> {
    seq![74u8, 85u8, 76u8]
}

/// Case-insensitive test for `JUL` at position `i`.
pub fn kx_jul(f: &[u8], i: usize) -> (r: bool)
    requires i <= f@.len(),
    ensures r == kw_at(f@, i as int, kw_jul()),
{
    let w: &[u8] = &[74u8, 85u8, 76u8];
    assert(w@ =~= kw_jul());
    match_ci(f, i, w)
}

/// `AUG`
pub open spec fn kw_aug() -> Seq<u8> {
    seq![65u8, 85u8, 71u8]
}

/// Case-insensitive test for `AUG` at position `i`.
pub fn kx_aug(f: &[u8], i: usize) -> (r: bool)
    requires i <= f@.len(),
    ensures r == kw_at(f@, i as int, kw_aug()),
{
    let w: &[u8] = &[65u8, 85u8, 71u8];
    assert(w@ =~= kw_aug());
    match_ci(f, i, w)
}

/// `SEP`
pub open spec fn kw_sep() -> Seq<u8> {
    seq![83u8, 69u8, 80u8]
}

/// Case-insensitive test for `SEP` at position `i`.
pub fn kx_sep(f: &[u8], i: usize) -> (r: bool)
    requires i <= f@.len(),
    ensures r == kw_at(f@, i as int, kw_sep()),
{
    let w: &[u8] = &[83u8, 69u8, 80u8];
    assert(w@ =~= kw_sep());
    match_ci(f, i, w)
}

/// `OCT`
pub open spec fn kw_oct() -> Seq<u8> {
    seq![79u8, 67u8, 84u8]
}

/// Case-insensitive test for `OCT` at position `i`.
pub fn kx_oct(f: &[u8], i: usize) -> (r: bool)
    requires i <= f@.len(),
    ensures r == kw_at(f@, i as int, kw_oct()),
{
    let w: &[u8] = &[79u8, 67u8, 84u8];
    assert(w@ =~= kw_oct());
    match_ci(f, i, w)
}

/// `NOV`
pub open spec fn kw_nov() -> Seq<u8> {
    seq![78u8, 79u8, 86u8]
}

/// Case-insensitive test for `NOV` at position `i`.
pub fn kx_nov(f: &[u8], i: usize) -> (r: bool)
    requires i <= f@.len(),
    ensures r == kw_at(f@, i as int, kw_nov()),
{
    let w: &[u8] = &[78u8, 79u8, 86u8];
    assert(w@ =~= kw_nov());
    match_ci(f, i, w)
}

/// `DEC`
pub open spec fn kw_dec() -> Seq<u8> {
    seq![68u8, 69u8, 67u8]
}

/// Case-insensitive test for `DEC` at position `i`.
pub fn kx_dec(f: &[u8], i: usize) -> (r: bool)
    requires i <= f@.len(),
    ensures r == kw_at(f@, i as int, kw_dec()),
{
    let w: &[u8] = &[68u8, 69u8, 67u8];
    assert(w@ =~= kw_dec());
    match_ci(f, i, w)
}

/// Case-insensitive whole-atom test against `kw_ok`.
pub fn ke_ok(a: &[u8]) -> (r: bool)
    ensures r == eq_ci(a@, kw_ok()),
{
    let w: &[u8] = &[79u8, 75u8];
    assert(w@ =~= kw_ok());
    eq_ci_x(a, w)
}

/// Case-insensitive whole-atom test against `kw_no`.
pub fn ke_no(a: &[u8]) -> (r: bool)
    ensures r == eq_ci(a@, kw_no()),
{
    let w: &[u8] = &[78u8, 79u8];
    assert(w@ =~= kw_no());
    eq_ci_x(a, w)
}

/// Case-insensitive whole-atom test against `kw_bad`.
pub fn ke_bad(a: &[u8]) -> (r: bool)
    ensures r == eq_ci(a@, kw_bad()),
{
    let w: &[u8] = &[66u8, 65u8, 68u8];
    assert(w@ =~= kw_bad());
    eq_ci_x(a, w)
}

/// Case-insensitive whole-atom test against `kw_bye`.
pub fn ke_bye(a: &[u8]) -> (r: bool)
    ensures r == eq_ci(a@, kw_bye()),
{
    let w: &[u8] = &[66u8, 89u8, 69u8];
    assert(w@ =~= kw_bye());
    eq_ci_x(a, w)
}

/// Case-insensitive whole-atom test against `kw_preauth`.
pub fn ke_preauth(a: &[u8]) -> (r: bool)
    ensures r == eq_ci(a@, kw_preauth()),
{
    let w: &[u8] = &[80u8, 82u8, 69u8, 65u8, 85u8, 84u8, 72u8];
    assert(w@ =~= kw_preauth());
    eq_ci_x(a, w)
}

/// Case-insensitive whole-atom test against `kw_alert`.
pub fn ke_alert(a: &[u8]) -> (r: bool)
    ensures r == eq_ci(a@, kw_alert()),
{
    let w: &[u8] = &[65u8, 76u8, 69u8, 82u8, 84u8];
    assert(w@ =~= kw_alert());
    eq_ci_x(a, w)
}

/// Case-insensitive whole-atom test against `kw_parse`.
pub fn ke_parse(a: &[u8]) -> (r: bool)
    ensures r == eq_ci(a@, kw_parse()),
{
    let w: &[u8] = &[80u8, 65u8, 82u8, 83u8, 69u8];
    assert(w@ =~= kw_parse());
    eq_ci_x(a, w)
}

/// Case-insensitive whole-atom test against `kw_read_only`.
pub fn ke_read_only(a: &[u8]) -> (r: bool)
    ensures r == eq_ci(a@, kw_read_only()),
{
    let w: &[u8] = &[82u8, 69u8, 65u8, 68u8, 45u8, 79u8, 78u8, 76u8, 89u8];
    assert(w@ =~= kw_read_only());
    eq_ci_x(a, w)
}

/// Case-insensitive whole-atom test against `kw_read_write`.
pub fn ke_read_write(a: &[u8]) -> (r: bool)
    ensures r == eq_ci(a@, kw_read_write()),
{
    let w: &[u8] = &[82u8, 69u8, 65u8, 68u8, 45u8, 87u8, 82u8, 73u8, 84u8, 69u8];
    assert(w@ =~= kw_read_write());
    eq_ci_x(a, w)
}

/// Case-insensitive whole-atom test against `kw_trycreate`.
pub fn ke_trycreate(a: &[u8]) -> (r: bool)
    ensures r == eq_ci(a@, kw_trycreate()),
{
    let w: &[u8] = &[84u8, 82u8, 89u8, 67u8, 82u8, 69u8, 65u8, 84u8, 69u8];
    assert(w@ =~= kw_trycreate());
    eq_ci_x(a, w)
}

/// Case-insensitive whole-atom test against `kw_uidnext`.
pub fn ke_uidnext(a: &[u8]) -> (r: bool)
    ensures r == eq_ci(a@, kw_uidnext()),
{
    let w: &[u8] = &[85u8, 73u8, 68u8, 78u8, 69u8, 88u8, 84u8];
    assert(w@ =~= kw_uidnext());
    eq_ci_x(a, w)
}

/// Case-insensitive whole-atom test against `kw_uidvalidity`.
pub fn ke_uidvalidity(a: &[u8]) -> (r: bool)
    ensures r == eq_ci(a@, kw_uidvalidity()),
{
    let w: &[u8] = &[85u8, 73u8, 68u8, 86u8, 65u8, 76u8, 73u8, 68u8, 73u8, 84u8, 89u8];
    assert(w@ =~= kw_uidvalidity());
    eq_ci_x(a, w)
}

/// Case-insensitive whole-atom test against `kw_unseen`.
pub fn ke_unseen(a: &[u8]) -> (r: bool)
    ensures r == eq_ci(a@, kw_unseen()),
{
    let w: &[u8] = &[85u8, 78u8, 83u8, 69u8, 69u8, 78u8];
    assert(w@ =~= kw_unseen());
    eq_ci_x(a, w)
}

/// Case-insensitive whole-atom test against `kw_capability`.
pub fn ke_capability(a: &[u8]) -> (r: bool)
    ensures r == eq_ci(a@, kw_capability()),
{
    let w: &[u8] = &[67u8, 65u8, 80u8, 65u8, 66u8, 73u8, 76u8, 73u8, 84u8, 89u8];
    assert(w@ =~= kw_capability());
    eq_ci_x(a, w)
}

/// Case-insensitive whole-atom test against `kw_permanentflags`.
pub fn ke_permanentflags(a: &[u8]) -> (r: bool)
    ensures r == eq_ci(a@, kw_permanentflags()),
{
    let w: &[u8] = &[80u8, 69u8, 82u8, 77u8, 65u8, 78u8, 69u8, 78u8, 84u8, 70u8, 76u8, 65u8, 71u8, 83u8];
    assert(w@ =~= kw_permanentflags());
    eq_ci_x(a, w)
}

/// Case-insensitive whole-atom test against `kw_exists`.
pub fn ke_exists(a: &[u8]) -> (r: bool)
    ensures r == eq_ci(a@, kw_exists()),
{
    let w: &[u8] = &[69u8, 88u8, 73u8, 83u8, 84u8, 83u8];
    assert(w@ =~= kw_exists());
    eq_ci_x(a, w)
}

/// Case-insensitive whole-atom test against `kw_recent`.
pub fn ke_recent(a: &[u8]) -> (r: bool)
    ensures r == eq_ci(a@, kw_recent()),
{
    let w: &[u8] = &[82u8, 69u8, 67u8, 69u8, 78u8, 84u8];
    assert(w@ =~= kw_recent());
    eq_ci_x(a, w)
}

/// Case-insensitive whole-atom test against `kw_expunge`.
pub fn ke_expunge(a: &[u8]) -> (r: bool)
    ensures r == eq_ci(a@, kw_expunge()),
{
    let w: &[u8] = &[69u8, 88u8, 80u8, 85u8, 78u8, 71u8, 69u8];
    assert(w@ =~= kw_expunge());
    eq_ci_x(a, w)
}

/// Case-insensitive whole-atom test against `kw_fetch`.
pub fn ke_fetch(a: &[u8]) -> (r: bool)
    ensures r == eq_ci(a@, kw_fetch()),
{
    let w: &[u8] = &[70u8, 69u8, 84u8, 67u8, 72u8];
    assert(w@ =~= kw_fetch());
    eq_ci_x(a, w)
}

/// Case-insensitive whole-atom test against `kw_search`.
pub fn ke_search(a: &[u8]) -> (r: bool)
    ensures r == eq_ci(a@, kw_search()),
{
    let w: &[u8] = &[83u8, 69u8, 65u8, 82u8, 67u8, 72u8];
    assert(w@ =~= kw_search());
    eq_ci_x(a, w)
}

/// Case-insensitive whole-atom test against `kw_flags`.
pub fn ke_flags(a: &[u8]) -> (r: bool)
    ensures r == eq_ci(a@, kw_flags()),
{
    let w: &[u8] = &[70u8, 76u8, 65u8, 71u8, 83u8];
    assert(w@ =~= kw_flags());
    eq_ci_x(a, w)
}

/// Case-insensitive whole-atom test against `kw_envelope`.
pub fn ke_envelope(a: &[u8]) -> (r: bool)
    ensures r == eq_ci(a@, kw_envelope()),
{
    let w: &[u8] = &[69u8, 78u8, 86u8, 69u8, 76u8, 79u8, 80u8, 69u8];
    assert(w@ =~= kw_envelope());
    eq_ci_x(a, w)
}

/// Case-insensitive whole-atom test against `kw_internaldate`.
pub fn ke_internaldate(a: &[u8]) -> (r: bool)
    ensures r == eq_ci(a@, kw_internaldate()),
{
    let w: &[u8] = &[73u8, 78u8, 84u8, 69u8, 82u8, 78u8, 65u8, 76u8, 68u8, 65u8, 84u8, 69u8];
    assert(w@ =~= kw_internaldate());
    eq_ci_x(a, w)
}

/// Case-insensitive whole-atom test against `kw_rfc822`.
pub fn ke_rfc822(a: &[u8]) -> (r: bool)
    ensures r == eq_ci(a@, kw_rfc822()),
{
    let w: &[u8] = &[82u8, 70u8, 67u8, 56u8, 50u8, 50u8];
    assert(w@ =~= kw_rfc822());
    eq_ci_x(a, w)
}

/// Case-insensitive whole-atom test against `kw_rfc822_header`.
pub fn ke_rfc822_header(a: &[u8]) -> (r: bool)
    ensures r == eq_ci(a@, kw_rfc822_header()),
{
    let w: &[u8] = &[82u8, 70u8, 67u8, 56u8, 50u8, 50u8, 46u8, 72u8, 69u8, 65u8, 68u8, 69u8, 82u8];
    assert(w@ =~= kw_rfc822_header());
    eq_ci_x(a, w)
}

/// Case-insensitive whole-atom test against `kw_rfc822_text`.
pub fn ke_rfc822_text(a: &[u8]) -> (r: bool)
    ensures r == eq_ci(a@, kw_rfc822_text()),
{
    let w: &[u8] = &[82u8, 70u8, 67u8, 56u8, 50u8, 50u8, 46u8, 84u8, 69u8, 88u8, 84u8];
    assert(w@ =~= kw_rfc822_text());
    eq_ci_x(a, w)
}

/// Case-insensitive whole-atom test against `kw_rfc822_size`.
pub fn ke_rfc822_size(a: &[u8]) -> (r: bool)
    ensures r == eq_ci(a@, kw_rfc822_size()),
{
    let w: &[u8] = &[82u8, 70u8, 67u8, 56u8, 50u8, 50u8, 46u8, 83u8, 73u8, 90u8, 69u8];
    assert(w@ =~= kw_rfc822_size());
    eq_ci_x(a, w)
}

/// Case-insensitive whole-atom test against `kw_body`.
pub fn ke_body(a: &[u8]) -> (r: bool)
    ensures r == eq_ci(a@, kw_body()),
{
    let w: &[u8] = &[66u8, 79u8, 68u8, 89u8];
    assert(w@ =~= kw_body());
    eq_ci_x(a, w)
}

/// Case-insensitive whole-atom test against `kw_bodystructure`.
pub fn ke_bodystructure(a: &[u8]) -> (r: bool)
    ensures r == eq_ci(a@, kw_bodystructure()),
{
    let w: &[u8] = &[66u8, 79u8, 68u8, 89u8, 83u8, 84u8, 82u8, 85u8, 67u8, 84u8, 85u8, 82u8, 69u8];
    assert(w@ =~= kw_bodystructure());
    eq_ci_x(a, w)
}

/// Case-insensitive whole-atom test against `kw_body_peek`.
pub fn ke_body_peek(a: &[u8]) -> (r: bool)
    ensures r == eq_ci(a@, kw_body_peek()),
{
    let w: &[u8] = &[66u8, 79u8, 68u8, 89u8, 46u8, 80u8, 69u8, 69u8, 75u8];
    assert(w@ =~= kw_body_peek());
    eq_ci_x(a, w)
}

/// Case-insensitive whole-atom test against `kw_uid`.
pub fn ke_uid(a: &[u8]) -> (r: bool)
    ensures r == eq_ci(a@, kw_uid()),
{
    let w: &[u8] = &[85u8, 73u8, 68u8];
    assert(w@ =~= kw_uid());
    eq_ci_x(a, w)
}

/// Case-insensitive whole-atom test against `kw_nil`.
pub fn ke_nil(a: &[u8]) -> (r: bool)
    ensures r == eq_ci(a@, kw_nil()),
{
    let w: &[u8] = &[78u8, 73u8, 76u8];
    assert(w@ =~= kw_nil());
    eq_ci_x(a, w)
}

/// Case-insensitive whole-atom test against `kw_inbox`.
pub fn ke_inbox(a: &[u8]) -> (r: bool)
    ensures r == eq_ci(a@, kw_inbox()),
{
    let w: &[u8] = &[73u8, 78u8, 66u8, 79u8, 88u8];
    assert(w@ =~= kw_inbox());
    eq_ci_x(a, w)
}

/// Case-insensitive whole-atom test against `kw_login`.
pub fn ke_login(a: &[u8]) -> (r: bool)
    ensures r == eq_ci(a@, kw_login()),
{
    let w: &[u8] = &[76u8, 79u8, 71u8, 73u8, 78u8];
    assert(w@ =~= kw_login());
    eq_ci_x(a, w)
}

/// Case-insensitive whole-atom test against `kw_logout`.
pub fn ke_logout(a: &[u8]) -> (r: bool)
    ensures r == eq_ci(a@, kw_logout()),
{
    let w: &[u8] = &[76u8, 79u8, 71u8, 79u8, 85u8, 84u8];
    assert(w@ =~= kw_logout());
    eq_ci_x(a, w)
}

/// Case-insensitive whole-atom test against `kw_noop`.
pub fn ke_noop(a: &[u8]) -> (r: bool)
    ensures r == eq_ci(a@, kw_noop()),
{
    let w: &[u8] = &[78u8, 79u8, 79u8, 80u8];
    assert(w@ =~= kw_noop());
    eq_ci_x(a, w)
}

/// Case-insensitive whole-atom test against `kw_select`.
pub fn ke_select(a: &[u8]) -> (r: bool)
    ensures r == eq_ci(a@, kw_select()),
{
    let w: &[u8] = &[83u8, 69u8, 76u8, 69u8, 67u8, 84u8];
    assert(w@ =~= kw_select());
    eq_ci_x(a, w)
}

/// Case-insensitive whole-atom test against `kw_examine`.
pub fn ke_examine(a: &[u8]) -> (r: bool)
    ensures r == eq_ci(a@, kw_examine()),
{
    let w: &[u8] = &[69u8, 88u8, 65u8, 77u8, 73u8, 78u8, 69u8];
    assert(w@ =~= kw_examine());
    eq_ci_x(a, w)
}

/// Case-insensitive whole-atom test against `kw_create`.
pub fn ke_create(a: &[u8]) -> (r: bool)
    ensures r == eq_ci(a@, kw_create()),
{
    let w: &[u8] = &[67u8, 82u8, 69u8, 65u8, 84u8, 69u8];
    assert(w@ =~= kw_create());
    eq_ci_x(a, w)
}

/// Case-insensitive whole-atom test against `kw_delete`.
pub fn ke_delete(a: &[u8]) -> (r: bool)
    ensures r == eq_ci(a@, kw_delete()),
{
    let w: &[u8] = &[68u8, 69u8, 76u8, 69u8, 84u8, 69u8];
    assert(w@ =~= kw_delete());
    eq_ci_x(a, w)
}

/// Case-insensitive whole-atom test against `kw_rename`.
pub fn ke_rename(a: &[u8]) -> (r: bool)
    ensures r == eq_ci(a@, kw_rename()),
{
    let w: &[u8] = &[82u8, 69u8, 78u8, 65u8, 77u8, 69u8];
    assert(w@ =~= kw_rename());
    eq_ci_x(a, w)
}

/// Case-insensitive whole-atom test against `kw_status`.
pub fn ke_status(a: &[u8]) -> (r: bool)
    ensures r == eq_ci(a@, kw_status()),
{
    let w: &[u8] = &[83u8, 84u8, 65u8, 84u8, 85u8, 83u8];
    assert(w@ =~= kw_status());
    eq_ci_x(a, w)
}

/// Case-insensitive whole-atom test against `kw_append`.
pub fn ke_append(a: &[u8]) -> (r: bool)
    ensures r == eq_ci(a@, kw_append()),
{
    let w: &[u8] = &[65u8, 80u8, 80u8, 69u8, 78u8, 68u8];
    assert(w@ =~= kw_append());
    eq_ci_x(a, w)
}

/// Case-insensitive whole-atom test against `kw_store`.
pub fn ke_store(a: &[u8]) -> (r: bool)
    ensures r == eq_ci(a@, kw_store()),
{
    let w: &[u8] = &[83u8, 84u8, 79u8, 82u8, 69u8];
    assert(w@ =~= kw_store());
    eq_ci_x(a, w)
}

/// Case-insensitive whole-atom test against `kw_copy`.
pub fn ke_copy(a: &[u8]) -> (r: bool)
    ensures r == eq_ci(a@, kw_copy()),
{
    let w: &[u8] = &[67u8, 79u8, 80u8, 89u8];
    assert(w@ =~= kw_copy());
    eq_ci_x(a, w)
}

/// Case-insensitive whole-atom test against `kw_authenticate`.
pub fn ke_authenticate(a: &[u8]) -> (r: bool)
    ensures r == eq_ci(a@, kw_authenticate()),
{
    let w: &[u8] = &[65u8, 85u8, 84u8, 72u8, 69u8, 78u8, 84u8, 73u8, 67u8, 65u8, 84u8, 69u8];
    assert(w@ =~= kw_authenticate());
    eq_ci_x(a, w)
}

/// Case-insensitive whole-atom test against `kw_messages`.
pub fn ke_messages(a: &[u8]) -> (r: bool)
    ensures r == eq_ci(a@, kw_messages()),
{
    let w: &[u8] = &[77u8, 69u8, 83u8, 83u8, 65u8, 71u8, 69u8, 83u8];
    assert(w@ =~= kw_messages());
    eq_ci_x(a, w)
}

/// Case-insensitive whole-atom test against `kw_header_fields_not`.
pub fn ke_header_fields_not(a: &[u8]) -> (r: bool)
    ensures r == eq_ci(a@, kw_header_fields_not()),
{
    let w: &[u8] = &[72u8, 69u8, 65u8, 68u8, 69u8, 82u8, 46u8, 70u8, 73u8, 69u8, 76u8, 68u8, 83u8, 46u8, 78u8, 79u8, 84u8];
    assert(w@ =~= kw_header_fields_not());
    eq_ci_x(a, w)
}

/// Case-insensitive whole-atom test against `kw_header_fields`.
pub fn ke_header_fields(a: &[u8]) -> (r: bool)
    ensures r == eq_ci(a@, kw_header_fields()),
{
    let w: &[u8] = &[72u8, 69u8, 65u8, 68u8, 69u8, 82u8, 46u8, 70u8, 73u8, 69u8, 76u8, 68u8, 83u8];
    assert(w@ =~= kw_header_fields());
    eq_ci_x(a, w)
}

/// Case-insensitive whole-atom test against `kw_header`.
pub fn ke_header(a: &[u8]) -> (r: bool)
    ensures r == eq_ci(a@, kw_header()),
{
    let w: &[u8] = &[72u8, 69u8, 65u8, 68u8, 69u8, 82u8];
    assert(w@ =~= kw_header());
    eq_ci_x(a, w)
}

/// Case-insensitive whole-atom test against `kw_text`.
pub fn ke_text(a: &[u8]) -> (r: bool)
    ensures r == eq_ci(a@, kw_text()),
{
    let w: &[u8] = &[84u8, 69u8, 88u8, 84u8];
    assert(w@ =~= kw_text());
    eq_ci_x(a, w)
}

/// Case-insensitive whole-atom test against `kw_mime`.
pub fn ke_mime(a: &[u8]) -> (r: bool)
    ensures r == eq_ci(a@, kw_mime()),
{
    let w: &[u8] = &[77u8, 73u8, 77u8, 69u8];
    assert(w@ =~= kw_mime());
    eq_ci_x(a, w)
}

/// Case-insensitive whole-atom test against `kw_all`.
pub fn ke_all(a: &[u8]) -> (r: bool)
    ensures r == eq_ci(a@, kw_all()),
{
    let w: &[u8] = &[65u8, 76u8, 76u8];
    assert(w@ =~= kw_all());
    eq_ci_x(a, w)
}

/// Case-insensitive whole-atom test against `kw_full`.
pub fn ke_full(a: &[u8]) -> (r: bool)
    ensures r == eq_ci(a@, kw_full()),
{
    let w: &[u8] = &[70u8, 85u8, 76u8, 76u8];
    assert(w@ =~= kw_full());
    eq_ci_x(a, w)
}

/// Case-insensitive whole-atom test against `kw_fast`.
pub fn ke_fast(a: &[u8]) -> (r: bool)
    ensures r == eq_ci(a@, kw_fast()),
{
    let w: &[u8] = &[70u8, 65u8, 83u8, 84u8];
    assert(w@ =~= kw_fast());
    eq_ci_x(a, w)
}

/// Case-insensitive whole-atom test against `kw_silent_suffix`.
pub fn ke_silent_suffix(a: &[u8]) -> (r: bool)
    ensures r == eq_ci(a@, kw_silent_suffix()),
{
    let w: &[u8] = &[46u8, 83u8, 73u8, 76u8, 69u8, 78u8, 84u8];
    assert(w@ =~= kw_silent_suffix());
    eq_ci_x(a, w)
}

/// Case-insensitive whole-atom test against `kw_answered`.
pub fn ke_answered(a: &[u8]) -> (r: bool)
    ensures r == eq_ci(a@, kw_answered()),
{
    let w: &[u8] = &[65u8, 78u8, 83u8, 87u8, 69u8, 82u8, 69u8, 68u8];
    assert(w@ =~= kw_answered());
    eq_ci_x(a, w)
}

/// Case-insensitive whole-atom test against `kw_deleted`.
pub fn ke_deleted(a: &[u8]) -> (r: bool)
    ensures r == eq_ci(a@, kw_deleted()),
{
    let w: &[u8] = &[68u8, 69u8, 76u8, 69u8, 84u8, 69u8, 68u8];
    assert(w@ =~= kw_deleted());
    eq_ci_x(a, w)
}

/// Case-insensitive whole-atom test against `kw_draft`.
pub fn ke_draft(a: &[u8]) -> (r: bool)
    ensures r == eq_ci(a@, kw_draft()),
{
    let w: &[u8] = &[68u8, 82u8, 65u8, 70u8, 84u8];
    assert(w@ =~= kw_draft());
    eq_ci_x(a, w)
}

/// Case-insensitive whole-atom test against `kw_flagged`.
pub fn ke_flagged(a: &[u8]) -> (r: bool)
    ensures r == eq_ci(a@, kw_flagged()),
{
    let w: &[u8] = &[70u8, 76u8, 65u8, 71u8, 71u8, 69u8, 68u8];
    assert(w@ =~= kw_flagged());
    eq_ci_x(a, w)
}

/// Case-insensitive whole-atom test against `kw_seen`.
pub fn ke_seen(a: &[u8]) -> (r: bool)
    ensures r == eq_ci(a@, kw_seen()),
{
    let w: &[u8] = &[83u8, 69u8, 69u8, 78u8];
    assert(w@ =~= kw_seen());
    eq_ci_x(a, w)
}

/// Case-insensitive whole-atom test against `kw_new`.
pub fn ke_new(a: &[u8]) -> (r: bool)
    ensures r == eq_ci(a@, kw_new()),
{
    let w: &[u8] = &[78u8, 69u8, 87u8];
    assert(w@ =~= kw_new());
    eq_ci_x(a, w)
}

/// Case-insensitive whole-atom test against `kw_old`.
pub fn ke_old(a: &[u8]) -> (r: bool)
    ensures r == eq_ci(a@, kw_old()),
{
    let w: &[u8] = &[79u8, 76u8, 68u8];
    assert(w@ =~= kw_old());
    eq_ci_x(a, w)
}

/// Case-insensitive whole-atom test against `kw_unanswered`.
pub fn ke_unanswered(a: &[u8]) -> (r: bool)
    ensures r == eq_ci(a@, kw_unanswered()),
{
    let w: &[u8] = &[85u8, 78u8, 65u8, 78u8, 83u8, 87u8, 69u8, 82u8, 69u8, 68u8];
    assert(w@ =~= kw_unanswered());
    eq_ci_x(a, w)
}

/// Case-insensitive whole-atom test against `kw_undeleted`.
pub fn ke_undeleted(a: &[u8]) -> (r: bool)
    ensures r == eq_ci(a@, kw_undeleted()),
{
    let w: &[u8] = &[85u8, 78u8, 68u8, 69u8, 76u8, 69u8, 84u8, 69u8, 68u8];
    assert(w@ =~= kw_undeleted());
    eq_ci_x(a, w)
}

/// Case-insensitive whole-atom test against `kw_unflagged`.
pub fn ke_unflagged(a: &[u8]) -> (r: bool)
    ensures r == eq_ci(a@, kw_unflagged()),
{
    let w: &[u8] = &[85u8, 78u8, 70u8, 76u8, 65u8, 71u8, 71u8, 69u8, 68u8];
    assert(w@ =~= kw_unflagged());
    eq_ci_x(a, w)
}

/// Case-insensitive whole-atom test against `kw_undraft`.
pub fn ke_undraft(a: &[u8]) -> (r: bool)
    ensures r == eq_ci(a@, kw_undraft()),
{
    let w: &[u8] = &[85u8, 78u8, 68u8, 82u8, 65u8, 70u8, 84u8];
    assert(w@ =~= kw_undraft());
    eq_ci_x(a, w)
}

/// Case-insensitive whole-atom test against `kw_jan`.
pub fn ke_jan(a: &[u8]) -> (r: bool)
    ensures r == eq_ci(a@, kw_jan()),
{
    let w: &[u8] = &[74u8, 65u8, 78u8];
    assert(w@ =~= kw_jan());
    eq_ci_x(a, w)
}

/// Case-insensitive whole-atom test against `kw_feb`.
pub fn ke_feb(a: &[u8]) -> (r: bool)
    ensures r == eq_ci(a@, kw_feb()),
{
    let w: &[u8] = &[70u8, 69u8, 66u8];
    assert(w@ =~= kw_feb());
    eq_ci_x(a, w)
}

/// Case-insensitive whole-atom test against `kw_mar`.
pub fn ke_mar(a: &[u8]) -> (r: bool)
    ensures r == eq_ci(a@, kw_mar()),
{
    let w: &[u8] = &[77u8, 65u8, 82u8];
    assert(w@ =~= kw_mar());
    eq_ci_x(a, w)
}

/// Case-insensitive whole-atom test against `kw_apr`.
pub fn ke_apr(a: &[u8]) -> (r: bool)
    ensures r == eq_ci(a@, kw_apr()),
{
    let w: &[u8] = &[65u8, 80u8, 82u8];
    assert(w@ =~= kw_apr());
    eq_ci_x(a, w)
}

/// Case-insensitive whole-atom test against `kw_may`.
pub fn ke_may(a: &[u8]) -> (r: bool)
    ensures r == eq_ci(a@, kw_may()),
{
    let w: &[u8] = &[77u8, 65u8, 89u8];
    assert(w@ =~= kw_may());
    eq_ci_x(a, w)
}

/// Case-insensitive whole-atom test against `kw_jun`.
pub fn ke_jun(a: &[u8]) -> (r: bool)
    ensures r == eq_ci(a@, kw_jun()),
{
    let w: &[u8] = &[74u8, 85u8, 78u8];
    assert(w@ =~= kw_jun());
    eq_ci_x(a, w)
}

/// Case-insensitive whole-atom test against `kw_jul`.
pub fn ke_jul(a: &[u8]) -> (r: bool)
    ensures r == eq_ci(a@, kw_jul()),
{
    let w: &[u8] = &[74u8, 85u8, 76u8];
    assert(w@ =~= kw_jul());
    eq_ci_x(a, w)
}

/// Case-insensitive whole-atom test against `kw_aug`.
pub fn ke_aug(a: &[u8]) -> (r: bool)
    ensures r == eq_ci(a@, kw_aug()),
{
    let w: &[u8] = &[65u8, 85u8, 71u8];
    assert(w@ =~= kw_aug());
    eq_ci_x(a, w)
}

/// Case-insensitive whole-atom test against `kw_sep`.
pub fn ke_sep(a: &[u8]) -> (r: bool)
    ensures r == eq_ci(a@, kw_sep()),
{
    let w: &[u8] = &[83u8, 69u8, 80u8];
    assert(w@ =~= kw_sep());
    eq_ci_x(a, w)
}

/// Case-insensitive whole-atom test against `kw_oct`.
pub fn ke_oct(a: &[u8]) -> (r: bool)
    ensures r == eq_ci(a@, kw_oct()),
{
    let w: &[u8] = &[79u8, 67u8, 84u8];
    assert(w@ =~= kw_oct());
    eq_ci_x(a, w)
}

/// Case-insensitive whole-atom test against `kw_nov`.
pub fn ke_nov(a: &[u8]) -> (r: bool)
    ensures r == eq_ci(a@, kw_nov()),
{
    let w: &[u8] = &[78u8, 79u8, 86u8];
    assert(w@ =~= kw_nov());
    eq_ci_x(a, w)
}

/// Case-insensitive whole-atom test against `kw_dec`.
pub fn ke_dec(a: &[u8]) -> (r: bool)
    ensures r == eq_ci(a@, kw_dec()),
{
    let w: &[u8] = &[68u8, 69u8, 67u8];
    assert(w@ =~= kw_dec());
    eq_ci_x(a, w)
}

} // verus!