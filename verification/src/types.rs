//! Typed protocol messages: commands, responses, greetings and all nested
//! data, together with their mathematical models and well-formedness.
//!
//! Every executable type `T` has a spec-level model (suffix `M`) over `Seq`
//! and a conversion spec function `t_m`; contracts throughout the crate speak
//! of the models.  The `*_wf` predicates state the grammar invariants a value
//! must satisfy to be encodable; decoding only produces such values and the
//! validating constructors enforce them.

use vstd::prelude::*;
use crate::chars::{is_atom_char, is_astring_char, is_tag_char, is_text_char, eq_ci};
use crate::kw;

verus! {

broadcast use
    vstd::std_specs::vec::axiom_vec_decreases_to_view,
    vstd::std_specs::vec::axiom_vec_index_decreases,
    vstd::seq::axiom_seq_index_decreases,
;

// ---------------------------------------------------------------------------
// strings
// ---------------------------------------------------------------------------

/// Whether a literal must be synchronized with a continuation request
/// before its payload may be transmitted.
#[derive(Clone, Copy, PartialEq, Eq, Structural, Debug)]
pub enum LiteralMode {
    Sync,
    NonSync,
}

/// An IMAP `string`: quoted form or length-prefixed literal.
#[derive(Clone, Debug)]
pub enum IString {
    Quoted(Vec<u8>),
    Literal { data: Vec<u8>, mode: LiteralMode },
}

pub enum IStrM {
    Quoted(Seq<u8>),
    Literal { data: Seq<u8>, mode: LiteralMode },
}

pub open spec fn istr_m(s: IString) -> IStrM {
    match s {
        IString::Quoted(q) => IStrM::Quoted(q@),
        IString::Literal { data, mode } => IStrM::Literal { data: data@, mode },
    }
}

/// Quoted content is carried unescaped; any TEXT-CHAR is allowed.
pub open spec fn quoted_wf(q: Seq<u8>) -> bool {
    forall|k: int| 0 <= k < q.len() ==> is_text_char(#[trigger] q[k])
}

/// A literal's declared length is a non-zero 32-bit count.
pub open spec fn literal_wf(d: Seq<u8>) -> bool {
    1 <= d.len() <= u32::MAX
}

pub open spec fn istr_wf(s: IStrM) -> bool {
    match s {
        IStrM::Quoted(q) => quoted_wf(q),
        IStrM::Literal { data, .. } => literal_wf(data),
    }
}

/// `nstring`: `NIL` or a string.
pub open spec fn nstr_m(s: Option<IString>) -> Option<IStrM> {
    match s {
        Some(v) => Some(istr_m(v)),
        None => None,
    }
}

pub open spec fn nstr_wf(s: Option<IStrM>) -> bool {
    match s {
        Some(v) => istr_wf(v),
        None => true,
    }
}

/// An IMAP `astring`: a run of `ASTRING-CHAR`s or a string.
#[derive(Clone, Debug)]
pub enum AString {
    Atom(Vec<u8>),
    Str(IString),
}

pub enum AStrM {
    Atom(Seq<u8>),
    Str(IStrM),
}

pub open spec fn astr_m(s: AString) -> AStrM {
    match s {
        AString::Atom(a) => AStrM::Atom(a@),
        AString::Str(v) => AStrM::Str(istr_m(v)),
    }
}

pub open spec fn atom_wf(a: Seq<u8>) -> bool {
    a.len() >= 1 && (forall|k: int| 0 <= k < a.len() ==> is_atom_char(#[trigger] a[k]))
}

pub open spec fn astr_atom_wf(a: Seq<u8>) -> bool {
    a.len() >= 1 && (forall|k: int| 0 <= k < a.len() ==> is_astring_char(#[trigger] a[k]))
}

pub open spec fn astr_wf(s: AStrM) -> bool {
    match s {
        AStrM::Atom(a) => astr_atom_wf(a),
        AStrM::Str(v) => istr_wf(v),
    }
}

/// Human-readable response text: non-empty, no NUL, CR or LF.
pub open spec fn text_wf(t: Seq<u8>) -> bool {
    t.len() >= 1 && (forall|k: int| 0 <= k < t.len() ==> is_text_char(#[trigger] t[k]))
}

/// A command tag: non-empty run of tag characters.
pub open spec fn tag_wf(t: Seq<u8>) -> bool {
    t.len() >= 1 && (forall|k: int| 0 <= k < t.len() ==> is_tag_char(#[trigger] t[k]))
}

/// A client-chosen correlation token.
#[derive(Clone, Debug)]
pub struct Tag {
    pub bytes: Vec<u8>,
}

// ---------------------------------------------------------------------------
// flags
// ---------------------------------------------------------------------------

/// A message flag as it appears in `FLAGS` lists and fetch results.
#[derive(Clone, Debug)]
pub enum Flag {
    Answered,
    Deleted,
    Draft,
    Flagged,
    Seen,
    Recent,
    /// A keyword flag: a plain atom.
    Keyword(Vec<u8>),
    /// An extension flag: `\` followed by an atom.
    Extension(Vec<u8>),
}

pub enum FlagM {
    Answered,
    Deleted,
    Draft,
    Flagged,
    Seen,
    Recent,
    Keyword(Seq<u8>),
    Extension(Seq<u8>),
}

pub open spec fn flag_m(f: Flag) -> FlagM {
    match f {
        Flag::Answered => FlagM::Answered,
        Flag::Deleted => FlagM::Deleted,
        Flag::Draft => FlagM::Draft,
        Flag::Flagged => FlagM::Flagged,
        Flag::Seen => FlagM::Seen,
        Flag::Recent => FlagM::Recent,
        Flag::Keyword(a) => FlagM::Keyword(a@),
        Flag::Extension(a) => FlagM::Extension(a@),
    }
}

pub open spec fn flags_m(v: Seq<Flag>) -> Seq<FlagM> {
    Seq::new(v.len(), |i: int| flag_m(v[i]))
}

/// The system flag atoms, which an extension flag atom must not collide with.
pub open spec fn is_system_flag_atom(a: Seq<u8>) -> bool {
    ||| eq_ci(a, kw::kw_answered())
    ||| eq_ci(a, kw::kw_deleted())
    ||| eq_ci(a, kw::kw_draft())
    ||| eq_ci(a, kw::kw_flagged())
    ||| eq_ci(a, kw::kw_seen())
    ||| eq_ci(a, kw::kw_recent())
}

pub open spec fn flag_wf(f: FlagM) -> bool {
    match f {
        FlagM::Keyword(a) => atom_wf(a),
        FlagM::Extension(a) => atom_wf(a) && !is_system_flag_atom(a),
        _ => true,
    }
}

pub open spec fn flags_wf(v: Seq<FlagM>) -> bool {
    forall|k: int| 0 <= k < v.len() ==> flag_wf(#[trigger] v[k])
}

/// An entry of a `PERMANENTFLAGS` list: a flag or `\*`.
#[derive(Clone, Debug)]
pub enum FlagPerm {
    Flag(Flag),
    Asterisk,
}

pub enum FlagPermM {
    Flag(FlagM),
    Asterisk,
}

pub open spec fn flag_perm_m(f: FlagPerm) -> FlagPermM {
    match f {
        FlagPerm::Flag(g) => FlagPermM::Flag(flag_m(g)),
        FlagPerm::Asterisk => FlagPermM::Asterisk,
    }
}

pub open spec fn flags_perm_m(v: Seq<FlagPerm>) -> Seq<FlagPermM> {
    Seq::new(v.len(), |i: int| flag_perm_m(v[i]))
}

pub open spec fn flag_perm_wf(f: FlagPermM) -> bool {
    match f {
        FlagPermM::Flag(g) => flag_wf(g),
        FlagPermM::Asterisk => true,
    }
}

pub open spec fn flags_perm_wf(v: Seq<FlagPermM>) -> bool {
    forall|k: int| 0 <= k < v.len() ==> flag_perm_wf(#[trigger] v[k])
}

// ---------------------------------------------------------------------------
// response codes
// ---------------------------------------------------------------------------

/// A status-response code, bracketed inside `[` `]` ahead of the text.
#[derive(Clone, Debug)]
pub enum Code {
    Alert,
    Parse,
    ReadOnly,
    ReadWrite,
    TryCreate,
    UidNext(u32),
    UidValidity(u32),
    Unseen(u32),
    Capability(Vec<Vec<u8>>),
    PermanentFlags(Vec<FlagPerm>),
    /// An unrecognised code: an atom with optional argument text.
    Other(Vec<u8>, Option<Vec<u8>>),
}

pub enum CodeM {
    Alert,
    Parse,
    ReadOnly,
    ReadWrite,
    TryCreate,
    UidNext(u32),
    UidValidity(u32),
    Unseen(u32),
    Capability(Seq<Seq<u8>>),
    PermanentFlags(Seq<FlagPermM>),
    Other(Seq<u8>, Option<Seq<u8>>),
}

pub open spec fn atoms_m(v: Seq<Vec<u8>>) -> Seq<Seq<u8>> {
    Seq::new(v.len(), |i: int| v[i]@)
}

pub open spec fn code_m(c: Code) -> CodeM {
    match c {
        Code::Alert => CodeM::Alert,
        Code::Parse => CodeM::Parse,
        Code::ReadOnly => CodeM::ReadOnly,
        Code::ReadWrite => CodeM::ReadWrite,
        Code::TryCreate => CodeM::TryCreate,
        Code::UidNext(n) => CodeM::UidNext(n),
        Code::UidValidity(n) => CodeM::UidValidity(n),
        Code::Unseen(n) => CodeM::Unseen(n),
        Code::Capability(v) => CodeM::Capability(atoms_m(v@)),
        Code::PermanentFlags(v) => CodeM::PermanentFlags(flags_perm_m(v@)),
        Code::Other(a, t) => CodeM::Other(
            a@,
            match t {
                Some(x) => Some(x@),
                None => None,
            },
        ),
    }
}

pub open spec fn ocode_m(c: Option<Code>) -> Option<CodeM> {
    match c {
        Some(v) => Some(code_m(v)),
        None => None,
    }
}

pub open spec fn atoms_wf(v: Seq<Seq<u8>>) -> bool {
    forall|k: int| 0 <= k < v.len() ==> atom_wf(#[trigger] v[k])
}

/// The atoms recognised as specific codes, which `Other` must not collide with.
pub open spec fn is_known_code_atom(a: Seq<u8>) -> bool {
    ||| eq_ci(a, kw::kw_alert())
    ||| eq_ci(a, kw::kw_parse())
    ||| eq_ci(a, kw::kw_read_only())
    ||| eq_ci(a, kw::kw_read_write())
    ||| eq_ci(a, kw::kw_trycreate())
    ||| eq_ci(a, kw::kw_uidnext())
    ||| eq_ci(a, kw::kw_uidvalidity())
    ||| eq_ci(a, kw::kw_unseen())
    ||| eq_ci(a, kw::kw_capability())
    ||| eq_ci(a, kw::kw_permanentflags())
}

/// Argument text of an `Other` code: non-empty TEXT-CHARs without `]`.
pub open spec fn code_text_wf(t: Seq<u8>) -> bool {
    t.len() >= 1 && (forall|k: int|
        0 <= k < t.len() ==> is_text_char(#[trigger] t[k]) && t[k] != 0x5du8)
}

pub open spec fn code_wf(c: CodeM) -> bool {
    match c {
        CodeM::UidNext(n) => n != 0,
        CodeM::UidValidity(n) => n != 0,
        CodeM::Unseen(n) => n != 0,
        CodeM::Capability(v) => v.len() >= 1 && atoms_wf(v),
        CodeM::PermanentFlags(v) => flags_perm_wf(v),
        CodeM::Other(a, t) => atom_wf(a) && !is_known_code_atom(a) && match t {
            Some(x) => code_text_wf(x),
            None => true,
        },
        _ => true,
    }
}

pub open spec fn ocode_wf(c: Option<CodeM>) -> bool {
    match c {
        Some(v) => code_wf(v),
        None => true,
    }
}

// ---------------------------------------------------------------------------
// greeting
// ---------------------------------------------------------------------------

/// The kind of a server greeting.
#[derive(Clone, Copy, PartialEq, Eq, Structural, Debug)]
pub enum GreetingKind {
    Okay,
    PreAuth,
    Bye,
}

/// The one-time server greeting sent at connection start.
#[derive(Clone, Debug)]
pub struct Greeting {
    pub kind: GreetingKind,
    pub code: Option<Code>,
    pub text: Vec<u8>,
}

pub struct GreetingM {
    pub kind: GreetingKind,
    pub code: Option<CodeM>,
    pub text: Seq<u8>,
}

pub open spec fn greeting_m(g: Greeting) -> GreetingM {
    GreetingM { kind: g.kind, code: ocode_m(g.code), text: g.text@ }
}

pub open spec fn greeting_wf(g: GreetingM) -> bool {
    ocode_wf(g.code) && text_wf(g.text)
}

// ---------------------------------------------------------------------------
// envelope and addresses
// ---------------------------------------------------------------------------

/// One address of an envelope's address lists.
#[derive(Clone, Debug)]
pub struct Address {
    pub name: Option<IString>,
    pub adl: Option<IString>,
    pub mailbox: Option<IString>,
    pub host: Option<IString>,
}

pub struct AddressM {
    pub name: Option<IStrM>,
    pub adl: Option<IStrM>,
    pub mailbox: Option<IStrM>,
    pub host: Option<IStrM>,
}

pub open spec fn address_m(a: Address) -> AddressM {
    AddressM {
        name: nstr_m(a.name),
        adl: nstr_m(a.adl),
        mailbox: nstr_m(a.mailbox),
        host: nstr_m(a.host),
    }
}

pub open spec fn addresses_m(v: Seq<Address>) -> Seq<AddressM> {
    Seq::new(v.len(), |i: int| address_m(v[i]))
}

pub open spec fn address_wf(a: AddressM) -> bool {
    nstr_wf(a.name) && nstr_wf(a.adl) && nstr_wf(a.mailbox) && nstr_wf(a.host)
}

pub open spec fn addresses_wf(v: Seq<AddressM>) -> bool {
    forall|k: int| 0 <= k < v.len() ==> address_wf(#[trigger] v[k])
}

/// A message envelope; an empty address list stands for `NIL`.
#[derive(Clone, Debug)]
pub struct Envelope {
    pub date: Option<IString>,
    pub subject: Option<IString>,
    pub from: Vec<Address>,
    pub sender: Vec<Address>,
    pub reply_to: Vec<Address>,
    pub to: Vec<Address>,
    pub cc: Vec<Address>,
    pub bcc: Vec<Address>,
    pub in_reply_to: Option<IString>,
    pub message_id: Option<IString>,
}

pub struct EnvelopeM {
    pub date: Option<IStrM>,
    pub subject: Option<IStrM>,
    pub from: Seq<AddressM>,
    pub sender: Seq<AddressM>,
    pub reply_to: Seq<AddressM>,
    pub to: Seq<AddressM>,
    pub cc: Seq<AddressM>,
    pub bcc: Seq<AddressM>,
    pub in_reply_to: Option<IStrM>,
    pub message_id: Option<IStrM>,
}

pub open spec fn envelope_m(e: Envelope) -> EnvelopeM {
    EnvelopeM {
        date: nstr_m(e.date),
        subject: nstr_m(e.subject),
        from: addresses_m(e.from@),
        sender: addresses_m(e.sender@),
        reply_to: addresses_m(e.reply_to@),
        to: addresses_m(e.to@),
        cc: addresses_m(e.cc@),
        bcc: addresses_m(e.bcc@),
        in_reply_to: nstr_m(e.in_reply_to),
        message_id: nstr_m(e.message_id),
    }
}

pub open spec fn envelope_wf(e: EnvelopeM) -> bool {
    &&& nstr_wf(e.date)
    &&& nstr_wf(e.subject)
    &&& addresses_wf(e.from)
    &&& addresses_wf(e.sender)
    &&& addresses_wf(e.reply_to)
    &&& addresses_wf(e.to)
    &&& addresses_wf(e.cc)
    &&& addresses_wf(e.bcc)
    &&& nstr_wf(e.in_reply_to)
    &&& nstr_wf(e.message_id)
}

// ---------------------------------------------------------------------------
// date and time
// ---------------------------------------------------------------------------

/// A `date-time`: `"dd-Mon-yyyy hh:mm:ss +zzzz"`, held as plain fields.
#[derive(Clone, Copy, PartialEq, Eq, Structural, Debug)]
pub struct DateTime {
    pub day: u8,
    pub month: u8,
    pub year: u16,
    pub hour: u8,
    pub minute: u8,
    pub second: u8,
    pub zone_negative: bool,
    pub zone_hours: u8,
    pub zone_minutes: u8,
}

pub open spec fn datetime_wf(d: DateTime) -> bool {
    &&& 1 <= d.day <= 31
    &&& 1 <= d.month <= 12
    &&& d.year <= 9999
    &&& d.hour <= 23
    &&& d.minute <= 59
    &&& d.second <= 60
    &&& d.zone_hours <= 23
    &&& d.zone_minutes <= 59
}

// ---------------------------------------------------------------------------
// body structure
// ---------------------------------------------------------------------------

/// A MIME body structure: a single part or a multipart list.
#[derive(Debug)]
pub enum BodyStructure {
    Basic {
        media_type: IString,
        media_subtype: IString,
        /// Attribute/value pairs; an empty list stands for `NIL`.
        params: Vec<(IString, IString)>,
        id: Option<IString>,
        description: Option<IString>,
        encoding: IString,
        size: u32,
    },
    Multipart { parts: Vec<BodyStructure>, subtype: IString },
}

pub enum BodyM {
    Basic {
        media_type: IStrM,
        media_subtype: IStrM,
        params: Seq<(IStrM, IStrM)>,
        id: Option<IStrM>,
        description: Option<IStrM>,
        encoding: IStrM,
        size: u32,
    },
    Multipart { parts: Seq<BodyM>, subtype: IStrM },
}

pub open spec fn params_m(v: Seq<(IString, IString)>) -> Seq<(IStrM, IStrM)> {
    Seq::new(v.len(), |i: int| (istr_m(v[i].0), istr_m(v[i].1)))
}

pub open spec fn body_m(b: BodyStructure) -> BodyM
    decreases b, 0int,
{
    match b {
        BodyStructure::Basic { media_type, media_subtype, params, id, description, encoding, size } => BodyM::Basic {
            media_type: istr_m(media_type),
            media_subtype: istr_m(media_subtype),
            params: params_m(params@),
            id: nstr_m(id),
            description: nstr_m(description),
            encoding: istr_m(encoding),
            size,
        },
        BodyStructure::Multipart { parts, subtype } => BodyM::Multipart {
            parts: bodies_m(parts, 0),
            subtype: istr_m(subtype),
        },
    }
}

/// Models of the parts `v[i..]` of a multipart body.
pub open spec fn bodies_m(v: Vec<BodyStructure>, i: int) -> Seq<BodyM>
    decreases v, v@.len() - i + 1,
        via bodies_m_dec
{
    if 0 <= i < v@.len() {
        seq![body_m(v@[i])] + bodies_m(v, i + 1)
    } else {
        Seq::empty()
    }
}

#[via_fn]
proof fn bodies_m_dec(v: Vec<BodyStructure>, i: int) {
    if 0 <= i < v@.len() {
        assert(decreases_to!(v => v@));
        assert(decreases_to!(v@ => v@[i]));
    }
}

pub open spec fn params_wf(v: Seq<(IStrM, IStrM)>) -> bool {
    forall|k: int| 0 <= k < v.len() ==> istr_wf(#[trigger] v[k].0) && istr_wf(v[k].1)
}

pub open spec fn body_wf(b: BodyM) -> bool
    decreases b, 0int,
{
    match b {
        BodyM::Basic { media_type, media_subtype, params, id, description, encoding, .. } => {
            &&& istr_wf(media_type)
            &&& istr_wf(media_subtype)
            &&& params_wf(params)
            &&& nstr_wf(id)
            &&& nstr_wf(description)
            &&& istr_wf(encoding)
        },
        BodyM::Multipart { parts, subtype } => {
            &&& parts.len() >= 1
            &&& bodies_wf(parts, 0)
            &&& istr_wf(subtype)
        },
    }
}

pub open spec fn bodies_wf(v: Seq<BodyM>, i: int) -> bool
    decreases v, v.len() - i + 1,
{
    if 0 <= i < v.len() {
        body_wf(v[i]) && bodies_wf(v, i + 1)
    } else {
        true
    }
}

/// Nesting depth of a body structure; the decoder bounds it.
pub open spec fn body_depth(b: BodyM) -> int
    decreases b, 0int,
{
    match b {
        BodyM::Basic { .. } => 1,
        BodyM::Multipart { parts, .. } => 1 + bodies_depth(parts, 0),
    }
}

pub open spec fn bodies_depth(v: Seq<BodyM>, i: int) -> int
    decreases v, v.len() - i + 1,
{
    if 0 <= i < v.len() {
        let d = body_depth(v[i]);
        let r = bodies_depth(v, i + 1);
        if d > r {
            d
        } else {
            r
        }
    } else {
        0
    }
}

// ---------------------------------------------------------------------------
// sections
// ---------------------------------------------------------------------------

/// `section-msgtext`: the part of a section that names header or text data.
#[derive(Clone, Debug)]
pub enum Msgtext {
    Header,
    HeaderFields(Vec<AString>),
    HeaderFieldsNot(Vec<AString>),
    Text,
}

pub enum MsgtextM {
    Header,
    HeaderFields(Seq<AStrM>),
    HeaderFieldsNot(Seq<AStrM>),
    Text,
}

pub open spec fn astrs_m(v: Seq<AString>) -> Seq<AStrM> {
    Seq::new(v.len(), |i: int| astr_m(v[i]))
}

pub open spec fn msgtext_m(m: Msgtext) -> MsgtextM {
    match m {
        Msgtext::Header => MsgtextM::Header,
        Msgtext::HeaderFields(v) => MsgtextM::HeaderFields(astrs_m(v@)),
        Msgtext::HeaderFieldsNot(v) => MsgtextM::HeaderFieldsNot(astrs_m(v@)),
        Msgtext::Text => MsgtextM::Text,
    }
}

pub open spec fn astrs_wf(v: Seq<AStrM>) -> bool {
    forall|k: int| 0 <= k < v.len() ==> astr_wf(#[trigger] v[k])
}

pub open spec fn msgtext_wf(m: MsgtextM) -> bool {
    match m {
        MsgtextM::HeaderFields(v) => v.len() >= 1 && astrs_wf(v),
        MsgtextM::HeaderFieldsNot(v) => v.len() >= 1 && astrs_wf(v),
        _ => true,
    }
}

/// `section-text`: what may follow a part number.
#[derive(Clone, Debug)]
pub enum PartText {
    Msgtext(Msgtext),
    Mime,
}

pub enum PartTextM {
    Msgtext(MsgtextM),
    Mime,
}

pub open spec fn part_text_m(p: PartText) -> PartTextM {
    match p {
        PartText::Msgtext(m) => PartTextM::Msgtext(msgtext_m(m)),
        PartText::Mime => PartTextM::Mime,
    }
}

pub open spec fn part_text_wf(p: PartTextM) -> bool {
    match p {
        PartTextM::Msgtext(m) => msgtext_wf(m),
        PartTextM::Mime => true,
    }
}

/// A `section-spec`: message-level text or a dotted part path.
#[derive(Clone, Debug)]
pub enum Section {
    Msgtext(Msgtext),
    Part { part: Vec<u32>, text: Option<PartText> },
}

pub enum SectionM {
    Msgtext(MsgtextM),
    Part { part: Seq<u32>, text: Option<PartTextM> },
}

pub open spec fn section_m(s: Section) -> SectionM {
    match s {
        Section::Msgtext(m) => SectionM::Msgtext(msgtext_m(m)),
        Section::Part { part, text } => SectionM::Part {
            part: part@,
            text: match text {
                Some(t) => Some(part_text_m(t)),
                None => None,
            },
        },
    }
}

pub open spec fn osection_m(s: Option<Section>) -> Option<SectionM> {
    match s {
        Some(v) => Some(section_m(v)),
        None => None,
    }
}

pub open spec fn section_wf(s: SectionM) -> bool {
    match s {
        SectionM::Msgtext(m) => msgtext_wf(m),
        SectionM::Part { part, text } => {
            &&& part.len() >= 1
            &&& forall|k: int| 0 <= k < part.len() ==> #[trigger] part[k] != 0
            &&& match text {
                Some(t) => part_text_wf(t),
                None => true,
            }
        },
    }
}

pub open spec fn osection_wf(s: Option<SectionM>) -> bool {
    match s {
        Some(v) => section_wf(v),
        None => true,
    }
}

// ---------------------------------------------------------------------------
// message attributes and server data
// ---------------------------------------------------------------------------

/// One item of a `FETCH` result.
#[derive(Debug)]
pub enum MessageAttribute {
    Flags(Vec<Flag>),
    Envelope(Envelope),
    InternalDate(DateTime),
    Rfc822(Option<IString>),
    Rfc822Header(Option<IString>),
    Rfc822Text(Option<IString>),
    Rfc822Size(u32),
    Body(BodyStructure),
    BodyStructure(BodyStructure),
    BodyExt { section: Option<Section>, origin: Option<u32>, data: Option<IString> },
    Uid(u32),
}

pub enum MessageAttributeM {
    Flags(Seq<FlagM>),
    Envelope(EnvelopeM),
    InternalDate(DateTime),
    Rfc822(Option<IStrM>),
    Rfc822Header(Option<IStrM>),
    Rfc822Text(Option<IStrM>),
    Rfc822Size(u32),
    Body(BodyM),
    BodyStructure(BodyM),
    BodyExt { section: Option<SectionM>, origin: Option<u32>, data: Option<IStrM> },
    Uid(u32),
}

pub open spec fn msg_att_m(a: MessageAttribute) -> MessageAttributeM {
    match a {
        MessageAttribute::Flags(v) => MessageAttributeM::Flags(flags_m(v@)),
        MessageAttribute::Envelope(e) => MessageAttributeM::Envelope(envelope_m(e)),
        MessageAttribute::InternalDate(d) => MessageAttributeM::InternalDate(d),
        MessageAttribute::Rfc822(s) => MessageAttributeM::Rfc822(nstr_m(s)),
        MessageAttribute::Rfc822Header(s) => MessageAttributeM::Rfc822Header(nstr_m(s)),
        MessageAttribute::Rfc822Text(s) => MessageAttributeM::Rfc822Text(nstr_m(s)),
        MessageAttribute::Rfc822Size(n) => MessageAttributeM::Rfc822Size(n),
        MessageAttribute::Body(b) => MessageAttributeM::Body(body_m(b)),
        MessageAttribute::BodyStructure(b) => MessageAttributeM::BodyStructure(body_m(b)),
        MessageAttribute::BodyExt { section, origin, data } => MessageAttributeM::BodyExt {
            section: osection_m(section),
            origin,
            data: nstr_m(data),
        },
        MessageAttribute::Uid(n) => MessageAttributeM::Uid(n),
    }
}

pub open spec fn msg_atts_m(v: Seq<MessageAttribute>) -> Seq<MessageAttributeM> {
    Seq::new(v.len(), |i: int| msg_att_m(v[i]))
}

pub open spec fn msg_att_wf(a: MessageAttributeM) -> bool {
    match a {
        MessageAttributeM::Flags(v) => flags_wf(v),
        MessageAttributeM::Envelope(e) => envelope_wf(e),
        MessageAttributeM::InternalDate(d) => datetime_wf(d),
        MessageAttributeM::Rfc822(s) => nstr_wf(s),
        MessageAttributeM::Rfc822Header(s) => nstr_wf(s),
        MessageAttributeM::Rfc822Text(s) => nstr_wf(s),
        MessageAttributeM::Rfc822Size(_) => true,
        MessageAttributeM::Body(b) => body_wf(b) && body_depth(b) <= 8,
        MessageAttributeM::BodyStructure(b) => body_wf(b) && body_depth(b) <= 8,
        MessageAttributeM::BodyExt { section, data, .. } => osection_wf(section) && nstr_wf(data),
        MessageAttributeM::Uid(n) => n != 0,
    }
}

pub open spec fn msg_atts_wf(v: Seq<MessageAttributeM>) -> bool {
    forall|k: int| 0 <= k < v.len() ==> msg_att_wf(#[trigger] v[k])
}

/// Untagged server data.
#[derive(Debug)]
pub enum Data {
    Capability(Vec<Vec<u8>>),
    Flags(Vec<Flag>),
    Exists(u32),
    Recent(u32),
    Expunge(u32),
    Search(Vec<u32>),
    Status { mailbox: Mailbox, items: Vec<(StatusItem, u32)> },
    Fetch { seq_or_uid: u32, attributes: Vec<MessageAttribute> },
}

pub enum DataM {
    Capability(Seq<Seq<u8>>),
    Flags(Seq<FlagM>),
    Exists(u32),
    Recent(u32),
    Expunge(u32),
    Search(Seq<u32>),
    Status { mailbox: MailboxM, items: Seq<(StatusItem, u32)> },
    Fetch { seq_or_uid: u32, attributes: Seq<MessageAttributeM> },
}

pub open spec fn data_m(d: Data) -> DataM {
    match d {
        Data::Capability(v) => DataM::Capability(atoms_m(v@)),
        Data::Flags(v) => DataM::Flags(flags_m(v@)),
        Data::Exists(n) => DataM::Exists(n),
        Data::Recent(n) => DataM::Recent(n),
        Data::Expunge(n) => DataM::Expunge(n),
        Data::Search(v) => DataM::Search(v@),
        Data::Status { mailbox, items } => DataM::Status {
            mailbox: mailbox_m(mailbox),
            items: items@,
        },
        Data::Fetch { seq_or_uid, attributes } => DataM::Fetch {
            seq_or_uid,
            attributes: msg_atts_m(attributes@),
        },
    }
}

pub open spec fn data_wf(d: DataM) -> bool {
    match d {
        DataM::Capability(v) => v.len() >= 1 && atoms_wf(v),
        DataM::Flags(v) => flags_wf(v),
        DataM::Exists(_) => true,
        DataM::Recent(_) => true,
        DataM::Expunge(n) => n != 0,
        DataM::Search(v) => forall|k: int| 0 <= k < v.len() ==> #[trigger] v[k] != 0,
        DataM::Status { mailbox, .. } => mailbox_wf(mailbox),
        DataM::Fetch { seq_or_uid, attributes } => seq_or_uid != 0 && attributes.len() >= 1
            && msg_atts_wf(attributes),
    }
}

// ---------------------------------------------------------------------------
// responses
// ---------------------------------------------------------------------------

/// A status response; `Bye` is always untagged.  As in the response
/// grammar, `PREAUTH` is not a response kind: it occurs only in the
/// one-time greeting ([`GreetingKind::PreAuth`]).
#[derive(Clone, Debug)]
pub enum Status {
    Okay { tag: Option<Tag>, code: Option<Code>, text: Vec<u8> },
    No { tag: Option<Tag>, code: Option<Code>, text: Vec<u8> },
    Bad { tag: Option<Tag>, code: Option<Code>, text: Vec<u8> },
    Bye { code: Option<Code>, text: Vec<u8> },
}

pub enum StatusM {
    Okay { tag: Option<Seq<u8>>, code: Option<CodeM>, text: Seq<u8> },
    No { tag: Option<Seq<u8>>, code: Option<CodeM>, text: Seq<u8> },
    Bad { tag: Option<Seq<u8>>, code: Option<CodeM>, text: Seq<u8> },
    Bye { code: Option<CodeM>, text: Seq<u8> },
}

pub open spec fn otag_m(t: Option<Tag>) -> Option<Seq<u8>> {
    match t {
        Some(v) => Some(v.bytes@),
        None => None,
    }
}

pub open spec fn status_m(s: Status) -> StatusM {
    match s {
        Status::Okay { tag, code, text } => StatusM::Okay {
            tag: otag_m(tag),
            code: ocode_m(code),
            text: text@,
        },
        Status::No { tag, code, text } => StatusM::No {
            tag: otag_m(tag),
            code: ocode_m(code),
            text: text@,
        },
        Status::Bad { tag, code, text } => StatusM::Bad {
            tag: otag_m(tag),
            code: ocode_m(code),
            text: text@,
        },
        Status::Bye { code, text } => StatusM::Bye { code: ocode_m(code), text: text@ },
    }
}

pub open spec fn otag_wf(t: Option<Seq<u8>>) -> bool {
    match t {
        Some(v) => tag_wf(v),
        None => true,
    }
}

pub open spec fn status_wf(s: StatusM) -> bool {
    match s {
        StatusM::Okay { tag, code, text } => otag_wf(tag) && ocode_wf(code) && text_wf(text),
        StatusM::No { tag, code, text } => otag_wf(tag) && ocode_wf(code) && text_wf(text),
        StatusM::Bad { tag, code, text } => otag_wf(tag) && ocode_wf(code) && text_wf(text),
        StatusM::Bye { code, text } => ocode_wf(code) && text_wf(text),
    }
}

/// A complete server response.
#[derive(Debug)]
pub enum Response {
    Status(Status),
    Data(Data),
    CommandContinuationRequest { code: Option<Code>, text: Vec<u8> },
}

pub enum ResponseM {
    Status(StatusM),
    Data(DataM),
    CommandContinuationRequest { code: Option<CodeM>, text: Seq<u8> },
}

pub open spec fn response_m(r: Response) -> ResponseM {
    match r {
        Response::Status(s) => ResponseM::Status(status_m(s)),
        Response::Data(d) => ResponseM::Data(data_m(d)),
        Response::CommandContinuationRequest { code, text } => {
            ResponseM::CommandContinuationRequest { code: ocode_m(code), text: text@ }
        },
    }
}

pub open spec fn response_wf(r: ResponseM) -> bool {
    match r {
        ResponseM::Status(s) => status_wf(s),
        ResponseM::Data(d) => data_wf(d),
        ResponseM::CommandContinuationRequest { code, text } => ocode_wf(code) && text_wf(text),
    }
}

// ---------------------------------------------------------------------------
// commands
// ---------------------------------------------------------------------------

/// A mailbox name: `INBOX` or an `astring`.
#[derive(Clone, Debug)]
pub enum Mailbox {
    Inbox,
    Other(AString),
}

pub enum MailboxM {
    Inbox,
    Other(AStrM),
}

pub open spec fn mailbox_m(m: Mailbox) -> MailboxM {
    match m {
        Mailbox::Inbox => MailboxM::Inbox,
        Mailbox::Other(a) => MailboxM::Other(astr_m(a)),
    }
}

pub open spec fn mailbox_wf(m: MailboxM) -> bool {
    match m {
        MailboxM::Inbox => true,
        MailboxM::Other(a) => astr_wf(a) && match a {
            AStrM::Atom(x) => !eq_ci(x, kw::kw_inbox()),
            _ => true,
        },
    }
}

/// One element of a `sequence-set`.
#[derive(Clone, Copy, PartialEq, Eq, Structural, Debug)]
pub enum SeqNum {
    /// A non-zero message number.
    Num(u32),
    /// `*`, the largest number in use.
    Star,
}

#[derive(Clone, Copy, PartialEq, Eq, Structural, Debug)]
pub enum SeqItem {
    Single(SeqNum),
    Range(SeqNum, SeqNum),
}

pub open spec fn seq_num_wf(n: SeqNum) -> bool {
    match n {
        SeqNum::Num(v) => v != 0,
        SeqNum::Star => true,
    }
}

pub open spec fn seq_set_wf(v: Seq<SeqItem>) -> bool {
    v.len() >= 1 && (forall|k: int|
        0 <= k < v.len() ==> match #[trigger] v[k] {
            SeqItem::Single(n) => seq_num_wf(n),
            SeqItem::Range(a, b) => seq_num_wf(a) && seq_num_wf(b),
        })
}

/// One fetch attribute of a `FETCH` command.
#[derive(Clone, Debug)]
pub enum FetchAtt {
    Envelope,
    Flags,
    InternalDate,
    Rfc822,
    Rfc822Header,
    Rfc822Size,
    Rfc822Text,
    Body,
    BodyStructure,
    BodySection { peek: bool, section: Option<Section>, partial: Option<(u32, u32)> },
    Uid,
}

pub enum FetchAttM {
    Envelope,
    Flags,
    InternalDate,
    Rfc822,
    Rfc822Header,
    Rfc822Size,
    Rfc822Text,
    Body,
    BodyStructure,
    BodySection { peek: bool, section: Option<SectionM>, partial: Option<(u32, u32)> },
    Uid,
}

pub open spec fn fetch_att_m(a: FetchAtt) -> FetchAttM {
    match a {
        FetchAtt::Envelope => FetchAttM::Envelope,
        FetchAtt::Flags => FetchAttM::Flags,
        FetchAtt::InternalDate => FetchAttM::InternalDate,
        FetchAtt::Rfc822 => FetchAttM::Rfc822,
        FetchAtt::Rfc822Header => FetchAttM::Rfc822Header,
        FetchAtt::Rfc822Size => FetchAttM::Rfc822Size,
        FetchAtt::Rfc822Text => FetchAttM::Rfc822Text,
        FetchAtt::Body => FetchAttM::Body,
        FetchAtt::BodyStructure => FetchAttM::BodyStructure,
        FetchAtt::BodySection { peek, section, partial } => FetchAttM::BodySection {
            peek,
            section: osection_m(section),
            partial,
        },
        FetchAtt::Uid => FetchAttM::Uid,
    }
}

pub open spec fn fetch_atts_m(v: Seq<FetchAtt>) -> Seq<FetchAttM> {
    Seq::new(v.len(), |i: int| fetch_att_m(v[i]))
}

pub open spec fn fetch_att_wf(a: FetchAttM) -> bool {
    match a {
        FetchAttM::BodySection { section, partial, .. } => osection_wf(section) && match partial {
            Some((_, n)) => n != 0,
            None => true,
        },
        _ => true,
    }
}

pub open spec fn fetch_atts_wf(v: Seq<FetchAttM>) -> bool {
    forall|k: int| 0 <= k < v.len() ==> fetch_att_wf(#[trigger] v[k])
}

/// The attribute part of a `FETCH` command: a macro, one attribute, or a list.
#[derive(Clone, Debug)]
pub enum FetchArgs {
    All,
    Full,
    Fast,
    Single(FetchAtt),
    List(Vec<FetchAtt>),
}

pub enum FetchArgsM {
    All,
    Full,
    Fast,
    Single(FetchAttM),
    List(Seq<FetchAttM>),
}

pub open spec fn fetch_args_m(a: FetchArgs) -> FetchArgsM {
    match a {
        FetchArgs::All => FetchArgsM::All,
        FetchArgs::Full => FetchArgsM::Full,
        FetchArgs::Fast => FetchArgsM::Fast,
        FetchArgs::Single(x) => FetchArgsM::Single(fetch_att_m(x)),
        FetchArgs::List(v) => FetchArgsM::List(fetch_atts_m(v@)),
    }
}

pub open spec fn fetch_args_wf(a: FetchArgsM) -> bool {
    match a {
        FetchArgsM::Single(x) => fetch_att_wf(x),
        FetchArgsM::List(v) => v.len() >= 1 && fetch_atts_wf(v),
        _ => true,
    }
}

/// A `STATUS` command item.
#[derive(Clone, Copy, PartialEq, Eq, Structural, Debug)]
pub enum StatusItem {
    Messages,
    Recent,
    UidNext,
    UidValidity,
    Unseen,
}

/// How a `STORE` changes the flags: replace, add or remove.
#[derive(Clone, Copy, PartialEq, Eq, Structural, Debug)]
pub enum StoreKind {
    Replace,
    Add,
    Remove,
}

/// A `SEARCH` key without arguments.
#[derive(Clone, Copy, PartialEq, Eq, Structural, Debug)]
pub enum SearchKey {
    All,
    Answered,
    Deleted,
    Draft,
    Flagged,
    New,
    Old,
    Recent,
    Seen,
    Unanswered,
    Undeleted,
    Undraft,
    Unflagged,
    Unseen,
}

/// The body of a client command.
#[derive(Clone, Debug)]
pub enum CommandBody {
    Capability,
    Noop,
    Logout,
    Login { username: AString, password: AString },
    Authenticate { mechanism: Vec<u8> },
    Select { mailbox: Mailbox },
    Examine { mailbox: Mailbox },
    Create { mailbox: Mailbox },
    Delete { mailbox: Mailbox },
    Rename { from: Mailbox, to: Mailbox },
    Status { mailbox: Mailbox, items: Vec<StatusItem> },
    Append { mailbox: Mailbox, flags: Vec<Flag>, date: Option<DateTime>, message: Vec<u8>, mode: LiteralMode },
    Fetch { sequence_set: Vec<SeqItem>, attributes: FetchArgs },
    Store { sequence_set: Vec<SeqItem>, kind: StoreKind, silent: bool, flags: Vec<Flag> },
    Copy { sequence_set: Vec<SeqItem>, mailbox: Mailbox },
    Search { keys: Vec<SearchKey> },
}

pub enum CommandBodyM {
    Capability,
    Noop,
    Logout,
    Login { username: AStrM, password: AStrM },
    Authenticate { mechanism: Seq<u8> },
    Select { mailbox: MailboxM },
    Examine { mailbox: MailboxM },
    Create { mailbox: MailboxM },
    Delete { mailbox: MailboxM },
    Rename { from: MailboxM, to: MailboxM },
    Status { mailbox: MailboxM, items: Seq<StatusItem> },
    Append { mailbox: MailboxM, flags: Seq<FlagM>, date: Option<DateTime>, message: Seq<u8>, mode: LiteralMode },
    Fetch { sequence_set: Seq<SeqItem>, attributes: FetchArgsM },
    Store { sequence_set: Seq<SeqItem>, kind: StoreKind, silent: bool, flags: Seq<FlagM> },
    Copy { sequence_set: Seq<SeqItem>, mailbox: MailboxM },
    Search { keys: Seq<SearchKey> },
}

pub open spec fn body_cmd_m(b: CommandBody) -> CommandBodyM {
    match b {
        CommandBody::Capability => CommandBodyM::Capability,
        CommandBody::Noop => CommandBodyM::Noop,
        CommandBody::Logout => CommandBodyM::Logout,
        CommandBody::Login { username, password } => CommandBodyM::Login {
            username: astr_m(username),
            password: astr_m(password),
        },
        CommandBody::Authenticate { mechanism } => CommandBodyM::Authenticate {
            mechanism: mechanism@,
        },
        CommandBody::Select { mailbox } => CommandBodyM::Select { mailbox: mailbox_m(mailbox) },
        CommandBody::Examine { mailbox } => CommandBodyM::Examine { mailbox: mailbox_m(mailbox) },
        CommandBody::Create { mailbox } => CommandBodyM::Create { mailbox: mailbox_m(mailbox) },
        CommandBody::Delete { mailbox } => CommandBodyM::Delete { mailbox: mailbox_m(mailbox) },
        CommandBody::Rename { from, to } => CommandBodyM::Rename {
            from: mailbox_m(from),
            to: mailbox_m(to),
        },
        CommandBody::Status { mailbox, items } => CommandBodyM::Status {
            mailbox: mailbox_m(mailbox),
            items: items@,
        },
        CommandBody::Append { mailbox, flags, date, message, mode } => CommandBodyM::Append {
            mailbox: mailbox_m(mailbox),
            flags: flags_m(flags@),
            date,
            message: message@,
            mode,
        },
        CommandBody::Store { sequence_set, kind, silent, flags } => CommandBodyM::Store {
            sequence_set: sequence_set@,
            kind,
            silent,
            flags: flags_m(flags@),
        },
        CommandBody::Search { keys } => CommandBodyM::Search { keys: keys@ },
        CommandBody::Fetch { sequence_set, attributes } => CommandBodyM::Fetch {
            sequence_set: sequence_set@,
            attributes: fetch_args_m(attributes),
        },
        CommandBody::Copy { sequence_set, mailbox } => CommandBodyM::Copy {
            sequence_set: sequence_set@,
            mailbox: mailbox_m(mailbox),
        },
    }
}

pub open spec fn body_cmd_wf(b: CommandBodyM) -> bool {
    match b {
        CommandBodyM::Login { username, password } => astr_wf(username) && astr_wf(password),
        CommandBodyM::Authenticate { mechanism } => atom_wf(mechanism),
        CommandBodyM::Select { mailbox } => mailbox_wf(mailbox),
        CommandBodyM::Examine { mailbox } => mailbox_wf(mailbox),
        CommandBodyM::Create { mailbox } => mailbox_wf(mailbox),
        CommandBodyM::Delete { mailbox } => mailbox_wf(mailbox),
        CommandBodyM::Rename { from, to } => mailbox_wf(from) && mailbox_wf(to),
        CommandBodyM::Status { mailbox, items } => mailbox_wf(mailbox) && items.len() >= 1,
        CommandBodyM::Append { mailbox, flags, date, message, .. } => {
            &&& mailbox_wf(mailbox)
            &&& flags_wf(flags)
            &&& match date {
                Some(d) => datetime_wf(d),
                None => true,
            }
            &&& literal_wf(message)
        },
        CommandBodyM::Store { sequence_set, flags, .. } => seq_set_wf(sequence_set) && flags_wf(
            flags,
        ),
        CommandBodyM::Search { keys } => keys.len() >= 1,
        CommandBodyM::Fetch { sequence_set, attributes } => seq_set_wf(sequence_set)
            && fetch_args_wf(attributes),
        CommandBodyM::Copy { sequence_set, mailbox } => seq_set_wf(sequence_set) && mailbox_wf(
            mailbox,
        ),
        _ => true,
    }
}

/// A complete client command: tag plus body.
#[derive(Clone, Debug)]
pub struct Command {
    pub tag: Tag,
    pub body: CommandBody,
}

pub struct CommandM {
    pub tag: Seq<u8>,
    pub body: CommandBodyM,
}

pub open spec fn command_m(c: Command) -> CommandM {
    CommandM { tag: c.tag.bytes@, body: body_cmd_m(c.body) }
}

pub open spec fn command_wf(c: CommandM) -> bool {
    tag_wf(c.tag) && body_cmd_wf(c.body)
}

// ---------------------------------------------------------------------------
// decode errors and fragments
// ---------------------------------------------------------------------------

/// Why a command could not (yet) be decoded.
#[derive(Clone, Debug)]
pub enum CommandDecodeError {
    /// More bytes are needed; nothing is wrong with the prefix.
    Incomplete,
    /// A literal was announced whose payload is not yet present.
    LiteralFound { tag: Tag, length: u32, mode: LiteralMode },
    /// The prefix can never be completed into a valid command.
    Failed,
}

/// Why a response could not (yet) be decoded.
#[derive(Clone, Copy, PartialEq, Eq, Structural, Debug)]
pub enum ResponseDecodeError {
    Incomplete,
    LiteralFound { length: u32 },
    Failed,
}

/// Why a greeting could not (yet) be decoded.
#[derive(Clone, Copy, PartialEq, Eq, Structural, Debug)]
pub enum GreetingDecodeError {
    Incomplete,
    Failed,
}

/// A construction-time validation failure, distinct from decode errors.
#[derive(Clone, Copy, PartialEq, Eq, Structural, Debug)]
pub enum ValidationError {
    InvalidText,
    InvalidTag,
    InvalidAtom,
    InvalidCode,
}

/// One unit of encoder output.
#[derive(Clone, Debug)]
pub enum Fragment {
    /// Bytes that may be written to the transport immediately.
    Line { data: Vec<u8> },
    /// Payload of a synchronizing literal: wait for the continuation
    /// request triggered by the preceding line before sending it.
    Literal { data: Vec<u8>, mode: LiteralMode },
}

pub enum FragM {
    Line { data: Seq<u8> },
    Literal { data: Seq<u8>, mode: LiteralMode },
}

pub open spec fn frag_m(f: Fragment) -> FragM {
    match f {
        Fragment::Line { data } => FragM::Line { data: data@ },
        Fragment::Literal { data, mode } => FragM::Literal { data: data@, mode },
    }
}

pub open spec fn frags_m(v: Seq<Fragment>) -> Seq<FragM> {
    Seq::new(v.len(), |i: int| frag_m(v[i]))
}

// ---------------------------------------------------------------------------
// validating constructors
// ---------------------------------------------------------------------------

impl Tag {
    /// Builds a tag, validating the tag character class.
    pub fn new(bytes: Vec<u8>) -> (r: Result<Tag, ValidationError>)
        ensures
            match r {
                Ok(t) => t.bytes@ == bytes@ && tag_wf(bytes@),
                Err(e) => e == ValidationError::InvalidTag && !tag_wf(bytes@),
            },
    {
        if bytes.len() == 0 {
            return Err(ValidationError::InvalidTag);
        }
        let mut k: usize = 0;
        while k < bytes.len()
            invariant
                k <= bytes@.len(),
                forall|j: int| 0 <= j < k ==> is_tag_char(#[trigger] bytes@[j]),
            decreases bytes@.len() - k,
        {
            if !crate::chars::is_tag_char_x(bytes[k]) {
                return Err(ValidationError::InvalidTag);
            }
            k += 1;
        }
        Ok(Tag { bytes })
    }
}

impl Greeting {
    /// Builds a greeting, validating the text against the `Text` production
    /// and the code against its per-variant constraints.
    pub fn new(kind: GreetingKind, text: Vec<u8>, code: Option<Code>) -> (r: Result<
        Greeting,
        ValidationError,
    >)
        ensures
            match r {
                Ok(g) => greeting_m(g) == (GreetingM {
                    kind,
                    code: ocode_m(code),
                    text: text@,
                }) && greeting_wf(greeting_m(g)),
                Err(e) => (e == ValidationError::InvalidText && !text_wf(text@)) || (e
                    == ValidationError::InvalidCode && !ocode_wf(ocode_m(code))),
            },
    {
        if text.len() == 0 {
            return Err(ValidationError::InvalidText);
        }
        let mut k: usize = 0;
        while k < text.len()
            invariant
                k <= text@.len(),
                forall|j: int| 0 <= j < k ==> is_text_char(#[trigger] text@[j]),
            decreases text@.len() - k,
        {
            if !crate::chars::is_text_char_x(text[k]) {
                return Err(ValidationError::InvalidText);
            }
            k += 1;
        }
        match &code {
            Some(c) => {
                if !code_wf_x(c) {
                    return Err(ValidationError::InvalidCode);
                }
            },
            None => {},
        }
        Ok(Greeting { kind, code, text })
    }
}

impl Code {
    /// Validates a code against its per-variant constraints, handing it
    /// back unchanged when they hold.
    pub fn new(code: Code) -> (r: Result<Code, ValidationError>)
        ensures
            match r {
                Ok(c) => code_m(c) == code_m(code) && code_wf(code_m(code)),
                Err(e) => e == ValidationError::InvalidCode && !code_wf(code_m(code)),
            },
    {
        if code_wf_x(&code) {
            Ok(code)
        } else {
            Err(ValidationError::InvalidCode)
        }
    }
}

/// Whether every byte of `a` is an atom character and there is at least one.
pub fn atom_wf_x(a: &Vec<u8>) -> (r: bool)
    ensures
        r == atom_wf(a@),
{
    if a.len() == 0 {
        return false;
    }
    let mut k: usize = 0;
    while k < a.len()
        invariant
            k <= a@.len(),
            forall|j: int| 0 <= j < k ==> is_atom_char(#[trigger] a@[j]),
        decreases a@.len() - k,
    {
        if !crate::chars::is_atom_char_x(a[k]) {
            return false;
        }
        k += 1;
    }
    true
}

fn flag_wf_x(f: &Flag) -> (r: bool)
    ensures
        r == flag_wf(flag_m(*f)),
{
    match f {
        Flag::Keyword(a) => atom_wf_x(a),
        Flag::Extension(a) => atom_wf_x(a) && !(crate::kw::ke_answered(a.as_slice())
            || crate::kw::ke_deleted(a.as_slice()) || crate::kw::ke_draft(a.as_slice())
            || crate::kw::ke_flagged(a.as_slice()) || crate::kw::ke_seen(a.as_slice())
            || crate::kw::ke_recent(a.as_slice())),
        _ => true,
    }
}

fn code_text_wf_x(t: &Vec<u8>) -> (r: bool)
    ensures
        r == code_text_wf(t@),
{
    if t.len() == 0 {
        return false;
    }
    let mut k: usize = 0;
    while k < t.len()
        invariant
            k <= t@.len(),
            forall|j: int|
                0 <= j < k ==> is_text_char(#[trigger] t@[j]) && t@[j] != 0x5du8,
        decreases t@.len() - k,
    {
        if !crate::chars::is_text_char_x(t[k]) || t[k] == 0x5d {
            return false;
        }
        k += 1;
    }
    true
}

/// Exec check of [`code_wf`].
pub fn code_wf_x(c: &Code) -> (r: bool)
    ensures
        r == code_wf(code_m(*c)),
{
    match c {
        Code::UidNext(n) => *n != 0,
        Code::UidValidity(n) => *n != 0,
        Code::Unseen(n) => *n != 0,
        Code::Capability(v) => {
            if v.len() == 0 {
                return false;
            }
            let mut k: usize = 0;
            while k < v.len()
                invariant
                    k <= v@.len(),
                    v@.len() >= 1,
                    match *c {
                        Code::Capability(vv) => vv@ == v@,
                        _ => false,
                    },
                    forall|j: int| 0 <= j < k ==> atom_wf(#[trigger] atoms_m(v@)[j]),
                decreases v@.len() - k,
            {
                if !atom_wf_x(&v[k]) {
                    assert(atoms_m(v@)[k as int] == v@[k as int]@);
                    return false;
                }
                assert(atoms_m(v@)[k as int] == v@[k as int]@);
                k += 1;
            }
            true
        },
        Code::PermanentFlags(v) => {
            let mut k: usize = 0;
            while k < v.len()
                invariant
                    k <= v@.len(),
                    match *c {
                        Code::PermanentFlags(vv) => vv@ == v@,
                        _ => false,
                    },
                    forall|j: int| 0 <= j < k ==> flag_perm_wf(#[trigger] flags_perm_m(v@)[j]),
                decreases v@.len() - k,
            {
                let ok = match &v[k] {
                    FlagPerm::Flag(g) => flag_wf_x(g),
                    FlagPerm::Asterisk => true,
                };
                proof {
                    assert(flags_perm_m(v@)[k as int] == flag_perm_m(v@[k as int]));
                }
                if !ok {
                    return false;
                }
                k += 1;
            }
            true
        },
        Code::Other(a, t) => {
            if !atom_wf_x(a) {
                return false;
            }
            if crate::kw::ke_alert(a.as_slice()) || crate::kw::ke_parse(a.as_slice())
                || crate::kw::ke_read_only(a.as_slice()) || crate::kw::ke_read_write(
                a.as_slice(),
            ) || crate::kw::ke_trycreate(a.as_slice()) || crate::kw::ke_uidnext(a.as_slice())
                || crate::kw::ke_uidvalidity(a.as_slice()) || crate::kw::ke_unseen(a.as_slice())
                || crate::kw::ke_capability(a.as_slice()) || crate::kw::ke_permanentflags(
                a.as_slice(),
            ) {
                return false;
            }
            match t {
                Some(x) => code_text_wf_x(x),
                None => true,
            }
        },
        _ => true,
    }
}

} // verus!
