//! Message data items: what a client asks for in a FETCH command, and what
//! a server returns for it.

use crate::body::{
    body, spec_body, spec_encode_body_structure, BodyStructure, BodyStructureModel, BODY_BUDGET,
};
use crate::codec::{appended, emit, emit_byte, Encoder};
use crate::datetime::{date_time, spec_date_time, spec_encode_date_time, DateTime, DateTimeModel};
use crate::envelope::{envelope, spec_encode_envelope, spec_envelope, Envelope, EnvelopeModel};
use crate::error::{agrees, IMAPResult, ParseError, SpecResult};
use crate::flag::{spec_encode_flag_list, Flag, FlagFetchRule, FlagModel};
use crate::lex::{byte, kw, put_str, sp, spec_byte, spec_sp, spec_tag_no_case, tag_no_case};
use crate::list::{
    encode_joined, encode_joined_nonempty, separated0, separated1_nonempty, spec_separated0,
    spec_separated1, spec_wire_joined, Rule,
};
use crate::number::{number, nz_number, spec_digits, spec_number, spec_nz_number, NzNumber};
use crate::section::{
    encode_opt_section, section, spec_encode_opt_section, spec_section, Section, SectionModel,
};
use crate::strings::{
    nstring, spec_encode_nstring, spec_nstring, IStringModel, NString, NonEmptyVec,
};
use vstd::prelude::*;
use vstd::string::*;

verus! {

/// Shorthands for commonly-used message data items.
#[derive(Debug, Clone, Copy, PartialEq, Eq, Hash, Structural)]
pub enum Macro {
    /// Shorthand for `(FLAGS INTERNALDATE RFC822.SIZE)`.
    Fast,
    /// Shorthand for `(FLAGS INTERNALDATE RFC822.SIZE ENVELOPE)`.
    All,
    /// Shorthand for `(FLAGS INTERNALDATE RFC822.SIZE ENVELOPE BODY)`.
    Full,
}

/// Message data item name used to request a message data item.
#[derive(Debug, Clone, PartialEq, Eq, Hash)]
pub enum FetchAttribute {
    /// `BODY`: the body structure without extension data.
    Body,
    /// `BODY[<section>]<<partial>>` or `BODY.PEEK[<section>]<<partial>>`:
    /// the text of a section.
    BodyExt {
        /// The section; none for the whole message.
        section: Option<Section>,
        /// The first octet wanted and how many octets at most.
        partial: Option<(u32, NzNumber)>,
        /// Whether `BODY.PEEK` is meant, which leaves `\Seen` as it is.
        peek: bool,
    },
    /// `BODYSTRUCTURE`
    BodyStructure,
    /// `ENVELOPE`
    Envelope,
    /// `FLAGS`
    Flags,
    /// `INTERNALDATE`
    InternalDate,
    /// `RFC822`
    Rfc822,
    /// `RFC822.HEADER`
    Rfc822Header,
    /// `RFC822.SIZE`
    Rfc822Size,
    /// `RFC822.TEXT`
    Rfc822Text,
    /// `UID`
    Uid,
}

/// A message data item name as a mathematical value.
pub enum FetchAttributeModel {
    Body,
    BodyExt { section: Option<SectionModel>, partial: Option<(u32, u32)>, peek: bool },
    BodyStructure,
    Envelope,
    Flags,
    InternalDate,
    Rfc822,
    Rfc822Header,
    Rfc822Size,
    Rfc822Text,
    Uid,
}

impl DeepView for FetchAttribute {
    type V = FetchAttributeModel;

    open spec fn deep_view(&self) -> FetchAttributeModel {
        match self {
            FetchAttribute::Body => FetchAttributeModel::Body,
            FetchAttribute::BodyExt { section, partial, peek } => FetchAttributeModel::BodyExt {
                section: section.deep_view(),
                partial: partial.deep_view(),
                peek: *peek,
            },
            FetchAttribute::BodyStructure => FetchAttributeModel::BodyStructure,
            FetchAttribute::Envelope => FetchAttributeModel::Envelope,
            FetchAttribute::Flags => FetchAttributeModel::Flags,
            FetchAttribute::InternalDate => FetchAttributeModel::InternalDate,
            FetchAttribute::Rfc822 => FetchAttributeModel::Rfc822,
            FetchAttribute::Rfc822Header => FetchAttributeModel::Rfc822Header,
            FetchAttribute::Rfc822Size => FetchAttributeModel::Rfc822Size,
            FetchAttribute::Rfc822Text => FetchAttributeModel::Rfc822Text,
            FetchAttribute::Uid => FetchAttributeModel::Uid,
        }
    }
}

/// The items that a macro stands for, in the order of its definition.
pub open spec fn spec_expand(m: Macro) -> Seq<FetchAttributeModel> {
    match m {
        Macro::Fast => seq![
            FetchAttributeModel::Flags,
            FetchAttributeModel::InternalDate,
            FetchAttributeModel::Rfc822Size,
        ],
        Macro::All => seq![
            FetchAttributeModel::Flags,
            FetchAttributeModel::InternalDate,
            FetchAttributeModel::Rfc822Size,
            FetchAttributeModel::Envelope,
        ],
        Macro::Full => seq![
            FetchAttributeModel::Flags,
            FetchAttributeModel::InternalDate,
            FetchAttributeModel::Rfc822Size,
            FetchAttributeModel::Envelope,
            FetchAttributeModel::Body,
        ],
    }
}

impl Macro {
    /// The items that the macro stands for.
    pub fn expand(&self) -> (r: Vec<FetchAttribute>)
        ensures
            r.deep_view() == spec_expand(*self),
    {
        let mut items: Vec<FetchAttribute> = Vec::new();
        items.push(FetchAttribute::Flags);
        items.push(FetchAttribute::InternalDate);
        items.push(FetchAttribute::Rfc822Size);
        match self {
            Macro::Fast => {},
            Macro::All => {
                items.push(FetchAttribute::Envelope);
            },
            Macro::Full => {
                items.push(FetchAttribute::Envelope);
                items.push(FetchAttribute::Body);
            },
        }
        assert(items.deep_view() =~= spec_expand(*self));
        items
    }
}

/// Either a macro or a list of message data items. A macro stands by
/// itself: it is not used together with other macros or data items.
#[derive(Debug, Clone, PartialEq, Eq, Hash)]
pub enum MacroOrFetchAttributes {
    Macro(Macro),
    FetchAttributes(Vec<FetchAttribute>),
}

/// A macro or a list of items as a mathematical value.
pub enum MacroOrFetchAttributesModel {
    Macro(Macro),
    FetchAttributes(Seq<FetchAttributeModel>),
}

impl DeepView for MacroOrFetchAttributes {
    type V = MacroOrFetchAttributesModel;

    open spec fn deep_view(&self) -> MacroOrFetchAttributesModel {
        match self {
            MacroOrFetchAttributes::Macro(m) => MacroOrFetchAttributesModel::Macro(*m),
            MacroOrFetchAttributes::FetchAttributes(l) => MacroOrFetchAttributesModel::FetchAttributes(
                l.deep_view(),
            ),
        }
    }
}

impl From<Macro> for MacroOrFetchAttributes {
    fn from(m: Macro) -> (r: Self) {
        MacroOrFetchAttributes::Macro(m)
    }
}

impl vstd::std_specs::convert::FromSpecImpl<Macro> for MacroOrFetchAttributes {
    open spec fn obeys_from_spec() -> bool {
        true
    }

    open spec fn from_spec(m: Macro) -> Self {
        MacroOrFetchAttributes::Macro(m)
    }
}

impl From<Vec<FetchAttribute>> for MacroOrFetchAttributes {
    fn from(attributes: Vec<FetchAttribute>) -> (r: Self) {
        MacroOrFetchAttributes::FetchAttributes(attributes)
    }
}

impl vstd::std_specs::convert::FromSpecImpl<Vec<FetchAttribute>> for MacroOrFetchAttributes {
    open spec fn obeys_from_spec() -> bool {
        true
    }

    open spec fn from_spec(attributes: Vec<FetchAttribute>) -> Self {
        MacroOrFetchAttributes::FetchAttributes(attributes)
    }
}

/// Message data item: what a server returns for one item of a FETCH.
#[derive(Debug, PartialEq, Eq, Hash)]
pub enum FetchAttributeValue {
    /// `BODY`: the body structure without extension data.
    Body(BodyStructure),
    /// `BODY[<section>]<<origin octet>>`: the content of a section.
    BodyExt {
        /// The section; none for the whole message.
        section: Option<Section>,
        /// The octet at which the data begins, where a part was asked for.
        origin: Option<u32>,
        /// The content.
        data: NString,
    },
    /// `BODYSTRUCTURE`
    BodyStructure(BodyStructure),
    /// `ENVELOPE`
    Envelope(Envelope),
    /// `FLAGS`
    Flags(Vec<Flag>),
    /// `INTERNALDATE`
    InternalDate(DateTime),
    /// `RFC822`
    Rfc822(NString),
    /// `RFC822.HEADER`
    Rfc822Header(NString),
    /// `RFC822.SIZE`
    Rfc822Size(u32),
    /// `RFC822.TEXT`
    Rfc822Text(NString),
    /// `UID`
    Uid(NzNumber),
}

/// A message data item as a mathematical value.
pub enum FetchAttributeValueModel {
    Body(BodyStructureModel),
    BodyExt { section: Option<SectionModel>, origin: Option<u32>, data: Option<IStringModel> },
    BodyStructure(BodyStructureModel),
    Envelope(EnvelopeModel),
    Flags(Seq<FlagModel>),
    InternalDate(DateTimeModel),
    Rfc822(Option<IStringModel>),
    Rfc822Header(Option<IStringModel>),
    Rfc822Size(u32),
    Rfc822Text(Option<IStringModel>),
    Uid(u32),
}

impl DeepView for FetchAttributeValue {
    type V = FetchAttributeValueModel;

    open spec fn deep_view(&self) -> FetchAttributeValueModel {
        match self {
            FetchAttributeValue::Body(b) => FetchAttributeValueModel::Body(b.deep_view()),
            FetchAttributeValue::BodyExt {
                section,
                origin,
                data,
            } => FetchAttributeValueModel::BodyExt {
                section: section.deep_view(),
                origin: origin.deep_view(),
                data: data.deep_view(),
            },
            FetchAttributeValue::BodyStructure(b) => FetchAttributeValueModel::BodyStructure(
                b.deep_view(),
            ),
            FetchAttributeValue::Envelope(e) => FetchAttributeValueModel::Envelope(e.deep_view()),
            FetchAttributeValue::Flags(f) => FetchAttributeValueModel::Flags(f.deep_view()),
            FetchAttributeValue::InternalDate(d) => FetchAttributeValueModel::InternalDate(
                d.deep_view(),
            ),
            FetchAttributeValue::Rfc822(n) => FetchAttributeValueModel::Rfc822(n.deep_view()),
            FetchAttributeValue::Rfc822Header(n) => FetchAttributeValueModel::Rfc822Header(
                n.deep_view(),
            ),
            FetchAttributeValue::Rfc822Size(n) => FetchAttributeValueModel::Rfc822Size(*n),
            FetchAttributeValue::Rfc822Text(n) => FetchAttributeValueModel::Rfc822Text(
                n.deep_view(),
            ),
            FetchAttributeValue::Uid(n) => FetchAttributeValueModel::Uid(n.deep_view()),
        }
    }
}

/// `msg-att-dynamic = "FLAGS" SP "(" [flag-fetch *(SP flag-fetch)] ")"`
pub open spec fn spec_msg_att_dynamic(s: Seq<u8>) -> SpecResult<FetchAttributeValueModel> {
    match spec_tag_no_case(s, kw("FLAGS")) {
        Err(e) => Err(e),
        Ok((r1, _)) => match spec_sp(r1) {
            Err(e) => Err(e),
            Ok((r2, _)) => match spec_byte(r2, '(' as u8) {
                Err(e) => Err(e),
                Ok((r3, _)) => match spec_separated0::<FlagFetchRule>(r3, ' ' as u8) {
                    Err(e) => Err(e),
                    Ok((r4, flags)) => match spec_byte(r4, ')' as u8) {
                        Err(e) => Err(e),
                        Ok((r5, _)) => Ok((r5, FetchAttributeValueModel::Flags(flags))),
                    },
                },
            },
        },
    }
}

/// `["<" number ">"]`
pub open spec fn spec_opt_origin(s: Seq<u8>) -> SpecResult<Option<u32>> {
    match spec_byte(s, '<' as u8) {
        Ok((r1, _)) => match spec_number(r1) {
            Ok((r2, n)) => match spec_byte(r2, '>' as u8) {
                Ok((r3, _)) => Ok((r3, Some(n))),
                Err(ParseError::Error(_)) => Ok((s, None)),
                Err(e) => Err(e),
            },
            Err(ParseError::Error(_)) => Ok((s, None)),
            Err(e) => Err(e),
        },
        Err(ParseError::Error(_)) => Ok((s, None)),
        Err(e) => Err(e),
    }
}

/// `"BODY" section ["<" number ">"] SP nstring`
pub open spec fn spec_msg_att_body_ext(s: Seq<u8>) -> SpecResult<FetchAttributeValueModel> {
    match spec_tag_no_case(s, kw("BODY")) {
        Err(e) => Err(e),
        Ok((r1, _)) => match spec_section(r1) {
            Err(e) => Err(e),
            Ok((r2, section)) => match spec_opt_origin(r2) {
                Err(e) => Err(e),
                Ok((r3, origin)) => match spec_sp(r3) {
                    Err(e) => Err(e),
                    Ok((r4, _)) => match spec_nstring(r4) {
                        Err(e) => Err(e),
                        Ok((r5, data)) => Ok(
                            (r5, FetchAttributeValueModel::BodyExt { section, origin, data }),
                        ),
                    },
                },
            },
        },
    }
}

/// The keyword `word` with its space, then an nstring.
pub open spec fn spec_word_nstring(s: Seq<u8>, word: Seq<u8>) -> SpecResult<Option<IStringModel>> {
    match spec_tag_no_case(s, word) {
        Err(e) => Err(e),
        Ok((rest, _)) => spec_nstring(rest),
    }
}

/// The keyword `word` with its space, then a body.
pub open spec fn spec_word_body(s: Seq<u8>, word: Seq<u8>) -> SpecResult<BodyStructureModel> {
    match spec_tag_no_case(s, word) {
        Err(e) => Err(e),
        Ok((rest, _)) => spec_body(rest, BODY_BUDGET as nat),
    }
}

/// `"ENVELOPE" SP envelope`
#[verifier::opaque]
pub open spec fn spec_msg_att_envelope(s: Seq<u8>) -> SpecResult<FetchAttributeValueModel> {
    match spec_tag_no_case(s, kw("ENVELOPE ")) {
        Err(e) => Err(e),
        Ok((rest, _)) => match spec_envelope(rest) {
            Err(e) => Err(e),
            Ok((r, v)) => Ok((r, FetchAttributeValueModel::Envelope(v))),
        },
    }
}

/// `"INTERNALDATE" SP date-time`
#[verifier::opaque]
pub open spec fn spec_msg_att_internal_date(s: Seq<u8>) -> SpecResult<FetchAttributeValueModel> {
    match spec_tag_no_case(s, kw("INTERNALDATE ")) {
        Err(e) => Err(e),
        Ok((rest, _)) => match spec_date_time(rest) {
            Err(e) => Err(e),
            Ok((r, v)) => Ok((r, FetchAttributeValueModel::InternalDate(v))),
        },
    }
}

/// `"RFC822.SIZE" SP number`
pub open spec fn spec_msg_att_size(s: Seq<u8>) -> SpecResult<FetchAttributeValueModel> {
    match spec_tag_no_case(s, kw("RFC822.SIZE ")) {
        Err(e) => Err(e),
        Ok((rest, _)) => match spec_number(rest) {
            Err(e) => Err(e),
            Ok((r, v)) => Ok((r, FetchAttributeValueModel::Rfc822Size(v))),
        },
    }
}

/// `"UID" SP uniqueid`
pub open spec fn spec_msg_att_uid(s: Seq<u8>) -> SpecResult<FetchAttributeValueModel> {
    match spec_tag_no_case(s, kw("UID ")) {
        Err(e) => Err(e),
        Ok((rest, _)) => match spec_nz_number(rest) {
            Err(e) => Err(e),
            Ok((r, v)) => Ok((r, FetchAttributeValueModel::Uid(v))),
        },
    }
}

/// The items whose value is an nstring: `"RFC822" [".HEADER" / ".TEXT"] SP
/// nstring`, the longer keywords first.
pub open spec fn spec_msg_att_rfc822(s: Seq<u8>) -> SpecResult<FetchAttributeValueModel> {
    match spec_word_nstring(s, kw("RFC822.HEADER ")) {
        Ok((r, v)) => Ok((r, FetchAttributeValueModel::Rfc822Header(v))),
        Err(ParseError::Error(_)) => match spec_word_nstring(s, kw("RFC822.TEXT ")) {
            Ok((r, v)) => Ok((r, FetchAttributeValueModel::Rfc822Text(v))),
            Err(ParseError::Error(_)) => match spec_msg_att_size(s) {
                Err(ParseError::Error(_)) => match spec_word_nstring(s, kw("RFC822 ")) {
                    Ok((r, v)) => Ok((r, FetchAttributeValueModel::Rfc822(v))),
                    Err(e) => Err(e),
                },
                r => r,
            },
            Err(e) => Err(e),
        },
        Err(e) => Err(e),
    }
}

/// The items that begin with `BODY`: `"BODY" ["STRUCTURE"] SP body / "BODY"
/// section ["<" number ">"] SP nstring`.
#[verifier::opaque]
pub open spec fn spec_msg_att_body(s: Seq<u8>) -> SpecResult<FetchAttributeValueModel> {
    match spec_word_body(s, kw("BODYSTRUCTURE ")) {
        Ok((r, v)) => Ok((r, FetchAttributeValueModel::BodyStructure(v))),
        Err(ParseError::Error(_)) => match spec_word_body(s, kw("BODY ")) {
            Ok((r, v)) => Ok((r, FetchAttributeValueModel::Body(v))),
            Err(ParseError::Error(_)) => spec_msg_att_body_ext(s),
            Err(e) => Err(e),
        },
        Err(e) => Err(e),
    }
}

/// `msg-att-static = "ENVELOPE" SP envelope / "INTERNALDATE" SP date-time /
/// "RFC822" [".HEADER" / ".TEXT"] SP nstring / "RFC822.SIZE" SP number /
/// "BODY" ["STRUCTURE"] SP body / "BODY" section ["<" number ">"] SP nstring
/// / "UID" SP uniqueid`
#[verifier::opaque]
pub open spec fn spec_msg_att_static(s: Seq<u8>) -> SpecResult<FetchAttributeValueModel> {
    match spec_msg_att_envelope(s) {
        Err(ParseError::Error(_)) => match spec_msg_att_internal_date(s) {
            Err(ParseError::Error(_)) => match spec_msg_att_rfc822(s) {
                Err(ParseError::Error(_)) => match spec_msg_att_body(s) {
                    Err(ParseError::Error(_)) => spec_msg_att_uid(s),
                    r => r,
                },
                r => r,
            },
            r => r,
        },
        r => r,
    }
}

/// One item of a `msg-att`: `msg-att-dynamic / msg-att-static`.
#[verifier::opaque]
pub open spec fn spec_msg_att_item(s: Seq<u8>) -> SpecResult<FetchAttributeValueModel> {
    match spec_msg_att_dynamic(s) {
        Err(ParseError::Error(_)) => spec_msg_att_static(s),
        r => r,
    }
}

/// The rule for one item of a `msg-att`.
pub struct MsgAttItemRule;

/// `msg-att = "(" (msg-att-dynamic / msg-att-static) *(SP (msg-att-dynamic /
/// msg-att-static)) ")"`
pub open spec fn spec_msg_att(s: Seq<u8>) -> SpecResult<Seq<FetchAttributeValueModel>> {
    match spec_byte(s, '(' as u8) {
        Err(e) => Err(e),
        Ok((r1, _)) => match spec_separated1::<MsgAttItemRule>(r1, ' ' as u8) {
            Err(e) => Err(e),
            Ok((r2, items)) => match spec_byte(r2, ')' as u8) {
                Err(e) => Err(e),
                Ok((r3, _)) => Ok((r3, items)),
            },
        },
    }
}

/// Parses a `msg-att-dynamic`.
pub fn msg_att_dynamic<'a>(input: &'a [u8]) -> (r: IMAPResult<'a, FetchAttributeValue>)
    ensures
        agrees(r, spec_msg_att_dynamic(input@)),
{
    let (r1, _) = tag_no_case(input, "FLAGS")?;
    let (r2, _) = sp(r1)?;
    let (r3, _) = byte(r2, '(' as u8)?;
    let (r4, flags) = separated0::<FlagFetchRule>(r3, ' ' as u8)?;
    let (r5, _) = byte(r4, ')' as u8)?;
    Ok((r5, FetchAttributeValue::Flags(flags)))
}

/// Parses `["<" number ">"]`.
pub fn opt_origin<'a>(input: &'a [u8]) -> (r: IMAPResult<'a, Option<u32>>)
    ensures
        agrees(r, spec_opt_origin(input@)),
{
    match byte(input, '<' as u8) {
        Ok((r1, _)) => match number(r1) {
            Ok((r2, n)) => match byte(r2, '>' as u8) {
                Ok((r3, _)) => Ok((r3, Some(n))),
                Err(ParseError::Error(_)) => Ok((input, None)),
                Err(e) => Err(e),
            },
            Err(ParseError::Error(_)) => Ok((input, None)),
            Err(e) => Err(e),
        },
        Err(ParseError::Error(_)) => Ok((input, None)),
        Err(e) => Err(e),
    }
}

/// Parses `"BODY" section ["<" number ">"] SP nstring`.
pub fn msg_att_body_ext<'a>(input: &'a [u8]) -> (r: IMAPResult<'a, FetchAttributeValue>)
    ensures
        agrees(r, spec_msg_att_body_ext(input@)),
{
    let (r1, _) = tag_no_case(input, "BODY")?;
    let (r2, section) = section(r1)?;
    let (r3, origin) = opt_origin(r2)?;
    let (r4, _) = sp(r3)?;
    let (r5, data) = nstring(r4)?;
    Ok((r5, FetchAttributeValue::BodyExt { section, origin, data }))
}

/// Parses the keyword `word` with its space, then an nstring.
pub fn word_nstring<'a>(input: &'a [u8], word: &str) -> (r: IMAPResult<'a, NString>)
    ensures
        agrees(r, spec_word_nstring(input@, kw(word))),
{
    let (rest, _) = tag_no_case(input, word)?;
    nstring(rest)
}

/// Parses the keyword `word` with its space, then a body.
pub fn word_body<'a>(input: &'a [u8], word: &str) -> (r: IMAPResult<'a, BodyStructure>)
    ensures
        agrees(r, spec_word_body(input@, kw(word))),
{
    let (rest, _) = tag_no_case(input, word)?;
    body(rest, BODY_BUDGET)
}

/// Parses `"ENVELOPE" SP envelope`.
pub fn msg_att_envelope<'a>(input: &'a [u8]) -> (r: IMAPResult<'a, FetchAttributeValue>)
    ensures
        agrees(r, spec_msg_att_envelope(input@)),
{
    reveal(spec_msg_att_envelope);
    let (rest, _) = tag_no_case(input, "ENVELOPE ")?;
    let (r, v) = envelope(rest)?;
    Ok((r, FetchAttributeValue::Envelope(v)))
}

/// Parses `"INTERNALDATE" SP date-time`.
pub fn msg_att_internal_date<'a>(input: &'a [u8]) -> (r: IMAPResult<'a, FetchAttributeValue>)
    ensures
        agrees(r, spec_msg_att_internal_date(input@)),
{
    reveal(spec_msg_att_internal_date);
    let (rest, _) = tag_no_case(input, "INTERNALDATE ")?;
    let (r, v) = date_time(rest)?;
    Ok((r, FetchAttributeValue::InternalDate(v)))
}

/// Parses `"RFC822.SIZE" SP number`.
pub fn msg_att_size<'a>(input: &'a [u8]) -> (r: IMAPResult<'a, FetchAttributeValue>)
    ensures
        agrees(r, spec_msg_att_size(input@)),
{
    let (rest, _) = tag_no_case(input, "RFC822.SIZE ")?;
    let (r, v) = number(rest)?;
    Ok((r, FetchAttributeValue::Rfc822Size(v)))
}

/// Parses `"UID" SP uniqueid`.
pub fn msg_att_uid<'a>(input: &'a [u8]) -> (r: IMAPResult<'a, FetchAttributeValue>)
    ensures
        agrees(r, spec_msg_att_uid(input@)),
{
    let (rest, _) = tag_no_case(input, "UID ")?;
    let (r, v) = nz_number(rest)?;
    Ok((r, FetchAttributeValue::Uid(v)))
}

/// Parses the items that begin with `RFC822`.
pub fn msg_att_rfc822<'a>(input: &'a [u8]) -> (r: IMAPResult<'a, FetchAttributeValue>)
    ensures
        agrees(r, spec_msg_att_rfc822(input@)),
{
    match word_nstring(input, "RFC822.HEADER ") {
        Ok((r, v)) => Ok((r, FetchAttributeValue::Rfc822Header(v))),
        Err(ParseError::Error(_)) => match word_nstring(input, "RFC822.TEXT ") {
            Ok((r, v)) => Ok((r, FetchAttributeValue::Rfc822Text(v))),
            Err(ParseError::Error(_)) => match msg_att_size(input) {
                Err(ParseError::Error(_)) => match word_nstring(input, "RFC822 ") {
                    Ok((r, v)) => Ok((r, FetchAttributeValue::Rfc822(v))),
                    Err(e) => Err(e),
                },
                r => r,
            },
            Err(e) => Err(e),
        },
        Err(e) => Err(e),
    }
}

/// Parses the items that begin with `BODY`.
pub fn msg_att_body<'a>(input: &'a [u8]) -> (r: IMAPResult<'a, FetchAttributeValue>)
    ensures
        agrees(r, spec_msg_att_body(input@)),
{
    reveal(spec_msg_att_body);
    match word_body(input, "BODYSTRUCTURE ") {
        Ok((r, v)) => Ok((r, FetchAttributeValue::BodyStructure(v))),
        Err(ParseError::Error(_)) => match word_body(input, "BODY ") {
            Ok((r, v)) => Ok((r, FetchAttributeValue::Body(v))),
            Err(ParseError::Error(_)) => msg_att_body_ext(input),
            Err(e) => Err(e),
        },
        Err(e) => Err(e),
    }
}

/// Parses a `msg-att-static`.
pub fn msg_att_static<'a>(input: &'a [u8]) -> (r: IMAPResult<'a, FetchAttributeValue>)
    ensures
        agrees(r, spec_msg_att_static(input@)),
{
    reveal(spec_msg_att_static);
    match msg_att_envelope(input) {
        Err(ParseError::Error(_)) => match msg_att_internal_date(input) {
            Err(ParseError::Error(_)) => match msg_att_rfc822(input) {
                Err(ParseError::Error(_)) => match msg_att_body(input) {
                    Err(ParseError::Error(_)) => msg_att_uid(input),
                    r => r,
                },
                r => r,
            },
            r => r,
        },
        r => r,
    }
}

/// Parses one item of a `msg-att`.
pub fn msg_att_item<'a>(input: &'a [u8]) -> (r: IMAPResult<'a, FetchAttributeValue>)
    ensures
        agrees(r, spec_msg_att_item(input@)),
{
    reveal(spec_msg_att_item);
    match msg_att_dynamic(input) {
        Err(ParseError::Error(_)) => msg_att_static(input),
        r => r,
    }
}

impl Rule for MsgAttItemRule {
    type Out = FetchAttributeValue;

    open spec fn rule(s: Seq<u8>) -> SpecResult<FetchAttributeValueModel> {
        spec_msg_att_item(s)
    }

    fn parse<'a>(input: &'a [u8]) -> (r: IMAPResult<'a, FetchAttributeValue>) {
        msg_att_item(input)
    }
}

/// Parses a `msg-att`.
pub fn msg_att<'a>(input: &'a [u8]) -> (r: IMAPResult<'a, NonEmptyVec<FetchAttributeValue>>)
    ensures
        agrees(r, spec_msg_att(input@)),
{
    let (r1, _) = byte(input, '(' as u8)?;
    let (r2, items) = separated1_nonempty::<MsgAttItemRule>(r1, ' ' as u8)?;
    let (r3, _) = byte(r2, ')' as u8)?;
    Ok((r3, items))
}

} // verus!

verus! {

/// `"<" number ">"` for an origin, nothing for none.
pub open spec fn spec_encode_origin(o: Option<u32>) -> Seq<u8> {
    match o {
        Some(n) => seq!['<' as u8] + spec_digits(n as nat) + seq!['>' as u8],
        None => Seq::empty(),
    }
}

/// A message data item: its keyword in upper case, then its value.
#[verifier::opaque]
pub open spec fn spec_encode_fetch_attribute_value(v: FetchAttributeValueModel) -> Seq<u8> {
    match v {
        FetchAttributeValueModel::Body(b) => kw("BODY ") + spec_encode_body_structure(b),
        FetchAttributeValueModel::BodyExt { section, origin, data } => kw("BODY")
            + spec_encode_opt_section(section) + spec_encode_origin(origin) + seq![' ' as u8]
            + spec_encode_nstring(data),
        FetchAttributeValueModel::BodyStructure(b) => kw("BODYSTRUCTURE ")
            + spec_encode_body_structure(b),
        FetchAttributeValueModel::Envelope(e) => kw("ENVELOPE ") + spec_encode_envelope(e),
        FetchAttributeValueModel::Flags(f) => kw("FLAGS ") + spec_encode_flag_list(f),
        FetchAttributeValueModel::InternalDate(d) => kw("INTERNALDATE ") + spec_encode_date_time(d),
        FetchAttributeValueModel::Rfc822(n) => kw("RFC822 ") + spec_encode_nstring(n),
        FetchAttributeValueModel::Rfc822Header(n) => kw("RFC822.HEADER ") + spec_encode_nstring(n),
        FetchAttributeValueModel::Rfc822Size(n) => kw("RFC822.SIZE ") + spec_digits(n as nat),
        FetchAttributeValueModel::Rfc822Text(n) => kw("RFC822.TEXT ") + spec_encode_nstring(n),
        FetchAttributeValueModel::Uid(n) => kw("UID ") + spec_digits(n as nat),
    }
}

/// The items of a FETCH response in parentheses.
pub open spec fn spec_encode_msg_att(items: Seq<FetchAttributeValueModel>) -> Seq<u8> {
    seq!['(' as u8] + spec_wire_joined::<FetchAttributeValue>(items, ' ' as u8) + seq![')' as u8]
}

/// Appends an origin.
pub fn encode_origin(origin: &Option<u32>, out: &mut Vec<u8>)
    ensures
        final(out)@ == old(out)@ + spec_encode_origin(*origin),
{
    let ghost start = out@;
    match origin {
        Some(n) => {
            out.push('<' as u8);
            n.encode_into(out);
            out.push('>' as u8);
            assert(out@ =~= start + spec_encode_origin(*origin));
        },
        None => {
            assert(out@ =~= start + spec_encode_origin(*origin));
        },
    }
}

impl Encoder for FetchAttributeValue {
    open spec fn wire(v: FetchAttributeValueModel) -> Seq<u8> {
        spec_encode_fetch_attribute_value(v)
    }

    fn encode_into(&self, out: &mut Vec<u8>) {
        reveal(spec_encode_fetch_attribute_value);
        let s = Ghost(out@);
        match self {
            FetchAttributeValue::Body(b) => {
                put_str(out, "BODY ");
                let d = Ghost(kw("BODY "));
                let d = emit(b, out, s, d);
            },
            FetchAttributeValue::BodyExt { section, origin, data } => {
                put_str(out, "BODY");
                let d = Ghost(kw("BODY"));
                encode_opt_section(section, out);
                let d = appended(s, d, Ghost(spec_encode_opt_section(section.deep_view())));
                encode_origin(origin, out);
                let d = appended(s, d, Ghost(spec_encode_origin(*origin)));
                let d = emit_byte(' ' as u8, out, s, d);
                let d = emit(data, out, s, d);
            },
            FetchAttributeValue::BodyStructure(b) => {
                put_str(out, "BODYSTRUCTURE ");
                let d = Ghost(kw("BODYSTRUCTURE "));
                let d = emit(b, out, s, d);
            },
            FetchAttributeValue::Envelope(e) => {
                put_str(out, "ENVELOPE ");
                let d = Ghost(kw("ENVELOPE "));
                let d = emit(e, out, s, d);
            },
            FetchAttributeValue::Flags(f) => {
                put_str(out, "FLAGS ");
                let d = Ghost(kw("FLAGS "));
                crate::flag::encode_flag_list(f.as_slice(), out);
                let d = appended(s, d, Ghost(spec_encode_flag_list(f.deep_view())));
            },
            FetchAttributeValue::InternalDate(t) => {
                put_str(out, "INTERNALDATE ");
                let d = Ghost(kw("INTERNALDATE "));
                let d = emit(t, out, s, d);
            },
            FetchAttributeValue::Rfc822(n) => {
                put_str(out, "RFC822 ");
                let d = Ghost(kw("RFC822 "));
                let d = emit(n, out, s, d);
            },
            FetchAttributeValue::Rfc822Header(n) => {
                put_str(out, "RFC822.HEADER ");
                let d = Ghost(kw("RFC822.HEADER "));
                let d = emit(n, out, s, d);
            },
            FetchAttributeValue::Rfc822Size(n) => {
                put_str(out, "RFC822.SIZE ");
                let d = Ghost(kw("RFC822.SIZE "));
                let d = emit(n, out, s, d);
            },
            FetchAttributeValue::Rfc822Text(n) => {
                put_str(out, "RFC822.TEXT ");
                let d = Ghost(kw("RFC822.TEXT "));
                let d = emit(n, out, s, d);
            },
            FetchAttributeValue::Uid(n) => {
                put_str(out, "UID ");
                let d = Ghost(kw("UID "));
                let d = emit(n, out, s, d);
            },
        }
    }
}

/// Appends the items of a FETCH response in parentheses.
pub fn encode_msg_att(items: &NonEmptyVec<FetchAttributeValue>, out: &mut Vec<u8>)
    ensures
        final(out)@ == old(out)@ + spec_encode_msg_att(items.deep_view()),
{
    let ghost start = out@;
    out.push('(' as u8);
    encode_joined_nonempty::<FetchAttributeValue>(items, ' ' as u8, out);
    out.push(')' as u8);
    assert(out@ =~= start + spec_encode_msg_att(items.deep_view()));
}

/// `"<" number "." nz-number ">"` for a partial, nothing for none.
pub open spec fn spec_encode_partial(p: Option<(u32, u32)>) -> Seq<u8> {
    match p {
        Some((first, count)) => seq!['<' as u8] + spec_digits(first as nat) + seq!['.' as u8]
            + spec_digits(count as nat) + seq!['>' as u8],
        None => Seq::empty(),
    }
}

/// A message data item name, in upper case.
pub open spec fn spec_encode_fetch_attribute(a: FetchAttributeModel) -> Seq<u8> {
    match a {
        FetchAttributeModel::Body => kw("BODY"),
        FetchAttributeModel::BodyExt { section, partial, peek } => (if peek {
            kw("BODY.PEEK")
        } else {
            kw("BODY")
        }) + spec_encode_opt_section(section) + spec_encode_partial(partial),
        FetchAttributeModel::BodyStructure => kw("BODYSTRUCTURE"),
        FetchAttributeModel::Envelope => kw("ENVELOPE"),
        FetchAttributeModel::Flags => kw("FLAGS"),
        FetchAttributeModel::InternalDate => kw("INTERNALDATE"),
        FetchAttributeModel::Rfc822 => kw("RFC822"),
        FetchAttributeModel::Rfc822Header => kw("RFC822.HEADER"),
        FetchAttributeModel::Rfc822Size => kw("RFC822.SIZE"),
        FetchAttributeModel::Rfc822Text => kw("RFC822.TEXT"),
        FetchAttributeModel::Uid => kw("UID"),
    }
}

/// Appends a partial.
pub fn encode_partial(partial: &Option<(u32, NzNumber)>, out: &mut Vec<u8>)
    ensures
        final(out)@ == old(out)@ + spec_encode_partial(partial.deep_view()),
{
    let ghost start = out@;
    match partial {
        Some((first, count)) => {
            out.push('<' as u8);
            first.encode_into(out);
            out.push('.' as u8);
            count.encode_into(out);
            out.push('>' as u8);
            assert(out@ =~= start + spec_encode_partial(partial.deep_view()));
        },
        None => {
            assert(out@ =~= start + spec_encode_partial(partial.deep_view()));
        },
    }
}

impl Encoder for FetchAttribute {
    open spec fn wire(v: FetchAttributeModel) -> Seq<u8> {
        spec_encode_fetch_attribute(v)
    }

    fn encode_into(&self, out: &mut Vec<u8>) {
        let s = Ghost(out@);
        match self {
            FetchAttribute::Body => put_str(out, "BODY"),
            FetchAttribute::BodyExt { section, partial, peek } => {
                let word = if *peek {
                    "BODY.PEEK"
                } else {
                    "BODY"
                };
                put_str(out, word);
                let d = Ghost(kw(word));
                encode_opt_section(section, out);
                let d = appended(s, d, Ghost(spec_encode_opt_section(section.deep_view())));
                encode_partial(partial, out);
                let d = appended(s, d, Ghost(spec_encode_partial(partial.deep_view())));
            },
            FetchAttribute::BodyStructure => put_str(out, "BODYSTRUCTURE"),
            FetchAttribute::Envelope => put_str(out, "ENVELOPE"),
            FetchAttribute::Flags => put_str(out, "FLAGS"),
            FetchAttribute::InternalDate => put_str(out, "INTERNALDATE"),
            FetchAttribute::Rfc822 => put_str(out, "RFC822"),
            FetchAttribute::Rfc822Header => put_str(out, "RFC822.HEADER"),
            FetchAttribute::Rfc822Size => put_str(out, "RFC822.SIZE"),
            FetchAttribute::Rfc822Text => put_str(out, "RFC822.TEXT"),
            FetchAttribute::Uid => put_str(out, "UID"),
        }
    }
}

/// The name of a macro.
pub open spec fn spec_encode_macro(m: Macro) -> Seq<u8> {
    match m {
        Macro::All => kw("ALL"),
        Macro::Fast => kw("FAST"),
        Macro::Full => kw("FULL"),
    }
}

/// A macro by its name, or the items: one item as it is, more of them in
/// parentheses.
pub open spec fn spec_encode_macro_or_attributes(v: MacroOrFetchAttributesModel) -> Seq<u8> {
    match v {
        MacroOrFetchAttributesModel::Macro(m) => spec_encode_macro(m),
        MacroOrFetchAttributesModel::FetchAttributes(l) => if l.len() == 1 {
            spec_encode_fetch_attribute(l[0])
        } else {
            seq!['(' as u8] + spec_wire_joined::<FetchAttribute>(l, ' ' as u8) + seq![')' as u8]
        },
    }
}

impl DeepView for Macro {
    type V = Macro;

    open spec fn deep_view(&self) -> Macro {
        *self
    }
}

impl Encoder for Macro {
    open spec fn wire(v: Macro) -> Seq<u8> {
        spec_encode_macro(v)
    }

    fn encode_into(&self, out: &mut Vec<u8>) {
        match self {
            Macro::All => put_str(out, "ALL"),
            Macro::Fast => put_str(out, "FAST"),
            Macro::Full => put_str(out, "FULL"),
        }
    }
}

impl Encoder for MacroOrFetchAttributes {
    open spec fn wire(v: MacroOrFetchAttributesModel) -> Seq<u8> {
        spec_encode_macro_or_attributes(v)
    }

    fn encode_into(&self, out: &mut Vec<u8>) {
        let ghost start = out@;
        match self {
            MacroOrFetchAttributes::Macro(m) => m.encode_into(out),
            MacroOrFetchAttributes::FetchAttributes(l) => {
                if l.len() == 1 {
                    l[0].encode_into(out);
                } else {
                    out.push('(' as u8);
                    encode_joined::<FetchAttribute>(l.as_slice(), ' ' as u8, out);
                    out.push(')' as u8);
                    assert(out@ =~= start + spec_encode_macro_or_attributes(self.deep_view()));
                }
            },
        }
    }
}

} // verus!
