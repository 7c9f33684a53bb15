//! Section specifiers: which part of a message a `BODY[...]` item names.

use crate::codec::{appended, emit_str, Encoder};
use crate::error::{agrees, IMAPResult, ParseError, SpecResult};
use crate::lex::{byte, kw, sp, spec_byte, spec_sp, spec_tag_no_case, tag_no_case};
use crate::list::{
    encode_joined_nonempty, separated1_nonempty, spec_separated1, spec_wire_joined,
};
use crate::number::{NzNumber, NzNumberRule};
use crate::strings::{AString, AStringModel, AStringRule, NonEmptyVec};
use vstd::prelude::*;
use vstd::string::*;

verus! {

/// The path to a part of a message: one or more part numbers.
#[derive(Debug, Clone, PartialEq, Eq, Hash)]
pub struct Part(pub NonEmptyVec<NzNumber>);

impl DeepView for Part {
    type V = Seq<u32>;

    open spec fn deep_view(&self) -> Seq<u32> {
        self.0.deep_view()
    }
}

/// What of a message is meant: the texts that the message as a whole has
/// as well as each of its parts.
#[derive(Debug, Clone, PartialEq, Eq, Hash)]
pub enum SectionMsgText {
    Header,
    HeaderFields(NonEmptyVec<AString>),
    HeaderFieldsNot(NonEmptyVec<AString>),
    Text,
}

/// The text of a message as a mathematical value.
pub enum SectionMsgTextModel {
    Header,
    HeaderFields(Seq<AStringModel>),
    HeaderFieldsNot(Seq<AStringModel>),
    Text,
}

impl DeepView for SectionMsgText {
    type V = SectionMsgTextModel;

    open spec fn deep_view(&self) -> SectionMsgTextModel {
        match self {
            SectionMsgText::Header => SectionMsgTextModel::Header,
            SectionMsgText::HeaderFields(l) => SectionMsgTextModel::HeaderFields(l.deep_view()),
            SectionMsgText::HeaderFieldsNot(l) => SectionMsgTextModel::HeaderFieldsNot(
                l.deep_view(),
            ),
            SectionMsgText::Text => SectionMsgTextModel::Text,
        }
    }
}

/// What of a part is meant: one of the texts, or the MIME header, which
/// only parts have.
#[derive(Debug, Clone, PartialEq, Eq, Hash)]
pub enum SectionText {
    MsgText(SectionMsgText),
    Mime,
}

/// The text of a part as a mathematical value.
pub enum SectionTextModel {
    MsgText(SectionMsgTextModel),
    Mime,
}

impl DeepView for SectionText {
    type V = SectionTextModel;

    open spec fn deep_view(&self) -> SectionTextModel {
        match self {
            SectionText::MsgText(t) => SectionTextModel::MsgText(t.deep_view()),
            SectionText::Mime => SectionTextModel::Mime,
        }
    }
}

/// A section specifier.
#[derive(Debug, Clone, PartialEq, Eq, Hash)]
pub enum Section {
    /// A part as a whole.
    Part(Part),
    /// The header of the message or of a part.
    Header(Option<Part>),
    /// The named fields of a header.
    HeaderFields(Option<Part>, NonEmptyVec<AString>),
    /// The fields of a header but the named ones.
    HeaderFieldsNot(Option<Part>, NonEmptyVec<AString>),
    /// The text of the message or of a part.
    Text(Option<Part>),
    /// The MIME header of a part.
    Mime(Part),
}

/// A section specifier as a mathematical value.
pub enum SectionModel {
    Part(Seq<u32>),
    Header(Option<Seq<u32>>),
    HeaderFields(Option<Seq<u32>>, Seq<AStringModel>),
    HeaderFieldsNot(Option<Seq<u32>>, Seq<AStringModel>),
    Text(Option<Seq<u32>>),
    Mime(Seq<u32>),
}

impl DeepView for Section {
    type V = SectionModel;

    open spec fn deep_view(&self) -> SectionModel {
        match self {
            Section::Part(p) => SectionModel::Part(p.deep_view()),
            Section::Header(p) => SectionModel::Header(p.deep_view()),
            Section::HeaderFields(p, l) => SectionModel::HeaderFields(p.deep_view(), l.deep_view()),
            Section::HeaderFieldsNot(p, l) => SectionModel::HeaderFieldsNot(
                p.deep_view(),
                l.deep_view(),
            ),
            Section::Text(p) => SectionModel::Text(p.deep_view()),
            Section::Mime(p) => SectionModel::Mime(p.deep_view()),
        }
    }
}

/// `header-list = "(" header-fld-name *(SP header-fld-name) ")"`, with
/// `header-fld-name = astring`
pub open spec fn spec_header_list(s: Seq<u8>) -> SpecResult<Seq<AStringModel>> {
    match spec_byte(s, '(' as u8) {
        Err(e) => Err(e),
        Ok((r1, _)) => match spec_separated1::<AStringRule>(r1, ' ' as u8) {
            Err(e) => Err(e),
            Ok((r2, list)) => match spec_byte(r2, ')' as u8) {
                Err(e) => Err(e),
                Ok((r3, _)) => Ok((r3, list)),
            },
        },
    }
}

/// The keyword `word`, then `SP header-list`.
pub open spec fn spec_header_fields(s: Seq<u8>, word: Seq<u8>) -> SpecResult<Seq<AStringModel>> {
    match spec_tag_no_case(s, word) {
        Err(e) => Err(e),
        Ok((r1, _)) => match spec_sp(r1) {
            Err(e) => Err(e),
            Ok((r2, _)) => spec_header_list(r2),
        },
    }
}

/// `section-msgtext = "HEADER" / "HEADER.FIELDS" [".NOT"] SP header-list /
/// "TEXT"`
pub open spec fn spec_section_msgtext(s: Seq<u8>) -> SpecResult<SectionMsgTextModel> {
    match spec_header_fields(s, kw("HEADER.FIELDS.NOT")) {
        Ok((rest, list)) => Ok((rest, SectionMsgTextModel::HeaderFieldsNot(list))),
        Err(ParseError::Error(_)) => match spec_header_fields(s, kw("HEADER.FIELDS")) {
            Ok((rest, list)) => Ok((rest, SectionMsgTextModel::HeaderFields(list))),
            Err(ParseError::Error(_)) => match spec_tag_no_case(s, kw("HEADER")) {
                Ok((rest, _)) => Ok((rest, SectionMsgTextModel::Header)),
                Err(ParseError::Error(_)) => match spec_tag_no_case(s, kw("TEXT")) {
                    Ok((rest, _)) => Ok((rest, SectionMsgTextModel::Text)),
                    Err(e) => Err(e),
                },
                Err(e) => Err(e),
            },
            Err(e) => Err(e),
        },
        Err(e) => Err(e),
    }
}

/// `section-text = section-msgtext / "MIME"`
pub open spec fn spec_section_text(s: Seq<u8>) -> SpecResult<SectionTextModel> {
    match spec_section_msgtext(s) {
        Ok((rest, t)) => Ok((rest, SectionTextModel::MsgText(t))),
        Err(ParseError::Error(_)) => match spec_tag_no_case(s, kw("MIME")) {
            Ok((rest, _)) => Ok((rest, SectionTextModel::Mime)),
            Err(e) => Err(e),
        },
        Err(e) => Err(e),
    }
}

/// `section-part = nz-number *("." nz-number)`
pub open spec fn spec_section_part(s: Seq<u8>) -> SpecResult<Seq<u32>> {
    spec_separated1::<NzNumberRule>(s, '.' as u8)
}

/// `["." section-text]`
pub open spec fn spec_opt_dot_text(s: Seq<u8>) -> SpecResult<Option<SectionTextModel>> {
    match spec_byte(s, '.' as u8) {
        Ok((r1, _)) => match spec_section_text(r1) {
            Ok((r2, t)) => Ok((r2, Some(t))),
            Err(ParseError::Error(_)) => Ok((s, None)),
            Err(e) => Err(e),
        },
        Err(ParseError::Error(_)) => Ok((s, None)),
        Err(e) => Err(e),
    }
}

/// The section that a text names for the message as a whole, or within the
/// part `part`.
pub open spec fn spec_section_of(part: Option<Seq<u32>>, text: SectionMsgTextModel) -> SectionModel {
    match text {
        SectionMsgTextModel::Header => SectionModel::Header(part),
        SectionMsgTextModel::HeaderFields(l) => SectionModel::HeaderFields(part, l),
        SectionMsgTextModel::HeaderFieldsNot(l) => SectionModel::HeaderFieldsNot(part, l),
        SectionMsgTextModel::Text => SectionModel::Text(part),
    }
}

/// The section that is named within the part `part`: the part as a whole
/// where no text is named.
pub open spec fn spec_section_in_part(part: Seq<u32>, text: Option<SectionTextModel>) -> SectionModel {
    match text {
        None => SectionModel::Part(part),
        Some(SectionTextModel::MsgText(t)) => spec_section_of(Some(part), t),
        Some(SectionTextModel::Mime) => SectionModel::Mime(part),
    }
}

/// `section-spec = section-msgtext / (section-part ["." section-text])`
pub open spec fn spec_section_spec(s: Seq<u8>) -> SpecResult<SectionModel> {
    match spec_section_msgtext(s) {
        Ok((rest, t)) => Ok((rest, spec_section_of(None, t))),
        Err(ParseError::Error(_)) => match spec_section_part(s) {
            Err(e) => Err(e),
            Ok((r1, part)) => match spec_opt_dot_text(r1) {
                Err(e) => Err(e),
                Ok((r2, text)) => Ok((r2, spec_section_in_part(part, text))),
            },
        },
        Err(e) => Err(e),
    }
}

/// `section = "[" [section-spec] "]"`
pub open spec fn spec_section(s: Seq<u8>) -> SpecResult<Option<SectionModel>> {
    match spec_byte(s, '[' as u8) {
        Err(e) => Err(e),
        Ok((r1, _)) => match spec_section_spec(r1) {
            Ok((r2, section)) => match spec_byte(r2, ']' as u8) {
                Err(e) => Err(e),
                Ok((r3, _)) => Ok((r3, Some(section))),
            },
            Err(ParseError::Error(_)) => match spec_byte(r1, ']' as u8) {
                Err(e) => Err(e),
                Ok((r3, _)) => Ok((r3, None)),
            },
            Err(e) => Err(e),
        },
    }
}

/// Parses a `header-list`.
pub fn header_list<'a>(input: &'a [u8]) -> (r: IMAPResult<'a, NonEmptyVec<AString>>)
    ensures
        agrees(r, spec_header_list(input@)),
{
    let (r1, _) = byte(input, '(' as u8)?;
    let (r2, list) = separated1_nonempty::<AStringRule>(r1, ' ' as u8)?;
    let (r3, _) = byte(r2, ')' as u8)?;
    Ok((r3, list))
}

/// Parses the keyword `word`, then `SP header-list`.
pub fn header_fields<'a>(input: &'a [u8], word: &str) -> (r: IMAPResult<
    'a,
    NonEmptyVec<AString>,
>)
    ensures
        agrees(r, spec_header_fields(input@, kw(word))),
{
    let (r1, _) = tag_no_case(input, word)?;
    let (r2, _) = sp(r1)?;
    header_list(r2)
}

/// Parses a `section-msgtext`.
pub fn section_msgtext<'a>(input: &'a [u8]) -> (r: IMAPResult<'a, SectionMsgText>)
    ensures
        agrees(r, spec_section_msgtext(input@)),
{
    match header_fields(input, "HEADER.FIELDS.NOT") {
        Ok((rest, list)) => Ok((rest, SectionMsgText::HeaderFieldsNot(list))),
        Err(ParseError::Error(_)) => match header_fields(input, "HEADER.FIELDS") {
            Ok((rest, list)) => Ok((rest, SectionMsgText::HeaderFields(list))),
            Err(ParseError::Error(_)) => match tag_no_case(input, "HEADER") {
                Ok((rest, _)) => Ok((rest, SectionMsgText::Header)),
                Err(ParseError::Error(_)) => match tag_no_case(input, "TEXT") {
                    Ok((rest, _)) => Ok((rest, SectionMsgText::Text)),
                    Err(e) => Err(e),
                },
                Err(e) => Err(e),
            },
            Err(e) => Err(e),
        },
        Err(e) => Err(e),
    }
}

/// Parses a `section-text`.
pub fn section_text<'a>(input: &'a [u8]) -> (r: IMAPResult<'a, SectionText>)
    ensures
        agrees(r, spec_section_text(input@)),
{
    match section_msgtext(input) {
        Ok((rest, t)) => Ok((rest, SectionText::MsgText(t))),
        Err(ParseError::Error(_)) => match tag_no_case(input, "MIME") {
            Ok((rest, _)) => Ok((rest, SectionText::Mime)),
            Err(e) => Err(e),
        },
        Err(e) => Err(e),
    }
}

/// Parses a `section-part`.
pub fn section_part<'a>(input: &'a [u8]) -> (r: IMAPResult<'a, Part>)
    ensures
        agrees(r, spec_section_part(input@)),
{
    let (rest, list) = separated1_nonempty::<NzNumberRule>(input, '.' as u8)?;
    Ok((rest, Part(list)))
}

/// The section that `text` names for the message as a whole, or within the
/// part `part`.
pub fn section_of(part: Option<Part>, text: SectionMsgText) -> (r: Section)
    ensures
        r.deep_view() == spec_section_of(part.deep_view(), text.deep_view()),
{
    match text {
        SectionMsgText::Header => Section::Header(part),
        SectionMsgText::HeaderFields(l) => Section::HeaderFields(part, l),
        SectionMsgText::HeaderFieldsNot(l) => Section::HeaderFieldsNot(part, l),
        SectionMsgText::Text => Section::Text(part),
    }
}

/// The section that is named within the part `part`.
pub fn section_in_part(part: Part, text: Option<SectionText>) -> (r: Section)
    ensures
        r.deep_view() == spec_section_in_part(part.deep_view(), text.deep_view()),
{
    match text {
        None => Section::Part(part),
        Some(SectionText::MsgText(t)) => section_of(Some(part), t),
        Some(SectionText::Mime) => Section::Mime(part),
    }
}

/// Parses a `section-spec`.
pub fn section_spec<'a>(input: &'a [u8]) -> (r: IMAPResult<'a, Section>)
    ensures
        agrees(r, spec_section_spec(input@)),
{
    match section_msgtext(input) {
        Ok((rest, t)) => Ok((rest, section_of(None, t))),
        Err(ParseError::Error(_)) => {
            let (r1, part) = section_part(input)?;
            let (r2, text) = match byte(r1, '.' as u8) {
                Ok((after, _)) => match section_text(after) {
                    Ok((r2, t)) => (r2, Some(t)),
                    Err(ParseError::Error(_)) => (r1, None),
                    Err(e) => {
                        return Err(e);
                    },
                },
                Err(ParseError::Error(_)) => (r1, None),
                Err(e) => {
                    return Err(e);
                },
            };
            Ok((r2, section_in_part(part, text)))
        },
        Err(e) => Err(e),
    }
}

/// Parses a `section`.
pub fn section<'a>(input: &'a [u8]) -> (r: IMAPResult<'a, Option<Section>>)
    ensures
        agrees(r, spec_section(input@)),
{
    let (r1, _) = byte(input, '[' as u8)?;
    match section_spec(r1) {
        Ok((r2, section)) => {
            let (r3, _) = byte(r2, ']' as u8)?;
            Ok((r3, Some(section)))
        },
        Err(ParseError::Error(_)) => {
            let (r3, _) = byte(r1, ']' as u8)?;
            Ok((r3, None))
        },
        Err(e) => Err(e),
    }
}

/// A part: its numbers with dots between them.
pub open spec fn spec_encode_part(p: Seq<u32>) -> Seq<u8> {
    spec_wire_joined::<NzNumber>(p, '.' as u8)
}

/// A part and a dot, or nothing for the message as a whole.
pub open spec fn spec_encode_part_prefix(p: Option<Seq<u32>>) -> Seq<u8> {
    match p {
        Some(p) => spec_encode_part(p) + seq!['.' as u8],
        None => Seq::empty(),
    }
}

/// A list of header field names in parentheses.
pub open spec fn spec_encode_header_list(l: Seq<AStringModel>) -> Seq<u8> {
    seq!['(' as u8] + spec_wire_joined::<AString>(l, ' ' as u8) + seq![')' as u8]
}

/// A section specifier.
pub open spec fn spec_encode_section(s: SectionModel) -> Seq<u8> {
    match s {
        SectionModel::Part(p) => spec_encode_part(p),
        SectionModel::Header(p) => spec_encode_part_prefix(p) + kw("HEADER"),
        SectionModel::HeaderFields(p, l) => spec_encode_part_prefix(p) + kw("HEADER.FIELDS ")
            + spec_encode_header_list(l),
        SectionModel::HeaderFieldsNot(p, l) => spec_encode_part_prefix(p) + kw(
            "HEADER.FIELDS.NOT ",
        ) + spec_encode_header_list(l),
        SectionModel::Text(p) => spec_encode_part_prefix(p) + kw("TEXT"),
        SectionModel::Mime(p) => spec_encode_part(p) + kw(".MIME"),
    }
}

/// A section in brackets; the brackets alone for no section.
pub open spec fn spec_encode_opt_section(s: Option<SectionModel>) -> Seq<u8> {
    seq!['[' as u8] + (match s {
        Some(s) => spec_encode_section(s),
        None => Seq::<u8>::empty(),
    }) + seq![']' as u8]
}

impl Encoder for Part {
    open spec fn wire(v: Seq<u32>) -> Seq<u8> {
        spec_encode_part(v)
    }

    fn encode_into(&self, out: &mut Vec<u8>) {
        encode_joined_nonempty::<NzNumber>(&self.0, '.' as u8, out);
    }
}

/// Appends a part and a dot, or nothing for the message as a whole.
pub fn encode_part_prefix(p: &Option<Part>, out: &mut Vec<u8>)
    ensures
        final(out)@ == old(out)@ + spec_encode_part_prefix(p.deep_view()),
{
    let ghost start = out@;
    match p {
        Some(p) => {
            p.encode_into(out);
            out.push('.' as u8);
            assert(out@ =~= start + spec_encode_part_prefix(Some(p.deep_view())));
        },
        None => {
            assert(out@ =~= start + spec_encode_part_prefix(None));
        },
    }
}

/// Appends a list of header field names in parentheses.
pub fn encode_header_list(l: &NonEmptyVec<AString>, out: &mut Vec<u8>)
    ensures
        final(out)@ == old(out)@ + spec_encode_header_list(l.deep_view()),
{
    let ghost start = out@;
    out.push('(' as u8);
    encode_joined_nonempty::<AString>(l, ' ' as u8, out);
    out.push(')' as u8);
    assert(out@ =~= start + spec_encode_header_list(l.deep_view()));
}

impl Encoder for Section {
    open spec fn wire(v: SectionModel) -> Seq<u8> {
        spec_encode_section(v)
    }

    fn encode_into(&self, out: &mut Vec<u8>) {
        let s = Ghost(out@);
        match self {
            Section::Part(p) => p.encode_into(out),
            Section::Header(p) => {
                encode_part_prefix(p, out);
                let d = Ghost(spec_encode_part_prefix(p.deep_view()));
                let d = emit_str("HEADER", out, s, d);
            },
            Section::HeaderFields(p, l) => {
                encode_part_prefix(p, out);
                let d = Ghost(spec_encode_part_prefix(p.deep_view()));
                let d = emit_str("HEADER.FIELDS ", out, s, d);
                encode_header_list(l, out);
                let d = appended(s, d, Ghost(spec_encode_header_list(l.deep_view())));
            },
            Section::HeaderFieldsNot(p, l) => {
                encode_part_prefix(p, out);
                let d = Ghost(spec_encode_part_prefix(p.deep_view()));
                let d = emit_str("HEADER.FIELDS.NOT ", out, s, d);
                encode_header_list(l, out);
                let d = appended(s, d, Ghost(spec_encode_header_list(l.deep_view())));
            },
            Section::Text(p) => {
                encode_part_prefix(p, out);
                let d = Ghost(spec_encode_part_prefix(p.deep_view()));
                let d = emit_str("TEXT", out, s, d);
            },
            Section::Mime(p) => {
                p.encode_into(out);
                let d = Ghost(spec_encode_part(p.deep_view()));
                let d = emit_str(".MIME", out, s, d);
            },
        }
    }
}

/// Appends a section in brackets.
pub fn encode_opt_section(section: &Option<Section>, out: &mut Vec<u8>)
    ensures
        final(out)@ == old(out)@ + spec_encode_opt_section(section.deep_view()),
{
    let ghost start = out@;
    out.push('[' as u8);
    match section {
        Some(s) => s.encode_into(out),
        None => {},
    }
    out.push(']' as u8);
    assert(out@ =~= start + spec_encode_opt_section(section.deep_view()));
}

} // verus!
