//! The body structure of a message: single parts, multiparts and their
//! extension data.

use crate::codec::{appended, emit, emit_byte, Encoder};
use crate::envelope::{envelope, spec_encode_envelope, spec_envelope, Envelope, EnvelopeModel};
use crate::error::{
    agrees, error, error_at, failure, failure_at, Category, IMAPResult, ParseError, SpecResult,
};
use crate::lex::{
    byte, kw, put_byte, put_str, sp, spec_byte, spec_sp, spec_tag_no_case, tag_no_case,
};
use crate::list::{
    encode_joined, encode_opt, opt_preceded, separated1, spec_opt_preceded, spec_separated1,
    spec_wire_joined, spec_wire_opt, Rule,
};
use crate::number::{encode_number, number, spec_digits, spec_number};
use crate::strings::{
    nil, nstring, spec_encode_nstring, spec_encode_string, spec_nil, spec_nstring, spec_string,
    string, IString, IStringModel, NString, NonEmptyVec, StringRule,
};
use vstd::prelude::*;
use vstd::string::*;

verus! {

/// The depth to which body extensions may nest.
pub const BODY_EXTENSION_BUDGET: usize = 8;

/// The fields that every single part has.
#[derive(Debug, Clone, PartialEq, Eq, Hash)]
pub struct BasicFields {
    /// Attribute/value pairs of the content type.
    pub parameter_list: Vec<(IString, IString)>,
    /// The content id.
    pub id: NString,
    /// The content description.
    pub description: NString,
    /// The content transfer encoding.
    pub content_transfer_encoding: IString,
    /// The size of the body in octets.
    pub size: u32,
}

/// The basic fields as a mathematical value.
pub struct BasicFieldsModel {
    pub parameter_list: Seq<(IStringModel, IStringModel)>,
    pub id: Option<IStringModel>,
    pub description: Option<IStringModel>,
    pub content_transfer_encoding: IStringModel,
    pub size: u32,
}

/// The fields that depend on the kind of a single part.
#[derive(Debug, PartialEq, Eq, Hash)]
pub enum SpecificFields {
    /// Any part that is neither a message nor a text.
    Basic { type_: IString, subtype: IString },
    /// A part of type `MESSAGE/RFC822`.
    Message { envelope: Box<Envelope>, body_structure: Box<BodyStructure>, number_of_lines: u32 },
    /// A part of type `TEXT`.
    Text { subtype: IString, number_of_lines: u32 },
}

/// The specific fields as a mathematical value.
pub enum SpecificFieldsModel {
    Basic { type_: IStringModel, subtype: IStringModel },
    Message {
        envelope: EnvelopeModel,
        body_structure: Box<BodyStructureModel>,
        number_of_lines: u32,
    },
    Text { subtype: IStringModel, number_of_lines: u32 },
}

/// A single part.
#[derive(Debug, PartialEq, Eq, Hash)]
pub struct Body {
    pub basic: BasicFields,
    pub specific: SpecificFields,
}

/// A single part as a mathematical value.
pub struct BodyModel {
    pub basic: BasicFieldsModel,
    pub specific: SpecificFieldsModel,
}

/// The structure of a message body.
#[derive(Debug, PartialEq, Eq, Hash)]
pub enum BodyStructure {
    Single { body: Body, extension_data: Option<SinglePartExtensionData> },
    Multi {
        bodies: NonEmptyVec<BodyStructure>,
        subtype: IString,
        extension_data: Option<MultiPartExtensionData>,
    },
}

/// A body structure as a mathematical value.
pub enum BodyStructureModel {
    Single { body: BodyModel, extension_data: Option<SinglePartExtensionDataModel> },
    Multi {
        bodies: Seq<BodyStructureModel>,
        subtype: IStringModel,
        extension_data: Option<MultiPartExtensionDataModel>,
    },
}

/// The extension data of a single part: the MD5 and what may follow it.
#[derive(Debug, PartialEq, Eq, Hash)]
pub struct SinglePartExtensionData {
    pub md5: NString,
    pub tail: Option<Disposition>,
}

/// The extension data of a single part as a mathematical value.
pub struct SinglePartExtensionDataModel {
    pub md5: Option<IStringModel>,
    pub tail: Option<DispositionModel>,
}

/// The extension data of a multipart: the parameters and what may follow
/// them.
#[derive(Debug, PartialEq, Eq, Hash)]
pub struct MultiPartExtensionData {
    pub parameter_list: Vec<(IString, IString)>,
    pub tail: Option<Disposition>,
}

/// The extension data of a multipart as a mathematical value.
pub struct MultiPartExtensionDataModel {
    pub parameter_list: Seq<(IStringModel, IStringModel)>,
    pub tail: Option<DispositionModel>,
}

/// The disposition and what may follow it.
#[derive(Debug, PartialEq, Eq, Hash)]
pub struct Disposition {
    pub disposition: Option<(IString, Vec<(IString, IString)>)>,
    pub tail: Option<Language>,
}

/// The disposition part of extension data as a mathematical value.
pub struct DispositionModel {
    pub disposition: Option<(IStringModel, Seq<(IStringModel, IStringModel)>)>,
    pub tail: Option<LanguageModel>,
}

/// The languages and what may follow them.
#[derive(Debug, PartialEq, Eq, Hash)]
pub struct Language {
    pub language: Vec<IString>,
    pub tail: Option<Location>,
}

/// The language part of extension data as a mathematical value.
pub struct LanguageModel {
    pub language: Seq<IStringModel>,
    pub tail: Option<LocationModel>,
}

/// The location and the extensions behind it.
#[derive(Debug, PartialEq, Eq, Hash)]
pub struct Location {
    pub location: NString,
    pub extensions: Vec<BodyExtension>,
}

/// The location part of extension data as a mathematical value.
pub struct LocationModel {
    pub location: Option<IStringModel>,
    pub extensions: Seq<BodyExtensionModel>,
}

/// A field of a future extension.
#[derive(Debug, PartialEq, Eq, Hash)]
pub enum BodyExtension {
    NString(NString),
    Number(u32),
    List(NonEmptyVec<BodyExtension>),
}

/// A body extension as a mathematical value.
pub enum BodyExtensionModel {
    NString(Option<IStringModel>),
    Number(u32),
    List(Seq<BodyExtensionModel>),
}

/// The mathematical value of a body extension.
pub open spec fn body_extension_model(e: BodyExtension) -> BodyExtensionModel
    decreases e,
{
    match e {
        BodyExtension::NString(n) => BodyExtensionModel::NString(n.deep_view()),
        BodyExtension::Number(n) => BodyExtensionModel::Number(n),
        BodyExtension::List(l) => BodyExtensionModel::List(
            Seq::new(
                l.spec_items().len(),
                |i: int|
                    if 0 <= i < l.spec_items().len() {
                        proof {
                            l.lemma_items_decrease(i);
                        }
                        body_extension_model(l.spec_items()[i])
                    } else {
                        arbitrary()
                    },
            ),
        ),
    }
}

impl DeepView for BodyExtension {
    type V = BodyExtensionModel;

    open spec fn deep_view(&self) -> BodyExtensionModel {
        body_extension_model(*self)
    }
}

impl DeepView for BasicFields {
    type V = BasicFieldsModel;

    open spec fn deep_view(&self) -> BasicFieldsModel {
        BasicFieldsModel {
            parameter_list: self.parameter_list.deep_view(),
            id: self.id.deep_view(),
            description: self.description.deep_view(),
            content_transfer_encoding: self.content_transfer_encoding.deep_view(),
            size: self.size,
        }
    }
}

impl DeepView for Location {
    type V = LocationModel;

    open spec fn deep_view(&self) -> LocationModel {
        LocationModel {
            location: self.location.deep_view(),
            extensions: self.extensions.deep_view(),
        }
    }
}

impl DeepView for Language {
    type V = LanguageModel;

    open spec fn deep_view(&self) -> LanguageModel {
        LanguageModel { language: self.language.deep_view(), tail: self.tail.deep_view() }
    }
}

impl DeepView for Disposition {
    type V = DispositionModel;

    open spec fn deep_view(&self) -> DispositionModel {
        DispositionModel {
            disposition: self.disposition.deep_view(),
            tail: self.tail.deep_view(),
        }
    }
}

impl DeepView for SinglePartExtensionData {
    type V = SinglePartExtensionDataModel;

    open spec fn deep_view(&self) -> SinglePartExtensionDataModel {
        SinglePartExtensionDataModel { md5: self.md5.deep_view(), tail: self.tail.deep_view() }
    }
}

impl DeepView for MultiPartExtensionData {
    type V = MultiPartExtensionDataModel;

    open spec fn deep_view(&self) -> MultiPartExtensionDataModel {
        MultiPartExtensionDataModel {
            parameter_list: self.parameter_list.deep_view(),
            tail: self.tail.deep_view(),
        }
    }
}

/// The mathematical value of a body structure.
pub open spec fn body_structure_model(b: BodyStructure) -> BodyStructureModel
    decreases b,
{
    match b {
        BodyStructure::Single { body, extension_data } => BodyStructureModel::Single {
            body: BodyModel {
                basic: body.basic.deep_view(),
                specific: specific_fields_model(body.specific),
            },
            extension_data: extension_data.deep_view(),
        },
        BodyStructure::Multi { bodies, subtype, extension_data } => BodyStructureModel::Multi {
            bodies: Seq::new(
                bodies.spec_items().len(),
                |i: int|
                    if 0 <= i < bodies.spec_items().len() {
                        proof {
                            bodies.lemma_items_decrease(i);
                        }
                        body_structure_model(bodies.spec_items()[i])
                    } else {
                        arbitrary()
                    },
            ),
            subtype: subtype.deep_view(),
            extension_data: extension_data.deep_view(),
        },
    }
}

/// The mathematical value of the specific fields of a single part.
pub open spec fn specific_fields_model(f: SpecificFields) -> SpecificFieldsModel
    decreases f,
{
    match f {
        SpecificFields::Basic { type_, subtype } => SpecificFieldsModel::Basic {
            type_: type_.deep_view(),
            subtype: subtype.deep_view(),
        },
        SpecificFields::Message {
            envelope,
            body_structure,
            number_of_lines,
        } => SpecificFieldsModel::Message {
            envelope: envelope.deep_view(),
            body_structure: Box::new(body_structure_model(*body_structure)),
            number_of_lines,
        },
        SpecificFields::Text { subtype, number_of_lines } => SpecificFieldsModel::Text {
            subtype: subtype.deep_view(),
            number_of_lines,
        },
    }
}

impl DeepView for SpecificFields {
    type V = SpecificFieldsModel;

    open spec fn deep_view(&self) -> SpecificFieldsModel {
        specific_fields_model(*self)
    }
}

impl DeepView for Body {
    type V = BodyModel;

    open spec fn deep_view(&self) -> BodyModel {
        BodyModel { basic: self.basic.deep_view(), specific: self.specific.deep_view() }
    }
}

impl DeepView for BodyStructure {
    type V = BodyStructureModel;

    open spec fn deep_view(&self) -> BodyStructureModel {
        body_structure_model(*self)
    }
}

} // verus!

verus! {

/// One attribute/value pair of a parameter list: `string SP string`.
pub open spec fn spec_param(s: Seq<u8>) -> SpecResult<(IStringModel, IStringModel)> {
    match spec_string(s) {
        Err(e) => Err(e),
        Ok((r1, key)) => match spec_sp(r1) {
            Err(e) => Err(e),
            Ok((r2, _)) => match spec_string(r2) {
                Err(e) => Err(e),
                Ok((r3, value)) => Ok((r3, (key, value))),
            },
        },
    }
}

/// Parses one attribute/value pair.
pub fn param<'a>(input: &'a [u8]) -> (r: IMAPResult<'a, (IString, IString)>)
    ensures
        agrees(r, spec_param(input@)),
{
    let (r1, key) = string(input)?;
    let (r2, _) = sp(r1)?;
    let (r3, value) = string(r2)?;
    Ok((r3, (key, value)))
}

/// The rule for one attribute/value pair.
pub struct ParamRule;

impl Rule for ParamRule {
    type Out = (IString, IString);

    open spec fn rule(s: Seq<u8>) -> SpecResult<(IStringModel, IStringModel)> {
        spec_param(s)
    }

    fn parse<'a>(input: &'a [u8]) -> (r: IMAPResult<'a, (IString, IString)>) {
        param(input)
    }
}

/// `"(" string SP string *(SP string SP string) ")"`
pub open spec fn spec_param_list(s: Seq<u8>) -> SpecResult<Seq<(IStringModel, IStringModel)>> {
    match spec_byte(s, '(' as u8) {
        Err(e) => Err(e),
        Ok((r1, _)) => match spec_separated1::<ParamRule>(r1, ' ' as u8) {
            Err(e) => Err(e),
            Ok((r2, list)) => match spec_byte(r2, ')' as u8) {
                Err(e) => Err(e),
                Ok((r3, _)) => Ok((r3, list)),
            },
        },
    }
}

/// `body-fld-param = "(" string SP string *(SP string SP string) ")" / nil`:
/// the pairs, none for `NIL`.
#[verifier::opaque]
pub open spec fn spec_body_fld_param(s: Seq<u8>) -> SpecResult<
    Seq<(IStringModel, IStringModel)>,
> {
    match spec_param_list(s) {
        Ok((rest, list)) => Ok((rest, list)),
        Err(ParseError::Error(_)) => match spec_nil(s) {
            Err(e) => Err(e),
            Ok((rest, _)) => Ok((rest, Seq::empty())),
        },
        Err(e) => Err(e),
    }
}

/// Parses a parameter list in parentheses.
pub fn param_list<'a>(input: &'a [u8]) -> (r: IMAPResult<'a, Vec<(IString, IString)>>)
    ensures
        agrees(r, spec_param_list(input@)),
{
    let (r1, _) = byte(input, '(' as u8)?;
    let (r2, list) = separated1::<ParamRule>(r1, ' ' as u8)?;
    let (r3, _) = byte(r2, ')' as u8)?;
    Ok((r3, list))
}

/// Parses `body-fld-param`.
pub fn body_fld_param<'a>(input: &'a [u8]) -> (r: IMAPResult<'a, Vec<(IString, IString)>>)
    ensures
        agrees(r, spec_body_fld_param(input@)),
{
    proof {
        reveal(spec_body_fld_param);
    }
    match param_list(input) {
        Ok((rest, list)) => Ok((rest, list)),
        Err(ParseError::Error(_)) => {
            let (rest, _) = nil(input)?;
            let none: Vec<(IString, IString)> = Vec::new();
            assert(none.deep_view() =~= Seq::empty());
            Ok((rest, none))
        },
        Err(e) => Err(e),
    }
}

/// `body-fields = body-fld-param SP body-fld-id SP body-fld-desc SP
/// body-fld-enc SP body-fld-octets`
#[verifier::opaque]
pub open spec fn spec_body_fields(s: Seq<u8>) -> SpecResult<BasicFieldsModel> {
    match spec_body_fld_param(s) {
        Err(e) => Err(e),
        Ok((r1, parameter_list)) => match spec_sp(r1) {
            Err(e) => Err(e),
            Ok((r2, _)) => match spec_nstring(r2) {
                Err(e) => Err(e),
                Ok((r3, id)) => match spec_sp(r3) {
                    Err(e) => Err(e),
                    Ok((r4, _)) => match spec_nstring(r4) {
                        Err(e) => Err(e),
                        Ok((r5, description)) => match spec_sp(r5) {
                            Err(e) => Err(e),
                            Ok((r6, _)) => match spec_string(r6) {
                                Err(e) => Err(e),
                                Ok((r7, content_transfer_encoding)) => match spec_sp(r7) {
                                    Err(e) => Err(e),
                                    Ok((r8, _)) => match spec_number(r8) {
                                        Err(e) => Err(e),
                                        Ok((r9, size)) => Ok(
                                            (
                                                r9,
                                                BasicFieldsModel {
                                                    parameter_list,
                                                    id,
                                                    description,
                                                    content_transfer_encoding,
                                                    size,
                                                },
                                            ),
                                        ),
                                    },
                                },
                            },
                        },
                    },
                },
            },
        },
    }
}

/// Parses `body-fields`.
pub fn body_fields<'a>(input: &'a [u8]) -> (r: IMAPResult<'a, BasicFields>)
    ensures
        agrees(r, spec_body_fields(input@)),
{
    proof {
        reveal(spec_body_fields);
    }
    let (r1, parameter_list) = body_fld_param(input)?;
    let (r2, _) = sp(r1)?;
    let (r3, id) = body_fld_id(r2)?;
    let (r4, _) = sp(r3)?;
    let (r5, description) = body_fld_desc(r4)?;
    let (r6, _) = sp(r5)?;
    let (r7, content_transfer_encoding) = body_fld_enc(r6)?;
    let (r8, _) = sp(r7)?;
    let (r9, size) = body_fld_octets(r8)?;
    Ok((r9, BasicFields { parameter_list, id, description, content_transfer_encoding, size }))
}

/// Parses `body-fld-id = nstring`.
pub fn body_fld_id<'a>(input: &'a [u8]) -> (r: IMAPResult<'a, NString>)
    ensures
        agrees(r, spec_nstring(input@)),
{
    nstring(input)
}

/// Parses `body-fld-desc = nstring`.
pub fn body_fld_desc<'a>(input: &'a [u8]) -> (r: IMAPResult<'a, NString>)
    ensures
        agrees(r, spec_nstring(input@)),
{
    nstring(input)
}

/// Parses `body-fld-enc`, taken as any `string`.
pub fn body_fld_enc<'a>(input: &'a [u8]) -> (r: IMAPResult<'a, IString>)
    ensures
        agrees(r, spec_string(input@)),
{
    string(input)
}

/// Parses `body-fld-octets = number`.
pub fn body_fld_octets<'a>(input: &'a [u8]) -> (r: IMAPResult<'a, u32>)
    ensures
        agrees(r, spec_number(input@)),
{
    number(input)
}

/// Parses `body-fld-lines = number`.
pub fn body_fld_lines<'a>(input: &'a [u8]) -> (r: IMAPResult<'a, u32>)
    ensures
        agrees(r, spec_number(input@)),
{
    number(input)
}

/// Parses `body-fld-md5 = nstring`.
pub fn body_fld_md5<'a>(input: &'a [u8]) -> (r: IMAPResult<'a, NString>)
    ensures
        agrees(r, spec_nstring(input@)),
{
    nstring(input)
}

/// Parses `body-fld-loc = nstring`.
pub fn body_fld_loc<'a>(input: &'a [u8]) -> (r: IMAPResult<'a, NString>)
    ensures
        agrees(r, spec_nstring(input@)),
{
    nstring(input)
}

/// Parses `media-subtype = string`.
pub fn media_subtype<'a>(input: &'a [u8]) -> (r: IMAPResult<'a, IString>)
    ensures
        agrees(r, spec_string(input@)),
{
    string(input)
}

/// `media-basic`, taken as `string SP media-subtype`: the type and the
/// subtype.
pub open spec fn spec_media_basic(s: Seq<u8>) -> SpecResult<(IStringModel, IStringModel)> {
    spec_param(s)
}

/// Parses `media-basic`.
pub fn media_basic<'a>(input: &'a [u8]) -> (r: IMAPResult<'a, (IString, IString)>)
    ensures
        agrees(r, spec_media_basic(input@)),
{
    let (r1, type_) = string(input)?;
    let (r2, _) = sp(r1)?;
    let (r3, subtype) = media_subtype(r2)?;
    Ok((r3, (type_, subtype)))
}

/// `media-message = DQUOTE "MESSAGE" DQUOTE SP DQUOTE "RFC822" DQUOTE`
pub open spec fn spec_media_message(s: Seq<u8>) -> SpecResult<()> {
    spec_tag_no_case(s, kw("\"MESSAGE\" \"RFC822\""))
}

/// Parses `media-message`.
pub fn media_message<'a>(input: &'a [u8]) -> (r: IMAPResult<'a, ()>)
    ensures
        agrees(r, spec_media_message(input@)),
{
    tag_no_case(input, "\"MESSAGE\" \"RFC822\"")
}

/// `media-text = DQUOTE "TEXT" DQUOTE SP media-subtype`: the subtype.
pub open spec fn spec_media_text(s: Seq<u8>) -> SpecResult<IStringModel> {
    match spec_tag_no_case(s, kw("\"TEXT\" ")) {
        Err(e) => Err(e),
        Ok((rest, _)) => spec_string(rest),
    }
}

/// Parses `media-text`.
pub fn media_text<'a>(input: &'a [u8]) -> (r: IMAPResult<'a, IString>)
    ensures
        agrees(r, spec_media_text(input@)),
{
    let (rest, _) = tag_no_case(input, "\"TEXT\" ")?;
    media_subtype(rest)
}

/// `body-type-basic = media-basic SP body-fields`
pub open spec fn spec_body_type_basic(s: Seq<u8>) -> SpecResult<
    (BasicFieldsModel, SpecificFieldsModel),
> {
    match spec_media_basic(s) {
        Err(e) => Err(e),
        Ok((r1, (type_, subtype))) => match spec_sp(r1) {
            Err(e) => Err(e),
            Ok((r2, _)) => match spec_body_fields(r2) {
                Err(e) => Err(e),
                Ok((r3, basic)) => Ok((r3, (basic, SpecificFieldsModel::Basic { type_, subtype }))),
            },
        },
    }
}

/// Parses `body-type-basic`.
pub fn body_type_basic<'a>(input: &'a [u8]) -> (r: IMAPResult<'a, (BasicFields, SpecificFields)>)
    ensures
        agrees(r, spec_body_type_basic(input@)),
{
    let (r1, (type_, subtype)) = media_basic(input)?;
    let (r2, _) = sp(r1)?;
    let (r3, basic) = body_fields(r2)?;
    Ok((r3, (basic, SpecificFields::Basic { type_, subtype })))
}

/// `body-type-text = media-text SP body-fields SP body-fld-lines`
pub open spec fn spec_body_type_text(s: Seq<u8>) -> SpecResult<
    (BasicFieldsModel, SpecificFieldsModel),
> {
    match spec_media_text(s) {
        Err(e) => Err(e),
        Ok((r1, subtype)) => match spec_sp(r1) {
            Err(e) => Err(e),
            Ok((r2, _)) => match spec_body_fields(r2) {
                Err(e) => Err(e),
                Ok((r3, basic)) => match spec_sp(r3) {
                    Err(e) => Err(e),
                    Ok((r4, _)) => match spec_number(r4) {
                        Err(e) => Err(e),
                        Ok((r5, number_of_lines)) => Ok(
                            (r5, (basic, SpecificFieldsModel::Text { subtype, number_of_lines })),
                        ),
                    },
                },
            },
        },
    }
}

/// Parses `body-type-text`.
pub fn body_type_text<'a>(input: &'a [u8]) -> (r: IMAPResult<'a, (BasicFields, SpecificFields)>)
    ensures
        agrees(r, spec_body_type_text(input@)),
{
    let (r1, subtype) = media_text(input)?;
    let (r2, _) = sp(r1)?;
    let (r3, basic) = body_fields(r2)?;
    let (r4, _) = sp(r3)?;
    let (r5, number_of_lines) = body_fld_lines(r4)?;
    Ok((r5, (basic, SpecificFields::Text { subtype, number_of_lines })))
}

/// `"(" string SP body-fld-param ")"`
pub open spec fn spec_dsp_pair(s: Seq<u8>) -> SpecResult<
    (IStringModel, Seq<(IStringModel, IStringModel)>),
> {
    match spec_byte(s, '(' as u8) {
        Err(e) => Err(e),
        Ok((r1, _)) => match spec_string(r1) {
            Err(e) => Err(e),
            Ok((r2, kind)) => match spec_sp(r2) {
                Err(e) => Err(e),
                Ok((r3, _)) => match spec_body_fld_param(r3) {
                    Err(e) => Err(e),
                    Ok((r4, params)) => match spec_byte(r4, ')' as u8) {
                        Err(e) => Err(e),
                        Ok((r5, _)) => Ok((r5, (kind, params))),
                    },
                },
            },
        },
    }
}

/// `body-fld-dsp = "(" string SP body-fld-param ")" / nil`
#[verifier::opaque]
pub open spec fn spec_body_fld_dsp(s: Seq<u8>) -> SpecResult<
    Option<(IStringModel, Seq<(IStringModel, IStringModel)>)>,
> {
    match spec_dsp_pair(s) {
        Ok((rest, pair)) => Ok((rest, Some(pair))),
        Err(ParseError::Error(_)) => match spec_nil(s) {
            Err(e) => Err(e),
            Ok((rest, _)) => Ok((rest, None)),
        },
        Err(e) => Err(e),
    }
}

/// Parses `"(" string SP body-fld-param ")"`.
pub fn dsp_pair<'a>(input: &'a [u8]) -> (r: IMAPResult<
    'a,
    (IString, Vec<(IString, IString)>),
>)
    ensures
        agrees(r, spec_dsp_pair(input@)),
{
    let (r1, _) = byte(input, '(' as u8)?;
    let (r2, kind) = string(r1)?;
    let (r3, _) = sp(r2)?;
    let (r4, params) = body_fld_param(r3)?;
    let (r5, _) = byte(r4, ')' as u8)?;
    Ok((r5, (kind, params)))
}

/// Parses `body-fld-dsp`.
pub fn body_fld_dsp<'a>(input: &'a [u8]) -> (r: IMAPResult<
    'a,
    Option<(IString, Vec<(IString, IString)>)>,
>)
    ensures
        agrees(r, spec_body_fld_dsp(input@)),
{
    proof {
        reveal(spec_body_fld_dsp);
    }
    match dsp_pair(input) {
        Ok((rest, pair)) => Ok((rest, Some(pair))),
        Err(ParseError::Error(_)) => {
            let (rest, _) = nil(input)?;
            Ok((rest, None))
        },
        Err(e) => Err(e),
    }
}

/// `"(" string *(SP string) ")"`
pub open spec fn spec_lang_list(s: Seq<u8>) -> SpecResult<Seq<IStringModel>> {
    match spec_byte(s, '(' as u8) {
        Err(e) => Err(e),
        Ok((r1, _)) => match spec_separated1::<StringRule>(r1, ' ' as u8) {
            Err(e) => Err(e),
            Ok((r2, list)) => match spec_byte(r2, ')' as u8) {
                Err(e) => Err(e),
                Ok((r3, _)) => Ok((r3, list)),
            },
        },
    }
}

/// `body-fld-lang = nstring / "(" string *(SP string) ")"`: the languages;
/// one for a string, none for `NIL`.
#[verifier::opaque]
pub open spec fn spec_body_fld_lang(s: Seq<u8>) -> SpecResult<Seq<IStringModel>> {
    match spec_nstring(s) {
        Ok((rest, Some(one))) => Ok((rest, seq![one])),
        Ok((rest, None)) => Ok((rest, Seq::empty())),
        Err(ParseError::Error(_)) => spec_lang_list(s),
        Err(e) => Err(e),
    }
}

/// Parses a list of languages in parentheses.
pub fn lang_list<'a>(input: &'a [u8]) -> (r: IMAPResult<'a, Vec<IString>>)
    ensures
        agrees(r, spec_lang_list(input@)),
{
    let (r1, _) = byte(input, '(' as u8)?;
    let (r2, list) = separated1::<StringRule>(r1, ' ' as u8)?;
    let (r3, _) = byte(r2, ')' as u8)?;
    Ok((r3, list))
}

/// Parses `body-fld-lang`.
pub fn body_fld_lang<'a>(input: &'a [u8]) -> (r: IMAPResult<'a, Vec<IString>>)
    ensures
        agrees(r, spec_body_fld_lang(input@)),
{
    proof {
        reveal(spec_body_fld_lang);
        reveal(spec_nstring);
    }
    match nstring(input) {
        Ok((rest, n)) => {
            let mut list: Vec<IString> = Vec::new();
            match n.0 {
                Some(one) => {
                    let ghost item = one.deep_view();
                    list.push(one);
                    assert(list.deep_view() =~= seq![item]);
                },
                None => {
                    assert(list.deep_view() =~= Seq::empty());
                },
            }
            Ok((rest, list))
        },
        Err(ParseError::Error(_)) => lang_list(input),
        Err(e) => Err(e),
    }
}

/// `body-extension = nstring / number / "(" body-extension *(SP
/// body-extension) ")"`, nested at most `budget` deep: with no budget left
/// the rule fails for good.
pub open spec fn spec_body_extension(s: Seq<u8>, budget: nat) -> SpecResult<BodyExtensionModel>
    decreases budget, 0nat, 0nat,
{
    if budget == 0 {
        Err(failure_at(Category::Budget, s))
    } else {
        match spec_nstring(s) {
            Ok((rest, n)) => Ok((rest, BodyExtensionModel::NString(n))),
            Err(ParseError::Error(_)) => match spec_number(s) {
                Ok((rest, n)) => Ok((rest, BodyExtensionModel::Number(n))),
                Err(ParseError::Error(_)) => spec_body_extension_list(s, (budget - 1) as nat),
                Err(e) => Err(e),
            },
            Err(e) => Err(e),
        }
    }
}

/// `"(" body-extension *(SP body-extension) ")"` with the given budget for
/// each item.
pub open spec fn spec_body_extension_list(s: Seq<u8>, budget: nat) -> SpecResult<
    BodyExtensionModel,
>
    decreases budget, 2nat, 0nat,
{
    match spec_byte(s, '(' as u8) {
        Err(e) => Err(e),
        Ok((r1, _)) => match spec_body_extension(r1, budget) {
            Err(e) => Err(e),
            Ok((r2, first)) => match spec_body_extensions(r2, budget, seq![first]) {
                Err(e) => Err(e),
                Ok((r3, items)) => match spec_byte(r3, ')' as u8) {
                    Err(e) => Err(e),
                    Ok((r4, _)) => Ok((r4, BodyExtensionModel::List(items))),
                },
            },
        },
    }
}

/// `*(SP body-extension)` with the given budget for each item, gathered
/// behind `acc`.
pub open spec fn spec_body_extensions(s: Seq<u8>, budget: nat, acc: Seq<BodyExtensionModel>)
    -> SpecResult<Seq<BodyExtensionModel>>
    decreases budget, 1nat, s.len(),
{
    match spec_sp(s) {
        Err(ParseError::Error(_)) => Ok((s, acc)),
        Err(e) => Err(e),
        Ok((r1, _)) => match spec_body_extension(r1, budget) {
            Err(ParseError::Error(_)) => Ok((s, acc)),
            Err(e) => Err(e),
            Ok((r2, v)) => if r2.len() < s.len() {
                spec_body_extensions(r2, budget, acc.push(v))
            } else {
                Err(error_at(Category::CharacterClass, s))
            },
        },
    }
}

/// Parses a `body-extension` nested at most `budget` deep.
pub fn body_extension_limited<'a>(input: &'a [u8], budget: usize) -> (r: IMAPResult<
    'a,
    BodyExtension,
>)
    ensures
        agrees(r, spec_body_extension(input@, budget as nat)),
    decreases budget, 0nat, 0nat,
{
    if budget == 0 {
        return Err(failure(Category::Budget, input));
    }
    match nstring(input) {
        Ok((rest, n)) => Ok((rest, BodyExtension::NString(n))),
        Err(ParseError::Error(_)) => match number(input) {
            Ok((rest, n)) => Ok((rest, BodyExtension::Number(n))),
            Err(ParseError::Error(_)) => body_extension_list(input, budget - 1),
            Err(e) => Err(e),
        },
        Err(e) => Err(e),
    }
}

/// Parses a list of body extensions in parentheses, with the given budget
/// for each item.
pub fn body_extension_list<'a>(input: &'a [u8], budget: usize) -> (r: IMAPResult<
    'a,
    BodyExtension,
>)
    ensures
        agrees(r, spec_body_extension_list(input@, budget as nat)),
    decreases budget, 2nat, 0nat,
{
    let (r1, _) = byte(input, '(' as u8)?;
    let (r2, first) = body_extension_limited(r1, budget)?;
    let mut list: Vec<BodyExtension> = Vec::new();
    let ghost item = first.deep_view();
    list.push(first);
    assert(list.deep_view() =~= seq![item]);
    let (r3, items) = body_extensions(r2, budget, list)?;
    let (r4, _) = byte(r3, ')' as u8)?;
    let ghost model = items.deep_view();
    let value = BodyExtension::List(NonEmptyVec::unvalidated(items));
    assert(value.deep_view()->List_0 =~= model);
    Ok((r4, value))
}

/// Parses `*(SP body-extension)` with the given budget for each item, and
/// adds the items to `first`.
pub fn body_extensions<'a>(input: &'a [u8], budget: usize, first: Vec<BodyExtension>) -> (r:
    IMAPResult<'a, Vec<BodyExtension>>)
    ensures
        agrees(r, spec_body_extensions(input@, budget as nat, first.deep_view())),
        r matches Ok((_, items)) ==> items@.len() >= first@.len(),
    decreases budget, 1nat, input@.len(),
{
    let mut cur: &[u8] = input;
    let mut acc: Vec<BodyExtension> = first;
    loop
        invariant
            spec_body_extensions(input@, budget as nat, first.deep_view())
                == spec_body_extensions(cur@, budget as nat, acc.deep_view()),
            acc@.len() >= first@.len(),
            cur@.len() <= input@.len(),
        decreases cur@.len(),
    {
        let r1 = match sp(cur) {
            Ok((r1, _)) => r1,
            Err(ParseError::Error(_)) => {
                return Ok((cur, acc));
            },
            Err(e) => {
                return Err(e);
            },
        };
        match body_extension_limited(r1, budget) {
            Ok((r2, v)) => {
                if r2.len() >= cur.len() {
                    return Err(error(Category::CharacterClass, cur));
                }
                let ghost before = acc.deep_view();
                let ghost item = v.deep_view();
                acc.push(v);
                assert(acc.deep_view() =~= before.push(item));
                cur = r2;
            },
            Err(ParseError::Error(_)) => {
                return Ok((cur, acc));
            },
            Err(e) => {
                return Err(e);
            },
        }
    }
}

/// Parses a `body-extension` nested at most `budget` deep.
pub fn body_extension<'a>(input: &'a [u8], budget: usize) -> (r: IMAPResult<'a, BodyExtension>)
    ensures
        agrees(r, spec_body_extension(input@, budget as nat)),
{
    body_extension_limited(input, budget)
}

} // verus!

verus! {

/// `body-fld-loc *(SP body-extension)`: the end of the extension data.
pub open spec fn spec_location_tail(s: Seq<u8>) -> SpecResult<LocationModel> {
    match spec_nstring(s) {
        Err(e) => Err(e),
        Ok((r1, location)) => match spec_body_extensions(
            r1,
            BODY_EXTENSION_BUDGET as nat,
            Seq::empty(),
        ) {
            Err(e) => Err(e),
            Ok((r2, extensions)) => Ok((r2, LocationModel { location, extensions })),
        },
    }
}

/// `body-fld-lang [SP body-fld-loc *(SP body-extension)]`
pub open spec fn spec_language_tail(s: Seq<u8>) -> SpecResult<LanguageModel> {
    match spec_body_fld_lang(s) {
        Err(e) => Err(e),
        Ok((r1, language)) => match spec_opt_preceded::<LocationTailRule>(r1, ' ' as u8) {
            Err(e) => Err(e),
            Ok((r2, tail)) => Ok((r2, LanguageModel { language, tail })),
        },
    }
}

/// `body-fld-dsp [SP body-fld-lang [SP body-fld-loc *(SP body-extension)]]`
pub open spec fn spec_disposition_tail(s: Seq<u8>) -> SpecResult<DispositionModel> {
    match spec_body_fld_dsp(s) {
        Err(e) => Err(e),
        Ok((r1, disposition)) => match spec_opt_preceded::<LanguageTailRule>(r1, ' ' as u8) {
            Err(e) => Err(e),
            Ok((r2, tail)) => Ok((r2, DispositionModel { disposition, tail })),
        },
    }
}

/// `body-ext-1part = body-fld-md5 [SP body-fld-dsp [SP body-fld-lang [SP
/// body-fld-loc *(SP body-extension)]]]`: each field is there only if the
/// one before it is, and the data ends with the last field that is there.
pub open spec fn spec_body_ext_1part(s: Seq<u8>) -> SpecResult<SinglePartExtensionDataModel> {
    match spec_nstring(s) {
        Err(e) => Err(e),
        Ok((r1, md5)) => match spec_opt_preceded::<DispositionTailRule>(r1, ' ' as u8) {
            Err(e) => Err(e),
            Ok((r2, tail)) => Ok((r2, SinglePartExtensionDataModel { md5, tail })),
        },
    }
}

/// `body-ext-mpart = body-fld-param [SP body-fld-dsp [SP body-fld-lang [SP
/// body-fld-loc *(SP body-extension)]]]`
pub open spec fn spec_body_ext_mpart(s: Seq<u8>) -> SpecResult<MultiPartExtensionDataModel> {
    match spec_body_fld_param(s) {
        Err(e) => Err(e),
        Ok((r1, parameter_list)) => match spec_opt_preceded::<DispositionTailRule>(
            r1,
            ' ' as u8,
        ) {
            Err(e) => Err(e),
            Ok((r2, tail)) => Ok((r2, MultiPartExtensionDataModel { parameter_list, tail })),
        },
    }
}

/// The rule for the location and what follows it.
pub struct LocationTailRule;

/// The rule for the languages and what follows them.
pub struct LanguageTailRule;

/// The rule for the disposition and what follows it.
pub struct DispositionTailRule;

/// The rule `body-ext-1part`.
pub struct SinglePartExtensionRule;

/// The rule `body-ext-mpart`.
pub struct MultiPartExtensionRule;

/// Parses the location and the extensions behind it.
pub fn location_tail<'a>(input: &'a [u8]) -> (r: IMAPResult<'a, Location>)
    ensures
        agrees(r, spec_location_tail(input@)),
{
    let (r1, location) = body_fld_loc(input)?;
    let none: Vec<BodyExtension> = Vec::new();
    assert(none.deep_view() =~= Seq::empty());
    let (r2, extensions) = body_extensions(r1, BODY_EXTENSION_BUDGET, none)?;
    Ok((r2, Location { location, extensions }))
}

impl Rule for LocationTailRule {
    type Out = Location;

    open spec fn rule(s: Seq<u8>) -> SpecResult<LocationModel> {
        spec_location_tail(s)
    }

    fn parse<'a>(input: &'a [u8]) -> (r: IMAPResult<'a, Location>) {
        location_tail(input)
    }
}

/// Parses the languages and what follows them.
pub fn language_tail<'a>(input: &'a [u8]) -> (r: IMAPResult<'a, Language>)
    ensures
        agrees(r, spec_language_tail(input@)),
{
    let (r1, language) = body_fld_lang(input)?;
    let (r2, tail) = opt_preceded::<LocationTailRule>(r1, ' ' as u8)?;
    Ok((r2, Language { language, tail }))
}

impl Rule for LanguageTailRule {
    type Out = Language;

    open spec fn rule(s: Seq<u8>) -> SpecResult<LanguageModel> {
        spec_language_tail(s)
    }

    fn parse<'a>(input: &'a [u8]) -> (r: IMAPResult<'a, Language>) {
        language_tail(input)
    }
}

/// Parses the disposition and what follows it.
pub fn disposition_tail<'a>(input: &'a [u8]) -> (r: IMAPResult<'a, Disposition>)
    ensures
        agrees(r, spec_disposition_tail(input@)),
{
    let (r1, disposition) = body_fld_dsp(input)?;
    let (r2, tail) = opt_preceded::<LanguageTailRule>(r1, ' ' as u8)?;
    Ok((r2, Disposition { disposition, tail }))
}

impl Rule for DispositionTailRule {
    type Out = Disposition;

    open spec fn rule(s: Seq<u8>) -> SpecResult<DispositionModel> {
        spec_disposition_tail(s)
    }

    fn parse<'a>(input: &'a [u8]) -> (r: IMAPResult<'a, Disposition>) {
        disposition_tail(input)
    }
}

/// Parses `body-ext-1part`.
pub fn body_ext_1part<'a>(input: &'a [u8]) -> (r: IMAPResult<'a, SinglePartExtensionData>)
    ensures
        agrees(r, spec_body_ext_1part(input@)),
{
    let (r1, md5) = body_fld_md5(input)?;
    let (r2, tail) = opt_preceded::<DispositionTailRule>(r1, ' ' as u8)?;
    Ok((r2, SinglePartExtensionData { md5, tail }))
}

/// Parses `body-ext-mpart`.
pub fn body_ext_mpart<'a>(input: &'a [u8]) -> (r: IMAPResult<'a, MultiPartExtensionData>)
    ensures
        agrees(r, spec_body_ext_mpart(input@)),
{
    let (r1, parameter_list) = body_fld_param(input)?;
    let (r2, tail) = opt_preceded::<DispositionTailRule>(r1, ' ' as u8)?;
    Ok((r2, MultiPartExtensionData { parameter_list, tail }))
}

impl Rule for SinglePartExtensionRule {
    type Out = SinglePartExtensionData;

    open spec fn rule(s: Seq<u8>) -> SpecResult<SinglePartExtensionDataModel> {
        spec_body_ext_1part(s)
    }

    fn parse<'a>(input: &'a [u8]) -> (r: IMAPResult<'a, SinglePartExtensionData>) {
        body_ext_1part(input)
    }
}

impl Rule for MultiPartExtensionRule {
    type Out = MultiPartExtensionData;

    open spec fn rule(s: Seq<u8>) -> SpecResult<MultiPartExtensionDataModel> {
        spec_body_ext_mpart(s)
    }

    fn parse<'a>(input: &'a [u8]) -> (r: IMAPResult<'a, MultiPartExtensionData>) {
        body_ext_mpart(input)
    }
}

/// `body = "(" (body-type-1part / body-type-mpart) ")"`, nested within the
/// given budget: every level of the grammar spends one unit, and with none
/// left the rule fails for good.
pub open spec fn spec_body(s: Seq<u8>, budget: nat) -> SpecResult<BodyStructureModel>
    decreases budget, 0nat, 0nat,
{
    if budget == 0 {
        Err(failure_at(Category::Budget, s))
    } else {
        match spec_byte(s, '(' as u8) {
            Err(e) => Err(e),
            Ok((r1, _)) => match spec_body_content(r1, (budget - 1) as nat) {
                Err(e) => Err(e),
                Ok((r2, b)) => match spec_byte(r2, ')' as u8) {
                    Err(e) => Err(e),
                    Ok((r3, _)) => Ok((r3, b)),
                },
            },
        }
    }
}

/// `body-type-1part / body-type-mpart`
pub open spec fn spec_body_content(s: Seq<u8>, budget: nat) -> SpecResult<BodyStructureModel>
    decreases budget, 4nat, 0nat,
{
    match spec_body_type_1part(s, budget) {
        Ok((rest, b)) => Ok((rest, b)),
        Err(ParseError::Error(_)) => spec_body_type_mpart(s, budget),
        Err(e) => Err(e),
    }
}

/// `body-type-msg / body-type-text / body-type-basic`
pub open spec fn spec_body_type_specific(s: Seq<u8>, budget: nat) -> SpecResult<
    (BasicFieldsModel, SpecificFieldsModel),
>
    decreases budget, 2nat, 0nat,
{
    match spec_body_type_msg(s, budget) {
        Ok((rest, v)) => Ok((rest, v)),
        Err(ParseError::Error(_)) => match spec_body_type_text(s) {
            Ok((rest, v)) => Ok((rest, v)),
            Err(ParseError::Error(_)) => spec_body_type_basic(s),
            Err(e) => Err(e),
        },
        Err(e) => Err(e),
    }
}

/// `body-type-1part = (body-type-basic / body-type-msg / body-type-text)
/// [SP body-ext-1part]`
pub open spec fn spec_body_type_1part(s: Seq<u8>, budget: nat) -> SpecResult<BodyStructureModel>
    decreases budget, 3nat, 0nat,
{
    if budget == 0 {
        Err(failure_at(Category::Budget, s))
    } else {
        match spec_body_type_specific(s, (budget - 1) as nat) {
            Err(e) => Err(e),
            Ok((r1, (basic, specific))) => match spec_opt_preceded::<SinglePartExtensionRule>(
                r1,
                ' ' as u8,
            ) {
                Err(e) => Err(e),
                Ok((r2, extension_data)) => Ok(
                    (
                        r2,
                        BodyStructureModel::Single {
                            body: BodyModel { basic, specific },
                            extension_data,
                        },
                    ),
                ),
            },
        }
    }
}

/// `body-type-msg = media-message SP body-fields SP envelope SP body SP
/// body-fld-lines`
pub open spec fn spec_body_type_msg(s: Seq<u8>, budget: nat) -> SpecResult<
    (BasicFieldsModel, SpecificFieldsModel),
>
    decreases budget, 1nat, 0nat,
{
    if budget == 0 {
        Err(failure_at(Category::Budget, s))
    } else {
        match spec_media_message(s) {
            Err(e) => Err(e),
            Ok((r1, _)) => match spec_sp(r1) {
                Err(e) => Err(e),
                Ok((r2, _)) => match spec_body_fields(r2) {
                    Err(e) => Err(e),
                    Ok((r3, basic)) => match spec_sp(r3) {
                        Err(e) => Err(e),
                        Ok((r4, _)) => match spec_envelope(r4) {
                            Err(e) => Err(e),
                            Ok((r5, envelope)) => match spec_sp(r5) {
                                Err(e) => Err(e),
                                Ok((r6, _)) => match spec_body(r6, (budget - 1) as nat) {
                                    Err(e) => Err(e),
                                    Ok((r7, inner)) => match spec_sp(r7) {
                                        Err(e) => Err(e),
                                        Ok((r8, _)) => match spec_number(r8) {
                                            Err(e) => Err(e),
                                            Ok((r9, number_of_lines)) => Ok(
                                                (
                                                    r9,
                                                    (
                                                        basic,
                                                        SpecificFieldsModel::Message {
                                                            envelope,
                                                            body_structure: Box::new(inner),
                                                            number_of_lines,
                                                        },
                                                    ),
                                                ),
                                            ),
                                        },
                                    },
                                },
                            },
                        },
                    },
                },
            },
        }
    }
}

/// Further bodies without anything between them, gathered behind `acc`.
pub open spec fn spec_bodies(s: Seq<u8>, budget: nat, acc: Seq<BodyStructureModel>) -> SpecResult<
    Seq<BodyStructureModel>,
>
    decreases budget, 1nat, s.len(),
{
    match spec_body(s, budget) {
        Err(ParseError::Error(_)) => Ok((s, acc)),
        Err(e) => Err(e),
        Ok((rest, b)) => if rest.len() < s.len() {
            spec_bodies(rest, budget, acc.push(b))
        } else {
            Err(error_at(Category::CharacterClass, s))
        },
    }
}

/// `body-type-mpart = 1*body SP media-subtype [SP body-ext-mpart]`
pub open spec fn spec_body_type_mpart(s: Seq<u8>, budget: nat) -> SpecResult<BodyStructureModel>
    decreases budget, 3nat, 0nat,
{
    if budget == 0 {
        Err(failure_at(Category::Budget, s))
    } else {
        match spec_body(s, budget) {
            Err(e) => Err(e),
            Ok((r1, first)) => match spec_bodies(r1, budget, seq![first]) {
                Err(e) => Err(e),
                Ok((r2, bodies)) => match spec_sp(r2) {
                    Err(e) => Err(e),
                    Ok((r3, _)) => match spec_string(r3) {
                        Err(e) => Err(e),
                        Ok((r4, subtype)) => match spec_opt_preceded::<MultiPartExtensionRule>(
                            r4,
                            ' ' as u8,
                        ) {
                            Err(e) => Err(e),
                            Ok((r5, extension_data)) => Ok(
                                (
                                    r5,
                                    BodyStructureModel::Multi { bodies, subtype, extension_data },
                                ),
                            ),
                        },
                    },
                },
            },
        }
    }
}

/// Parses a `body` nested within the given budget.
pub fn body_limited<'a>(input: &'a [u8], remaining_recursions: usize) -> (r: IMAPResult<
    'a,
    BodyStructure,
>)
    ensures
        agrees(r, spec_body(input@, remaining_recursions as nat)),
    decreases remaining_recursions, 0nat, 0nat,
{
    if remaining_recursions == 0 {
        return Err(failure(Category::Budget, input));
    }
    let (r1, _) = byte(input, '(' as u8)?;
    let (r2, b) = match body_type_1part_limited(r1, remaining_recursions - 1) {
        Ok((rest, b)) => (rest, b),
        Err(ParseError::Error(_)) => body_type_mpart_limited(r1, remaining_recursions - 1)?,
        Err(e) => {
            return Err(e);
        },
    };
    let (r3, _) = byte(r2, ')' as u8)?;
    Ok((r3, b))
}

/// Parses a `body-type-1part` nested within the given budget.
pub fn body_type_1part_limited<'a>(input: &'a [u8], remaining_recursions: usize) -> (r:
    IMAPResult<'a, BodyStructure>)
    ensures
        agrees(r, spec_body_type_1part(input@, remaining_recursions as nat)),
    decreases remaining_recursions, 3nat, 0nat,
{
    if remaining_recursions == 0 {
        return Err(failure(Category::Budget, input));
    }
    let (r1, (basic, specific)) = match body_type_msg_limited(input, remaining_recursions - 1) {
        Ok((rest, v)) => (rest, v),
        Err(ParseError::Error(_)) => match body_type_text(input) {
            Ok((rest, v)) => (rest, v),
            Err(ParseError::Error(_)) => body_type_basic(input)?,
            Err(e) => {
                return Err(e);
            },
        },
        Err(e) => {
            return Err(e);
        },
    };
    let (r2, extension_data) = opt_preceded::<SinglePartExtensionRule>(r1, ' ' as u8)?;
    Ok((r2, BodyStructure::Single { body: Body { basic, specific }, extension_data }))
}

/// Parses a `body-type-msg` nested within the given budget.
pub fn body_type_msg_limited<'a>(input: &'a [u8], remaining_recursions: usize) -> (r: IMAPResult<
    'a,
    (BasicFields, SpecificFields),
>)
    ensures
        agrees(r, spec_body_type_msg(input@, remaining_recursions as nat)),
    decreases remaining_recursions, 1nat, 0nat,
{
    if remaining_recursions == 0 {
        return Err(failure(Category::Budget, input));
    }
    let (r1, _) = media_message(input)?;
    let (r2, _) = sp(r1)?;
    let (r3, basic) = body_fields(r2)?;
    let (r4, _) = sp(r3)?;
    let (r5, envelope) = envelope(r4)?;
    let (r6, _) = sp(r5)?;
    let (r7, inner) = body_limited(r6, remaining_recursions - 1)?;
    let (r8, _) = sp(r7)?;
    let (r9, number_of_lines) = body_fld_lines(r8)?;
    Ok(
        (
            r9,
            (
                basic,
                SpecificFields::Message {
                    envelope: Box::new(envelope),
                    body_structure: Box::new(inner),
                    number_of_lines,
                },
            ),
        ),
    )
}

/// Parses further bodies and adds them to `first`.
pub fn bodies<'a>(input: &'a [u8], remaining_recursions: usize, first: Vec<BodyStructure>) -> (r:
    IMAPResult<'a, Vec<BodyStructure>>)
    ensures
        agrees(r, spec_bodies(input@, remaining_recursions as nat, first.deep_view())),
        r matches Ok((_, items)) ==> items@.len() >= first@.len(),
    decreases remaining_recursions, 1nat, input@.len(),
{
    let mut cur: &[u8] = input;
    let mut acc: Vec<BodyStructure> = first;
    loop
        invariant
            spec_bodies(input@, remaining_recursions as nat, first.deep_view()) == spec_bodies(
                cur@,
                remaining_recursions as nat,
                acc.deep_view(),
            ),
            acc@.len() >= first@.len(),
            cur@.len() <= input@.len(),
        decreases cur@.len(),
    {
        match body_limited(cur, remaining_recursions) {
            Ok((rest, b)) => {
                if rest.len() >= cur.len() {
                    return Err(error(Category::CharacterClass, cur));
                }
                let ghost before = acc.deep_view();
                let ghost item = b.deep_view();
                acc.push(b);
                assert(acc.deep_view() =~= before.push(item));
                cur = rest;
            },
            Err(ParseError::Error(_)) => {
                return Ok((cur, acc));
            },
            Err(e) => {
                return Err(e);
            },
        }
    }
}

/// Parses a `body-type-mpart` nested within the given budget.
pub fn body_type_mpart_limited<'a>(input: &'a [u8], remaining_recursion: usize) -> (r: IMAPResult<
    'a,
    BodyStructure,
>)
    ensures
        agrees(r, spec_body_type_mpart(input@, remaining_recursion as nat)),
    decreases remaining_recursion, 3nat, 0nat,
{
    if remaining_recursion == 0 {
        return Err(failure(Category::Budget, input));
    }
    let (r1, first) = body_limited(input, remaining_recursion)?;
    let mut list: Vec<BodyStructure> = Vec::new();
    let ghost item = first.deep_view();
    list.push(first);
    assert(list.deep_view() =~= seq![item]);
    let (r2, items) = bodies(r1, remaining_recursion, list)?;
    let (r3, _) = sp(r2)?;
    let (r4, subtype) = media_subtype(r3)?;
    let (r5, extension_data) = opt_preceded::<MultiPartExtensionRule>(r4, ' ' as u8)?;
    let ghost model = items.deep_view();
    let value = BodyStructure::Multi {
        bodies: NonEmptyVec::unvalidated(items),
        subtype,
        extension_data,
    };
    assert(value.deep_view()->bodies =~= model);
    Ok((r5, value))
}

/// The depth to which the grammar of `body` may be followed.
pub const BODY_BUDGET: usize = 8;

/// Parses a `body` nested within the given budget.
pub fn body<'a>(input: &'a [u8], remaining_recursions: usize) -> (r: IMAPResult<'a, BodyStructure>)
    ensures
        agrees(r, spec_body(input@, remaining_recursions as nat)),
{
    body_limited(input, remaining_recursions)
}

} // verus!

verus! {

/// One attribute/value pair: the two strings with a space between them.
pub open spec fn spec_encode_param(p: (IStringModel, IStringModel)) -> Seq<u8> {
    spec_encode_string(p.0) + seq![' ' as u8] + spec_encode_string(p.1)
}

impl Encoder for (IString, IString) {
    open spec fn wire(v: (IStringModel, IStringModel)) -> Seq<u8> {
        spec_encode_param(v)
    }

    fn encode_into(&self, out: &mut Vec<u8>) {
        let ghost start = out@;
        self.0.encode_into(out);
        out.push(' ' as u8);
        self.1.encode_into(out);
        assert(out@ =~= start + spec_encode_param(self.deep_view()));
    }
}

/// A parameter list: `NIL` for none, else the pairs in parentheses.
pub open spec fn spec_encode_params(list: Seq<(IStringModel, IStringModel)>) -> Seq<u8> {
    if list.len() == 0 {
        kw("NIL")
    } else {
        seq!['(' as u8] + spec_wire_joined::<(IString, IString)>(list, ' ' as u8) + seq![
            ')' as u8,
        ]
    }
}

/// Appends a parameter list.
pub fn encode_params(list: &[(IString, IString)], out: &mut Vec<u8>)
    ensures
        final(out)@ == old(out)@ + spec_encode_params(list.deep_view()),
{
    let ghost start = out@;
    if list.len() == 0 {
        put_str(out, "NIL");
    } else {
        out.push('(' as u8);
        encode_joined::<(IString, IString)>(list, ' ' as u8, out);
        out.push(')' as u8);
        assert(out@ =~= start + spec_encode_params(list.deep_view()));
    }
}

/// The basic fields of a single part, separated by spaces.
pub open spec fn spec_encode_basic_fields(f: BasicFieldsModel) -> Seq<u8> {
    spec_encode_params(f.parameter_list) + seq![' ' as u8] + spec_encode_nstring(f.id) + seq![
        ' ' as u8,
    ] + spec_encode_nstring(f.description) + seq![' ' as u8] + spec_encode_string(
        f.content_transfer_encoding,
    ) + seq![' ' as u8] + spec_digits(f.size as nat)
}

impl Encoder for BasicFields {
    open spec fn wire(v: BasicFieldsModel) -> Seq<u8> {
        spec_encode_basic_fields(v)
    }

    fn encode_into(&self, out: &mut Vec<u8>) {
        let ghost start = out@;
        encode_params(self.parameter_list.as_slice(), out);
        out.push(' ' as u8);
        self.id.encode_into(out);
        out.push(' ' as u8);
        self.description.encode_into(out);
        out.push(' ' as u8);
        self.content_transfer_encoding.encode_into(out);
        out.push(' ' as u8);
        encode_number(self.size as u64, out);
        assert(out@ =~= start + spec_encode_basic_fields(self.deep_view()));
    }
}

/// A body extension: an nstring, a number, or a list in parentheses.
pub open spec fn spec_encode_body_extension(e: BodyExtensionModel) -> Seq<u8>
    decreases e, 0nat,
{
    match e {
        BodyExtensionModel::NString(n) => spec_encode_nstring(n),
        BodyExtensionModel::Number(n) => spec_digits(n as nat),
        BodyExtensionModel::List(items) => seq!['(' as u8] + spec_encode_body_extensions(
            items,
            items.len(),
            false,
        ) + seq![')' as u8],
    }
}

/// The first `n` of the extensions `items`, each behind a space; the first
/// of them only if `lead` is set.
pub open spec fn spec_encode_body_extensions(
    items: Seq<BodyExtensionModel>,
    n: nat,
    lead: bool,
) -> Seq<u8>
    decreases items, n,
{
    if n == 0 || n > items.len() {
        Seq::empty()
    } else {
        spec_encode_body_extensions(items, (n - 1) as nat, lead) + (if n > 1 || lead {
            seq![' ' as u8]
        } else {
            Seq::<u8>::empty()
        }) + spec_encode_body_extension(items[n - 1])
    }
}

/// Appends a body extension.
pub fn encode_body_extension(e: &BodyExtension, out: &mut Vec<u8>)
    ensures
        final(out)@ == old(out)@ + spec_encode_body_extension(e.deep_view()),
    decreases e, 1nat,
{
    match e {
        BodyExtension::NString(n) => n.encode_into(out),
        BodyExtension::Number(n) => encode_number(*n as u64, out),
        BodyExtension::List(l) => {
            let ghost start = out@;
            let ghost model = e.deep_view()->List_0;
            assert(model =~= l.deep_view());
            out.push('(' as u8);
            encode_body_extension_items(l, out);
            out.push(')' as u8);
            assert(out@ =~= start + spec_encode_body_extension(e.deep_view()));
        },
    }
}

/// Appends the items of a list of body extensions with spaces between
/// them.
pub fn encode_body_extension_items(l: &NonEmptyVec<BodyExtension>, out: &mut Vec<u8>)
    ensures
        final(out)@ == old(out)@ + spec_encode_body_extensions(
            l.deep_view(),
            l.deep_view().len(),
            false,
        ),
    decreases l, 0nat,
{
    let ghost start = out@;
    let ghost model = l.deep_view();
    let items = l.as_slice();
    let mut i: usize = 0;
    while i < items.len()
        invariant
            i <= items.len(),
            items@ == l.spec_items(),
            model == l.deep_view(),
            out@ == start + spec_encode_body_extensions(model, i as nat, false),
        decreases items.len() - i,
    {
        if i > 0 {
            out.push(' ' as u8);
        }
        proof {
            l.lemma_items_decrease(i as int);
        }
        encode_body_extension(&items[i], out);
        assert(out@ =~= start + spec_encode_body_extensions(model, (i + 1) as nat, false));
        i += 1;
    }
}

impl Encoder for BodyExtension {
    open spec fn wire(v: BodyExtensionModel) -> Seq<u8> {
        spec_encode_body_extension(v)
    }

    fn encode_into(&self, out: &mut Vec<u8>) {
        encode_body_extension(self, out);
    }
}

/// The location and the extensions behind it.
pub open spec fn spec_encode_location(l: LocationModel) -> Seq<u8> {
    spec_encode_nstring(l.location) + spec_encode_body_extensions(
        l.extensions,
        l.extensions.len(),
        true,
    )
}

/// The languages: `NIL` for none, else the strings in parentheses.
pub open spec fn spec_encode_languages(list: Seq<IStringModel>) -> Seq<u8> {
    if list.len() == 0 {
        kw("NIL")
    } else {
        seq!['(' as u8] + spec_wire_joined::<IString>(list, ' ' as u8) + seq![')' as u8]
    }
}

/// The languages and what follows them.
pub open spec fn spec_encode_language(l: LanguageModel) -> Seq<u8> {
    spec_encode_languages(l.language) + match l.tail {
        Some(t) => seq![' ' as u8] + spec_encode_location(t),
        None => Seq::<u8>::empty(),
    }
}

/// The disposition itself: `NIL` for none, else the kind and its
/// parameters in parentheses.
pub open spec fn spec_encode_dsp(d: Option<(IStringModel, Seq<(IStringModel, IStringModel)>)>)
    -> Seq<u8> {
    match d {
        Some((kind, params)) => seq!['(' as u8] + spec_encode_string(kind) + seq![' ' as u8]
            + spec_encode_params(params) + seq![')' as u8],
        None => kw("NIL"),
    }
}

/// The disposition and what follows it.
pub open spec fn spec_encode_disposition(d: DispositionModel) -> Seq<u8> {
    spec_encode_dsp(d.disposition) + match d.tail {
        Some(t) => seq![' ' as u8] + spec_encode_language(t),
        None => Seq::<u8>::empty(),
    }
}

/// The extension data of a single part.
pub open spec fn spec_encode_ext_1part(e: SinglePartExtensionDataModel) -> Seq<u8> {
    spec_encode_nstring(e.md5) + match e.tail {
        Some(t) => seq![' ' as u8] + spec_encode_disposition(t),
        None => Seq::<u8>::empty(),
    }
}

/// The extension data of a multipart.
pub open spec fn spec_encode_ext_mpart(e: MultiPartExtensionDataModel) -> Seq<u8> {
    spec_encode_params(e.parameter_list) + match e.tail {
        Some(t) => seq![' ' as u8] + spec_encode_disposition(t),
        None => Seq::<u8>::empty(),
    }
}

impl Encoder for Location {
    open spec fn wire(v: LocationModel) -> Seq<u8> {
        spec_encode_location(v)
    }

    fn encode_into(&self, out: &mut Vec<u8>) {
        let ghost start = out@;
        let ghost model = self.extensions.deep_view();
        self.location.encode_into(out);
        let ghost head = out@;
        let mut i: usize = 0;
        while i < self.extensions.len()
            invariant
                i <= self.extensions.len(),
                model == self.extensions.deep_view(),
                out@ == head + spec_encode_body_extensions(model, i as nat, true),
            decreases self.extensions.len() - i,
        {
            out.push(' ' as u8);
            self.extensions[i].encode_into(out);
            assert(out@ =~= head + spec_encode_body_extensions(model, (i + 1) as nat, true));
            i += 1;
        }
        assert(out@ =~= start + spec_encode_location(self.deep_view()));
    }
}

/// Appends the languages.
pub fn encode_languages(list: &[IString], out: &mut Vec<u8>)
    ensures
        final(out)@ == old(out)@ + spec_encode_languages(list.deep_view()),
{
    let ghost start = out@;
    if list.len() == 0 {
        put_str(out, "NIL");
    } else {
        out.push('(' as u8);
        encode_joined::<IString>(list, ' ' as u8, out);
        out.push(')' as u8);
        assert(out@ =~= start + spec_encode_languages(list.deep_view()));
    }
}

impl Encoder for Language {
    open spec fn wire(v: LanguageModel) -> Seq<u8> {
        spec_encode_language(v)
    }

    fn encode_into(&self, out: &mut Vec<u8>) {
        let ghost start = out@;
        encode_languages(self.language.as_slice(), out);
        match &self.tail {
            Some(t) => {
                out.push(' ' as u8);
                t.encode_into(out);
            },
            None => {},
        }
        assert(out@ =~= start + spec_encode_language(self.deep_view()));
    }
}

impl Encoder for Disposition {
    open spec fn wire(v: DispositionModel) -> Seq<u8> {
        spec_encode_disposition(v)
    }

    fn encode_into(&self, out: &mut Vec<u8>) {
        let ghost start = out@;
        match &self.disposition {
            Some((kind, params)) => {
                out.push('(' as u8);
                kind.encode_into(out);
                out.push(' ' as u8);
                encode_params(params.as_slice(), out);
                out.push(')' as u8);
                assert(out@ =~= start + spec_encode_dsp(self.disposition.deep_view()));
            },
            None => {
                put_str(out, "NIL");
            },
        }
        match &self.tail {
            Some(t) => {
                out.push(' ' as u8);
                t.encode_into(out);
            },
            None => {},
        }
        assert(out@ =~= start + spec_encode_disposition(self.deep_view()));
    }
}

impl Encoder for SinglePartExtensionData {
    open spec fn wire(v: SinglePartExtensionDataModel) -> Seq<u8> {
        spec_encode_ext_1part(v)
    }

    fn encode_into(&self, out: &mut Vec<u8>) {
        let ghost start = out@;
        self.md5.encode_into(out);
        match &self.tail {
            Some(t) => {
                out.push(' ' as u8);
                t.encode_into(out);
            },
            None => {},
        }
        assert(out@ =~= start + spec_encode_ext_1part(self.deep_view()));
    }
}

impl Encoder for MultiPartExtensionData {
    open spec fn wire(v: MultiPartExtensionDataModel) -> Seq<u8> {
        spec_encode_ext_mpart(v)
    }

    fn encode_into(&self, out: &mut Vec<u8>) {
        let ghost start = out@;
        encode_params(self.parameter_list.as_slice(), out);
        match &self.tail {
            Some(t) => {
                out.push(' ' as u8);
                t.encode_into(out);
            },
            None => {},
        }
        assert(out@ =~= start + spec_encode_ext_mpart(self.deep_view()));
    }
}

/// A body structure in parentheses.
pub open spec fn spec_encode_body_structure(b: BodyStructureModel) -> Seq<u8>
    decreases b, 0nat,
{
    match b {
        BodyStructureModel::Single { body, extension_data } => seq!['(' as u8]
            + spec_encode_body(body) + spec_wire_opt::<SinglePartExtensionData>(
            extension_data,
            ' ' as u8,
        ) + seq![')' as u8],
        BodyStructureModel::Multi { bodies, subtype, extension_data } => seq!['(' as u8]
            + spec_encode_bodies(bodies, bodies.len()) + seq![' ' as u8] + spec_encode_string(
            subtype,
        ) + spec_wire_opt::<MultiPartExtensionData>(extension_data, ' ' as u8) + seq![')' as u8],
    }
}

/// The first `n` of the bodies `items`, one after the other.
pub open spec fn spec_encode_bodies(items: Seq<BodyStructureModel>, n: nat) -> Seq<u8>
    decreases items, n,
{
    if n == 0 || n > items.len() {
        Seq::empty()
    } else {
        spec_encode_bodies(items, (n - 1) as nat) + spec_encode_body_structure(items[n - 1])
    }
}

/// A single part: the type, the fields of every part and those of its
/// kind.
pub open spec fn spec_encode_body(b: BodyModel) -> Seq<u8>
    decreases b, 0nat,
{
    match b.specific {
        SpecificFieldsModel::Basic { type_, subtype } => spec_encode_string(type_) + seq![
            ' ' as u8,
        ] + spec_encode_string(subtype) + seq![' ' as u8] + spec_encode_basic_fields(b.basic),
        SpecificFieldsModel::Message { envelope, body_structure, number_of_lines } => kw(
            "\"MESSAGE\" \"RFC822\" ",
        ) + spec_encode_basic_fields(b.basic) + seq![' ' as u8] + spec_encode_envelope(envelope)
            + seq![' ' as u8] + spec_encode_body_structure(*body_structure) + seq![' ' as u8]
            + spec_digits(number_of_lines as nat),
        SpecificFieldsModel::Text { subtype, number_of_lines } => kw("\"TEXT\" ")
            + spec_encode_string(subtype) + seq![' ' as u8] + spec_encode_basic_fields(b.basic)
            + seq![' ' as u8] + spec_digits(number_of_lines as nat),
    }
}

/// Appends a single part.
pub fn encode_body(b: &Body, out: &mut Vec<u8>)
    ensures
        final(out)@ == old(out)@ + spec_encode_body(b.deep_view()),
    decreases b, 0nat,
{
    let s = Ghost(out@);
    match &b.specific {
        SpecificFields::Basic { type_, subtype } => {
            type_.encode_into(out);
            let d = Ghost(spec_encode_string(type_.deep_view()));
            let d = emit_byte(' ' as u8, out, s, d);
            let d = emit(subtype, out, s, d);
            let d = emit_byte(' ' as u8, out, s, d);
            let d = emit(&b.basic, out, s, d);
        },
        SpecificFields::Message { envelope, body_structure, number_of_lines } => {
            put_str(out, "\"MESSAGE\" \"RFC822\" ");
            let d = Ghost(kw("\"MESSAGE\" \"RFC822\" "));
            let d = emit(&b.basic, out, s, d);
            let d = emit_byte(' ' as u8, out, s, d);
            envelope.encode_into(out);
            let d = appended(s, d, Ghost(spec_encode_envelope(envelope.deep_view())));
            let d = emit_byte(' ' as u8, out, s, d);
            encode_body_structure(body_structure, out);
            let d = appended(s, d, Ghost(spec_encode_body_structure(body_structure.deep_view())));
            let d = emit_byte(' ' as u8, out, s, d);
            let d = emit(number_of_lines, out, s, d);
        },
        SpecificFields::Text { subtype, number_of_lines } => {
            put_str(out, "\"TEXT\" ");
            let d = Ghost(kw("\"TEXT\" "));
            let d = emit(subtype, out, s, d);
            let d = emit_byte(' ' as u8, out, s, d);
            let d = emit(&b.basic, out, s, d);
            let d = emit_byte(' ' as u8, out, s, d);
            let d = emit(number_of_lines, out, s, d);
        },
    }
}

/// Appends the bodies of a multipart, one after the other.
pub fn encode_bodies(bodies: &NonEmptyVec<BodyStructure>, out: &mut Vec<u8>)
    ensures
        final(out)@ == old(out)@ + spec_encode_bodies(
            bodies.deep_view(),
            bodies.deep_view().len(),
        ),
    decreases bodies, 0nat,
{
    let ghost start = out@;
    let ghost model = bodies.deep_view();
    let items = bodies.as_slice();
    let mut i: usize = 0;
    while i < items.len()
        invariant
            i <= items.len(),
            items@ == bodies.spec_items(),
            model == bodies.deep_view(),
            out@ == start + spec_encode_bodies(model, i as nat),
        decreases items.len() - i,
    {
        proof {
            bodies.lemma_items_decrease(i as int);
        }
        encode_body_structure(&items[i], out);
        assert(out@ =~= start + spec_encode_bodies(model, (i + 1) as nat));
        i += 1;
    }
}

/// Appends a body structure.
pub fn encode_body_structure(b: &BodyStructure, out: &mut Vec<u8>)
    ensures
        final(out)@ == old(out)@ + spec_encode_body_structure(b.deep_view()),
    decreases b, 1nat,
{
    let s = Ghost(out@);
    put_byte(out, '(' as u8);
    let d = Ghost(Seq::<u8>::empty().push('(' as u8));
    match b {
        BodyStructure::Single { body, extension_data } => {
            encode_body(body, out);
            let d = appended(s, d, Ghost(spec_encode_body(body.deep_view())));
            encode_opt::<SinglePartExtensionData>(extension_data, ' ' as u8, out);
            let d = appended(
                s,
                d,
                Ghost(
                    spec_wire_opt::<SinglePartExtensionData>(extension_data.deep_view(), ' ' as u8),
                ),
            );
            let d = emit_byte(')' as u8, out, s, d);
        },
        BodyStructure::Multi { bodies, subtype, extension_data } => {
            let ghost model = b.deep_view()->bodies;
            assert(model =~= bodies.deep_view());
            encode_bodies(bodies, out);
            let d = appended(s, d, Ghost(spec_encode_bodies(model, model.len())));
            let d = emit_byte(' ' as u8, out, s, d);
            let d = emit(subtype, out, s, d);
            encode_opt::<MultiPartExtensionData>(extension_data, ' ' as u8, out);
            let d = appended(
                s,
                d,
                Ghost(
                    spec_wire_opt::<MultiPartExtensionData>(extension_data.deep_view(), ' ' as u8),
                ),
            );
            let d = emit_byte(')' as u8, out, s, d);
        },
    }
}

impl Encoder for BodyStructure {
    open spec fn wire(v: BodyStructureModel) -> Seq<u8> {
        spec_encode_body_structure(v)
    }

    fn encode_into(&self, out: &mut Vec<u8>) {
        encode_body_structure(self, out);
    }
}

} // verus!
