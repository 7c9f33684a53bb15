//! Message data items that are written and read back: the envelope, the
//! internal date, the text of a section and the body structure.

use crate::body::{spec_body, spec_encode_body_structure, BodyStructureModel, BODY_BUDGET};
use crate::datetime::{spec_encode_date_time, DateTimeModel};
use crate::envelope::{spec_encode_envelope, EnvelopeModel};
use crate::error::ParseError;
use crate::fetch::{
    spec_encode_fetch_attribute_value, spec_encode_origin, spec_msg_att_body, spec_msg_att_envelope,
    spec_msg_att_internal_date, spec_msg_att_item, spec_msg_att_static, spec_opt_origin,
    FetchAttributeValueModel,
};
use crate::lex::kw;
use crate::number::{lemma_number_roundtrip, spec_digits};
use crate::section::{spec_encode_opt_section, spec_section, SectionModel};
use crate::strings::{spec_encode_nstring, spec_nstring, IStringModel};
use crate::theorems::datetime::lemma_date_time_roundtrip;
use crate::theorems::envelope::{lemma_envelope_roundtrip, wf_envelope};
use crate::theorems::fetch::lemma_item_words_fail;
use crate::theorems::keywords::{
    lemma_kw_body, lemma_kw_body_sp, lemma_kw_bodystructure_sp, lemma_kw_envelope_sp,
    lemma_kw_internaldate_sp,
};
use crate::theorems::lex::{lemma_byte, lemma_no_byte, lemma_tag, lemma_tag_mismatch};
use crate::theorems::section::{lemma_section_roundtrip, wf_section};
use crate::theorems::strings::{lemma_nstring_roundtrip, wf_nstring};
use crate::theorems::structure::{lemma_body_roundtrip, wf_body_structure};
use vstd::prelude::*;

verus! {

/// What the rule for `ENVELOPE` reads is an item.
proof fn lemma_item_from_envelope(s: Seq<u8>, rest: Seq<u8>, v: FetchAttributeValueModel)
    requires
        s.len() >= 1,
        s[0] == 'E' as u8,
        spec_msg_att_envelope(s) == Ok::<_, ParseError>((rest, v)),
    ensures
        spec_msg_att_item(s) == Ok::<_, ParseError>((rest, v)),
{
    reveal(spec_msg_att_item);
    reveal(spec_msg_att_static);
    lemma_item_words_fail(s);
}

/// What the rule for `INTERNALDATE` reads is an item.
proof fn lemma_item_from_internal_date(s: Seq<u8>, rest: Seq<u8>, v: FetchAttributeValueModel)
    requires
        s.len() >= 1,
        s[0] == 'I' as u8,
        spec_msg_att_internal_date(s) == Ok::<_, ParseError>((rest, v)),
    ensures
        spec_msg_att_item(s) == Ok::<_, ParseError>((rest, v)),
{
    reveal(spec_msg_att_item);
    reveal(spec_msg_att_static);
    lemma_item_words_fail(s);
}

/// What the rule for the items that begin with `BODY` reads is an item.
proof fn lemma_item_from_body(s: Seq<u8>, rest: Seq<u8>, v: FetchAttributeValueModel)
    requires
        s.len() >= 1,
        s[0] == 'B' as u8,
        spec_msg_att_body(s) == Ok::<_, ParseError>((rest, v)),
    ensures
        spec_msg_att_item(s) == Ok::<_, ParseError>((rest, v)),
{
    reveal(spec_msg_att_item);
    reveal(spec_msg_att_static);
    lemma_item_words_fail(s);
}

/// The envelope of a message is read back, whatever follows it.
pub proof fn lemma_envelope_item_roundtrip(e: EnvelopeModel, rest: Seq<u8>)
    requires
        wf_envelope(e),
    ensures
        spec_msg_att_item(
            spec_encode_fetch_attribute_value(FetchAttributeValueModel::Envelope(e)) + rest,
        ) == Ok::<_, ParseError>((rest, FetchAttributeValueModel::Envelope(e))),
{
    reveal(spec_encode_fetch_attribute_value);
    reveal(spec_msg_att_envelope);
    lemma_kw_envelope_sp();
    let v = FetchAttributeValueModel::Envelope(e);
    let s = spec_encode_fetch_attribute_value(v) + rest;
    let body = spec_encode_envelope(e) + rest;
    assert(s =~= kw("ENVELOPE ") + body);
    assert(s[0] == 'E' as u8);
    lemma_tag(kw("ENVELOPE "), body);
    lemma_envelope_roundtrip(e, rest);
    lemma_item_from_envelope(s, rest, v);
}

/// The internal date of a message is read back, whatever follows it.
pub proof fn lemma_internal_date_roundtrip(d: DateTimeModel, rest: Seq<u8>)
    requires
        d.valid(),
    ensures
        spec_msg_att_item(
            spec_encode_fetch_attribute_value(FetchAttributeValueModel::InternalDate(d)) + rest,
        ) == Ok::<_, ParseError>((rest, FetchAttributeValueModel::InternalDate(d))),
{
    reveal(spec_encode_fetch_attribute_value);
    reveal(spec_msg_att_internal_date);
    lemma_kw_internaldate_sp();
    let v = FetchAttributeValueModel::InternalDate(d);
    let s = spec_encode_fetch_attribute_value(v) + rest;
    let body = spec_encode_date_time(d) + rest;
    assert(s =~= kw("INTERNALDATE ") + body);
    assert(s[0] == 'I' as u8);
    lemma_tag(kw("INTERNALDATE "), body);
    lemma_date_time_roundtrip(d, rest);
    lemma_item_from_internal_date(s, rest, v);
}

/// An origin in angle brackets, or none, is read back before a space.
proof fn lemma_origin_roundtrip(o: Option<u32>, rest: Seq<u8>)
    requires
        rest.len() >= 1,
        rest[0] == ' ' as u8,
    ensures
        spec_opt_origin(spec_encode_origin(o) + rest) == Ok::<_, ParseError>((rest, o)),
{
    let s = spec_encode_origin(o) + rest;
    match o {
        Some(n) => {
            let close = seq!['>' as u8] + rest;
            let digits = spec_digits(n as nat) + close;
            assert(s =~= seq!['<' as u8] + digits);
            lemma_byte('<' as u8, digits);
            lemma_number_roundtrip(n, close);
            lemma_byte('>' as u8, rest);
        },
        None => {
            assert(s =~= rest);
            lemma_no_byte(rest, '<' as u8);
        },
    }
}

/// The text of a section is read from input in which the section, the
/// origin and the text are read one behind the other.
proof fn lemma_body_ext_pieces(
    t0: Seq<u8>,
    t1: Seq<u8>,
    t2: Seq<u8>,
    rest: Seq<u8>,
    section: Option<SectionModel>,
    origin: Option<u32>,
    data: Option<IStringModel>,
)
    requires
        t0.len() >= 1,
        t0[0] == '[' as u8,
        spec_section(t0) == Ok::<_, ParseError>((t1, section)),
        spec_opt_origin(t1) == Ok::<_, ParseError>((seq![' ' as u8] + t2, origin)),
        spec_nstring(t2) == Ok::<_, ParseError>((rest, data)),
    ensures
        spec_msg_att_body(kw("BODY") + t0) == Ok::<_, ParseError>(
            (rest, FetchAttributeValueModel::BodyExt { section, origin, data }),
        ),
        (kw("BODY") + t0)[0] == 'B' as u8,
{
    reveal(spec_msg_att_body);
    lemma_kw_body();
    lemma_kw_body_sp();
    lemma_kw_bodystructure_sp();
    let s = kw("BODY") + t0;
    assert(s[0] == 'B' as u8);
    assert(s[4] == '[' as u8);
    lemma_tag_mismatch(s, kw("BODYSTRUCTURE "), 4);
    lemma_tag_mismatch(s, kw("BODY "), 4);
    lemma_tag(kw("BODY"), t0);
    lemma_byte(' ' as u8, t2);
}

/// The text of a section is written as its keyword, the section, the
/// origin, a space and the text.
proof fn lemma_body_ext_form(w0: Seq<u8>, w1: Seq<u8>, w2: Seq<u8>, rest: Seq<u8>)
    ensures
        kw("BODY") + w0 + w1 + seq![' ' as u8] + w2 + rest == kw("BODY") + (w0 + (w1 + (seq![
            ' ' as u8,
        ] + (w2 + rest)))),
{
    assert(kw("BODY") + w0 + w1 + seq![' ' as u8] + w2 + rest =~= kw("BODY") + (w0 + (w1 + (seq![
        ' ' as u8,
    ] + (w2 + rest)))));
}

/// The text of a section is read back, whatever follows it.
pub proof fn lemma_body_ext_roundtrip(
    section: Option<SectionModel>,
    origin: Option<u32>,
    data: Option<IStringModel>,
    rest: Seq<u8>,
)
    requires
        section matches Some(s) ==> wf_section(s),
        wf_nstring(data),
    ensures
        spec_msg_att_item(
            spec_encode_fetch_attribute_value(
                FetchAttributeValueModel::BodyExt { section, origin, data },
            ) + rest,
        ) == Ok::<_, ParseError>(
            (rest, FetchAttributeValueModel::BodyExt { section, origin, data }),
        ),
{
    reveal(spec_encode_fetch_attribute_value);
    let v = FetchAttributeValueModel::BodyExt { section, origin, data };
    let s = spec_encode_fetch_attribute_value(v) + rest;
    let w0 = spec_encode_opt_section(section);
    let w1 = spec_encode_origin(origin);
    let w2 = spec_encode_nstring(data);
    let t2 = w2 + rest;
    let t1 = w1 + (seq![' ' as u8] + t2);
    let t0 = w0 + t1;
    lemma_body_ext_form(w0, w1, w2, rest);
    assert(s == kw("BODY") + t0);
    lemma_section_roundtrip(section, t1);
    lemma_origin_roundtrip(origin, seq![' ' as u8] + t2);
    lemma_nstring_roundtrip(data, rest);
    assert(t0[0] == '[' as u8);
    lemma_body_ext_pieces(t0, t1, t2, rest, section, origin, data);
    lemma_item_from_body(s, rest, v);
}

/// A body structure behind the keyword `BODY` is read as that item.
proof fn lemma_body_pieces(t0: Seq<u8>, rest: Seq<u8>, b: BodyStructureModel)
    requires
        spec_body(t0, BODY_BUDGET as nat) == Ok::<_, ParseError>((rest, b)),
    ensures
        spec_msg_att_body(kw("BODY ") + t0) == Ok::<_, ParseError>(
            (rest, FetchAttributeValueModel::Body(b)),
        ),
        (kw("BODY ") + t0).len() >= 1,
        (kw("BODY ") + t0)[0] == 'B' as u8,
{
    reveal(spec_msg_att_body);
    lemma_kw_body_sp();
    lemma_kw_bodystructure_sp();
    let s = kw("BODY ") + t0;
    assert(s[4] == ' ' as u8);
    lemma_tag_mismatch(s, kw("BODYSTRUCTURE "), 4);
    lemma_tag(kw("BODY "), t0);
}

/// A body structure behind the keyword `BODYSTRUCTURE` is read as that
/// item.
proof fn lemma_bodystructure_pieces(t0: Seq<u8>, rest: Seq<u8>, b: BodyStructureModel)
    requires
        spec_body(t0, BODY_BUDGET as nat) == Ok::<_, ParseError>((rest, b)),
    ensures
        spec_msg_att_body(kw("BODYSTRUCTURE ") + t0) == Ok::<_, ParseError>(
            (rest, FetchAttributeValueModel::BodyStructure(b)),
        ),
        (kw("BODYSTRUCTURE ") + t0).len() >= 1,
        (kw("BODYSTRUCTURE ") + t0)[0] == 'B' as u8,
{
    reveal(spec_msg_att_body);
    lemma_kw_bodystructure_sp();
    lemma_tag(kw("BODYSTRUCTURE "), t0);
}

/// How a body structure lies behind its keyword.
proof fn lemma_body_item_form(v: FetchAttributeValueModel, rest: Seq<u8>)
    requires
        v is Body || v is BodyStructure,
    ensures
        v matches FetchAttributeValueModel::Body(b) ==> spec_encode_fetch_attribute_value(v)
            + rest == kw("BODY ") + (spec_encode_body_structure(b) + rest),
        v matches FetchAttributeValueModel::BodyStructure(b) ==> spec_encode_fetch_attribute_value(
            v,
        ) + rest == kw("BODYSTRUCTURE ") + (spec_encode_body_structure(b) + rest),
{
    reveal(spec_encode_fetch_attribute_value);
    match v {
        FetchAttributeValueModel::Body(b) => {
            assert(spec_encode_fetch_attribute_value(v) + rest =~= kw("BODY ") + (
            spec_encode_body_structure(b) + rest));
        },
        FetchAttributeValueModel::BodyStructure(b) => {
            assert(spec_encode_fetch_attribute_value(v) + rest =~= kw("BODYSTRUCTURE ") + (
            spec_encode_body_structure(b) + rest));
        },
        _ => {},
    }
}

/// A body structure is read back behind either of its two keywords,
/// whatever follows it.
pub proof fn lemma_body_item_roundtrip(v: FetchAttributeValueModel, rest: Seq<u8>)
    requires
        v matches FetchAttributeValueModel::Body(b) ==> wf_body_structure(b, BODY_BUDGET as nat),
        v matches FetchAttributeValueModel::BodyStructure(b) ==> wf_body_structure(
            b,
            BODY_BUDGET as nat,
        ),
        v is Body || v is BodyStructure,
    ensures
        spec_msg_att_item(spec_encode_fetch_attribute_value(v) + rest) == Ok::<_, ParseError>(
            (rest, v),
        ),
{
    let s = spec_encode_fetch_attribute_value(v) + rest;
    lemma_body_item_form(v, rest);
    match v {
        FetchAttributeValueModel::Body(b) => {
            lemma_body_roundtrip(b, BODY_BUDGET as nat, rest);
            lemma_body_pieces(spec_encode_body_structure(b) + rest, rest, b);
        },
        FetchAttributeValueModel::BodyStructure(b) => {
            lemma_body_roundtrip(b, BODY_BUDGET as nat, rest);
            lemma_bodystructure_pieces(spec_encode_body_structure(b) + rest, rest, b);
        },
        _ => {},
    }
    lemma_item_from_body(s, rest, v);
}

} // verus!
