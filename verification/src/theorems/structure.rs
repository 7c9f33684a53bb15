//! Body structures that are written and read back.

use crate::body::{
    spec_bodies, spec_body, spec_body_content, spec_body_type_1part, spec_body_type_basic,
    spec_body_type_mpart, spec_body_type_specific, spec_body_type_text, spec_encode_basic_fields,
    spec_encode_bodies, spec_encode_body, spec_encode_body_structure, spec_media_message,
    spec_media_text, BasicFieldsModel, BodyModel, BodyStructureModel, MultiPartExtensionData,
    MultiPartExtensionDataModel, MultiPartExtensionRule, SinglePartExtensionData,
    SinglePartExtensionDataModel, SinglePartExtensionRule, SpecificFieldsModel,
};
use crate::envelope::{spec_encode_envelope, spec_envelope, EnvelopeModel};
use crate::error::ParseError;
use crate::lex::{kw, CharClass};
use crate::list::{spec_opt_preceded, spec_wire_opt};
use crate::number::spec_digits;
use crate::strings::{spec_encode_string, IStringModel};
use crate::theorems::body::lemma_parenthesis_is_no_part;
use crate::theorems::envelope::{lemma_envelope_roundtrip, wf_envelope};
use crate::theorems::fields::{
    lemma_basic_fields_roundtrip, lemma_reads_number, lemma_type_basic_pieces,
    lemma_type_text_pieces, reads_basic_fields, reads_number, wf_basic_fields,
};
use crate::theorems::keywords::{lemma_kw_media_message, lemma_kw_media_message_sp};
use crate::theorems::lex::{lemma_byte, lemma_no_byte, lemma_tag, lemma_tag_mismatch};
use crate::theorems::media::{is_other_media, lemma_not_message, lemma_not_text};
use crate::theorems::params::{lemma_reads_string, reads_string};
use crate::theorems::strings::wf_string;
use crate::theorems::tails::{lemma_opt_tail, wf_ext_1part, wf_ext_mpart};
use vstd::prelude::*;

verus! {

/// A body structure is well formed within a budget: its strings, fields
/// and extension data are, a part that is neither a text nor a message
/// does not bear the type of one, a multipart has a part, and the whole is
/// nested no deeper than the budget allows. Every structure needs three
/// units, a part of a multipart has one unit less than the multipart, and
/// the structure within a message three units less than the message.
pub open spec fn wf_body_structure(b: BodyStructureModel, budget: nat) -> bool
    decreases budget,
{
    if budget < 3 {
        false
    } else {
        match b {
            BodyStructureModel::Single { body, extension_data } => {
                &&& wf_basic_fields(body.basic)
                &&& (extension_data matches Some(e) ==> wf_ext_1part(e))
                &&& match body.specific {
                    SpecificFieldsModel::Basic { type_, subtype } => wf_string(type_) && wf_string(
                        subtype,
                    ) && is_other_media(type_, subtype),
                    SpecificFieldsModel::Text { subtype, number_of_lines } => wf_string(subtype),
                    SpecificFieldsModel::Message { envelope, body_structure, number_of_lines } =>
                        wf_envelope(envelope) && wf_body_structure(
                            *body_structure,
                            (budget - 3) as nat,
                        ),
                }
            },
            BodyStructureModel::Multi { bodies, subtype, extension_data } => {
                &&& bodies.len() >= 1
                &&& wf_string(subtype)
                &&& (extension_data matches Some(e) ==> wf_ext_mpart(e))
                &&& forall|i: int|
                    0 <= i < bodies.len() ==> wf_body_structure(
                        #[trigger] bodies[i],
                        (budget - 1) as nat,
                    )
            },
        }
    }
}

/// The written form of bodies begins with the first of them.
proof fn lemma_bodies_front(items: Seq<BodyStructureModel>, n: nat)
    requires
        1 <= n <= items.len(),
    ensures
        spec_encode_bodies(items, n) == spec_encode_body_structure(items[0]) + spec_encode_bodies(
            items.skip(1),
            (n - 1) as nat,
        ),
    decreases n,
{
    let tail = items.skip(1);
    if n == 1 {
        assert(spec_encode_bodies(items, 0) =~= Seq::<u8>::empty());
        assert(spec_encode_bodies(tail, 0) =~= Seq::<u8>::empty());
        assert(spec_encode_bodies(items, 1) =~= spec_encode_body_structure(items[0])
            + spec_encode_bodies(tail, 0));
    } else {
        lemma_bodies_front(items, (n - 1) as nat);
        assert(tail[n - 2] == items[n - 1]);
        assert(spec_encode_bodies(tail, (n - 1) as nat) == spec_encode_bodies(
            tail,
            (n - 2) as nat,
        ) + spec_encode_body_structure(items[n - 1]));
        assert(spec_encode_bodies(items, n) =~= spec_encode_body_structure(items[0])
            + spec_encode_bodies(tail, (n - 1) as nat));
    }
}

/// What the rule for texts reads is read as a single part.
proof fn lemma_specific_from_text(
    s: Seq<u8>,
    rest: Seq<u8>,
    v: (BasicFieldsModel, SpecificFieldsModel),
    budget: nat,
)
    requires
        budget >= 1,
        s.len() >= 2,
        s[1] == 'T' as u8,
        spec_body_type_text(s) == Ok::<_, ParseError>((rest, v)),
    ensures
        spec_body_type_specific(s, budget) == Ok::<_, ParseError>((rest, v)),
{
    lemma_kw_media_message();
    lemma_tag_mismatch(s, kw("\"MESSAGE\" \"RFC822\""), 1);
}

/// What the rule for the other parts reads, and neither the rule for
/// messages nor the rule for texts, is read as a single part.
proof fn lemma_specific_from_basic(
    s: Seq<u8>,
    rest: Seq<u8>,
    v: (BasicFieldsModel, SpecificFieldsModel),
    budget: nat,
)
    requires
        budget >= 1,
        spec_media_message(s) matches Err(ParseError::Error(_)),
        spec_media_text(s) matches Err(ParseError::Error(_)),
        spec_body_type_basic(s) == Ok::<_, ParseError>((rest, v)),
    ensures
        spec_body_type_specific(s, budget) == Ok::<_, ParseError>((rest, v)),
{
}

/// A message is read as a single part from input in which its fields, its
/// envelope, its structure and its number of lines are read one behind the
/// other.
proof fn lemma_specific_from_message(
    t0: Seq<u8>,
    t1: Seq<u8>,
    t2: Seq<u8>,
    t3: Seq<u8>,
    rest: Seq<u8>,
    f: BasicFieldsModel,
    envelope: EnvelopeModel,
    inner: BodyStructureModel,
    lines: u32,
    budget: nat,
)
    requires
        budget >= 1,
        reads_basic_fields(t0, seq![' ' as u8] + t1, f),
        spec_envelope(t1) == Ok::<_, ParseError>((seq![' ' as u8] + t2, envelope)),
        spec_body(t2, (budget - 1) as nat) == Ok::<_, ParseError>((seq![' ' as u8] + t3, inner)),
        reads_number(t3, rest, lines),
    ensures
        spec_body_type_specific(
            kw("\"MESSAGE\" \"RFC822\"") + (seq![' ' as u8] + t0),
            budget,
        ) == Ok::<_, ParseError>(
            (
                rest,
                (
                    f,
                    SpecificFieldsModel::Message {
                        envelope,
                        body_structure: Box::new(inner),
                        number_of_lines: lines,
                    },
                ),
            ),
        ),
{
    reveal(reads_basic_fields);
    reveal(reads_number);
    lemma_tag(kw("\"MESSAGE\" \"RFC822\""), seq![' ' as u8] + t0);
    lemma_byte(' ' as u8, t0);
    lemma_byte(' ' as u8, t1);
    lemma_byte(' ' as u8, t2);
    lemma_byte(' ' as u8, t3);
}

/// A single part in parentheses is read as a body from input in which the
/// part and its extension data are read one behind the other.
proof fn lemma_body_from_single(
    t0: Seq<u8>,
    t1: Seq<u8>,
    rest: Seq<u8>,
    body: BodyModel,
    ext: Option<SinglePartExtensionDataModel>,
    budget: nat,
)
    requires
        budget >= 3,
        spec_body_type_specific(t0, (budget - 2) as nat) == Ok::<_, ParseError>(
            (t1, (body.basic, body.specific)),
        ),
        spec_opt_preceded::<SinglePartExtensionRule>(t1, ' ' as u8) == Ok::<_, ParseError>(
            (seq![')' as u8] + rest, ext),
        ),
    ensures
        spec_body(seq!['(' as u8] + t0, budget) == Ok::<_, ParseError>(
            (rest, BodyStructureModel::Single { body, extension_data: ext }),
        ),
{
    lemma_byte('(' as u8, t0);
    lemma_byte(')' as u8, rest);
    assert(spec_body_type_1part(t0, (budget - 1) as nat) == Ok::<_, ParseError>(
        (seq![')' as u8] + rest, BodyStructureModel::Single { body, extension_data: ext }),
    ));
    assert(spec_body_content(t0, (budget - 1) as nat) == Ok::<_, ParseError>(
        (seq![')' as u8] + rest, BodyStructureModel::Single { body, extension_data: ext }),
    ));
}

/// A multipart in parentheses is read as a body from input in which its
/// parts, its subtype and its extension data are read one behind the
/// other.
proof fn lemma_body_from_multi(
    t0: Seq<u8>,
    t1: Seq<u8>,
    t2: Seq<u8>,
    t3: Seq<u8>,
    rest: Seq<u8>,
    bodies: Seq<BodyStructureModel>,
    subtype: IStringModel,
    ext: Option<MultiPartExtensionDataModel>,
    budget: nat,
)
    requires
        budget >= 3,
        bodies.len() >= 1,
        t0.len() >= 1,
        t0[0] == '(' as u8,
        spec_body(t0, (budget - 1) as nat) == Ok::<_, ParseError>((t1, bodies[0])),
        spec_bodies(t1, (budget - 1) as nat, seq![bodies[0]]) == Ok::<_, ParseError>(
            (seq![' ' as u8] + t2, bodies),
        ),
        reads_string(t2, t3, subtype),
        spec_opt_preceded::<MultiPartExtensionRule>(t3, ' ' as u8) == Ok::<_, ParseError>(
            (seq![')' as u8] + rest, ext),
        ),
    ensures
        spec_body(seq!['(' as u8] + t0, budget) == Ok::<_, ParseError>(
            (rest, BodyStructureModel::Multi { bodies, subtype, extension_data: ext }),
        ),
{
    reveal(reads_string);
    lemma_byte('(' as u8, t0);
    lemma_byte(' ' as u8, t2);
    lemma_byte(')' as u8, rest);
    lemma_parenthesis_is_no_part(t0, (budget - 2) as nat);
    let v = BodyStructureModel::Multi { bodies, subtype, extension_data: ext };
    assert(spec_body_type_1part(t0, (budget - 1) as nat) matches Err(ParseError::Error(_)));
    assert(spec_body_type_mpart(t0, (budget - 1) as nat) == Ok::<_, ParseError>(
        (seq![')' as u8] + rest, v),
    ));
    assert(spec_body_content(t0, (budget - 1) as nat) == Ok::<_, ParseError>(
        (seq![')' as u8] + rest, v),
    ));
}

/// Further bodies are read from input in which one is read, and then the
/// others.
proof fn lemma_bodies_step(
    t0: Seq<u8>,
    t1: Seq<u8>,
    rest: Seq<u8>,
    first: BodyStructureModel,
    acc: Seq<BodyStructureModel>,
    all: Seq<BodyStructureModel>,
    budget: nat,
)
    requires
        spec_body(t0, budget) == Ok::<_, ParseError>((t1, first)),
        t1.len() < t0.len(),
        spec_bodies(t1, budget, acc.push(first)) == Ok::<_, ParseError>((rest, all)),
    ensures
        spec_bodies(t0, budget, acc) == Ok::<_, ParseError>((rest, all)),
{
}

/// No further body is read from input that begins with a space.
proof fn lemma_bodies_end(s: Seq<u8>, budget: nat, acc: Seq<BodyStructureModel>)
    requires
        budget >= 1,
        s.len() >= 1,
        s[0] == ' ' as u8,
    ensures
        spec_bodies(s, budget, acc) == Ok::<_, ParseError>((s, acc)),
{
    lemma_no_byte(s, '(' as u8);
    assert(spec_body(s, budget) matches Err(ParseError::Error(_)));
}

/// How the subtype, the fields and the number of lines of a text lie
/// behind its keyword.
proof fn lemma_text_form(w0: Seq<u8>, w1: Seq<u8>, w2: Seq<u8>, rest: Seq<u8>)
    ensures
        kw("\"TEXT\" ") + w0 + seq![' ' as u8] + w1 + seq![' ' as u8] + w2 + rest == kw(
            "\"TEXT\" ",
        ) + (w0 + (seq![' ' as u8] + (w1 + (seq![' ' as u8] + (w2 + rest))))),
{
    assert(kw("\"TEXT\" ") + w0 + seq![' ' as u8] + w1 + seq![' ' as u8] + w2 + rest =~= kw(
        "\"TEXT\" ",
    ) + (w0 + (seq![' ' as u8] + (w1 + (seq![' ' as u8] + (w2 + rest))))));
}

/// How the type, the subtype and the fields of a part lie one behind the
/// other.
proof fn lemma_basic_form(w0: Seq<u8>, w1: Seq<u8>, w2: Seq<u8>, rest: Seq<u8>)
    ensures
        w0 + seq![' ' as u8] + w1 + seq![' ' as u8] + w2 + rest == w0 + (seq![' ' as u8] + (w1 + (
        seq![' ' as u8] + (w2 + rest)))),
{
    assert(w0 + seq![' ' as u8] + w1 + seq![' ' as u8] + w2 + rest =~= w0 + (seq![' ' as u8] + (w1
        + (seq![' ' as u8] + (w2 + rest)))));
}

/// How the fields, the envelope, the structure and the number of lines of
/// a message lie behind its keyword.
proof fn lemma_message_form(w0: Seq<u8>, w1: Seq<u8>, w2: Seq<u8>, w3: Seq<u8>, rest: Seq<u8>)
    ensures
        kw("\"MESSAGE\" \"RFC822\" ") + w0 + seq![' ' as u8] + w1 + seq![' ' as u8] + w2 + seq![
            ' ' as u8,
        ] + w3 + rest == kw("\"MESSAGE\" \"RFC822\"") + (seq![' ' as u8] + (w0 + (seq![
            ' ' as u8,
        ] + (w1 + (seq![' ' as u8] + (w2 + (seq![' ' as u8] + (w3 + rest)))))))),
{
    lemma_kw_media_message();
    lemma_kw_media_message_sp();
    assert(kw("\"MESSAGE\" \"RFC822\" ") =~= kw("\"MESSAGE\" \"RFC822\"") + seq![' ' as u8]);
    assert(kw("\"MESSAGE\" \"RFC822\"") + seq![' ' as u8] + w0 + seq![' ' as u8] + w1 + seq![
        ' ' as u8,
    ] + w2 + seq![' ' as u8] + w3 + rest =~= kw("\"MESSAGE\" \"RFC822\"") + (seq![' ' as u8]
        + (w0 + (seq![' ' as u8] + (w1 + (seq![' ' as u8] + (w2 + (seq![' ' as u8] + (w3
        + rest)))))))));
}

/// A single part is read back before a byte that is no digit.
proof fn lemma_specific_roundtrip(body: BodyModel, budget: nat, rest: Seq<u8>)
    requires
        wf_body_structure(BodyStructureModel::Single { body, extension_data: None }, budget),
        rest.len() >= 1,
        !CharClass::Digit.spec_has(rest[0]),
    ensures
        spec_body_type_specific(spec_encode_body(body) + rest, (budget - 2) as nat) == Ok::<
            _,
            ParseError,
        >((rest, (body.basic, body.specific))),
    decreases budget, 0nat,
{
    let s = spec_encode_body(body) + rest;
    let sp = seq![' ' as u8];
    let fields = spec_encode_basic_fields(body.basic);
    match body.specific {
        SpecificFieldsModel::Text { subtype, number_of_lines } => {
            let w0 = spec_encode_string(subtype);
            let w2 = spec_digits(number_of_lines as nat);
            let t2 = w2 + rest;
            let t1 = fields + (sp + t2);
            let t0 = w0 + (sp + t1);
            lemma_text_form(w0, fields, w2, rest);
            assert(s == kw("\"TEXT\" ") + t0);
            lemma_reads_string(w0, subtype, sp + t1);
            lemma_basic_fields_roundtrip(body.basic, sp + t2);
            lemma_reads_number(number_of_lines, rest);
            lemma_type_text_pieces(t0, t1, t2, rest, subtype, body.basic, number_of_lines);
            lemma_specific_from_text(s, rest, (body.basic, body.specific), (budget - 2) as nat);
        },
        SpecificFieldsModel::Basic { type_, subtype } => {
            let w0 = spec_encode_string(type_);
            let w1 = spec_encode_string(subtype);
            let t2 = fields + rest;
            let t1 = w1 + (sp + t2);
            let t0 = w0 + (sp + t1);
            lemma_basic_form(w0, w1, fields, rest);
            assert(s == t0);
            lemma_reads_string(w0, type_, sp + t1);
            lemma_reads_string(w1, subtype, sp + t2);
            lemma_basic_fields_roundtrip(body.basic, rest);
            lemma_not_message(type_, subtype, sp + t2);
            lemma_not_text(type_, sp + t1);
            lemma_type_basic_pieces(t0, t1, t2, rest, type_, subtype, body.basic);
            lemma_specific_from_basic(s, rest, (body.basic, body.specific), (budget - 2) as nat);
        },
        SpecificFieldsModel::Message { envelope, body_structure, number_of_lines } => {
            let inner = *body_structure;
            let w1 = spec_encode_envelope(envelope);
            let w2 = spec_encode_body_structure(inner);
            let w3 = spec_digits(number_of_lines as nat);
            let t3 = w3 + rest;
            let t2 = w2 + (sp + t3);
            let t1 = w1 + (sp + t2);
            let t0 = fields + (sp + t1);
            lemma_message_form(fields, w1, w2, w3, rest);
            assert(s == kw("\"MESSAGE\" \"RFC822\"") + (sp + t0));
            lemma_basic_fields_roundtrip(body.basic, sp + t1);
            lemma_envelope_roundtrip(envelope, sp + t2);
            lemma_body_roundtrip(inner, (budget - 3) as nat, sp + t3);
            lemma_reads_number(number_of_lines, rest);
            lemma_specific_from_message(
                t0,
                t1,
                t2,
                t3,
                rest,
                body.basic,
                envelope,
                inner,
                number_of_lines,
                (budget - 2) as nat,
            );
        },
    }
}

/// How a single part and its extension data lie between the parentheses.
proof fn lemma_single_form(w0: Seq<u8>, w1: Seq<u8>, rest: Seq<u8>)
    ensures
        seq!['(' as u8] + w0 + w1 + seq![')' as u8] + rest == seq!['(' as u8] + (w0 + (w1 + (seq![
            ')' as u8,
        ] + rest))),
{
    assert(seq!['(' as u8] + w0 + w1 + seq![')' as u8] + rest =~= seq!['(' as u8] + (w0 + (w1 + (
    seq![')' as u8] + rest))));
}

/// How the parts, the subtype and the extension data of a multipart lie
/// between the parentheses.
proof fn lemma_multi_form(w0: Seq<u8>, w1: Seq<u8>, w2: Seq<u8>, w3: Seq<u8>, rest: Seq<u8>)
    ensures
        seq!['(' as u8] + (w0 + w1) + seq![' ' as u8] + w2 + w3 + seq![')' as u8] + rest == seq![
            '(' as u8,
        ] + (w0 + (w1 + (seq![' ' as u8] + (w2 + (w3 + (seq![')' as u8] + rest)))))),
{
    assert(seq!['(' as u8] + (w0 + w1) + seq![' ' as u8] + w2 + w3 + seq![')' as u8] + rest
        =~= seq!['(' as u8] + (w0 + (w1 + (seq![' ' as u8] + (w2 + (w3 + (seq![')' as u8]
        + rest)))))));
}

/// A single part with its extension data is read back as a body.
proof fn lemma_single_roundtrip(
    body: BodyModel,
    ext: Option<SinglePartExtensionDataModel>,
    budget: nat,
    rest: Seq<u8>,
)
    requires
        wf_body_structure(BodyStructureModel::Single { body, extension_data: ext }, budget),
    ensures
        spec_body(
            spec_encode_body_structure(BodyStructureModel::Single { body, extension_data: ext })
                + rest,
            budget,
        ) == Ok::<_, ParseError>(
            (rest, BodyStructureModel::Single { body, extension_data: ext }),
        ),
    decreases budget, 1nat,
{
    let b = BodyStructureModel::Single { body, extension_data: ext };
    let close = seq![')' as u8] + rest;
    let w1 = spec_wire_opt::<SinglePartExtensionData>(ext, ' ' as u8);
    let t1 = w1 + close;
    let t0 = spec_encode_body(body) + t1;
    lemma_single_form(spec_encode_body(body), w1, rest);
    assert(spec_encode_body_structure(b) + rest == seq!['(' as u8] + t0);
    assert(t1[0] == ' ' as u8 || t1[0] == ')' as u8);
    assert(wf_body_structure(BodyStructureModel::Single { body, extension_data: None }, budget));
    lemma_specific_roundtrip(body, budget, t1);
    lemma_opt_tail::<SinglePartExtensionRule>(ext, close);
    lemma_body_from_single(t0, t1, rest, body, ext, budget);
}

/// A multipart is read back as a body.
proof fn lemma_multi_roundtrip(
    bodies: Seq<BodyStructureModel>,
    subtype: IStringModel,
    ext: Option<MultiPartExtensionDataModel>,
    budget: nat,
    rest: Seq<u8>,
)
    requires
        wf_body_structure(
            BodyStructureModel::Multi { bodies, subtype, extension_data: ext },
            budget,
        ),
    ensures
        spec_body(
            spec_encode_body_structure(
                BodyStructureModel::Multi { bodies, subtype, extension_data: ext },
            ) + rest,
            budget,
        ) == Ok::<_, ParseError>(
            (rest, BodyStructureModel::Multi { bodies, subtype, extension_data: ext }),
        ),
    decreases budget, 1nat,
{
    let b = BodyStructureModel::Multi { bodies, subtype, extension_data: ext };
    let close = seq![')' as u8] + rest;
    let sp = seq![' ' as u8];
    let tail = bodies.skip(1);
    let w0 = spec_encode_body_structure(bodies[0]);
    let w1 = spec_encode_bodies(tail, tail.len());
    let w2 = spec_encode_string(subtype);
    let w3 = spec_wire_opt::<MultiPartExtensionData>(ext, ' ' as u8);
    let t3 = w3 + close;
    let t2 = w2 + t3;
    let after = sp + t2;
    let t1 = w1 + after;
    let t0 = w0 + t1;
    lemma_bodies_front(bodies, bodies.len());
    lemma_multi_form(w0, w1, w2, w3, rest);
    assert(spec_encode_body_structure(b) + rest == seq!['(' as u8] + t0);
    lemma_body_roundtrip(bodies[0], (budget - 1) as nat, t1);
    assert forall|i: int| 0 <= i < tail.len() implies wf_body_structure(
        #[trigger] tail[i],
        (budget - 1) as nat,
    ) by {
        assert(tail[i] == bodies[i + 1]);
    }
    lemma_bodies_roundtrip(tail, (budget - 1) as nat, seq![bodies[0]], after);
    assert(seq![bodies[0]] + tail =~= bodies);
    lemma_reads_string(w2, subtype, t3);
    lemma_opt_tail::<MultiPartExtensionRule>(ext, close);
    assert(t0[0] == w0[0]);
    lemma_body_from_multi(t0, t1, t2, t3, rest, bodies, subtype, ext, budget);
}

/// A body structure that is well formed within the budget is read back
/// within that budget, whatever follows it; it begins with a parenthesis.
pub proof fn lemma_body_roundtrip(b: BodyStructureModel, budget: nat, rest: Seq<u8>)
    requires
        wf_body_structure(b, budget),
    ensures
        spec_body(spec_encode_body_structure(b) + rest, budget) == Ok::<_, ParseError>((rest, b)),
        spec_encode_body_structure(b).len() >= 2,
        spec_encode_body_structure(b)[0] == '(' as u8,
    decreases budget, 2nat,
{
    match b {
        BodyStructureModel::Single { body, extension_data } => {
            lemma_single_roundtrip(body, extension_data, budget, rest);
        },
        BodyStructureModel::Multi { bodies, subtype, extension_data } => {
            lemma_multi_roundtrip(bodies, subtype, extension_data, budget, rest);
        },
    }
}

/// Bodies that stand one behind the other are read back, behind whatever
/// was read before them, before a space.
proof fn lemma_bodies_roundtrip(
    items: Seq<BodyStructureModel>,
    budget: nat,
    acc: Seq<BodyStructureModel>,
    rest: Seq<u8>,
)
    requires
        budget >= 1,
        forall|i: int| 0 <= i < items.len() ==> wf_body_structure(#[trigger] items[i], budget),
        rest.len() >= 1,
        rest[0] == ' ' as u8,
    ensures
        spec_bodies(spec_encode_bodies(items, items.len()) + rest, budget, acc) == Ok::<
            _,
            ParseError,
        >((rest, acc + items)),
    decreases budget, 3 + items.len(),
{
    let s = spec_encode_bodies(items, items.len()) + rest;
    if items.len() == 0 {
        assert(s =~= rest);
        lemma_bodies_end(rest, budget, acc);
        assert(acc + items =~= acc);
    } else {
        let tail = items.skip(1);
        let t1 = spec_encode_bodies(tail, tail.len()) + rest;
        let t0 = spec_encode_body_structure(items[0]) + t1;
        lemma_bodies_front(items, items.len());
        assert(s =~= t0);
        lemma_body_roundtrip(items[0], budget, t1);
        assert forall|i: int| 0 <= i < tail.len() implies wf_body_structure(
            #[trigger] tail[i],
            budget,
        ) by {
            assert(tail[i] == items[i + 1]);
        }
        lemma_bodies_roundtrip(tail, budget, acc.push(items[0]), rest);
        assert(acc.push(items[0]) + tail =~= acc + items);
        lemma_bodies_step(t0, t1, rest, items[0], acc, acc + items, budget);
    }
}

} // verus!
