//! The fields of a single part, written and read back.

use crate::body::{
    spec_body_fields, spec_body_type_basic, spec_body_type_text, spec_encode_basic_fields,
    spec_encode_params, BasicFieldsModel, SpecificFieldsModel,
};
use crate::error::ParseError;
use crate::lex::{kw, CharClass};
use crate::number::{lemma_number_roundtrip, spec_digits, spec_number};
use crate::strings::{spec_encode_nstring, spec_encode_string, IStringModel};
use crate::theorems::envelope::reads_nstring;
use crate::theorems::keywords::lemma_kw_media_text;
use crate::theorems::lex::{lemma_byte, lemma_tag};
use crate::theorems::params::{
    lemma_params_roundtrip, lemma_reads_string, reads_params, reads_string, wf_params,
};
use crate::theorems::strings::{wf_nstring, wf_string};
use crate::theorems::tails::lemma_nstring_read;
use vstd::prelude::*;

verus! {

/// The fields that every single part has are well formed.
pub open spec fn wf_basic_fields(f: BasicFieldsModel) -> bool {
    &&& wf_params(f.parameter_list)
    &&& wf_nstring(f.id)
    &&& wf_nstring(f.description)
    &&& wf_string(f.content_transfer_encoding)
}

/// The fields `f` are read from `s`, and `rest` is left.
#[verifier::opaque]
pub open spec fn reads_basic_fields(s: Seq<u8>, rest: Seq<u8>, f: BasicFieldsModel) -> bool {
    spec_body_fields(s) == Ok::<_, ParseError>((rest, f))
}

/// The number `n` is read from `s`, and `rest` is left.
#[verifier::opaque]
pub open spec fn reads_number(s: Seq<u8>, rest: Seq<u8>, n: u32) -> bool {
    spec_number(s) == Ok::<_, ParseError>((rest, n))
}

/// A number is read back before a byte that is no digit.
pub proof fn lemma_reads_number(n: u32, rest: Seq<u8>)
    requires
        rest.len() >= 1,
        !CharClass::Digit.spec_has(rest[0]),
    ensures
        reads_number(spec_digits(n as nat) + rest, rest, n),
{
    reveal(reads_number);
    lemma_number_roundtrip(n, rest);
}

/// The fields of every part are read from input in which each is read and
/// leaves a space and the fields behind it.
proof fn lemma_basic_fields_pieces(
    t0: Seq<u8>,
    t1: Seq<u8>,
    t2: Seq<u8>,
    t3: Seq<u8>,
    t4: Seq<u8>,
    rest: Seq<u8>,
    f: BasicFieldsModel,
)
    requires
        reads_params(t0, seq![' ' as u8] + t1, f.parameter_list),
        reads_nstring(t1, seq![' ' as u8] + t2, f.id),
        reads_nstring(t2, seq![' ' as u8] + t3, f.description),
        reads_string(t3, seq![' ' as u8] + t4, f.content_transfer_encoding),
        reads_number(t4, rest, f.size),
    ensures
        reads_basic_fields(t0, rest, f),
{
    reveal(spec_body_fields);
    reveal(reads_params);
    reveal(reads_nstring);
    reveal(reads_string);
    reveal(reads_number);
    reveal(reads_basic_fields);
    lemma_byte(' ' as u8, t1);
    lemma_byte(' ' as u8, t2);
    lemma_byte(' ' as u8, t3);
    lemma_byte(' ' as u8, t4);
}

/// How five fields lie one behind the other with spaces between them.
proof fn lemma_five_fields(
    w0: Seq<u8>,
    w1: Seq<u8>,
    w2: Seq<u8>,
    w3: Seq<u8>,
    w4: Seq<u8>,
    rest: Seq<u8>,
)
    ensures
        w0 + seq![' ' as u8] + w1 + seq![' ' as u8] + w2 + seq![' ' as u8] + w3 + seq![' ' as u8]
            + w4 + rest == spec_five_fields(w0, w1, w2, w3, w4, rest),
{
    assert(w0 + seq![' ' as u8] + w1 + seq![' ' as u8] + w2 + seq![' ' as u8] + w3 + seq![
        ' ' as u8,
    ] + w4 + rest =~= spec_five_fields(w0, w1, w2, w3, w4, rest));
}

/// Five fields with spaces between them, and what follows them.
pub open spec fn spec_five_fields(
    w0: Seq<u8>,
    w1: Seq<u8>,
    w2: Seq<u8>,
    w3: Seq<u8>,
    w4: Seq<u8>,
    rest: Seq<u8>,
) -> Seq<u8> {
    let t4 = w4 + rest;
    let t3 = w3 + (seq![' ' as u8] + t4);
    let t2 = w2 + (seq![' ' as u8] + t3);
    let t1 = w1 + (seq![' ' as u8] + t2);
    w0 + (seq![' ' as u8] + t1)
}

/// The fields of every part are read back before a byte that is no digit;
/// their written form is not empty.
pub proof fn lemma_basic_fields_roundtrip(f: BasicFieldsModel, rest: Seq<u8>)
    requires
        wf_basic_fields(f),
        rest.len() >= 1,
        !CharClass::Digit.spec_has(rest[0]),
    ensures
        reads_basic_fields(spec_encode_basic_fields(f) + rest, rest, f),
        spec_encode_basic_fields(f).len() >= 1,
{
    let w0 = spec_encode_params(f.parameter_list);
    let w1 = spec_encode_nstring(f.id);
    let w2 = spec_encode_nstring(f.description);
    let w3 = spec_encode_string(f.content_transfer_encoding);
    let w4 = spec_digits(f.size as nat);
    let t4 = w4 + rest;
    let t3 = w3 + (seq![' ' as u8] + t4);
    let t2 = w2 + (seq![' ' as u8] + t3);
    let t1 = w1 + (seq![' ' as u8] + t2);
    let t0 = w0 + (seq![' ' as u8] + t1);
    lemma_five_fields(w0, w1, w2, w3, w4, rest);
    lemma_params_roundtrip(f.parameter_list, seq![' ' as u8] + t1);
    lemma_nstring_read(w1, f.id, seq![' ' as u8] + t2);
    lemma_nstring_read(w2, f.description, seq![' ' as u8] + t3);
    lemma_reads_string(w3, f.content_transfer_encoding, seq![' ' as u8] + t4);
    lemma_reads_number(f.size, rest);
    lemma_basic_fields_pieces(t0, t1, t2, t3, t4, rest, f);
}

/// A part of type `TEXT` is read from input in which its subtype, its
/// fields and its number of lines are read one behind the other.
pub proof fn lemma_type_text_pieces(
    t0: Seq<u8>,
    t1: Seq<u8>,
    t2: Seq<u8>,
    rest: Seq<u8>,
    subtype: IStringModel,
    f: BasicFieldsModel,
    lines: u32,
)
    requires
        reads_string(t0, seq![' ' as u8] + t1, subtype),
        reads_basic_fields(t1, seq![' ' as u8] + t2, f),
        reads_number(t2, rest, lines),
    ensures
        spec_body_type_text(kw("\"TEXT\" ") + t0) == Ok::<_, ParseError>(
            (rest, (f, SpecificFieldsModel::Text { subtype, number_of_lines: lines })),
        ),
        (kw("\"TEXT\" ") + t0)[1] == 'T' as u8,
{
    reveal(reads_string);
    reveal(reads_basic_fields);
    reveal(reads_number);
    lemma_kw_media_text();
    lemma_tag(kw("\"TEXT\" "), t0);
    lemma_byte(' ' as u8, t1);
    lemma_byte(' ' as u8, t2);
}

/// A part that is neither a text nor a message is read from input in which
/// its type, its subtype and its fields are read one behind the other.
pub proof fn lemma_type_basic_pieces(
    t0: Seq<u8>,
    t1: Seq<u8>,
    t2: Seq<u8>,
    rest: Seq<u8>,
    type_: IStringModel,
    subtype: IStringModel,
    f: BasicFieldsModel,
)
    requires
        reads_string(t0, seq![' ' as u8] + t1, type_),
        reads_string(t1, seq![' ' as u8] + t2, subtype),
        reads_basic_fields(t2, rest, f),
    ensures
        spec_body_type_basic(t0) == Ok::<_, ParseError>(
            (rest, (f, SpecificFieldsModel::Basic { type_, subtype })),
        ),
{
    reveal(reads_string);
    reveal(reads_basic_fields);
    lemma_byte(' ' as u8, t1);
    lemma_byte(' ' as u8, t2);
}

} // verus!
