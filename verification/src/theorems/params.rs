//! Parameters, dispositions and languages that are written and read back.

use crate::body::{
    spec_body_fld_dsp, spec_body_fld_lang, spec_body_fld_param, spec_encode_dsp,
    spec_encode_languages, spec_encode_param, spec_encode_params, spec_param, ParamRule,
};
use crate::codec::Encoder;
use crate::error::ParseError;
use crate::lex::kw;
use crate::list::spec_wire_joined;
use crate::strings::{
    spec_encode_string, spec_nil, spec_nstring, spec_string, IString, IStringModel, StringRule,
};
use crate::theorems::lex::{lemma_byte, lemma_no_byte, lemma_tag};
use crate::theorems::list::{lemma_separated1_roundtrip, Reversible};
use crate::theorems::strings::{lemma_nil_bytes, lemma_string_roundtrip, wf_string};
use vstd::prelude::*;

verus! {

/// The string `v` is read from `s`, and `rest` is left.
#[verifier::opaque]
pub open spec fn reads_string(s: Seq<u8>, rest: Seq<u8>, v: IStringModel) -> bool {
    spec_string(s) == Ok::<_, ParseError>((rest, v))
}

/// A string is read back, whatever follows it; it begins with a quote or a
/// brace.
pub proof fn lemma_reads_string(w: Seq<u8>, v: IStringModel, rest: Seq<u8>)
    requires
        wf_string(v),
        w == spec_encode_string(v),
    ensures
        reads_string(w + rest, rest, v),
        w.len() >= 1,
        w[0] == '"' as u8 || w[0] == '{' as u8,
{
    reveal(reads_string);
    lemma_string_roundtrip(v, rest);
    assert((w + rest)[0] == w[0]);
}

/// No string is read from input that begins with neither a quote nor a
/// brace, and nothing but `NIL` where an nstring is awaited.
pub proof fn lemma_no_string(s: Seq<u8>)
    requires
        s.len() >= 1,
        s[0] != '"' as u8,
        s[0] != '{' as u8,
    ensures
        spec_string(s) matches Err(ParseError::Error(_)),
{
    reveal(spec_string);
    lemma_no_byte(s, '"' as u8);
    lemma_no_byte(s, '{' as u8);
}

/// An attribute and its value are read from their written forms with a
/// space between them.
proof fn lemma_param_pieces(
    w0: Seq<u8>,
    w1: Seq<u8>,
    rest: Seq<u8>,
    p: (IStringModel, IStringModel),
)
    requires
        reads_string(w0 + (seq![' ' as u8] + (w1 + rest)), seq![' ' as u8] + (w1 + rest), p.0),
        reads_string(w1 + rest, rest, p.1),
    ensures
        spec_param(w0 + seq![' ' as u8] + w1 + rest) == Ok::<_, ParseError>((rest, p)),
{
    reveal(reads_string);
    assert(w0 + seq![' ' as u8] + w1 + rest =~= w0 + (seq![' ' as u8] + (w1 + rest)));
    lemma_byte(' ' as u8, w1 + rest);
}

/// A pair of strings is well formed: both are.
pub open spec fn wf_param(p: (IStringModel, IStringModel)) -> bool {
    wf_string(p.0) && wf_string(p.1)
}

/// An attribute and its value are read back, whatever follows them.
pub proof fn lemma_param_roundtrip(p: (IStringModel, IStringModel), rest: Seq<u8>)
    requires
        wf_param(p),
    ensures
        spec_param(spec_encode_param(p) + rest) == Ok::<_, ParseError>((rest, p)),
        spec_encode_param(p).len() >= 1,
        spec_encode_param(p)[0] == '"' as u8 || spec_encode_param(p)[0] == '{' as u8,
{
    let w0 = spec_encode_string(p.0);
    let w1 = spec_encode_string(p.1);
    lemma_reads_string(w0, p.0, seq![' ' as u8] + (w1 + rest));
    lemma_reads_string(w1, p.1, rest);
    lemma_param_pieces(w0, w1, rest, p);
    assert(spec_encode_param(p)[0] == w0[0]);
}

impl Reversible for ParamRule {
    type Item = (IString, IString);

    open spec fn wf(v: (IStringModel, IStringModel)) -> bool {
        wf_param(v)
    }

    open spec fn ends_before(v: (IStringModel, IStringModel), next: u8) -> bool {
        true
    }

    proof fn lemma_roundtrip(v: (IStringModel, IStringModel), rest: Seq<u8>) {
        lemma_param_roundtrip(v, rest);
    }
}

/// Every pair of a parameter list is well formed.
pub open spec fn wf_params(list: Seq<(IStringModel, IStringModel)>) -> bool {
    forall|i: int| 0 <= i < list.len() ==> wf_param(#[trigger] list[i])
}

/// The parameter list `list` is read from `s`, and `rest` is left.
#[verifier::opaque]
pub open spec fn reads_params(
    s: Seq<u8>,
    rest: Seq<u8>,
    list: Seq<(IStringModel, IStringModel)>,
) -> bool {
    spec_body_fld_param(s) == Ok::<_, ParseError>((rest, list))
}

/// `NIL` is read back as no parameters.
proof fn lemma_no_params(rest: Seq<u8>)
    ensures
        spec_body_fld_param(kw("NIL") + rest) == Ok::<_, ParseError>(
            (rest, Seq::<(IStringModel, IStringModel)>::empty()),
        ),
{
    reveal(spec_body_fld_param);
    let s = kw("NIL") + rest;
    lemma_nil_bytes();
    assert(s[0] == 'N' as u8);
    lemma_no_byte(s, '(' as u8);
    lemma_tag(kw("NIL"), rest);
}

/// One or more parameters in parentheses are read back.
proof fn lemma_some_params(list: Seq<(IStringModel, IStringModel)>, rest: Seq<u8>)
    requires
        wf_params(list),
        list.len() >= 1,
    ensures
        spec_body_fld_param(
            seq!['(' as u8] + (spec_wire_joined::<(IString, IString)>(list, ' ' as u8) + (seq![
                ')' as u8,
            ] + rest)),
        ) == Ok::<_, ParseError>((rest, list)),
{
    reveal(spec_body_fld_param);
    let close = seq![')' as u8] + rest;
    let inner = spec_wire_joined::<(IString, IString)>(list, ' ' as u8) + close;
    lemma_byte('(' as u8, inner);
    lemma_separated1_roundtrip::<ParamRule>(list, ' ' as u8, close);
    lemma_byte(')' as u8, rest);
}

/// A parameter list is read back, whatever follows it; it begins with a
/// parenthesis or with the `N` of `NIL`.
pub proof fn lemma_params_roundtrip(list: Seq<(IStringModel, IStringModel)>, rest: Seq<u8>)
    requires
        wf_params(list),
    ensures
        reads_params(spec_encode_params(list) + rest, rest, list),
        spec_encode_params(list).len() >= 1,
        spec_encode_params(list)[0] == '(' as u8 || spec_encode_params(list)[0] == 'N' as u8,
{
    reveal(reads_params);
    lemma_nil_bytes();
    if list.len() == 0 {
        lemma_no_params(rest);
        assert(list =~= Seq::<(IStringModel, IStringModel)>::empty());
    } else {
        lemma_some_params(list, rest);
        assert(spec_encode_params(list) + rest =~= seq!['(' as u8] + (spec_wire_joined::<
            (IString, IString),
        >(list, ' ' as u8) + (seq![')' as u8] + rest)));
    }
}

/// A disposition is well formed: its kind and its parameters are.
pub open spec fn wf_dsp(d: Option<(IStringModel, Seq<(IStringModel, IStringModel)>)>) -> bool {
    d matches Some((kind, params)) ==> wf_string(kind) && wf_params(params)
}

/// A kind and its parameters are read from their written forms between
/// parentheses.
proof fn lemma_dsp_pieces(
    w0: Seq<u8>,
    w1: Seq<u8>,
    rest: Seq<u8>,
    kind: IStringModel,
    params: Seq<(IStringModel, IStringModel)>,
)
    requires
        reads_string(
            w0 + (seq![' ' as u8] + (w1 + (seq![')' as u8] + rest))),
            seq![' ' as u8] + (w1 + (seq![')' as u8] + rest)),
            kind,
        ),
        reads_params(w1 + (seq![')' as u8] + rest), seq![')' as u8] + rest, params),
    ensures
        spec_body_fld_dsp(seq!['(' as u8] + w0 + seq![' ' as u8] + w1 + seq![')' as u8] + rest)
            == Ok::<_, ParseError>((rest, Some((kind, params)))),
{
    reveal(spec_body_fld_dsp);
    reveal(reads_string);
    reveal(reads_params);
    let close = seq![')' as u8] + rest;
    let t1 = seq![' ' as u8] + (w1 + close);
    assert(seq!['(' as u8] + w0 + seq![' ' as u8] + w1 + seq![')' as u8] + rest =~= seq![
        '(' as u8,
    ] + (w0 + t1));
    lemma_byte('(' as u8, w0 + t1);
    lemma_byte(' ' as u8, w1 + close);
    lemma_byte(')' as u8, rest);
}

/// The disposition `d` is read from `s`, and `rest` is left.
#[verifier::opaque]
pub open spec fn reads_dsp(
    s: Seq<u8>,
    rest: Seq<u8>,
    d: Option<(IStringModel, Seq<(IStringModel, IStringModel)>)>,
) -> bool {
    spec_body_fld_dsp(s) == Ok::<_, ParseError>((rest, d))
}

/// `NIL` is read back as no disposition.
proof fn lemma_no_dsp(rest: Seq<u8>)
    ensures
        spec_body_fld_dsp(kw("NIL") + rest) == Ok::<_, ParseError>(
            (rest, None::<(IStringModel, Seq<(IStringModel, IStringModel)>)>),
        ),
{
    reveal(spec_body_fld_dsp);
    let s = kw("NIL") + rest;
    lemma_nil_bytes();
    assert(s[0] == 'N' as u8);
    lemma_no_byte(s, '(' as u8);
    lemma_tag(kw("NIL"), rest);
}

/// A disposition is read back, whatever follows it.
pub proof fn lemma_dsp_roundtrip(
    d: Option<(IStringModel, Seq<(IStringModel, IStringModel)>)>,
    rest: Seq<u8>,
)
    requires
        wf_dsp(d),
    ensures
        reads_dsp(spec_encode_dsp(d) + rest, rest, d),
{
    reveal(reads_dsp);
    match d {
        Some((kind, params)) => {
            let w0 = spec_encode_string(kind);
            let w1 = spec_encode_params(params);
            let close = seq![')' as u8] + rest;
            lemma_reads_string(w0, kind, seq![' ' as u8] + (w1 + close));
            lemma_params_roundtrip(params, close);
            lemma_dsp_pieces(w0, w1, rest, kind, params);
        },
        None => {
            lemma_no_dsp(rest);
        },
    }
}

/// Every language of a list is a well-formed string.
pub open spec fn wf_languages(list: Seq<IStringModel>) -> bool {
    forall|i: int| 0 <= i < list.len() ==> wf_string(#[trigger] list[i])
}

/// The languages `list` are read from `s`, and `rest` is left.
#[verifier::opaque]
pub open spec fn reads_languages(s: Seq<u8>, rest: Seq<u8>, list: Seq<IStringModel>) -> bool {
    spec_body_fld_lang(s) == Ok::<_, ParseError>((rest, list))
}

/// `NIL` is read back as no languages.
proof fn lemma_no_languages(rest: Seq<u8>)
    ensures
        spec_body_fld_lang(kw("NIL") + rest) == Ok::<_, ParseError>(
            (rest, Seq::<IStringModel>::empty()),
        ),
{
    reveal(spec_body_fld_lang);
    reveal(spec_nstring);
    let s = kw("NIL") + rest;
    lemma_nil_bytes();
    assert(s[0] == 'N' as u8);
    lemma_no_string(s);
    lemma_tag(kw("NIL"), rest);
}

/// One or more languages in parentheses are read back.
proof fn lemma_some_languages(list: Seq<IStringModel>, rest: Seq<u8>)
    requires
        wf_languages(list),
        list.len() >= 1,
    ensures
        spec_body_fld_lang(
            seq!['(' as u8] + (spec_wire_joined::<IString>(list, ' ' as u8) + (seq![')' as u8]
                + rest)),
        ) == Ok::<_, ParseError>((rest, list)),
{
    reveal(spec_body_fld_lang);
    reveal(spec_nstring);
    let close = seq![')' as u8] + rest;
    let inner = spec_wire_joined::<IString>(list, ' ' as u8) + close;
    let s = seq!['(' as u8] + inner;
    lemma_nil_bytes();
    lemma_no_string(s);
    lemma_tag_first(s);
    lemma_byte('(' as u8, inner);
    lemma_separated1_roundtrip::<StringRule>(list, ' ' as u8, close);
    lemma_byte(')' as u8, rest);
}

/// `NIL` is not read from input that begins with a parenthesis.
proof fn lemma_tag_first(s: Seq<u8>)
    requires
        s.len() >= 1,
        s[0] == '(' as u8,
    ensures
        spec_nil(s) matches Err(ParseError::Error(_)),
{
    lemma_nil_bytes();
    crate::theorems::lex::lemma_tag_mismatch(s, kw("NIL"), 0);
}

/// The languages are read back, whatever follows them.
pub proof fn lemma_languages_roundtrip(list: Seq<IStringModel>, rest: Seq<u8>)
    requires
        wf_languages(list),
    ensures
        reads_languages(spec_encode_languages(list) + rest, rest, list),
{
    reveal(reads_languages);
    if list.len() == 0 {
        lemma_no_languages(rest);
        assert(list =~= Seq::<IStringModel>::empty());
    } else {
        lemma_some_languages(list, rest);
        assert(spec_encode_languages(list) + rest =~= seq!['(' as u8] + (spec_wire_joined::<
            IString,
        >(list, ' ' as u8) + (seq![')' as u8] + rest)));
    }
}

} // verus!
