//! The extension data of a body, written and read back.

use crate::body::{
    spec_body_ext_1part, spec_body_ext_mpart, spec_body_extensions, spec_disposition_tail,
    spec_encode_body_extensions, spec_encode_disposition, spec_encode_dsp, spec_encode_ext_1part,
    spec_encode_ext_mpart, spec_encode_language, spec_encode_languages, spec_encode_location,
    spec_encode_params, spec_language_tail, spec_location_tail, Disposition, DispositionModel,
    DispositionTailRule, Language, LanguageModel, LanguageTailRule, Location, LocationModel,
    LocationTailRule, MultiPartExtensionData, MultiPartExtensionDataModel, MultiPartExtensionRule,
    SinglePartExtensionData, SinglePartExtensionDataModel, SinglePartExtensionRule,
    BODY_EXTENSION_BUDGET,
};
use crate::codec::Encoder;
use crate::error::ParseError;
use crate::list::{spec_opt_preceded, spec_wire_opt, Rule};
use crate::strings::{spec_encode_nstring, IStringModel};
use crate::theorems::envelope::reads_nstring;
use crate::theorems::extension::{lemma_extensions_roundtrip, wf_extensions};
use crate::theorems::list::{lemma_opt_preceded_none, lemma_preceded_roundtrip, Reversible};
use crate::theorems::params::{
    lemma_dsp_roundtrip, lemma_languages_roundtrip, lemma_params_roundtrip, reads_dsp,
    reads_languages, reads_params, wf_dsp, wf_languages, wf_params,
};
use crate::theorems::strings::{
    lemma_nil_bytes, lemma_nstring_roundtrip, lemma_string_roundtrip, wf_nstring,
};
use vstd::prelude::*;

verus! {

/// An nstring is read back, whatever follows it, and its written form is
/// not empty.
pub proof fn lemma_nstring_read(w: Seq<u8>, v: Option<IStringModel>, rest: Seq<u8>)
    requires
        wf_nstring(v),
        w == spec_encode_nstring(v),
    ensures
        reads_nstring(w + rest, rest, v),
        w.len() >= 1,
{
    reveal(reads_nstring);
    lemma_nstring_roundtrip(v, rest);
    lemma_nil_bytes();
    if v is Some {
        lemma_string_roundtrip(v->0, rest);
    }
}

/// What may follow a field of the extension data is read back before a
/// closing parenthesis: the next field behind a space, or nothing.
pub proof fn lemma_opt_tail<R: Reversible>(tail: Option<<R::Item as DeepView>::V>, rest: Seq<u8>)
    requires
        rest.len() >= 1,
        rest[0] == ')' as u8,
        tail matches Some(t) ==> R::wf(t) && R::ends_before(t, ')' as u8),
    ensures
        spec_opt_preceded::<R>(spec_wire_opt::<R::Item>(tail, ' ' as u8) + rest, ' ' as u8)
            == Ok::<_, ParseError>((rest, tail)),
{
    match tail {
        Some(t) => lemma_preceded_roundtrip::<R>(t, ' ' as u8, rest),
        None => lemma_opt_preceded_none::<R>(' ' as u8, rest),
    }
}

/// The location and its extensions are well formed.
pub open spec fn wf_location(l: LocationModel) -> bool {
    wf_nstring(l.location) && wf_extensions(l.extensions, BODY_EXTENSION_BUDGET as nat)
}

/// The location and the extensions behind it are read from input in which
/// the one is read and then the others.
proof fn lemma_location_pieces(t0: Seq<u8>, t1: Seq<u8>, rest: Seq<u8>, l: LocationModel)
    requires
        reads_nstring(t0, t1, l.location),
        spec_body_extensions(t1, BODY_EXTENSION_BUDGET as nat, Seq::empty()) == Ok::<
            _,
            ParseError,
        >((rest, l.extensions)),
    ensures
        spec_location_tail(t0) == Ok::<_, ParseError>((rest, l)),
{
    reveal(reads_nstring);
}

impl Reversible for LocationTailRule {
    type Item = Location;

    open spec fn wf(v: LocationModel) -> bool {
        wf_location(v)
    }

    open spec fn ends_before(v: LocationModel, next: u8) -> bool {
        next == ')' as u8
    }

    proof fn lemma_roundtrip(v: LocationModel, rest: Seq<u8>) {
        let w0 = spec_encode_nstring(v.location);
        let t1 = spec_encode_body_extensions(v.extensions, v.extensions.len(), true) + rest;
        assert(spec_encode_location(v) + rest =~= w0 + t1);
        lemma_nstring_read(w0, v.location, t1);
        lemma_extensions_roundtrip(v.extensions, BODY_EXTENSION_BUDGET as nat, Seq::empty(), rest);
        assert(Seq::empty() + v.extensions =~= v.extensions);
        lemma_location_pieces(w0 + t1, t1, rest, v);
    }
}

/// The languages and what follows them are well formed.
pub open spec fn wf_language(l: LanguageModel) -> bool {
    wf_languages(l.language) && (l.tail matches Some(t) ==> wf_location(t))
}

/// The languages and what follows them are read from input in which the
/// ones are read and then the other.
proof fn lemma_language_pieces(t0: Seq<u8>, t1: Seq<u8>, rest: Seq<u8>, l: LanguageModel)
    requires
        reads_languages(t0, t1, l.language),
        spec_opt_preceded::<LocationTailRule>(t1, ' ' as u8) == Ok::<_, ParseError>(
            (rest, l.tail),
        ),
    ensures
        spec_language_tail(t0) == Ok::<_, ParseError>((rest, l)),
{
    reveal(reads_languages);
}

impl Reversible for LanguageTailRule {
    type Item = Language;

    open spec fn wf(v: LanguageModel) -> bool {
        wf_language(v)
    }

    open spec fn ends_before(v: LanguageModel, next: u8) -> bool {
        next == ')' as u8
    }

    proof fn lemma_roundtrip(v: LanguageModel, rest: Seq<u8>) {
        let w0 = spec_encode_languages(v.language);
        let t1 = spec_wire_opt::<Location>(v.tail, ' ' as u8) + rest;
        assert(spec_encode_language(v) + rest =~= w0 + t1);
        lemma_languages_roundtrip(v.language, t1);
        lemma_nil_bytes();
        lemma_opt_tail::<LocationTailRule>(v.tail, rest);
        lemma_language_pieces(w0 + t1, t1, rest, v);
    }
}

/// The disposition and what follows it are well formed.
pub open spec fn wf_disposition(d: DispositionModel) -> bool {
    wf_dsp(d.disposition) && (d.tail matches Some(t) ==> wf_language(t))
}

/// The disposition and what follows it are read from input in which the
/// one is read and then the other.
proof fn lemma_disposition_pieces(t0: Seq<u8>, t1: Seq<u8>, rest: Seq<u8>, d: DispositionModel)
    requires
        reads_dsp(t0, t1, d.disposition),
        spec_opt_preceded::<LanguageTailRule>(t1, ' ' as u8) == Ok::<_, ParseError>(
            (rest, d.tail),
        ),
    ensures
        spec_disposition_tail(t0) == Ok::<_, ParseError>((rest, d)),
{
    reveal(reads_dsp);
}

impl Reversible for DispositionTailRule {
    type Item = Disposition;

    open spec fn wf(v: DispositionModel) -> bool {
        wf_disposition(v)
    }

    open spec fn ends_before(v: DispositionModel, next: u8) -> bool {
        next == ')' as u8
    }

    proof fn lemma_roundtrip(v: DispositionModel, rest: Seq<u8>) {
        let w0 = spec_encode_dsp(v.disposition);
        let t1 = spec_wire_opt::<Language>(v.tail, ' ' as u8) + rest;
        assert(spec_encode_disposition(v) + rest =~= w0 + t1);
        lemma_dsp_roundtrip(v.disposition, t1);
        lemma_nil_bytes();
        lemma_opt_tail::<LanguageTailRule>(v.tail, rest);
        lemma_disposition_pieces(w0 + t1, t1, rest, v);
    }
}

/// The extension data of a single part is well formed.
pub open spec fn wf_ext_1part(e: SinglePartExtensionDataModel) -> bool {
    wf_nstring(e.md5) && (e.tail matches Some(t) ==> wf_disposition(t))
}

/// The extension data of a single part is read from input in which the
/// MD5 is read and then what follows it.
proof fn lemma_ext_1part_pieces(
    t0: Seq<u8>,
    t1: Seq<u8>,
    rest: Seq<u8>,
    e: SinglePartExtensionDataModel,
)
    requires
        reads_nstring(t0, t1, e.md5),
        spec_opt_preceded::<DispositionTailRule>(t1, ' ' as u8) == Ok::<_, ParseError>(
            (rest, e.tail),
        ),
    ensures
        spec_body_ext_1part(t0) == Ok::<_, ParseError>((rest, e)),
{
    reveal(reads_nstring);
}

impl Reversible for SinglePartExtensionRule {
    type Item = SinglePartExtensionData;

    open spec fn wf(v: SinglePartExtensionDataModel) -> bool {
        wf_ext_1part(v)
    }

    open spec fn ends_before(v: SinglePartExtensionDataModel, next: u8) -> bool {
        next == ')' as u8
    }

    proof fn lemma_roundtrip(v: SinglePartExtensionDataModel, rest: Seq<u8>) {
        let w0 = spec_encode_nstring(v.md5);
        let t1 = spec_wire_opt::<Disposition>(v.tail, ' ' as u8) + rest;
        assert(spec_encode_ext_1part(v) + rest =~= w0 + t1);
        lemma_nstring_read(w0, v.md5, t1);
        lemma_opt_tail::<DispositionTailRule>(v.tail, rest);
        lemma_ext_1part_pieces(w0 + t1, t1, rest, v);
    }
}

/// The extension data of a multipart is well formed.
pub open spec fn wf_ext_mpart(e: MultiPartExtensionDataModel) -> bool {
    wf_params(e.parameter_list) && (e.tail matches Some(t) ==> wf_disposition(t))
}

/// The extension data of a multipart is read from input in which the
/// parameters are read and then what follows them.
proof fn lemma_ext_mpart_pieces(
    t0: Seq<u8>,
    t1: Seq<u8>,
    rest: Seq<u8>,
    e: MultiPartExtensionDataModel,
)
    requires
        reads_params(t0, t1, e.parameter_list),
        spec_opt_preceded::<DispositionTailRule>(t1, ' ' as u8) == Ok::<_, ParseError>(
            (rest, e.tail),
        ),
    ensures
        spec_body_ext_mpart(t0) == Ok::<_, ParseError>((rest, e)),
{
    reveal(reads_params);
}

impl Reversible for MultiPartExtensionRule {
    type Item = MultiPartExtensionData;

    open spec fn wf(v: MultiPartExtensionDataModel) -> bool {
        wf_ext_mpart(v)
    }

    open spec fn ends_before(v: MultiPartExtensionDataModel, next: u8) -> bool {
        next == ')' as u8
    }

    proof fn lemma_roundtrip(v: MultiPartExtensionDataModel, rest: Seq<u8>) {
        let w0 = spec_encode_params(v.parameter_list);
        let t1 = spec_wire_opt::<Disposition>(v.tail, ' ' as u8) + rest;
        assert(spec_encode_ext_mpart(v) + rest =~= w0 + t1);
        lemma_params_roundtrip(v.parameter_list, t1);
        lemma_opt_tail::<DispositionTailRule>(v.tail, rest);
        lemma_ext_mpart_pieces(w0 + t1, t1, rest, v);
    }
}

} // verus!
