//! Section specifiers that are written and read back.

use crate::codec::Encoder;
use crate::error::ParseError;
use crate::lex::{kw, spec_lower, CharClass};
use crate::list::spec_wire_joined;
use crate::number::{lemma_digits, spec_digits, spec_nz_number, NzNumberRule};
use crate::section::{
    spec_encode_header_list, spec_encode_opt_section, spec_encode_part, spec_encode_section,
    spec_header_fields, spec_header_list, spec_opt_dot_text, spec_section, spec_section_msgtext,
    spec_section_part, spec_section_spec, spec_section_text, SectionModel, SectionMsgTextModel,
    SectionTextModel,
};
use crate::strings::{AString, AStringModel, AStringRule};
use crate::theorems::keywords::{
    lemma_kw_dot_mime, lemma_kw_header, lemma_kw_header_fields, lemma_kw_header_fields_not,
    lemma_kw_header_fields_not_sp, lemma_kw_header_fields_sp, lemma_kw_mime, lemma_kw_text,
};
use crate::theorems::lex::{lemma_byte, lemma_no_byte, lemma_no_run, lemma_tag, lemma_tag_mismatch};
use crate::theorems::list::{all_end_before, lemma_separated1_roundtrip, Reversible};
use vstd::prelude::*;

verus! {

/// A list of header field names is well formed: it is not empty, and each
/// name is an astring that a space or a closing parenthesis may follow.
pub open spec fn wf_header_list(l: Seq<AStringModel>) -> bool {
    &&& l.len() >= 1
    &&& all_end_before::<AStringRule>(l, ' ' as u8)
    &&& all_end_before::<AStringRule>(l, ')' as u8)
}

/// A part is well formed: it has a number, and none of its numbers is
/// zero.
pub open spec fn wf_part(p: Seq<u32>) -> bool {
    &&& p.len() >= 1
    &&& forall|i: int| 0 <= i < p.len() ==> #[trigger] p[i] >= 1
}

/// A part that may be absent is well formed.
pub open spec fn wf_opt_part(p: Option<Seq<u32>>) -> bool {
    p matches Some(p) ==> wf_part(p)
}

/// A section is well formed: its part and its list of names are.
pub open spec fn wf_section(s: SectionModel) -> bool {
    match s {
        SectionModel::Part(p) => wf_part(p),
        SectionModel::Header(p) => wf_opt_part(p),
        SectionModel::HeaderFields(p, l) => wf_opt_part(p) && wf_header_list(l),
        SectionModel::HeaderFieldsNot(p, l) => wf_opt_part(p) && wf_header_list(l),
        SectionModel::Text(p) => wf_opt_part(p),
        SectionModel::Mime(p) => wf_part(p),
    }
}

/// A list of header field names is read back, whatever follows it.
pub proof fn lemma_header_list_roundtrip(l: Seq<AStringModel>, rest: Seq<u8>)
    requires
        wf_header_list(l),
    ensures
        spec_header_list(spec_encode_header_list(l) + rest) == Ok::<_, ParseError>((rest, l)),
{
    let close = seq![')' as u8] + rest;
    let inner = spec_wire_joined::<AString>(l, ' ' as u8) + close;
    assert(spec_encode_header_list(l) + rest =~= seq!['(' as u8] + inner);
    lemma_byte('(' as u8, inner);
    lemma_separated1_roundtrip::<AStringRule>(l, ' ' as u8, close);
    lemma_byte(')' as u8, rest);
}

/// A keyword, a space and a list of header field names are read back.
proof fn lemma_header_fields_roundtrip(word: Seq<u8>, l: Seq<AStringModel>, rest: Seq<u8>)
    requires
        wf_header_list(l),
    ensures
        spec_header_fields(word + (seq![' ' as u8] + (spec_encode_header_list(l) + rest)), word)
            == Ok::<_, ParseError>((rest, l)),
{
    let list = spec_encode_header_list(l) + rest;
    lemma_tag(word, seq![' ' as u8] + list);
    lemma_byte(' ' as u8, list);
    lemma_header_list_roundtrip(l, rest);
}

/// No list of header field names is read behind a keyword from which the
/// input differs at the index `i`.
proof fn lemma_no_header_fields(s: Seq<u8>, word: Seq<u8>, i: int)
    requires
        0 <= i < s.len(),
        i < word.len(),
        spec_lower(s[i]) != spec_lower(word[i]),
    ensures
        spec_header_fields(s, word) matches Err(ParseError::Error(_)),
{
    lemma_tag_mismatch(s, word, i);
}

/// The text of a section within a message, as it is written.
pub open spec fn spec_encode_msgtext(t: SectionMsgTextModel) -> Seq<u8> {
    match t {
        SectionMsgTextModel::Header => kw("HEADER"),
        SectionMsgTextModel::HeaderFields(l) => kw("HEADER.FIELDS") + (seq![' ' as u8]
            + spec_encode_header_list(l)),
        SectionMsgTextModel::HeaderFieldsNot(l) => kw("HEADER.FIELDS.NOT") + (seq![' ' as u8]
            + spec_encode_header_list(l)),
        SectionMsgTextModel::Text => kw("TEXT"),
    }
}

/// The text of a section is well formed: its list of names is.
pub open spec fn wf_msgtext(t: SectionMsgTextModel) -> bool {
    match t {
        SectionMsgTextModel::HeaderFields(l) => wf_header_list(l),
        SectionMsgTextModel::HeaderFieldsNot(l) => wf_header_list(l),
        _ => true,
    }
}

/// `HEADER.FIELDS.NOT` and its list are read back.
proof fn lemma_msgtext_fields_not(l: Seq<AStringModel>, rest: Seq<u8>)
    requires
        wf_header_list(l),
    ensures
        spec_section_msgtext(spec_encode_msgtext(SectionMsgTextModel::HeaderFieldsNot(l)) + rest)
            == Ok::<_, ParseError>((rest, SectionMsgTextModel::HeaderFieldsNot(l))),
{
    let word = kw("HEADER.FIELDS.NOT");
    let s = spec_encode_msgtext(SectionMsgTextModel::HeaderFieldsNot(l)) + rest;
    assert(s =~= word + (seq![' ' as u8] + (spec_encode_header_list(l) + rest)));
    lemma_header_fields_roundtrip(word, l, rest);
}

/// `HEADER.FIELDS` and its list are read back.
proof fn lemma_msgtext_fields(l: Seq<AStringModel>, rest: Seq<u8>)
    requires
        wf_header_list(l),
    ensures
        spec_section_msgtext(spec_encode_msgtext(SectionMsgTextModel::HeaderFields(l)) + rest)
            == Ok::<_, ParseError>((rest, SectionMsgTextModel::HeaderFields(l))),
{
    let word = kw("HEADER.FIELDS");
    let s = spec_encode_msgtext(SectionMsgTextModel::HeaderFields(l)) + rest;
    assert(s =~= word + (seq![' ' as u8] + (spec_encode_header_list(l) + rest)));
    lemma_kw_header_fields();
    lemma_kw_header_fields_not();
    assert(s[13] == ' ' as u8);
    lemma_no_header_fields(s, kw("HEADER.FIELDS.NOT"), 13);
    lemma_header_fields_roundtrip(word, l, rest);
}

/// `HEADER` is read back where no dot follows it.
proof fn lemma_msgtext_header(rest: Seq<u8>)
    requires
        rest.len() >= 1,
        rest[0] != '.' as u8,
    ensures
        spec_section_msgtext(kw("HEADER") + rest) == Ok::<_, ParseError>(
            (rest, SectionMsgTextModel::Header),
        ),
{
    let s = kw("HEADER") + rest;
    lemma_kw_header();
    lemma_kw_header_fields();
    lemma_kw_header_fields_not();
    assert(s[6] == rest[0]);
    lemma_no_header_fields(s, kw("HEADER.FIELDS.NOT"), 6);
    lemma_no_header_fields(s, kw("HEADER.FIELDS"), 6);
    lemma_tag(kw("HEADER"), rest);
}

/// `TEXT` is read back.
proof fn lemma_msgtext_text(rest: Seq<u8>)
    ensures
        spec_section_msgtext(kw("TEXT") + rest) == Ok::<_, ParseError>(
            (rest, SectionMsgTextModel::Text),
        ),
{
    let s = kw("TEXT") + rest;
    lemma_kw_text();
    lemma_kw_header();
    lemma_kw_header_fields();
    lemma_kw_header_fields_not();
    assert(s[0] == 'T' as u8);
    lemma_no_header_fields(s, kw("HEADER.FIELDS.NOT"), 0);
    lemma_no_header_fields(s, kw("HEADER.FIELDS"), 0);
    lemma_tag_mismatch(s, kw("HEADER"), 0);
    lemma_tag(kw("TEXT"), rest);
}

/// No text of a section is read from input that begins with neither an
/// `H` nor a `T`, in either case.
proof fn lemma_no_msgtext(s: Seq<u8>)
    requires
        s.len() >= 1,
        spec_lower(s[0]) != 'h' as u8,
        spec_lower(s[0]) != 't' as u8,
    ensures
        spec_section_msgtext(s) matches Err(ParseError::Error(_)),
{
    lemma_kw_text();
    lemma_kw_header();
    lemma_kw_header_fields();
    lemma_kw_header_fields_not();
    lemma_no_header_fields(s, kw("HEADER.FIELDS.NOT"), 0);
    lemma_no_header_fields(s, kw("HEADER.FIELDS"), 0);
    lemma_tag_mismatch(s, kw("HEADER"), 0);
    lemma_tag_mismatch(s, kw("TEXT"), 0);
}

/// The text of a section is read back where something other than a dot
/// follows it, and begins with a letter.
pub proof fn lemma_msgtext_roundtrip(t: SectionMsgTextModel, rest: Seq<u8>)
    requires
        wf_msgtext(t),
        rest.len() >= 1,
        rest[0] != '.' as u8,
    ensures
        spec_section_msgtext(spec_encode_msgtext(t) + rest) == Ok::<_, ParseError>((rest, t)),
        spec_encode_msgtext(t).len() >= 1,
        spec_encode_msgtext(t)[0] == 'H' as u8 || spec_encode_msgtext(t)[0] == 'T' as u8,
{
    lemma_kw_text();
    lemma_kw_header();
    lemma_kw_header_fields();
    lemma_kw_header_fields_not();
    match t {
        SectionMsgTextModel::Header => lemma_msgtext_header(rest),
        SectionMsgTextModel::HeaderFields(l) => lemma_msgtext_fields(l, rest),
        SectionMsgTextModel::HeaderFieldsNot(l) => lemma_msgtext_fields_not(l, rest),
        SectionMsgTextModel::Text => lemma_msgtext_text(rest),
    }
}

/// A part is read back where something follows that is neither a digit nor
/// a dot with a number behind it; it begins with a digit.
pub proof fn lemma_part_roundtrip(p: Seq<u32>, rest: Seq<u8>)
    requires
        wf_part(p),
        rest.len() >= 1,
        !CharClass::Digit.spec_has(rest[0]),
        rest[0] != '.' as u8 || spec_nz_number(rest.skip(1)) matches Err(ParseError::Error(_)),
    ensures
        spec_section_part(spec_encode_part(p) + rest) == Ok::<_, ParseError>((rest, p)),
        spec_encode_part(p).len() >= 1,
        CharClass::Digit.spec_has(spec_encode_part(p)[0]),
{
    lemma_separated1_roundtrip::<NzNumberRule>(p, '.' as u8, rest);
    lemma_digits(p[0] as nat);
    assert(spec_encode_part(p)[0] == spec_digits(p[0] as nat)[0]);
}

/// The text of a section within a part, as it is written.
pub open spec fn spec_encode_section_text(t: SectionTextModel) -> Seq<u8> {
    match t {
        SectionTextModel::MsgText(t) => spec_encode_msgtext(t),
        SectionTextModel::Mime => kw("MIME"),
    }
}

/// The text of a section within a part is well formed.
pub open spec fn wf_section_text(t: SectionTextModel) -> bool {
    t matches SectionTextModel::MsgText(t) ==> wf_msgtext(t)
}

/// The text of a section within a part is read back where something other
/// than a dot follows it; it begins with a letter.
proof fn lemma_section_text_roundtrip(t: SectionTextModel, rest: Seq<u8>)
    requires
        wf_section_text(t),
        rest.len() >= 1,
        rest[0] != '.' as u8,
    ensures
        spec_section_text(spec_encode_section_text(t) + rest) == Ok::<_, ParseError>((rest, t)),
        spec_encode_section_text(t).len() >= 1,
        !CharClass::Digit.spec_has(spec_encode_section_text(t)[0]),
{
    match t {
        SectionTextModel::MsgText(m) => {
            lemma_msgtext_roundtrip(m, rest);
        },
        SectionTextModel::Mime => {
            let s = kw("MIME") + rest;
            lemma_kw_mime();
            assert(s[0] == 'M' as u8);
            lemma_no_msgtext(s);
            lemma_tag(kw("MIME"), rest);
        },
    }
}

/// What follows a part within a section, as it is written: nothing, or a
/// dot and a text.
pub open spec fn spec_encode_dot_text(t: Option<SectionTextModel>) -> Seq<u8> {
    match t {
        Some(t) => seq!['.' as u8] + spec_encode_section_text(t),
        None => Seq::empty(),
    }
}

/// A part and what follows it are read back before a closing bracket.
proof fn lemma_section_in_part(p: Seq<u32>, t: Option<SectionTextModel>, rest: Seq<u8>)
    requires
        wf_part(p),
        t matches Some(t) ==> wf_section_text(t),
        rest.len() >= 1,
        rest[0] == ']' as u8,
    ensures
        spec_section_part(spec_encode_part(p) + (spec_encode_dot_text(t) + rest)) == Ok::<
            _,
            ParseError,
        >((spec_encode_dot_text(t) + rest, p)),
        spec_opt_dot_text(spec_encode_dot_text(t) + rest) == Ok::<_, ParseError>((rest, t)),
        spec_section_msgtext(spec_encode_part(p) + (spec_encode_dot_text(t) + rest)) matches Err(
            ParseError::Error(_),
        ),
{
    let after = spec_encode_dot_text(t) + rest;
    match t {
        Some(text) => {
            let named = spec_encode_section_text(text) + rest;
            assert(after =~= seq!['.' as u8] + named);
            assert(after.skip(1) =~= named);
            lemma_section_text_roundtrip(text, rest);
            lemma_no_run(named, CharClass::Digit);
            lemma_byte('.' as u8, named);
        },
        None => {
            assert(after =~= rest);
            lemma_no_byte(rest, '.' as u8);
        },
    }
    lemma_part_roundtrip(p, after);
    lemma_no_msgtext(spec_encode_part(p) + after);
}

/// The part within which a section lies, if it lies within one.
pub open spec fn spec_part_of(s: SectionModel) -> Option<Seq<u32>> {
    match s {
        SectionModel::Part(p) => Some(p),
        SectionModel::Header(p) => p,
        SectionModel::HeaderFields(p, _) => p,
        SectionModel::HeaderFieldsNot(p, _) => p,
        SectionModel::Text(p) => p,
        SectionModel::Mime(p) => Some(p),
    }
}

/// The text that a section names, if it names one.
pub open spec fn spec_text_of(s: SectionModel) -> Option<SectionTextModel> {
    match s {
        SectionModel::Part(_) => None,
        SectionModel::Header(_) => Some(SectionTextModel::MsgText(SectionMsgTextModel::Header)),
        SectionModel::HeaderFields(_, l) => Some(
            SectionTextModel::MsgText(SectionMsgTextModel::HeaderFields(l)),
        ),
        SectionModel::HeaderFieldsNot(_, l) => Some(
            SectionTextModel::MsgText(SectionMsgTextModel::HeaderFieldsNot(l)),
        ),
        SectionModel::Text(_) => Some(SectionTextModel::MsgText(SectionMsgTextModel::Text)),
        SectionModel::Mime(_) => Some(SectionTextModel::Mime),
    }
}

/// A section is written as its part and what follows it, or as its text
/// alone where it lies within no part.
proof fn lemma_section_form(s: SectionModel)
    ensures
        spec_encode_section(s) == match spec_part_of(s) {
            Some(p) => spec_encode_part(p) + spec_encode_dot_text(spec_text_of(s)),
            None => spec_encode_section_text(spec_text_of(s)->0),
        },
{
    lemma_kw_header_fields();
    lemma_kw_header_fields_sp();
    lemma_kw_header_fields_not();
    lemma_kw_header_fields_not_sp();
    lemma_kw_mime();
    lemma_kw_dot_mime();
    assert(kw("HEADER.FIELDS ") =~= kw("HEADER.FIELDS") + seq![' ' as u8]);
    assert(kw("HEADER.FIELDS.NOT ") =~= kw("HEADER.FIELDS.NOT") + seq![' ' as u8]);
    assert(kw(".MIME") =~= seq!['.' as u8] + kw("MIME"));
    let e = spec_encode_section(s);
    match spec_part_of(s) {
        Some(p) => {
            assert(e =~= spec_encode_part(p) + spec_encode_dot_text(spec_text_of(s)));
        },
        None => {
            assert(e =~= spec_encode_section_text(spec_text_of(s)->0));
        },
    }
}

/// A section is read back before a closing bracket.
pub proof fn lemma_section_spec_roundtrip(s: SectionModel, rest: Seq<u8>)
    requires
        wf_section(s),
        rest.len() >= 1,
        rest[0] == ']' as u8,
    ensures
        spec_section_spec(spec_encode_section(s) + rest) == Ok::<_, ParseError>((rest, s)),
{
    lemma_section_form(s);
    let text = spec_text_of(s);
    match spec_part_of(s) {
        Some(p) => {
            assert(spec_encode_section(s) + rest =~= spec_encode_part(p) + (spec_encode_dot_text(
                text,
            ) + rest));
            lemma_section_in_part(p, text, rest);
        },
        None => {
            lemma_section_text_roundtrip(text->0, rest);
        },
    }
}

/// A section in brackets, or the brackets alone, is read back, whatever
/// follows.
pub proof fn lemma_section_roundtrip(s: Option<SectionModel>, rest: Seq<u8>)
    requires
        s matches Some(sec) ==> wf_section(sec),
    ensures
        spec_section(spec_encode_opt_section(s) + rest) == Ok::<_, ParseError>((rest, s)),
{
    let close = seq![']' as u8] + rest;
    lemma_byte(']' as u8, rest);
    match s {
        Some(sec) => {
            let inner = spec_encode_section(sec) + close;
            assert(spec_encode_opt_section(s) + rest =~= seq!['[' as u8] + inner);
            lemma_byte('[' as u8, inner);
            lemma_section_spec_roundtrip(sec, close);
        },
        None => {
            assert(spec_encode_opt_section(s) + rest =~= seq!['[' as u8] + close);
            lemma_byte('[' as u8, close);
            lemma_no_msgtext(close);
            lemma_no_run(close, CharClass::Digit);
        },
    }
}

} // verus!
