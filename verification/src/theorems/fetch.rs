//! Message data items that are written and read back.

use crate::error::ParseError;
use crate::fetch::{
    spec_encode_fetch_attribute_value, spec_encode_msg_att, spec_msg_att, spec_msg_att_body,
    spec_msg_att_body_ext, spec_msg_att_dynamic, spec_msg_att_envelope,
    spec_msg_att_internal_date, spec_msg_att_item, spec_msg_att_rfc822, spec_msg_att_size,
    spec_msg_att_static, spec_msg_att_uid, spec_word_body, spec_word_nstring, FetchAttributeValue,
    FetchAttributeValueModel, MsgAttItemRule,
};
use crate::flag::{Flag, FlagFetchRule, FlagModel};
use crate::lex::{kw, spec_lower, CharClass};
use crate::list::{spec_separated0, spec_wire_joined};
use crate::number::{lemma_number_roundtrip, spec_digits};
use crate::strings::{spec_encode_nstring, IStringModel};
use crate::theorems::keywords::{
    lemma_kw_body, lemma_kw_body_sp, lemma_kw_bodystructure_sp, lemma_kw_envelope_sp,
    lemma_kw_flags, lemma_kw_flags_sp, lemma_kw_internaldate_sp, lemma_kw_rfc822_header_sp,
    lemma_kw_rfc822_size_sp, lemma_kw_rfc822_sp, lemma_kw_rfc822_text_sp, lemma_kw_uid_sp,
};
use crate::theorems::envelope::wf_envelope;
use crate::theorems::flag::wf_flag_fetch;
use crate::body::BODY_BUDGET;
use crate::theorems::items::{
    lemma_body_ext_roundtrip, lemma_body_item_roundtrip, lemma_envelope_item_roundtrip,
    lemma_internal_date_roundtrip,
};
use crate::theorems::structure::wf_body_structure;
use crate::theorems::section::wf_section;
use crate::theorems::lex::{
    lemma_byte, lemma_no_byte, lemma_no_run, lemma_tag, lemma_tag_mismatch,
};
use crate::theorems::list::{
    all_end_before, lemma_separated0_empty, lemma_separated1_roundtrip, Reversible,
};
use crate::theorems::strings::{lemma_nstring_roundtrip, wf_nstring};
use vstd::prelude::*;

verus! {

/// A message data item is such as the grammar yields.
pub open spec fn wf_fetch_value(v: FetchAttributeValueModel) -> bool {
    match v {
        FetchAttributeValueModel::Flags(flags) => forall|i: int|
            0 <= i < flags.len() ==> wf_flag_fetch(#[trigger] flags[i]),
        FetchAttributeValueModel::Rfc822(n) => wf_nstring(n),
        FetchAttributeValueModel::Rfc822Header(n) => wf_nstring(n),
        FetchAttributeValueModel::Rfc822Text(n) => wf_nstring(n),
        FetchAttributeValueModel::Rfc822Size(_) => true,
        FetchAttributeValueModel::Uid(n) => n >= 1,
        FetchAttributeValueModel::Envelope(e) => wf_envelope(e),
        FetchAttributeValueModel::InternalDate(d) => d.valid(),
        FetchAttributeValueModel::BodyExt { section, origin, data } => wf_nstring(data) && (
        section matches Some(s) ==> wf_section(s)),
        FetchAttributeValueModel::Body(b) => wf_body_structure(b, BODY_BUDGET as nat),
        FetchAttributeValueModel::BodyStructure(b) => wf_body_structure(b, BODY_BUDGET as nat),
    }
}

/// The keywords of message data items are not read from input whose first
/// byte is not their first letter.
pub proof fn lemma_item_words_fail(s: Seq<u8>)
    requires
        s.len() >= 1,
    ensures
        spec_lower(s[0]) != 'f' as u8 ==> spec_msg_att_dynamic(s) matches Err(
            ParseError::Error(_),
        ),
        spec_lower(s[0]) != 'e' as u8 ==> spec_msg_att_envelope(s) matches Err(
            ParseError::Error(_),
        ),
        spec_lower(s[0]) != 'i' as u8 ==> spec_msg_att_internal_date(s) matches Err(
            ParseError::Error(_),
        ),
        spec_lower(s[0]) != 'r' as u8 ==> spec_msg_att_rfc822(s) matches Err(ParseError::Error(_)),
        spec_lower(s[0]) != 'b' as u8 ==> spec_msg_att_body(s) matches Err(ParseError::Error(_)),
{
    reveal(spec_msg_att_envelope);
    reveal(spec_msg_att_internal_date);
    reveal(spec_msg_att_body);
    if spec_lower(s[0]) != 'f' as u8 {
        lemma_kw_flags();
        lemma_tag_mismatch(s, kw("FLAGS"), 0);
    }
    if spec_lower(s[0]) != 'e' as u8 {
        lemma_kw_envelope_sp();
        lemma_tag_mismatch(s, kw("ENVELOPE "), 0);
    }
    if spec_lower(s[0]) != 'i' as u8 {
        lemma_kw_internaldate_sp();
        lemma_tag_mismatch(s, kw("INTERNALDATE "), 0);
    }
    if spec_lower(s[0]) != 'r' as u8 {
        lemma_kw_rfc822_header_sp();
        lemma_kw_rfc822_text_sp();
        lemma_kw_rfc822_size_sp();
        lemma_kw_rfc822_sp();
        lemma_tag_mismatch(s, kw("RFC822.HEADER "), 0);
        lemma_tag_mismatch(s, kw("RFC822.TEXT "), 0);
        lemma_tag_mismatch(s, kw("RFC822.SIZE "), 0);
        lemma_tag_mismatch(s, kw("RFC822 "), 0);
        assert(spec_word_nstring(s, kw("RFC822.HEADER ")) matches Err(ParseError::Error(_)));
        assert(spec_word_nstring(s, kw("RFC822.TEXT ")) matches Err(ParseError::Error(_)));
        assert(spec_msg_att_size(s) matches Err(ParseError::Error(_)));
        assert(spec_word_nstring(s, kw("RFC822 ")) matches Err(ParseError::Error(_)));
    }
    if spec_lower(s[0]) != 'b' as u8 {
        lemma_kw_bodystructure_sp();
        lemma_kw_body_sp();
        lemma_kw_body();
        lemma_tag_mismatch(s, kw("BODYSTRUCTURE "), 0);
        lemma_tag_mismatch(s, kw("BODY "), 0);
        lemma_tag_mismatch(s, kw("BODY"), 0);
        assert(spec_word_body(s, kw("BODYSTRUCTURE ")) matches Err(ParseError::Error(_)));
        assert(spec_word_body(s, kw("BODY ")) matches Err(ParseError::Error(_)));
        assert(spec_msg_att_body_ext(s) matches Err(ParseError::Error(_)));
    }
}

/// The flags of a message are read back from between the parentheses.
proof fn lemma_fetch_flags(flags: Seq<FlagModel>, rest: Seq<u8>)
    requires
        forall|i: int| 0 <= i < flags.len() ==> wf_flag_fetch(#[trigger] flags[i]),
    ensures
        spec_msg_att_dynamic(kw("FLAGS") + (seq![' ' as u8] + (seq!['(' as u8] + (
        spec_wire_joined::<Flag>(flags, ' ' as u8) + (seq![')' as u8] + rest))))) == Ok::<
            _,
            ParseError,
        >((rest, FetchAttributeValueModel::Flags(flags))),
{
    let list = spec_wire_joined::<Flag>(flags, ' ' as u8);
    let close = seq![')' as u8] + rest;
    let paren = seq!['(' as u8] + (list + close);
    lemma_tag(kw("FLAGS"), seq![' ' as u8] + paren);
    lemma_byte(' ' as u8, paren);
    lemma_byte('(' as u8, list + close);
    lemma_byte(')' as u8, rest);
    if flags.len() == 0 {
        assert(flags =~= Seq::<FlagModel>::empty());
        assert(list + close =~= close);
        lemma_no_byte(close, '\\' as u8);
        lemma_no_run(close, CharClass::Atom);
        assert(crate::flag::spec_flag_fetch(close) matches Err(ParseError::Error(_)));
        lemma_separated0_empty::<FlagFetchRule>(' ' as u8, close);
    } else {
        assert(all_end_before::<FlagFetchRule>(flags, ' ' as u8));
        assert(all_end_before::<FlagFetchRule>(flags, close[0]));
        lemma_separated1_roundtrip::<FlagFetchRule>(flags, ' ' as u8, close);
    }
    assert(spec_separated0::<FlagFetchRule>(list + close, ' ' as u8) == Ok::<_, ParseError>(
        (close, flags),
    ));
}

/// The item `FLAGS` is written as its keyword, a space and the flags in
/// parentheses.
proof fn lemma_fetch_flags_form(flags: Seq<FlagModel>, rest: Seq<u8>)
    ensures
        spec_encode_fetch_attribute_value(FetchAttributeValueModel::Flags(flags)) + rest == kw(
            "FLAGS",
        ) + (seq![' ' as u8] + (seq!['(' as u8] + (spec_wire_joined::<Flag>(flags, ' ' as u8) + (
        seq![')' as u8] + rest)))),
        (spec_encode_fetch_attribute_value(FetchAttributeValueModel::Flags(flags)) + rest)[0]
            == 'F' as u8,
{
    reveal(spec_encode_fetch_attribute_value);
    lemma_kw_flags();
    lemma_kw_flags_sp();
    let list = spec_wire_joined::<Flag>(flags, ' ' as u8);
    assert(kw("FLAGS ") =~= kw("FLAGS") + seq![' ' as u8]);
    assert(spec_encode_fetch_attribute_value(FetchAttributeValueModel::Flags(flags)) + rest
        =~= kw("FLAGS") + (seq![' ' as u8] + (seq!['(' as u8] + (list + (seq![')' as u8]
        + rest)))));
}

/// The texts and the size of a message are read back by the rule for the
/// items that begin with `RFC822`.
proof fn lemma_rfc822_pieces(word: Seq<u8>, body: Seq<u8>, rest: Seq<u8>, v: FetchAttributeValueModel)
    requires
        word == kw("RFC822.HEADER ") || word == kw("RFC822.TEXT ") || word == kw("RFC822.SIZE ")
            || word == kw("RFC822 "),
        v matches FetchAttributeValueModel::Rfc822Header(n) ==> word == kw("RFC822.HEADER ")
            && crate::strings::spec_nstring(body + rest) == Ok::<_, ParseError>((rest, n)),
        v matches FetchAttributeValueModel::Rfc822Text(n) ==> word == kw("RFC822.TEXT ")
            && crate::strings::spec_nstring(body + rest) == Ok::<_, ParseError>((rest, n)),
        v matches FetchAttributeValueModel::Rfc822(n) ==> word == kw("RFC822 ")
            && crate::strings::spec_nstring(body + rest) == Ok::<_, ParseError>((rest, n)),
        v matches FetchAttributeValueModel::Rfc822Size(n) ==> word == kw("RFC822.SIZE ")
            && crate::number::spec_number(body + rest) == Ok::<_, ParseError>((rest, n)),
        v is Rfc822Header || v is Rfc822Text || v is Rfc822 || v is Rfc822Size,
    ensures
        spec_msg_att_rfc822(word + (body + rest)) == Ok::<_, ParseError>((rest, v)),
        (word + (body + rest)).len() >= 1,
        (word + (body + rest))[0] == 'R' as u8,
{
    lemma_kw_rfc822_header_sp();
    lemma_kw_rfc822_text_sp();
    lemma_kw_rfc822_size_sp();
    lemma_kw_rfc822_sp();
    let s = word + (body + rest);
    assert(s[0] == word[0]);
    assert(s[6] == word[6]);
    if !(v is Rfc822) {
        assert(s[7] == word[7]);
    }
    lemma_tag(word, body + rest);
    if !(v is Rfc822Header) {
        if v is Rfc822 {
            lemma_tag_mismatch(s, kw("RFC822.HEADER "), 6);
            lemma_tag_mismatch(s, kw("RFC822.TEXT "), 6);
            lemma_tag_mismatch(s, kw("RFC822.SIZE "), 6);
        } else {
            lemma_tag_mismatch(s, kw("RFC822.HEADER "), 7);
            if v is Rfc822Size {
                lemma_tag_mismatch(s, kw("RFC822.TEXT "), 7);
            }
        }
    }
}

/// What the rule for the items that begin with `RFC822` reads is an item.
proof fn lemma_item_from_rfc822(s: Seq<u8>, rest: Seq<u8>, v: FetchAttributeValueModel)
    requires
        s.len() >= 1,
        s[0] == 'R' as u8,
        spec_msg_att_rfc822(s) == Ok::<_, ParseError>((rest, v)),
    ensures
        spec_msg_att_item(s) == Ok::<_, ParseError>((rest, v)),
{
    reveal(spec_msg_att_item);
    reveal(spec_msg_att_static);
    lemma_item_words_fail(s);
}

/// What the rule for `UID` reads is an item.
proof fn lemma_item_from_uid(s: Seq<u8>, rest: Seq<u8>, v: FetchAttributeValueModel)
    requires
        s.len() >= 1,
        s[0] == 'U' as u8,
        spec_msg_att_uid(s) == Ok::<_, ParseError>((rest, v)),
    ensures
        spec_msg_att_item(s) == Ok::<_, ParseError>((rest, v)),
{
    reveal(spec_msg_att_item);
    reveal(spec_msg_att_static);
    lemma_item_words_fail(s);
}

/// The unique identifier of a message is read back.
proof fn lemma_uid_roundtrip(n: u32, rest: Seq<u8>)
    requires
        n >= 1,
        rest.len() >= 1,
        !CharClass::Digit.spec_has(rest[0]),
    ensures
        spec_msg_att_item(
            spec_encode_fetch_attribute_value(FetchAttributeValueModel::Uid(n)) + rest,
        ) == Ok::<_, ParseError>((rest, FetchAttributeValueModel::Uid(n))),
{
    reveal(spec_encode_fetch_attribute_value);
    lemma_kw_uid_sp();
    let v = FetchAttributeValueModel::Uid(n);
    let s = spec_encode_fetch_attribute_value(v) + rest;
    let digits = spec_digits(n as nat);
    assert(s =~= kw("UID ") + (digits + rest));
    assert(s[0] == 'U' as u8);
    lemma_tag(kw("UID "), digits + rest);
    lemma_number_roundtrip(n, rest);
    assert(spec_msg_att_uid(s) == Ok::<_, ParseError>((rest, v)));
    lemma_item_from_uid(s, rest, v);
}

/// The size of a message is read back.
proof fn lemma_size_roundtrip(n: u32, rest: Seq<u8>)
    requires
        rest.len() >= 1,
        !CharClass::Digit.spec_has(rest[0]),
    ensures
        spec_msg_att_item(
            spec_encode_fetch_attribute_value(FetchAttributeValueModel::Rfc822Size(n)) + rest,
        ) == Ok::<_, ParseError>((rest, FetchAttributeValueModel::Rfc822Size(n))),
{
    reveal(spec_encode_fetch_attribute_value);
    let v = FetchAttributeValueModel::Rfc822Size(n);
    let s = spec_encode_fetch_attribute_value(v) + rest;
    let digits = spec_digits(n as nat);
    assert(s =~= kw("RFC822.SIZE ") + (digits + rest));
    lemma_number_roundtrip(n, rest);
    lemma_rfc822_pieces(kw("RFC822.SIZE "), digits, rest, v);
    lemma_item_from_rfc822(s, rest, v);
}

/// The keyword of one of the three texts of a message, with its space.
pub open spec fn spec_text_word(v: FetchAttributeValueModel) -> Seq<u8> {
    match v {
        FetchAttributeValueModel::Rfc822Header(_) => kw("RFC822.HEADER "),
        FetchAttributeValueModel::Rfc822Text(_) => kw("RFC822.TEXT "),
        _ => kw("RFC822 "),
    }
}

/// The content of one of the three texts of a message.
pub open spec fn spec_text_content(v: FetchAttributeValueModel) -> Option<IStringModel> {
    match v {
        FetchAttributeValueModel::Rfc822Header(n) => n,
        FetchAttributeValueModel::Rfc822Text(n) => n,
        FetchAttributeValueModel::Rfc822(n) => n,
        _ => None,
    }
}

/// One of the three texts of a message is read back, whatever follows it.
proof fn lemma_text_item_roundtrip(v: FetchAttributeValueModel, rest: Seq<u8>)
    requires
        v is Rfc822 || v is Rfc822Header || v is Rfc822Text,
        wf_nstring(spec_text_content(v)),
    ensures
        spec_msg_att_item(spec_encode_fetch_attribute_value(v) + rest) == Ok::<_, ParseError>(
            (rest, v),
        ),
{
    reveal(spec_encode_fetch_attribute_value);
    let s = spec_encode_fetch_attribute_value(v) + rest;
    let word = spec_text_word(v);
    let body = spec_encode_nstring(spec_text_content(v));
    assert(s =~= word + (body + rest));
    lemma_nstring_roundtrip(spec_text_content(v), rest);
    lemma_rfc822_pieces(word, body, rest, v);
    lemma_item_from_rfc822(s, rest, v);
}

/// A message data item is read back where a byte that is no digit
/// follows.
pub proof fn lemma_fetch_value_roundtrip(v: FetchAttributeValueModel, rest: Seq<u8>)
    requires
        wf_fetch_value(v),
        rest.len() >= 1,
        !CharClass::Digit.spec_has(rest[0]),
    ensures
        spec_msg_att_item(spec_encode_fetch_attribute_value(v) + rest) == Ok::<_, ParseError>(
            (rest, v),
        ),
{
    match v {
        FetchAttributeValueModel::Flags(flags) => {
            reveal(spec_msg_att_item);
            lemma_fetch_flags_form(flags, rest);
            lemma_fetch_flags(flags, rest);
        },
        FetchAttributeValueModel::Uid(n) => lemma_uid_roundtrip(n, rest),
        FetchAttributeValueModel::Rfc822Size(n) => lemma_size_roundtrip(n, rest),
        FetchAttributeValueModel::Rfc822(_) | FetchAttributeValueModel::Rfc822Header(_)
        | FetchAttributeValueModel::Rfc822Text(_) => lemma_text_item_roundtrip(v, rest),
        FetchAttributeValueModel::Envelope(e) => lemma_envelope_item_roundtrip(e, rest),
        FetchAttributeValueModel::InternalDate(d) => lemma_internal_date_roundtrip(d, rest),
        FetchAttributeValueModel::BodyExt { section, origin, data } => lemma_body_ext_roundtrip(
            section,
            origin,
            data,
            rest,
        ),
        FetchAttributeValueModel::Body(_) | FetchAttributeValueModel::BodyStructure(_) => {
            lemma_body_item_roundtrip(v, rest)
        },
    }
}

/// The written form of a message data item is not empty.
proof fn lemma_fetch_value_nonempty(v: FetchAttributeValueModel)
    requires
        wf_fetch_value(v),
    ensures
        spec_encode_fetch_attribute_value(v).len() >= 1,
{
    reveal(spec_encode_fetch_attribute_value);
    lemma_kw_flags_sp();
    lemma_kw_uid_sp();
    lemma_kw_rfc822_size_sp();
    lemma_kw_rfc822_sp();
    lemma_kw_rfc822_header_sp();
    lemma_kw_rfc822_text_sp();
    lemma_kw_envelope_sp();
    lemma_kw_internaldate_sp();
    lemma_kw_body();
    lemma_kw_body_sp();
    lemma_kw_bodystructure_sp();
}

impl Reversible for MsgAttItemRule {
    type Item = FetchAttributeValue;

    open spec fn wf(v: FetchAttributeValueModel) -> bool {
        wf_fetch_value(v)
    }

    open spec fn ends_before(v: FetchAttributeValueModel, next: u8) -> bool {
        !CharClass::Digit.spec_has(next)
    }

    proof fn lemma_roundtrip(v: FetchAttributeValueModel, rest: Seq<u8>) {
        lemma_fetch_value_roundtrip(v, rest);
        lemma_fetch_value_nonempty(v);
    }
}

/// The items of a FETCH are such as are described here, and there is at
/// least one.
pub open spec fn wf_msg_att(items: Seq<FetchAttributeValueModel>) -> bool {
    &&& items.len() >= 1
    &&& forall|i: int| 0 <= i < items.len() ==> wf_fetch_value(#[trigger] items[i])
}

/// The items of a FETCH are read back from between the parentheses.
pub proof fn lemma_msg_att_roundtrip(items: Seq<FetchAttributeValueModel>, rest: Seq<u8>)
    requires
        wf_msg_att(items),
    ensures
        spec_msg_att(spec_encode_msg_att(items) + rest) == Ok::<_, ParseError>((rest, items)),
{
    let list = spec_wire_joined::<FetchAttributeValue>(items, ' ' as u8);
    let close = seq![')' as u8] + rest;
    assert(spec_encode_msg_att(items) + rest =~= seq!['(' as u8] + (list + close));
    lemma_byte('(' as u8, list + close);
    lemma_byte(')' as u8, rest);
    assert(all_end_before::<MsgAttItemRule>(items, ' ' as u8));
    assert(all_end_before::<MsgAttItemRule>(items, close[0]));
    lemma_separated1_roundtrip::<MsgAttItemRule>(items, ' ' as u8, close);
}

} // verus!
