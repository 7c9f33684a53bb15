//! The media type of a body: which of the three rules reads it.

use crate::body::{spec_media_message, spec_media_text};
use crate::error::ParseError;
use crate::lex::{eq_ignore_case, kw, spec_lower, spec_tag_no_case};
use crate::strings::{
    spec_encode_quoted, spec_encode_string, spec_escape, spec_escape_byte, IStringModel,
};
use crate::theorems::keywords::{
    lemma_kw_media_message, lemma_kw_media_text, lemma_kw_message, lemma_kw_rfc822,
    lemma_kw_text,
};
use crate::theorems::lex::lemma_tag_mismatch;
use crate::theorems::strings::{lemma_escape_front, lemma_string_roundtrip, wf_string};
use vstd::prelude::*;

verus! {

/// A string is the quoted word `word`, in either case.
pub open spec fn is_word(v: IStringModel, word: Seq<u8>) -> bool {
    v matches IStringModel::Quoted(q) && eq_ignore_case(q, word)
}

/// A type and a subtype are those of a part that is neither a text nor a
/// message: the type is not `TEXT`, and the two are not `MESSAGE` and
/// `RFC822`.
pub open spec fn is_other_media(type_: IStringModel, subtype: IStringModel) -> bool {
    &&& !is_word(type_, kw("TEXT"))
    &&& !(is_word(type_, kw("MESSAGE")) && is_word(subtype, kw("RFC822")))
}

/// A byte stands for itself in a keyword: it is neither a quote nor a
/// backslash, in either case.
pub open spec fn is_plain(b: u8) -> bool {
    spec_lower(b) != '"' as u8 && spec_lower(b) != '\\' as u8
}

/// Where the content of a quoted string is not the word `word`, its
/// escaped form with the closing quote differs from the word with its
/// closing quote at the index that is returned, even when case is ignored.
proof fn lemma_quoted_differs(q: Seq<u8>, word: Seq<u8>, tail: Seq<u8>) -> (i: int)
    requires
        !eq_ignore_case(q, word),
        forall|j: int| 0 <= j < word.len() ==> is_plain(#[trigger] word[j]),
    ensures
        0 <= i <= word.len(),
        i < (spec_escape(q) + seq!['"' as u8] + tail).len(),
        spec_lower((spec_escape(q) + seq!['"' as u8] + tail)[i]) != spec_lower(
            (word + seq!['"' as u8])[i],
        ),
    decreases word.len(),
{
    reveal(eq_ignore_case);
    let a = spec_escape(q) + seq!['"' as u8] + tail;
    let b = word + seq!['"' as u8];
    if q.len() == 0 {
        assert(spec_escape(q) =~= Seq::<u8>::empty());
        assert(a[0] == '"' as u8);
        assert(word.len() > 0);
        assert(b[0] == word[0]);
        0
    } else {
        lemma_escape_front(q);
        let front = spec_escape_byte(q[0]);
        assert(a[0] == front[0]);
        if word.len() == 0 {
            assert(b[0] == '"' as u8);
            0
        } else {
            assert(b[0] == word[0]);
            if q[0] == '"' as u8 || q[0] == '\\' as u8 {
                0
            } else if spec_lower(q[0]) != spec_lower(word[0]) {
                0
            } else {
                let q1 = q.skip(1);
                let w1 = word.skip(1);
                if eq_ignore_case(q1, w1) {
                    assert forall|j: int| 0 <= j < q.len() implies spec_lower(#[trigger] q[j])
                        == spec_lower(word[j]) by {
                        if j > 0 {
                            assert(q1[j - 1] == q[j]);
                            assert(w1[j - 1] == word[j]);
                        }
                    }
                    assert(false);
                }
                assert forall|j: int| 0 <= j < w1.len() implies is_plain(#[trigger] w1[j]) by {
                    assert(w1[j] == word[j + 1]);
                }
                let k = lemma_quoted_differs(q1, w1, tail);
                let a1 = spec_escape(q1) + seq!['"' as u8] + tail;
                let b1 = w1 + seq!['"' as u8];
                assert(a =~= seq![q[0]] + a1);
                assert(b =~= seq![word[0]] + b1);
                assert(a[k + 1] == a1[k]);
                assert(b[k + 1] == b1[k]);
                k + 1
            }
        }
    }
}

/// A quoted string that is not the word `word` is not read as the keyword
/// that begins with the word in quotes.
proof fn lemma_not_the_word(q: Seq<u8>, word: Seq<u8>, tail: Seq<u8>, keyword: Seq<u8>)
    requires
        !eq_ignore_case(q, word),
        forall|j: int| 0 <= j < word.len() ==> is_plain(#[trigger] word[j]),
        keyword.len() >= word.len() + 2,
        keyword[0] == '"' as u8,
        forall|j: int| 0 <= j < word.len() ==> keyword[j + 1] == #[trigger] word[j],
        keyword[word.len() as int + 1] == '"' as u8,
    ensures
        spec_tag_no_case(spec_encode_quoted(q) + tail, keyword) matches Err(ParseError::Error(_)),
{
    let i = lemma_quoted_differs(q, word, tail);
    let s = spec_encode_quoted(q) + tail;
    let a = spec_escape(q) + seq!['"' as u8] + tail;
    assert(s =~= seq!['"' as u8] + a);
    assert(s[i + 1] == a[i]);
    let b = word + seq!['"' as u8];
    assert(keyword[i + 1] == b[i]) by {
        if i < word.len() {
            assert(keyword[i + 1] == word[i]);
        }
    }
    lemma_tag_mismatch(s, keyword, i + 1);
}

/// The content of a quoted string that is a word of plain bytes is written
/// without escapes.
proof fn lemma_plain_escape(q: Seq<u8>, word: Seq<u8>)
    requires
        eq_ignore_case(q, word),
        forall|j: int| 0 <= j < word.len() ==> is_plain(#[trigger] word[j]),
    ensures
        spec_escape(q) == q,
    decreases q.len(),
{
    reveal(eq_ignore_case);
    if q.len() == 0 {
        assert(spec_escape(q) =~= q);
    } else {
        lemma_escape_front(q);
        let q1 = q.skip(1);
        let w1 = word.skip(1);
        assert forall|j: int| 0 <= j < q1.len() implies spec_lower(#[trigger] q1[j]) == spec_lower(
            w1[j],
        ) by {
            assert(q1[j] == q[j + 1]);
            assert(w1[j] == word[j + 1]);
        }
        assert forall|j: int| 0 <= j < w1.len() implies is_plain(#[trigger] w1[j]) by {
            assert(w1[j] == word[j + 1]);
        }
        lemma_plain_escape(q1, w1);
        assert(is_plain(word[0]));
        assert(spec_lower(q[0]) == spec_lower(word[0]));
        assert(spec_escape(q) =~= q);
    }
}

/// The words of the media types are made of plain bytes.
proof fn lemma_media_words()
    ensures
        forall|j: int| 0 <= j < kw("TEXT").len() ==> is_plain(#[trigger] kw("TEXT")[j]),
        forall|j: int| 0 <= j < kw("MESSAGE").len() ==> is_plain(#[trigger] kw("MESSAGE")[j]),
        forall|j: int| 0 <= j < kw("RFC822").len() ==> is_plain(#[trigger] kw("RFC822")[j]),
{
    lemma_kw_text();
    lemma_kw_message();
    lemma_kw_rfc822();
}

/// The type of a part that is no text is not read by the rule for texts.
pub proof fn lemma_not_text(type_: IStringModel, tail: Seq<u8>)
    requires
        wf_string(type_),
        !is_word(type_, kw("TEXT")),
    ensures
        spec_media_text(spec_encode_string(type_) + tail) matches Err(ParseError::Error(_)),
{
    lemma_kw_media_text();
    lemma_kw_text();
    lemma_media_words();
    let s = spec_encode_string(type_) + tail;
    match type_ {
        IStringModel::Quoted(q) => {
            lemma_not_the_word(q, kw("TEXT"), tail, kw("\"TEXT\" "));
        },
        IStringModel::Literal(l) => {
            lemma_string_roundtrip(type_, tail);
            assert(s[0] == '{' as u8);
            lemma_tag_mismatch(s, kw("\"TEXT\" "), 0);
        },
    }
}

/// The type and the subtype of a part that is no message are not read by
/// the rule for messages.
pub proof fn lemma_not_message(type_: IStringModel, subtype: IStringModel, tail: Seq<u8>)
    requires
        wf_string(type_),
        wf_string(subtype),
        !(is_word(type_, kw("MESSAGE")) && is_word(subtype, kw("RFC822"))),
    ensures
        spec_media_message(
            spec_encode_string(type_) + (seq![' ' as u8] + (spec_encode_string(subtype) + tail)),
        ) matches Err(ParseError::Error(_)),
{
    lemma_kw_media_message();
    lemma_kw_message();
    lemma_kw_rfc822();
    lemma_media_words();
    let word = kw("\"MESSAGE\" \"RFC822\"");
    let after = seq![' ' as u8] + (spec_encode_string(subtype) + tail);
    let s = spec_encode_string(type_) + after;
    match type_ {
        IStringModel::Literal(l) => {
            lemma_string_roundtrip(type_, after);
            assert(s[0] == '{' as u8);
            lemma_tag_mismatch(s, word, 0);
        },
        IStringModel::Quoted(q) => {
            if !eq_ignore_case(q, kw("MESSAGE")) {
                lemma_not_the_word(q, kw("MESSAGE"), after, word);
            } else {
                lemma_plain_escape(q, kw("MESSAGE"));
                reveal(eq_ignore_case);
                assert(q.len() == 7);
                let sub = spec_encode_string(subtype) + tail;
                assert(s =~= seq!['"' as u8] + q + seq!['"' as u8, ' ' as u8] + sub);
                lemma_string_roundtrip(subtype, tail);
                assert(s[10] == sub[0]);
                match subtype {
                    IStringModel::Literal(l) => {
                        assert(sub[0] == '{' as u8);
                        lemma_tag_mismatch(s, word, 10);
                    },
                    IStringModel::Quoted(r) => {
                        let i = lemma_quoted_differs(r, kw("RFC822"), tail);
                        let a = spec_escape(r) + seq!['"' as u8] + tail;
                        assert(sub =~= seq!['"' as u8] + a);
                        assert(s[11 + i] == a[i]);
                        let b = kw("RFC822") + seq!['"' as u8];
                        assert(word[11 + i] == b[i]);
                        lemma_tag_mismatch(s, word, 11 + i);
                    },
                }
            }
        },
    }
}

} // verus!
