//! Response texts, greetings and status responses that are written and
//! read back.

use crate::error::ParseError;
use crate::lex::{kw, spec_crlf, CharClass, Quirks};
use crate::response::{
    spec_bracketed_code, spec_crlf_bytes, spec_encode_code, spec_encode_greeting,
    spec_encode_opt_tag, spec_encode_resp_text, spec_encode_response, spec_encode_status,
    spec_greeting, spec_greeting_cond, spec_greeting_kind, spec_greeting_word, spec_known_code,
    spec_other_code, spec_resp_cond_auth, spec_resp_cond_bye, spec_resp_cond_state, spec_resp_text,
    spec_response, spec_response_data, spec_response_tagged, spec_sp_text, spec_status_kind,
    spec_status_of, spec_text_after_code, spec_untagged, spec_untagged_bye, spec_untagged_status,
    spec_continue_req, CodeModel, GreetingKind, GreetingModel, ResponseModel, StatusKind,
    StatusModel,
};
use crate::strings::{is_tag, is_text};
use crate::theorems::keywords::{
    lemma_kw_bad, lemma_kw_bye, lemma_kw_no, lemma_kw_ok, lemma_kw_plus, lemma_kw_preauth,
    lemma_kw_sp_bad, lemma_kw_sp_no, lemma_kw_sp_ok, lemma_kw_star_bye, lemma_kw_star_ok,
    lemma_kw_star_preauth,
};
use crate::theorems::lex::{
    lemma_byte, lemma_crlf, lemma_no_byte, lemma_run, lemma_tag, lemma_tag_mismatch,
};
use crate::theorems::response::{lemma_known_code_roundtrip, wf_known_code};
use crate::theorems::strings::{lemma_tag_imap_roundtrip, lemma_text_roundtrip};
use vstd::prelude::*;

verus! {

/// A code and the text behind it are such as `resp-text` yields where `rest`
/// follows them: the text is a text; without a code it does not begin with
/// a bracket; a code without a variant of its own holds no closing bracket
/// and no end of line, and is not taken for one of the other codes.
pub open spec fn wf_resp_text(code: Option<CodeModel>, text: Seq<u8>, rest: Seq<u8>) -> bool {
    &&& is_text(text)
    &&& match code {
        None => text[0] != '[' as u8,
        Some(CodeModel::Other(raw)) => CharClass::Bracketed.all(raw) && (spec_known_code(
            raw + seq![']' as u8] + (seq![' ' as u8] + text + rest),
        ) matches Err(ParseError::Error(_))),
        Some(c) => wf_known_code(c),
    }
}

/// The text behind a code is read back where a byte that is no text
/// character follows.
proof fn lemma_text_after_code(text: Seq<u8>, rest: Seq<u8>, quirks: Quirks)
    requires
        is_text(text),
        rest.len() >= 1,
        !CharClass::Text.spec_has(rest[0]),
    ensures
        spec_text_after_code(seq![' ' as u8] + text + rest, quirks) == Ok::<_, ParseError>(
            (rest, text),
        ),
{
    let after = seq![' ' as u8] + text + rest;
    lemma_text_roundtrip(text, rest);
    assert(after =~= seq![' ' as u8] + (text + rest));
    lemma_byte(' ' as u8, text + rest);
    assert(spec_sp_text(after) == Ok::<_, ParseError>((rest, text)));
}

/// A code without a variant of its own is read back from between the
/// brackets, where it is not taken for one of the other codes.
proof fn lemma_other_code_roundtrip(raw: Seq<u8>, after: Seq<u8>)
    requires
        CharClass::Bracketed.all(raw),
        spec_known_code(raw + seq![']' as u8] + after) matches Err(ParseError::Error(_)),
    ensures
        spec_bracketed_code(raw + seq![']' as u8] + after) == Ok::<_, ParseError>(
            (after, CodeModel::Other(raw)),
        ),
{
    let close = seq![']' as u8] + after;
    let inner = raw + seq![']' as u8] + after;
    assert(inner =~= raw + close);
    lemma_run(raw, close, CharClass::Bracketed);
    lemma_byte(']' as u8, after);
    assert(spec_other_code(inner) == Ok::<_, ParseError>((after, CodeModel::Other(raw))));
}

/// How the pieces of a response text with a code lie behind the opening
/// bracket.
proof fn lemma_coded_text_form(e: Seq<u8>, text: Seq<u8>, rest: Seq<u8>)
    ensures
        (seq!['[' as u8] + e + seq![']' as u8, ' ' as u8] + text) + rest == seq!['[' as u8] + (e
            + seq![']' as u8] + (seq![' ' as u8] + text + rest)),
{
    assert((seq!['[' as u8] + e + seq![']' as u8, ' ' as u8] + text) + rest =~= seq!['[' as u8]
        + (e + seq![']' as u8] + (seq![' ' as u8] + text + rest)));
}

/// A response text with a code is read back.
proof fn lemma_coded_text_roundtrip(c: CodeModel, text: Seq<u8>, rest: Seq<u8>, quirks: Quirks)
    requires
        wf_resp_text(Some(c), text, rest),
        rest.len() >= 1,
        !CharClass::Text.spec_has(rest[0]),
    ensures
        spec_resp_text(spec_encode_resp_text(Some(c), text) + rest, quirks) == Ok::<_, ParseError>(
            (rest, (Some(c), text)),
        ),
{
    let s = spec_encode_resp_text(Some(c), text) + rest;
    let after = seq![' ' as u8] + text + rest;
    let inner = spec_encode_code(c) + seq![']' as u8] + after;
    lemma_coded_text_form(spec_encode_code(c), text, rest);
    assert(s == seq!['[' as u8] + inner);
    lemma_byte('[' as u8, inner);
    lemma_text_after_code(text, rest, quirks);
    if c is Other {
        lemma_other_code_roundtrip(c->Other_0, after);
    } else {
        lemma_known_code_roundtrip(c, after);
    }
    assert(spec_bracketed_code(inner) == Ok::<_, ParseError>((after, c)));
}

/// A response text is read back where a byte that is no text character
/// follows, whatever the quirks.
pub proof fn lemma_resp_text_roundtrip(
    code: Option<CodeModel>,
    text: Seq<u8>,
    rest: Seq<u8>,
    quirks: Quirks,
)
    requires
        wf_resp_text(code, text, rest),
        rest.len() >= 1,
        !CharClass::Text.spec_has(rest[0]),
    ensures
        spec_resp_text(spec_encode_resp_text(code, text) + rest, quirks) == Ok::<_, ParseError>(
            (rest, (code, text)),
        ),
{
    let s = spec_encode_resp_text(code, text) + rest;
    match code {
        None => {
            lemma_text_roundtrip(text, rest);
            assert(s =~= text + rest);
            assert(s[0] == text[0]);
            lemma_no_byte(s, '[' as u8);
        },
        Some(c) => {
            lemma_coded_text_roundtrip(c, text, rest, quirks);
        },
    }
}

} // verus!

verus! {

/// The keyword of a greeting kind.
pub open spec fn spec_greeting_kind_word(kind: GreetingKind) -> Seq<u8> {
    match kind {
        GreetingKind::Okay => kw("OK"),
        GreetingKind::PreAuth => kw("PREAUTH"),
        GreetingKind::Bye => kw("BYE"),
    }
}

/// The keyword of a status kind.
pub open spec fn spec_status_kind_word(kind: StatusKind) -> Seq<u8> {
    match kind {
        StatusKind::Okay => kw("OK"),
        StatusKind::No => kw("NO"),
        StatusKind::Bad => kw("BAD"),
    }
}

/// The head of a greeting is `*`, a space, the keyword and a space.
proof fn lemma_greeting_word_form(kind: GreetingKind)
    ensures
        spec_greeting_word(kind) == seq!['*' as u8] + (seq![' ' as u8] + (spec_greeting_kind_word(
            kind,
        ) + seq![' ' as u8])),
{
    lemma_kw_ok();
    lemma_kw_preauth();
    lemma_kw_bye();
    lemma_kw_star_ok();
    lemma_kw_star_preauth();
    lemma_kw_star_bye();
    assert(spec_greeting_word(kind) =~= seq!['*' as u8] + (seq![' ' as u8] + (
    spec_greeting_kind_word(kind) + seq![' ' as u8])));
}

/// The keyword of a status line stands between two spaces.
proof fn lemma_status_word_form(kind: StatusKind)
    ensures
        match kind {
            StatusKind::Okay => kw(" OK "),
            StatusKind::No => kw(" NO "),
            StatusKind::Bad => kw(" BAD "),
        } == seq![' ' as u8] + (spec_status_kind_word(kind) + seq![' ' as u8]),
{
    lemma_kw_ok();
    lemma_kw_no();
    lemma_kw_bad();
    lemma_kw_sp_ok();
    lemma_kw_sp_no();
    lemma_kw_sp_bad();
    let word = match kind {
        StatusKind::Okay => kw(" OK "),
        StatusKind::No => kw(" NO "),
        StatusKind::Bad => kw(" BAD "),
    };
    assert(word =~= seq![' ' as u8] + (spec_status_kind_word(kind) + seq![' ' as u8]));
}

/// The keyword of a greeting kind is read back as the kind, but for `BYE`,
/// which the rule for the two other kinds does not take.
proof fn lemma_greeting_kind(kind: GreetingKind, rest: Seq<u8>)
    ensures
        kind != GreetingKind::Bye ==> spec_greeting_kind(spec_greeting_kind_word(kind) + rest)
            == Ok::<_, ParseError>((rest, kind)),
        kind == GreetingKind::Bye ==> (spec_greeting_kind(spec_greeting_kind_word(kind) + rest)
            matches Err(ParseError::Error(_))),
{
    lemma_kw_ok();
    lemma_kw_preauth();
    lemma_kw_bye();
    let word = spec_greeting_kind_word(kind);
    let s = word + rest;
    assert(s[0] == word[0]);
    lemma_tag(word, rest);
    match kind {
        GreetingKind::Okay => {},
        GreetingKind::PreAuth => {
            lemma_tag_mismatch(s, kw("OK"), 0);
        },
        GreetingKind::Bye => {
            lemma_tag_mismatch(s, kw("OK"), 0);
            lemma_tag_mismatch(s, kw("PREAUTH"), 0);
        },
    }
}

/// The keyword of a status kind is read back as the kind.
proof fn lemma_status_kind(kind: StatusKind, rest: Seq<u8>)
    ensures
        spec_status_kind(spec_status_kind_word(kind) + rest) == Ok::<_, ParseError>((rest, kind)),
{
    lemma_kw_ok();
    lemma_kw_no();
    lemma_kw_bad();
    let word = spec_status_kind_word(kind);
    let s = word + rest;
    assert(s[0] == word[0]);
    lemma_tag(word, rest);
    match kind {
        StatusKind::Okay => {},
        StatusKind::No => {
            lemma_tag_mismatch(s, kw("OK"), 0);
        },
        StatusKind::Bad => {
            lemma_tag_mismatch(s, kw("OK"), 0);
            lemma_tag_mismatch(s, kw("NO"), 0);
        },
    }
}

/// `BYE` is the keyword of no status kind.
proof fn lemma_bye_is_no_status_kind(rest: Seq<u8>)
    ensures
        spec_status_kind(kw("BYE") + rest) matches Err(ParseError::Error(_)),
{
    lemma_kw_ok();
    lemma_kw_no();
    lemma_kw_bad();
    lemma_kw_bye();
    let s = kw("BYE") + rest;
    assert(s[0] == 'B' as u8);
    assert(s[1] == 'Y' as u8);
    lemma_tag_mismatch(s, kw("OK"), 0);
    lemma_tag_mismatch(s, kw("NO"), 0);
    lemma_tag_mismatch(s, kw("BAD"), 1);
}

/// A response text at the end of a line is read back with the line end.
proof fn lemma_text_and_line_end(
    code: Option<CodeModel>,
    text: Seq<u8>,
    quirks: Quirks,
)
    requires
        wf_resp_text(code, text, spec_crlf_bytes()),
    ensures
        spec_resp_text(spec_encode_resp_text(code, text) + spec_crlf_bytes(), quirks) == Ok::<
            _,
            ParseError,
        >((spec_crlf_bytes(), (code, text))),
        spec_crlf(spec_crlf_bytes(), quirks.crlf_relaxed) == Ok::<_, ParseError>(
            (Seq::<u8>::empty(), ()),
        ),
{
    lemma_resp_text_roundtrip(code, text, spec_crlf_bytes(), quirks);
    lemma_crlf(Seq::empty(), quirks.crlf_relaxed);
    assert(spec_crlf_bytes() + Seq::<u8>::empty() =~= spec_crlf_bytes());
}

/// A greeting is such as the rule `greeting` yields.
pub open spec fn wf_greeting(g: GreetingModel) -> bool {
    wf_resp_text(g.code, g.text, spec_crlf_bytes())
}

/// What follows `"* "` in a greeting is read back.
proof fn lemma_greeting_cond(g: GreetingModel, quirks: Quirks)
    requires
        wf_greeting(g),
    ensures
        spec_greeting_cond(
            spec_greeting_kind_word(g.kind) + (seq![' ' as u8] + (spec_encode_resp_text(
                g.code,
                g.text,
            ) + spec_crlf_bytes())),
            quirks,
        ) == Ok::<_, ParseError>((spec_crlf_bytes(), (g.kind, (g.code, g.text)))),
{
    let body = spec_encode_resp_text(g.code, g.text) + spec_crlf_bytes();
    let after_word = seq![' ' as u8] + body;
    let s = spec_greeting_kind_word(g.kind) + after_word;
    lemma_greeting_kind(g.kind, after_word);
    lemma_byte(' ' as u8, body);
    lemma_text_and_line_end(g.code, g.text, quirks);
    if g.kind == GreetingKind::Bye {
        lemma_tag(kw("BYE"), after_word);
        assert(spec_resp_cond_auth(s, quirks) matches Err(ParseError::Error(_)));
        assert(spec_resp_cond_bye(s, quirks) == Ok::<_, ParseError>(
            (spec_crlf_bytes(), (g.code, g.text)),
        ));
    } else {
        assert(spec_resp_cond_auth(s, quirks) == Ok::<_, ParseError>(
            (spec_crlf_bytes(), (g.kind, (g.code, g.text))),
        ));
    }
}

/// How the pieces of a greeting lie behind each other.
proof fn lemma_greeting_form(word: Seq<u8>, text: Seq<u8>)
    ensures
        (seq!['*' as u8] + (seq![' ' as u8] + (word + seq![' ' as u8]))) + text + spec_crlf_bytes()
            == seq!['*' as u8] + (seq![' ' as u8] + (word + (seq![' ' as u8] + (text
            + spec_crlf_bytes())))),
{
    assert((seq!['*' as u8] + (seq![' ' as u8] + (word + seq![' ' as u8]))) + text
        + spec_crlf_bytes() =~= seq!['*' as u8] + (seq![' ' as u8] + (word + (seq![' ' as u8] + (
    text + spec_crlf_bytes())))));
}

/// A greeting that is written is read back as the same greeting, with
/// nothing left over, whatever the quirks.
pub proof fn lemma_greeting_roundtrip(g: GreetingModel, quirks: Quirks)
    requires
        wf_greeting(g),
    ensures
        spec_greeting(spec_encode_greeting(g), quirks) == Ok::<_, ParseError>(
            (Seq::<u8>::empty(), g),
        ),
{
    let word = spec_greeting_kind_word(g.kind);
    let text = spec_encode_resp_text(g.code, g.text);
    let cond = word + (seq![' ' as u8] + (text + spec_crlf_bytes()));
    lemma_greeting_word_form(g.kind);
    lemma_greeting_form(word, text);
    assert(spec_encode_greeting(g) == seq!['*' as u8] + (seq![' ' as u8] + cond));
    lemma_byte('*' as u8, seq![' ' as u8] + cond);
    lemma_byte(' ' as u8, cond);
    lemma_greeting_cond(g, quirks);
    lemma_text_and_line_end(g.code, g.text, quirks);
}

} // verus!

verus! {

/// A status response is such as the grammar yields: its tag, if it has
/// one, is a tag, and its code and text are such as `resp-text` yields at
/// the end of a line.
pub open spec fn wf_status(s: StatusModel) -> bool {
    match s {
        StatusModel::Okay { tag, code, text } | StatusModel::No { tag, code, text }
        | StatusModel::Bad { tag, code, text } => (tag matches Some(t) ==> is_tag(t))
            && wf_resp_text(code, text, spec_crlf_bytes()),
        StatusModel::Bye { code, text } => wf_resp_text(code, text, spec_crlf_bytes()),
    }
}

/// The kind of a status response that is no `BYE`.
pub open spec fn spec_kind_of(s: StatusModel) -> StatusKind {
    match s {
        StatusModel::Okay { .. } => StatusKind::Okay,
        StatusModel::No { .. } => StatusKind::No,
        _ => StatusKind::Bad,
    }
}

/// The tag of a status response.
pub open spec fn spec_tag_of(s: StatusModel) -> Option<Seq<u8>> {
    match s {
        StatusModel::Okay { tag, .. } | StatusModel::No { tag, .. } | StatusModel::Bad {
            tag,
            ..
        } => tag,
        StatusModel::Bye { .. } => None,
    }
}

/// The code of a status response.
pub open spec fn spec_code_of(s: StatusModel) -> Option<CodeModel> {
    match s {
        StatusModel::Okay { code, .. } | StatusModel::No { code, .. } | StatusModel::Bad {
            code,
            ..
        } | StatusModel::Bye { code, .. } => code,
    }
}

/// The text of a status response.
pub open spec fn spec_text_of(s: StatusModel) -> Seq<u8> {
    match s {
        StatusModel::Okay { text, .. } | StatusModel::No { text, .. } | StatusModel::Bad {
            text,
            ..
        } | StatusModel::Bye { text, .. } => text,
    }
}

/// A status response that is no `BYE` is written as its tag or `*`, a
/// space, the keyword, a space, the response text and the end of the line.
proof fn lemma_status_form(s: StatusModel)
    requires
        !(s is Bye),
    ensures
        spec_encode_status(s) == spec_encode_opt_tag(spec_tag_of(s)) + (seq![' ' as u8] + (
        spec_status_kind_word(spec_kind_of(s)) + (seq![' ' as u8] + (spec_encode_resp_text(
            spec_code_of(s),
            spec_text_of(s),
        ) + spec_crlf_bytes())))),
        s == spec_status_of(spec_kind_of(s), spec_tag_of(s), spec_code_of(s), spec_text_of(s)),
{
    lemma_status_word_form(spec_kind_of(s));
    let tag = spec_encode_opt_tag(spec_tag_of(s));
    let word = spec_status_kind_word(spec_kind_of(s));
    let text = spec_encode_resp_text(spec_code_of(s), spec_text_of(s));
    assert(tag + (seq![' ' as u8] + (word + seq![' ' as u8])) + text + spec_crlf_bytes() =~= tag
        + (seq![' ' as u8] + (word + (seq![' ' as u8] + (text + spec_crlf_bytes())))));
}

/// `BYE` is written as `*`, a space, the keyword, a space, the response
/// text and the end of the line.
proof fn lemma_bye_form(code: Option<CodeModel>, text: Seq<u8>)
    ensures
        spec_encode_status(StatusModel::Bye { code, text }) == seq!['*' as u8] + (seq![
            ' ' as u8,
        ] + (kw("BYE") + (seq![' ' as u8] + (spec_encode_resp_text(code, text)
            + spec_crlf_bytes())))),
{
    lemma_greeting_word_form(GreetingKind::Bye);
    lemma_greeting_form(kw("BYE"), spec_encode_resp_text(code, text));
}

/// What follows the tag and the space in a status response is read back.
proof fn lemma_cond_state(
    kind: StatusKind,
    code: Option<CodeModel>,
    text: Seq<u8>,
    quirks: Quirks,
)
    requires
        wf_resp_text(code, text, spec_crlf_bytes()),
    ensures
        spec_resp_cond_state(
            spec_status_kind_word(kind) + (seq![' ' as u8] + (spec_encode_resp_text(code, text)
                + spec_crlf_bytes())),
            quirks,
        ) == Ok::<_, ParseError>((spec_crlf_bytes(), (kind, code, text))),
{
    let body = spec_encode_resp_text(code, text) + spec_crlf_bytes();
    lemma_status_kind(kind, seq![' ' as u8] + body);
    lemma_byte(' ' as u8, body);
    lemma_text_and_line_end(code, text, quirks);
}

/// A tagged status response is read back by the rule `response-tagged`.
proof fn lemma_tagged_roundtrip(s: StatusModel, quirks: Quirks)
    requires
        wf_status(s),
        !(s is Bye),
        spec_tag_of(s) is Some,
    ensures
        spec_response_tagged(spec_encode_status(s), quirks) == Ok::<_, ParseError>(
            (Seq::<u8>::empty(), s),
        ),
        spec_encode_status(s).len() >= 1,
        CharClass::Tag.spec_has(spec_encode_status(s)[0]),
{
    let tag = spec_tag_of(s)->0;
    let kind = spec_kind_of(s);
    let code = spec_code_of(s);
    let text = spec_text_of(s);
    let cond = spec_status_kind_word(kind) + (seq![' ' as u8] + (spec_encode_resp_text(code, text)
        + spec_crlf_bytes()));
    lemma_status_form(s);
    assert(spec_encode_status(s) == tag + (seq![' ' as u8] + cond));
    lemma_tag_imap_roundtrip(tag, seq![' ' as u8] + cond);
    lemma_byte(' ' as u8, cond);
    lemma_cond_state(kind, code, text, quirks);
    lemma_text_and_line_end(code, text, quirks);
    assert(spec_encode_status(s)[0] == tag[0]);
}

/// An untagged status response is read back by the rule `response-data`.
proof fn lemma_untagged_roundtrip(s: StatusModel, quirks: Quirks)
    requires
        wf_status(s),
        spec_tag_of(s) is None,
    ensures
        spec_response_data(spec_encode_status(s), quirks) == Ok::<_, ParseError>(
            (Seq::<u8>::empty(), ResponseModel::Status(s)),
        ),
        spec_encode_status(s).len() >= 1,
        spec_encode_status(s)[0] == '*' as u8,
{
    reveal(spec_untagged);
    let code = spec_code_of(s);
    let text = spec_text_of(s);
    let body = spec_encode_resp_text(code, text) + spec_crlf_bytes();
    lemma_text_and_line_end(code, text, quirks);
    if s is Bye {
        let cond = kw("BYE") + (seq![' ' as u8] + body);
        lemma_bye_form(code, text);
        assert(spec_encode_status(s) == seq!['*' as u8] + (seq![' ' as u8] + cond));
        lemma_byte('*' as u8, seq![' ' as u8] + cond);
        lemma_byte(' ' as u8, cond);
        lemma_bye_is_no_status_kind(seq![' ' as u8] + body);
        lemma_tag(kw("BYE"), seq![' ' as u8] + body);
        lemma_byte(' ' as u8, body);
        assert(spec_resp_cond_state(cond, quirks) matches Err(ParseError::Error(_)));
        assert(spec_untagged_status(cond, quirks) matches Err(ParseError::Error(_)));
        assert(spec_resp_cond_bye(cond, quirks) == Ok::<_, ParseError>(
            (spec_crlf_bytes(), (code, text)),
        ));
        assert(spec_untagged_bye(cond, quirks) == Ok::<_, ParseError>(
            (spec_crlf_bytes(), ResponseModel::Status(s)),
        ));
    } else {
        let kind = spec_kind_of(s);
        let cond = spec_status_kind_word(kind) + (seq![' ' as u8] + body);
        lemma_status_form(s);
        assert(spec_encode_status(s) == seq!['*' as u8] + (seq![' ' as u8] + cond));
        lemma_byte('*' as u8, seq![' ' as u8] + cond);
        lemma_byte(' ' as u8, cond);
        lemma_cond_state(kind, code, text, quirks);
        assert(spec_untagged_status(cond, quirks) == Ok::<_, ParseError>(
            (spec_crlf_bytes(), ResponseModel::Status(s)),
        ));
    }
}

/// No continuation request is read from input that does not begin with
/// `+`.
pub proof fn lemma_no_continue_req(s: Seq<u8>, quirks: Quirks)
    requires
        s.len() >= 1,
        s[0] != '+' as u8,
    ensures
        spec_continue_req(s, quirks) matches Err(ParseError::Error(_)),
{
    lemma_kw_plus();
    lemma_tag_mismatch(s, kw("+ "), 0);
}

/// A status response that is written is read back as the same response,
/// with nothing left over, whatever the quirks.
pub proof fn lemma_status_roundtrip(s: StatusModel, quirks: Quirks)
    requires
        wf_status(s),
    ensures
        spec_response(spec_encode_response(ResponseModel::Status(s)), quirks) == Ok::<
            _,
            ParseError,
        >((Seq::<u8>::empty(), ResponseModel::Status(s))),
{
    let bytes = spec_encode_status(s);
    if spec_tag_of(s) is None {
        lemma_untagged_roundtrip(s, quirks);
        lemma_no_continue_req(bytes, quirks);
    } else {
        lemma_tagged_roundtrip(s, quirks);
        lemma_no_continue_req(bytes, quirks);
        lemma_no_byte(bytes, '*' as u8);
        assert(spec_response_data(bytes, quirks) matches Err(ParseError::Error(_)));
    }
}

} // verus!
