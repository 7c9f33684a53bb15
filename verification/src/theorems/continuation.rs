//! Continuation requests that are written and read back.

use crate::error::ParseError;
use crate::lex::{kw, spec_crlf, Quirks};
use crate::response::{
    spec_continue_req, spec_crlf_bytes, spec_encode_continue, spec_encode_resp_text, spec_line_text,
    spec_resp_text, CommandContinuationRequestModel,
};
use crate::strings::{base64_decoded, base64_encoded, is_base64_text_byte};
use crate::theorems::lex::{lemma_byte, lemma_crlf, lemma_no_byte, lemma_tag};
use crate::theorems::line::{lemma_line_ends_once, lemma_resp_text_is_unbroken, unbroken};
use crate::theorems::status::{lemma_resp_text_roundtrip, wf_resp_text};
use vstd::prelude::*;

verus! {

/// A continuation request is such as the grammar yields. A text with or
/// without a code is such as `resp-text` yields at the end of a line, and
/// its written form is no valid base64, for else it would be read as
/// base64. Data is written by an encoder whose output is made of the
/// base64 alphabet and the padding byte and decodes to the data.
pub open spec fn wf_continue(c: CommandContinuationRequestModel) -> bool {
    match c {
        CommandContinuationRequestModel::Basic { code, text } => wf_resp_text(
            code,
            text,
            spec_crlf_bytes(),
        ) && base64_decoded(spec_encode_resp_text(code, text)) is None,
        CommandContinuationRequestModel::Base64(data) => (forall|i: int|
            0 <= i < base64_encoded(data).len() ==> is_base64_text_byte(
                #[trigger] base64_encoded(data)[i],
            )) && base64_decoded(base64_encoded(data)) == Some(data),
    }
}

/// The body of a continuation request: what stands between `"+ "` and the
/// end of the line.
pub open spec fn spec_continue_body(c: CommandContinuationRequestModel) -> Seq<u8> {
    match c {
        CommandContinuationRequestModel::Basic { code, text } => spec_encode_resp_text(code, text),
        CommandContinuationRequestModel::Base64(data) => base64_encoded(data),
    }
}

/// The text of the first line of a body without CR and LF that the end of
/// the line follows is that body, and the rest begins where the line ends.
proof fn lemma_line_text(body: Seq<u8>, relaxed: bool)
    requires
        unbroken(body),
    ensures
        spec_line_text(body + spec_crlf_bytes(), relaxed) == Some(
            (
                body,
                if relaxed {
                    seq!['\n' as u8]
                } else {
                    spec_crlf_bytes()
                },
            ),
        ),
{
    let s = body + spec_crlf_bytes();
    lemma_line_ends_once(body, Seq::empty(), relaxed);
    assert(body + spec_crlf_bytes() + Seq::<u8>::empty() =~= s);
    if relaxed {
        let line = s.take(body.len() as int + 1);
        assert(line.last() == '\r' as u8);
        assert(line.drop_last() =~= body);
        assert(s.skip(body.len() as int + 1) =~= seq!['\n' as u8]);
    } else {
        assert(s.take(body.len() as int) =~= body);
        assert(s.skip(body.len() as int) =~= spec_crlf_bytes());
    }
}

/// A continuation request is read from `"+ "`, its body and the end of the
/// line.
proof fn lemma_continue_pieces(
    body: Seq<u8>,
    c: CommandContinuationRequestModel,
    quirks: Quirks,
)
    requires
        unbroken(body),
        c matches CommandContinuationRequestModel::Base64(data) ==> base64_decoded(body) == Some(
            data,
        ),
        c matches CommandContinuationRequestModel::Basic { code, text } ==> base64_decoded(body)
            is None && spec_resp_text(body + spec_crlf_bytes(), quirks) == Ok::<_, ParseError>(
            (spec_crlf_bytes(), (code, text)),
        ),
    ensures
        spec_continue_req(kw("+ ") + (body + spec_crlf_bytes()), quirks) == Ok::<_, ParseError>(
            (Seq::<u8>::empty(), c),
        ),
{
    let r1 = body + spec_crlf_bytes();
    lemma_tag(kw("+ "), r1);
    lemma_line_text(body, quirks.crlf_relaxed);
    lemma_crlf(Seq::empty(), quirks.crlf_relaxed);
    assert(spec_crlf_bytes() + Seq::<u8>::empty() =~= spec_crlf_bytes());
    if quirks.crlf_relaxed {
        let rest = seq!['\n' as u8];
        lemma_no_byte(rest, '\r' as u8);
        lemma_byte('\n' as u8, Seq::empty());
        assert(seq!['\n' as u8] + Seq::<u8>::empty() =~= rest);
        assert(spec_crlf(rest, true) == Ok::<_, ParseError>((Seq::<u8>::empty(), ())));
    }
}

/// A base64 text holds neither CR nor LF.
proof fn lemma_base64_is_unbroken(s: Seq<u8>)
    requires
        forall|i: int| 0 <= i < s.len() ==> is_base64_text_byte(#[trigger] s[i]),
    ensures
        unbroken(s),
{
}

/// A continuation request that is written is read back as the same
/// request, with nothing left over, whatever the quirks.
pub proof fn lemma_continue_roundtrip(c: CommandContinuationRequestModel, quirks: Quirks)
    requires
        wf_continue(c),
    ensures
        spec_continue_req(spec_encode_continue(c), quirks) == Ok::<_, ParseError>(
            (Seq::<u8>::empty(), c),
        ),
{
    let body = spec_continue_body(c);
    assert(spec_encode_continue(c) =~= kw("+ ") + (body + spec_crlf_bytes()));
    match c {
        CommandContinuationRequestModel::Basic { code, text } => {
            lemma_resp_text_is_unbroken(code, text);
            lemma_resp_text_roundtrip(code, text, spec_crlf_bytes(), quirks);
        },
        CommandContinuationRequestModel::Base64(data) => {
            lemma_base64_is_unbroken(body);
        },
    }
    lemma_continue_pieces(body, c, quirks);
}

} // verus!

verus! {

/// A response is such as the grammar yields.
pub open spec fn wf_response(r: crate::response::ResponseModel) -> bool {
    match r {
        crate::response::ResponseModel::CommandContinuationRequest(c) => wf_continue(c),
        crate::response::ResponseModel::Data(d) => crate::theorems::untagged::wf_data(d),
        crate::response::ResponseModel::Status(s) => crate::theorems::status::wf_status(s),
    }
}

/// A response that is written is read back as the same response, with
/// nothing left over, whatever the quirks.
pub proof fn lemma_response_roundtrip(r: crate::response::ResponseModel, quirks: Quirks)
    requires
        wf_response(r),
    ensures
        crate::response::spec_response(crate::response::spec_encode_response(r), quirks) == Ok::<
            _,
            ParseError,
        >((Seq::<u8>::empty(), r)),
{
    match r {
        crate::response::ResponseModel::CommandContinuationRequest(c) => {
            lemma_continue_roundtrip(c, quirks);
        },
        crate::response::ResponseModel::Data(d) => {
            crate::theorems::untagged::lemma_data_roundtrip(d, quirks);
        },
        crate::response::ResponseModel::Status(s) => {
            crate::theorems::status::lemma_status_roundtrip(s, quirks);
        },
    }
}

} // verus!
