//! Messages of one line that reach the driver in pieces.

use crate::driver::{
    spec_announcement, spec_deliver, spec_feed, spec_frame, spec_message, Config, DriverModel,
    FeedOutcomeModel, Frame, Hint, ValueModel,
};
use crate::error::ParseError;
use crate::lex::{kw, spec_first_line_end};
use crate::response::{
    spec_crlf_bytes, spec_encode_greeting, spec_encode_resp_text, spec_encode_status,
    spec_greeting_word, GreetingModel, ResponseModel, StatusModel,
};
use crate::theorems::driver::lemma_feed_in_two;
use crate::theorems::line::{
    lemma_line_ends_once, lemma_resp_text_is_unbroken, lemma_text_is_unbroken,
    lemma_unbroken_concat, unbroken,
};
use crate::theorems::status::{
    lemma_greeting_roundtrip, lemma_status_roundtrip, wf_greeting, wf_status,
};
use vstd::prelude::*;

verus! {

/// A driver that has nothing buffered and has not given the stream up.
pub open spec fn spec_fresh(config: Config, greeted: bool) -> DriverModel {
    DriverModel { buffer: Seq::empty(), config, greeted, poisoned: None }
}

/// A line without CR and LF that announces no literal, with the end of the
/// line, is one frame; no shorter piece of it is a frame or asks for a
/// literal.
proof fn lemma_one_line_frame(line: Seq<u8>, relaxed: bool)
    requires
        unbroken(line),
        spec_announcement(line) is None,
        line.len() + 2 <= usize::MAX,
    ensures
        spec_frame(line + spec_crlf_bytes(), relaxed) == Frame::Complete((line.len() + 2) as usize),
        forall|n: int|
            0 <= n < line.len() + 2 ==> #[trigger] spec_frame(
                (line + spec_crlf_bytes()).take(n),
                relaxed,
            ) == Frame::NeedLine,
{
    let s = line + spec_crlf_bytes();
    lemma_line_ends_once(line, Seq::empty(), relaxed);
    assert(line + spec_crlf_bytes() + Seq::<u8>::empty() =~= s);
    assert(s.skip(0) =~= s);
    if relaxed {
        let part = s.subrange(0, line.len() as int + 1);
        assert(part.last() == '\r' as u8);
        assert(part.drop_last() =~= line);
    } else {
        assert(s.subrange(0, line.len() as int) =~= line);
    }
    assert forall|n: int| 0 <= n < line.len() + 2 implies #[trigger] spec_frame(
        s.take(n),
        relaxed,
    ) == Frame::NeedLine by {
        let p = s.take(n);
        assert(p.skip(0) =~= p);
        assert(spec_first_line_end(p, relaxed) is None);
    }
}

/// A message of one line reaches the driver in two pieces as it does in
/// one: the first piece, if it is not the whole line, leads to a request
/// for the rest of the line, and the second piece, like the whole line at
/// once, leads to the message; then nothing is left in the buffer.
pub proof fn lemma_one_line_in_pieces(
    config: Config,
    greeted: bool,
    line: Seq<u8>,
    v: ValueModel,
    a: Seq<u8>,
    b: Seq<u8>,
)
    requires
        unbroken(line),
        spec_announcement(line) is None,
        line.len() + 2 <= usize::MAX,
        spec_message(line + spec_crlf_bytes(), greeted, config.quirks) == Ok::<_, ParseError>(
            (Seq::<u8>::empty(), v),
        ),
        a + b == line + spec_crlf_bytes(),
        b.len() >= 1,
    ensures
        spec_feed(spec_fresh(config, greeted), a).1 == FeedOutcomeModel::NeedMoreBytes(
            Hint::UntilCrlf,
        ),
        spec_feed(spec_feed(spec_fresh(config, greeted), a).0, b) == spec_feed(
            spec_fresh(config, greeted),
            a + b,
        ),
        spec_feed(spec_fresh(config, greeted), a + b) == (
            spec_fresh(config, true),
            FeedOutcomeModel::Ready(v),
        ),
{
    let s = line + spec_crlf_bytes();
    let d0 = spec_fresh(config, greeted);
    let relaxed = config.quirks.crlf_relaxed;
    lemma_one_line_frame(line, relaxed);
    assert(Seq::<u8>::empty() + s =~= s);
    assert(Seq::<u8>::empty() + a =~= a);
    assert(s.take(a.len() as int) =~= a);
    assert(spec_frame(a, relaxed) == Frame::NeedLine);
    assert(s.take(s.len() as int) =~= s);
    assert(s.skip(s.len() as int) =~= Seq::<u8>::empty());
    assert(spec_deliver(DriverModel { buffer: s, ..d0 }, s.len()) == (
        spec_fresh(config, true),
        FeedOutcomeModel::Ready(v),
    ));
    lemma_feed_in_two(d0, a, b);
}

/// The line of a greeting: the greeting without the end of the line.
pub open spec fn spec_greeting_line(g: GreetingModel) -> Seq<u8> {
    spec_greeting_word(g.kind) + spec_encode_resp_text(g.code, g.text)
}

/// A greeting whose line announces no literal reaches the driver in two
/// pieces as it does in one, and comes out as it was written.
pub proof fn lemma_greeting_in_pieces(config: Config, g: GreetingModel, a: Seq<u8>, b: Seq<u8>)
    requires
        wf_greeting(g),
        spec_announcement(spec_greeting_line(g)) is None,
        spec_encode_greeting(g).len() <= usize::MAX,
        a + b == spec_encode_greeting(g),
        b.len() >= 1,
    ensures
        spec_feed(spec_fresh(config, false), a).1 == FeedOutcomeModel::NeedMoreBytes(
            Hint::UntilCrlf,
        ),
        spec_feed(spec_feed(spec_fresh(config, false), a).0, b) == spec_feed(
            spec_fresh(config, false),
            a + b,
        ),
        spec_feed(spec_fresh(config, false), a + b) == (
            spec_fresh(config, true),
            FeedOutcomeModel::Ready(ValueModel::Greeting(g)),
        ),
{
    let line = spec_greeting_line(g);
    crate::theorems::keywords::lemma_words_are_text();
    lemma_text_is_unbroken(spec_greeting_word(g.kind));
    lemma_resp_text_is_unbroken(g.code, g.text);
    lemma_unbroken_concat(spec_greeting_word(g.kind), spec_encode_resp_text(g.code, g.text));
    lemma_greeting_roundtrip(g, config.quirks);
    assert(spec_encode_greeting(g) == line + spec_crlf_bytes());
    lemma_one_line_in_pieces(config, false, line, ValueModel::Greeting(g), a, b);
}

} // verus!

verus! {

/// The line of a status response: the response without the end of the
/// line.
pub open spec fn spec_status_line(s: StatusModel) -> Seq<u8> {
    match s {
        StatusModel::Okay { tag, code, text } => crate::response::spec_encode_opt_tag(tag) + kw(
            " OK ",
        ) + spec_encode_resp_text(code, text),
        StatusModel::No { tag, code, text } => crate::response::spec_encode_opt_tag(tag) + kw(
            " NO ",
        ) + spec_encode_resp_text(code, text),
        StatusModel::Bad { tag, code, text } => crate::response::spec_encode_opt_tag(tag) + kw(
            " BAD ",
        ) + spec_encode_resp_text(code, text),
        StatusModel::Bye { code, text } => kw("* BYE ") + spec_encode_resp_text(code, text),
    }
}

/// The line of a status response holds neither CR nor LF, and the response
/// is its line and the end of the line.
proof fn lemma_status_line(s: StatusModel)
    requires
        wf_status(s),
    ensures
        unbroken(spec_status_line(s)),
        spec_encode_status(s) == spec_status_line(s) + spec_crlf_bytes(),
{
    crate::theorems::keywords::lemma_words_are_text();
    let code = crate::theorems::status::spec_code_of(s);
    let text = crate::theorems::status::spec_text_of(s);
    lemma_resp_text_is_unbroken(code, text);
    match s {
        StatusModel::Bye { .. } => {
            lemma_text_is_unbroken(kw("* BYE "));
            lemma_unbroken_concat(kw("* BYE "), spec_encode_resp_text(code, text));
        },
        _ => {
            let tag = crate::response::spec_encode_opt_tag(crate::theorems::status::spec_tag_of(s));
            let word = match s {
                StatusModel::Okay { .. } => kw(" OK "),
                StatusModel::No { .. } => kw(" NO "),
                _ => kw(" BAD "),
            };
            assert(unbroken(tag));
            lemma_text_is_unbroken(word);
            lemma_unbroken_concat(tag, word);
            lemma_unbroken_concat(tag + word, spec_encode_resp_text(code, text));
        },
    }
}

/// A status response whose line announces no literal reaches the driver in
/// two pieces as it does in one, and comes out as it was written.
pub proof fn lemma_status_in_pieces(config: Config, s: StatusModel, a: Seq<u8>, b: Seq<u8>)
    requires
        wf_status(s),
        spec_announcement(spec_status_line(s)) is None,
        spec_encode_status(s).len() <= usize::MAX,
        a + b == spec_encode_status(s),
        b.len() >= 1,
    ensures
        spec_feed(spec_fresh(config, true), a).1 == FeedOutcomeModel::NeedMoreBytes(
            Hint::UntilCrlf,
        ),
        spec_feed(spec_feed(spec_fresh(config, true), a).0, b) == spec_feed(
            spec_fresh(config, true),
            a + b,
        ),
        spec_feed(spec_fresh(config, true), a + b) == (
            spec_fresh(config, true),
            FeedOutcomeModel::Ready(ValueModel::Response(ResponseModel::Status(s))),
        ),
{
    lemma_status_line(s);
    lemma_status_roundtrip(s, config.quirks);
    lemma_one_line_in_pieces(
        config,
        true,
        spec_status_line(s),
        ValueModel::Response(ResponseModel::Status(s)),
        a,
        b,
    );
}

} // verus!
