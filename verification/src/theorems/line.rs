//! Written forms that stay within one line.

use crate::codec::Encoder;
use crate::flag::{spec_encode_flag, FlagModel, FlagPerm, FlagPermModel, FlagPermRule};
use crate::lex::{
    kw, lemma_first_line_end, spec_at_line_end, spec_first_line_end, CharClass,
};
use crate::list::{spec_wire_each, spec_wire_joined};
use crate::number::{lemma_digits, spec_digits};
use crate::response::{
    spec_crlf_bytes, spec_encode_charsets, spec_encode_code, spec_encode_opt_code,
    spec_encode_resp_text, Capability, CapabilityModel, CapabilityRule, CodeModel,
};
use crate::strings::{
    is_quoted, is_text, spec_escape, spec_escape_byte, Charset, CharsetModel, CharsetRule,
};
use crate::theorems::flag::{lemma_system_flag_name, spec_system_flag_name, wf_flag};
use crate::theorems::list::Reversible;
use crate::theorems::response::{lemma_capability_name, wf_known_code};
use crate::theorems::strings::wf_charset;
use vstd::prelude::*;

verus! {

/// No byte of `s` is CR or LF.
pub open spec fn unbroken(s: Seq<u8>) -> bool {
    forall|i: int| 0 <= i < s.len() ==> #[trigger] s[i] != '\r' as u8 && s[i] != '\n' as u8
}

/// Text holds neither CR nor LF.
pub proof fn lemma_text_is_unbroken(s: Seq<u8>)
    requires
        CharClass::Text.all(s),
    ensures
        unbroken(s),
{
}

/// Two pieces without CR and LF make a whole without them.
pub proof fn lemma_unbroken_concat(a: Seq<u8>, b: Seq<u8>)
    requires
        unbroken(a),
        unbroken(b),
    ensures
        unbroken(a + b),
{
    let s = a + b;
    assert forall|i: int| 0 <= i < s.len() implies #[trigger] s[i] != '\r' as u8 && s[i]
        != '\n' as u8 by {
        if i < a.len() {
            assert(s[i] == a[i]);
        } else {
            assert(s[i] == b[i - a.len()]);
        }
    }
}

/// Two pieces of text make a text.
pub proof fn lemma_text_concat(a: Seq<u8>, b: Seq<u8>)
    requires
        CharClass::Text.all(a),
        CharClass::Text.all(b),
    ensures
        CharClass::Text.all(a + b),
{
    let s = a + b;
    assert forall|i: int| 0 <= i < s.len() implies CharClass::Text.spec_has(#[trigger] s[i]) by {
        if i < a.len() {
            assert(s[i] == a[i]);
        } else {
            assert(s[i] == b[i - a.len()]);
        }
    }
}

/// A line without CR and LF, followed by the end of the line, ends where
/// its last byte is: with CRLF where lines end with CRLF, with the LF where
/// a bare LF is taken. No shorter piece of it holds the end of a line.
pub proof fn lemma_line_ends_once(line: Seq<u8>, rest: Seq<u8>, relaxed: bool)
    requires
        unbroken(line),
    ensures
        spec_first_line_end(line + spec_crlf_bytes() + rest, relaxed) == Some(
            if relaxed {
                (line.len() + 1) as nat
            } else {
                line.len()
            },
        ),
        forall|n: int|
            0 <= n < line.len() + 2 ==> #[trigger] spec_first_line_end(
                (line + spec_crlf_bytes() + rest).take(n),
                relaxed,
            ) is None,
{
    let s = line + spec_crlf_bytes() + rest;
    let at: int = if relaxed {
        line.len() as int + 1
    } else {
        line.len() as int
    };
    assert(s[line.len() as int] == '\r' as u8);
    assert(s[line.len() as int + 1] == '\n' as u8);
    assert forall|i: int| 0 <= i < at implies !spec_at_line_end(#[trigger] s.skip(i), relaxed) by {
        let t = s.skip(i);
        assert(t[0] == s[i]);
        if i < line.len() {
            assert(s[i] == line[i]);
        }
    }
    assert(s.skip(at)[0] == s[at]);
    if !relaxed {
        assert(s.skip(at)[1] == s[at + 1]);
    }
    lemma_first_line_end(s, relaxed, at);
    assert forall|n: int| 0 <= n < line.len() + 2 implies #[trigger] spec_first_line_end(
        s.take(n),
        relaxed,
    ) is None by {
        let p = s.take(n);
        assert forall|i: int| 0 <= i < n implies !spec_at_line_end(#[trigger] p.skip(i), relaxed) by {
            let t = p.skip(i);
            assert(t[0] == s[i]);
            if i < line.len() {
                assert(s[i] == line[i]);
            }
            if t.len() >= 2 {
                assert(t[1] == s[i + 1]);
            }
        }
        lemma_first_line_end(p, relaxed, n);
    }
}

/// A rule whose items are written as text.
pub trait SingleLine: Reversible {
    /// The written form of a well-formed item is text.
    proof fn lemma_text(v: <Self::Item as DeepView>::V)
        requires
            Self::wf(v),
        ensures
            CharClass::Text.all(<Self::Item as Encoder>::wire(v)),
    ;
}

/// Items that are written as text, each behind a separator that is text,
/// make a text.
pub proof fn lemma_wire_each_text<R: SingleLine>(items: Seq<<R::Item as DeepView>::V>, sep: u8)
    requires
        CharClass::Text.spec_has(sep),
        forall|i: int| 0 <= i < items.len() ==> R::wf(#[trigger] items[i]),
    ensures
        CharClass::Text.all(spec_wire_each::<R::Item>(items, sep)),
    decreases items.len(),
{
    if items.len() > 0 {
        let front = items.drop_last();
        assert forall|i: int| 0 <= i < front.len() implies R::wf(#[trigger] front[i]) by {
            assert(front[i] == items[i]);
        }
        lemma_wire_each_text::<R>(front, sep);
        assert(R::wf(items[items.len() - 1]));
        R::lemma_text(items.last());
        lemma_text_concat(spec_wire_each::<R::Item>(front, sep), seq![sep]);
        lemma_text_concat(
            spec_wire_each::<R::Item>(front, sep) + seq![sep],
            <R::Item as Encoder>::wire(items.last()),
        );
    }
}

/// Items that are written as text, with a separator between them that is
/// text, make a text.
pub proof fn lemma_wire_joined_text<R: SingleLine>(items: Seq<<R::Item as DeepView>::V>, sep: u8)
    requires
        CharClass::Text.spec_has(sep),
        forall|i: int| 0 <= i < items.len() ==> R::wf(#[trigger] items[i]),
    ensures
        CharClass::Text.all(spec_wire_joined::<R::Item>(items, sep)),
{
    if items.len() > 0 {
        let tail = items.skip(1);
        assert forall|i: int| 0 <= i < tail.len() implies R::wf(#[trigger] tail[i]) by {
            assert(tail[i] == items[i + 1]);
        }
        assert(R::wf(items[0]));
        R::lemma_text(items[0]);
        lemma_wire_each_text::<R>(tail, sep);
        lemma_text_concat(
            <R::Item as Encoder>::wire(items[0]),
            spec_wire_each::<R::Item>(tail, sep),
        );
    }
}

/// The content of a quoted string with its escapes is text.
pub proof fn lemma_escape_is_text(v: Seq<u8>)
    requires
        is_quoted(v),
    ensures
        CharClass::Text.all(spec_escape(v)),
    decreases v.len(),
{
    if v.len() > 0 {
        let w = v.drop_last();
        assert forall|i: int| 0 <= i < w.len() implies CharClass::Text.spec_has(#[trigger] w[i]) by {
            assert(w[i] == v[i]);
        }
        lemma_escape_is_text(w);
        assert(CharClass::Text.spec_has(v[v.len() - 1]));
        lemma_text_concat(spec_escape(w), spec_escape_byte(v.last()));
    }
}

impl SingleLine for CharsetRule {
    proof fn lemma_text(v: CharsetModel) {
        match v {
            CharsetModel::Atom(a) => {},
            CharsetModel::Quoted(q) => {
                lemma_escape_is_text(q);
                lemma_text_concat(seq!['"' as u8], spec_escape(q));
                lemma_text_concat(seq!['"' as u8] + spec_escape(q), seq!['"' as u8]);
            },
        }
    }
}

impl SingleLine for CapabilityRule {
    proof fn lemma_text(v: CapabilityModel) {
        lemma_capability_name(v);
    }
}

/// The written form of a flag is text.
pub proof fn lemma_flag_is_text(f: FlagModel)
    requires
        wf_flag(f),
    ensures
        CharClass::Text.all(spec_encode_flag(f)),
{
    match f {
        FlagModel::System(x) => {
            lemma_system_flag_name(x);
            lemma_text_concat(seq!['\\' as u8], spec_system_flag_name(x));
        },
        FlagModel::Extension(a) => {
            lemma_text_concat(seq!['\\' as u8], a);
        },
        FlagModel::Keyword(a) => {},
        FlagModel::Recent => {},
    }
}

impl SingleLine for FlagPermRule {
    proof fn lemma_text(v: FlagPermModel) {
        match v {
            FlagPermModel::Flag(f) => lemma_flag_is_text(f),
            FlagPermModel::Asterisk => {
                crate::theorems::keywords::lemma_kw_bs_star();
            },
        }
    }
}

} // verus!

verus! {

/// The charsets of a `BADCHARSET` code are written as text.
proof fn lemma_charsets_text(allowed: Seq<CharsetModel>)
    requires
        forall|i: int| 0 <= i < allowed.len() ==> wf_charset(#[trigger] allowed[i]),
    ensures
        CharClass::Text.all(spec_encode_charsets(allowed)),
{
    crate::theorems::keywords::lemma_words_are_text();
    if allowed.len() > 0 {
        lemma_wire_joined_text::<CharsetRule>(allowed, ' ' as u8);
        lemma_text_concat(kw(" ("), spec_wire_joined::<Charset>(allowed, ' ' as u8));
        lemma_text_concat(
            kw(" (") + spec_wire_joined::<Charset>(allowed, ' ' as u8),
            seq![')' as u8],
        );
    }
}

/// A code that has a variant of its own is written as text.
pub proof fn lemma_known_code_is_text(c: CodeModel)
    requires
        wf_known_code(c),
    ensures
        CharClass::Text.all(spec_encode_code(c)),
{
    crate::theorems::keywords::lemma_words_are_text();
    match c {
        CodeModel::BadCharset { allowed } => {
            lemma_charsets_text(allowed);
            lemma_text_concat(kw("BADCHARSET"), spec_encode_charsets(allowed));
        },
        CodeModel::Capability(caps) => {
            lemma_wire_joined_text::<CapabilityRule>(caps, ' ' as u8);
            lemma_text_concat(kw("CAPABILITY "), spec_wire_joined::<Capability>(caps, ' ' as u8));
        },
        CodeModel::PermanentFlags(flags) => {
            lemma_wire_joined_text::<FlagPermRule>(flags, ' ' as u8);
            lemma_text_concat(
                kw("PERMANENTFLAGS ("),
                spec_wire_joined::<FlagPerm>(flags, ' ' as u8),
            );
            lemma_text_concat(
                kw("PERMANENTFLAGS (") + spec_wire_joined::<FlagPerm>(flags, ' ' as u8),
                seq![')' as u8],
            );
        },
        CodeModel::UidNext(n) => {
            lemma_digits(n as nat);
            lemma_text_concat(kw("UIDNEXT "), spec_digits(n as nat));
        },
        CodeModel::UidValidity(n) => {
            lemma_digits(n as nat);
            lemma_text_concat(kw("UIDVALIDITY "), spec_digits(n as nat));
        },
        CodeModel::Unseen(n) => {
            lemma_digits(n as nat);
            lemma_text_concat(kw("UNSEEN "), spec_digits(n as nat));
        },
        _ => {},
    }
}

/// A response text is written without CR and LF.
pub proof fn lemma_resp_text_is_unbroken(code: Option<CodeModel>, text: Seq<u8>)
    requires
        is_text(text),
        match code {
            None => true,
            Some(CodeModel::Other(raw)) => CharClass::Bracketed.all(raw),
            Some(c) => wf_known_code(c),
        },
    ensures
        unbroken(spec_encode_resp_text(code, text)),
{
    lemma_text_is_unbroken(text);
    match code {
        None => {
            assert(spec_encode_resp_text(code, text) =~= text);
        },
        Some(c) => {
            let e = spec_encode_code(c);
            if c is Other {
                assert(unbroken(e));
            } else {
                lemma_known_code_is_text(c);
                lemma_text_is_unbroken(e);
            }
            lemma_unbroken_concat(seq!['[' as u8], e);
            lemma_unbroken_concat(seq!['[' as u8] + e, seq![']' as u8, ' ' as u8]);
            lemma_unbroken_concat(spec_encode_opt_code(code), text);
        },
    }
}

} // verus!
