//! Strings that are written and read back.

use crate::error::ParseError;
use crate::lex::{kw, CharClass};
use crate::number::{
    lemma_digits, lemma_digits_then, lemma_number_roundtrip, spec_digits, spec_number, NumberRule,
    NzNumber, NzNumberRule,
};
use crate::theorems::list::Reversible;
use crate::strings::{
    is_atom, is_atom_ext, is_plain_quoted_char, is_quoted, is_tag, is_text, spec_astring, spec_atom,
    spec_charset, spec_encode_astring, spec_encode_charset, spec_encode_literal,
    spec_encode_literal_header, spec_encode_nstring, spec_encode_quoted, spec_encode_quoted_char,
    spec_encode_string, spec_escape, spec_escape_byte, spec_literal, spec_literal_header,
    spec_literal_mode, spec_nstring, spec_quoted, spec_quoted_body, spec_quoted_char, spec_string,
    spec_tag_imap, spec_text, AString, AStringModel, AStringRule, Atom, AtomRule, Charset,
    CharsetModel, CharsetRule, IString, IStringModel, LiteralMode, LiteralModel, NString,
    NStringRule, StringRule, MAX_LITERAL_LEN,
};
use crate::theorems::lex::{
    lemma_byte, lemma_crlf, lemma_no_byte, lemma_no_run, lemma_run, lemma_tag,
};
use vstd::prelude::*;
use vstd::string::*;

verus! {

/// The escaped form of a sequence is the escaped form of its first byte,
/// then that of the rest.
pub proof fn lemma_escape_front(v: Seq<u8>)
    requires
        v.len() >= 1,
    ensures
        spec_escape(v) == spec_escape_byte(v[0]) + spec_escape(v.skip(1)),
    decreases v.len(),
{
    if v.len() == 1 {
        assert(v.drop_last() =~= Seq::<u8>::empty());
        assert(v.skip(1) =~= Seq::<u8>::empty());
        assert(spec_escape(v.drop_last()) =~= Seq::<u8>::empty());
        assert(spec_escape(v) =~= spec_escape_byte(v[0]) + spec_escape(v.skip(1)));
    } else {
        let w = v.drop_last();
        lemma_escape_front(w);
        assert(w.skip(1) =~= v.skip(1).drop_last());
        assert(w[0] == v[0]);
        assert(v.skip(1).last() == v.last());
        assert(spec_escape(v) =~= spec_escape_byte(v[0]) + spec_escape(v.skip(1)));
    }
}

/// The content of a quoted string is read back behind whatever was read
/// before it.
pub proof fn lemma_quoted_body(v: Seq<u8>, acc: Seq<u8>, rest: Seq<u8>)
    requires
        is_quoted(v),
    ensures
        spec_quoted_body(spec_escape(v) + seq!['"' as u8] + rest, acc) == Ok::<_, ParseError>(
            (rest, acc + v),
        ),
    decreases v.len(),
{
    let s = spec_escape(v) + seq!['"' as u8] + rest;
    if v.len() == 0 {
        assert(spec_escape(v) =~= Seq::<u8>::empty());
        assert(s[0] == '"' as u8);
        assert(s.skip(1) =~= rest);
        assert(acc + v =~= acc);
    } else {
        let c = v[0];
        let w = v.skip(1);
        lemma_escape_front(v);
        assert(CharClass::Text.spec_has(c));
        assert forall|i: int| 0 <= i < w.len() implies CharClass::Text.spec_has(#[trigger] w[i]) by {
            assert(w[i] == v[i + 1]);
        }
        let t = spec_escape(w) + seq!['"' as u8] + rest;
        lemma_quoted_body(w, acc.push(c), rest);
        assert(acc.push(c) + w =~= acc + v);
        if c == '"' as u8 || c == '\\' as u8 {
            assert(s =~= seq!['\\' as u8, c] + t);
            assert(s[0] == '\\' as u8);
            assert(s[1] == c);
            assert(s.skip(2) =~= t);
            assert(spec_quoted_char(s) == Ok::<_, ParseError>((t, c)));
        } else {
            assert(s =~= seq![c] + t);
            assert(s[0] == c);
            assert(s.skip(1) =~= t);
            assert(is_plain_quoted_char(c));
            assert(spec_quoted_char(s) == Ok::<_, ParseError>((t, c)));
        }
    }
}

/// A quoted string is read back as its content, whatever follows it.
pub proof fn lemma_quoted_roundtrip(v: Seq<u8>, rest: Seq<u8>)
    requires
        is_quoted(v),
    ensures
        spec_quoted(spec_encode_quoted(v) + rest) == Ok::<_, ParseError>((rest, v)),
        (spec_encode_quoted(v) + rest)[0] == '"' as u8,
{
    let s = spec_encode_quoted(v) + rest;
    let t = spec_escape(v) + seq!['"' as u8] + rest;
    assert(s =~= seq!['"' as u8] + t);
    lemma_byte('"' as u8, t);
    lemma_quoted_body(v, Seq::empty(), rest);
    assert(Seq::<u8>::empty() + v =~= v);
}

/// A quoted character is read back, whatever follows it.
pub proof fn lemma_quoted_char_roundtrip(c: u8, rest: Seq<u8>)
    requires
        CharClass::Text.spec_has(c),
    ensures
        spec_quoted_char(spec_encode_quoted_char(c) + rest) == Ok::<_, ParseError>((rest, c)),
{
    let s = spec_encode_quoted_char(c) + rest;
    if c == '"' as u8 || c == '\\' as u8 {
        assert(s[0] == '\\' as u8);
        assert(s[1] == c);
        assert(s.skip(2) =~= rest);
    } else {
        assert(s[0] == c);
        assert(s.skip(1) =~= rest);
    }
}

/// The header of a literal is read back as the length and the mode that it
/// announces: the payload is left where it is.
pub proof fn lemma_literal_header_roundtrip(n: u32, mode: LiteralMode, rest: Seq<u8>)
    ensures
        spec_literal_header(spec_encode_literal_header(n as nat, mode) + rest) == Ok::<
            _,
            ParseError,
        >((rest, (n, mode))),
        (spec_encode_literal_header(n as nat, mode) + rest)[0] == '{' as u8,
{
    let s = spec_encode_literal_header(n as nat, mode) + rest;
    let end = seq!['}' as u8, '\r' as u8, '\n' as u8] + rest;
    let sign = match mode {
        LiteralMode::Sync => Seq::<u8>::empty(),
        LiteralMode::NonSync => seq!['+' as u8],
    };
    let after_digits = sign + end;
    let after_brace = spec_digits(n as nat) + after_digits;
    assert(s =~= seq!['{' as u8] + after_brace);
    lemma_byte('{' as u8, after_brace);
    assert(after_digits[0] == '+' as u8 || after_digits[0] == '}' as u8);
    lemma_digits_then(n as nat, after_digits);
    assert(spec_number(after_brace) == Ok::<_, ParseError>((after_digits, n)));
    match mode {
        LiteralMode::Sync => {
            assert(after_digits =~= end);
            assert(spec_literal_mode(after_digits) == Ok::<_, ParseError>((end, mode)));
        },
        LiteralMode::NonSync => {
            assert(after_digits =~= seq!['+' as u8] + end);
            lemma_byte('+' as u8, end);
            assert(spec_literal_mode(after_digits) == Ok::<_, ParseError>((end, mode)));
        },
    }
    let line_end = seq!['\r' as u8, '\n' as u8] + rest;
    assert(end =~= seq!['}' as u8] + line_end);
    lemma_byte('}' as u8, line_end);
    lemma_crlf(rest, false);
}

/// A literal is read back: after its header exactly as many bytes as it
/// announces are taken, whatever they are, and what follows them is left.
pub proof fn lemma_literal_roundtrip(l: LiteralModel, rest: Seq<u8>)
    requires
        l.data.len() <= MAX_LITERAL_LEN,
    ensures
        spec_literal(spec_encode_literal(l) + rest) == Ok::<_, ParseError>((rest, l)),
        (spec_encode_literal(l) + rest)[0] == '{' as u8,
{
    let n = l.data.len() as u32;
    let s = spec_encode_literal(l) + rest;
    let payload = l.data + rest;
    assert(s =~= spec_encode_literal_header(n as nat, l.mode) + payload);
    lemma_literal_header_roundtrip(n, l.mode, payload);
    assert(payload.take(n as int) =~= l.data);
    assert(payload.skip(n as int) =~= rest);
}

/// A string is well formed: a quoted string holds text characters only, a
/// literal is no longer than the limit.
pub open spec fn wf_string(v: IStringModel) -> bool {
    match v {
        IStringModel::Quoted(q) => is_quoted(q),
        IStringModel::Literal(l) => l.data.len() <= MAX_LITERAL_LEN,
    }
}

/// An nstring is well formed.
pub open spec fn wf_nstring(v: Option<IStringModel>) -> bool {
    match v {
        Some(s) => wf_string(s),
        None => true,
    }
}

/// An astring is well formed.
pub open spec fn wf_astring(v: AStringModel) -> bool {
    match v {
        AStringModel::Atom(a) => is_atom_ext(a),
        AStringModel::String(s) => wf_string(s),
    }
}

/// A charset is well formed.
pub open spec fn wf_charset(v: CharsetModel) -> bool {
    match v {
        CharsetModel::Atom(a) => is_atom(a),
        CharsetModel::Quoted(q) => is_quoted(q),
    }
}

/// What may follow an astring: a byte that cannot continue its unquoted
/// form. Strings delimit themselves, so anything may follow them.
pub open spec fn follows_astring(v: AStringModel, rest: Seq<u8>) -> bool {
    v is Atom ==> rest.len() >= 1 && !CharClass::AString.spec_has(rest[0])
}

/// What may follow a charset: a byte that cannot continue an atom.
pub open spec fn follows_charset(v: CharsetModel, rest: Seq<u8>) -> bool {
    v is Atom ==> rest.len() >= 1 && !CharClass::Atom.spec_has(rest[0])
}

/// A string is read back, whatever follows it.
pub proof fn lemma_string_roundtrip(v: IStringModel, rest: Seq<u8>)
    requires
        wf_string(v),
    ensures
        spec_string(spec_encode_string(v) + rest) == Ok::<_, ParseError>((rest, v)),
        (spec_encode_string(v) + rest)[0] == '"' as u8 || (spec_encode_string(v) + rest)[0]
            == '{' as u8,
{
    reveal(spec_string);
    let s = spec_encode_string(v) + rest;
    match v {
        IStringModel::Quoted(q) => {
            lemma_quoted_roundtrip(q, rest);
        },
        IStringModel::Literal(l) => {
            lemma_literal_roundtrip(l, rest);
            lemma_no_byte(s, '"' as u8);
        },
    }
}

/// The keyword `NIL` is the three bytes of its name.
pub proof fn lemma_nil_bytes()
    ensures
        kw("NIL") == seq!['N' as u8, 'I' as u8, 'L' as u8],
{
    reveal_strlit("NIL");
    is_ascii_spec_bytes("NIL");
    assert(is_ascii("NIL"));
    assert(kw("NIL") =~= seq!['N' as u8, 'I' as u8, 'L' as u8]);
}

/// An nstring is read back, whatever follows it.
pub proof fn lemma_nstring_roundtrip(v: Option<IStringModel>, rest: Seq<u8>)
    requires
        wf_nstring(v),
    ensures
        spec_nstring(spec_encode_nstring(v) + rest) == Ok::<_, ParseError>((rest, v)),
{
    reveal(spec_nstring);
    reveal(spec_string);
    let s = spec_encode_nstring(v) + rest;
    match v {
        Some(x) => {
            lemma_string_roundtrip(x, rest);
        },
        None => {
            lemma_nil_bytes();
            assert(s[0] == 'N' as u8);
            lemma_no_byte(s, '"' as u8);
            lemma_no_byte(s, '{' as u8);
            lemma_tag(kw("NIL"), rest);
        },
    }
}

/// An atom is read back where a byte that is no atom character follows.
pub proof fn lemma_atom_roundtrip(a: Seq<u8>, rest: Seq<u8>)
    requires
        is_atom(a),
        rest.len() >= 1,
        !CharClass::Atom.spec_has(rest[0]),
    ensures
        spec_atom(a + rest) == Ok::<_, ParseError>((rest, a)),
{
    lemma_run(a, rest, CharClass::Atom);
}

/// A text is read back where a byte that is no text character follows:
/// CR, LF, NUL or a byte above 127.
pub proof fn lemma_text_roundtrip(t: Seq<u8>, rest: Seq<u8>)
    requires
        is_text(t),
        rest.len() >= 1,
        !CharClass::Text.spec_has(rest[0]),
    ensures
        spec_text(t + rest) == Ok::<_, ParseError>((rest, t)),
{
    lemma_run(t, rest, CharClass::Text);
}

/// A tag is read back where a byte that cannot continue it follows.
pub proof fn lemma_tag_imap_roundtrip(t: Seq<u8>, rest: Seq<u8>)
    requires
        is_tag(t),
        rest.len() >= 1,
        !CharClass::Tag.spec_has(rest[0]),
    ensures
        spec_tag_imap(t + rest) == Ok::<_, ParseError>((rest, t)),
{
    lemma_run(t, rest, CharClass::Tag);
}

/// An astring is read back in the form in which it was written.
pub proof fn lemma_astring_roundtrip(v: AStringModel, rest: Seq<u8>)
    requires
        wf_astring(v),
        follows_astring(v, rest),
    ensures
        spec_astring(spec_encode_astring(v) + rest) == Ok::<_, ParseError>((rest, v)),
{
    let s = spec_encode_astring(v) + rest;
    match v {
        AStringModel::Atom(a) => {
            lemma_run(a, rest, CharClass::AString);
        },
        AStringModel::String(x) => {
            lemma_string_roundtrip(x, rest);
            lemma_no_run(s, CharClass::AString);
        },
    }
}

/// A charset is read back in the form in which it was written.
pub proof fn lemma_charset_roundtrip(v: CharsetModel, rest: Seq<u8>)
    requires
        wf_charset(v),
        follows_charset(v, rest),
    ensures
        spec_charset(spec_encode_charset(v) + rest) == Ok::<_, ParseError>((rest, v)),
{
    let s = spec_encode_charset(v) + rest;
    match v {
        CharsetModel::Atom(a) => {
            lemma_run(a, rest, CharClass::Atom);
        },
        CharsetModel::Quoted(q) => {
            lemma_quoted_roundtrip(q, rest);
            lemma_no_run(s, CharClass::Atom);
        },
    }
}

} // verus!

verus! {

impl Reversible for AtomRule {
    type Item = Atom;

    open spec fn wf(v: Seq<u8>) -> bool {
        is_atom(v)
    }

    open spec fn ends_before(v: Seq<u8>, next: u8) -> bool {
        !CharClass::Atom.spec_has(next)
    }

    proof fn lemma_roundtrip(v: Seq<u8>, rest: Seq<u8>) {
        lemma_atom_roundtrip(v, rest);
    }
}

impl Reversible for StringRule {
    type Item = IString;

    open spec fn wf(v: IStringModel) -> bool {
        wf_string(v)
    }

    open spec fn ends_before(v: IStringModel, next: u8) -> bool {
        true
    }

    proof fn lemma_roundtrip(v: IStringModel, rest: Seq<u8>) {
        lemma_string_roundtrip(v, rest);
    }
}

impl Reversible for NStringRule {
    type Item = NString;

    open spec fn wf(v: Option<IStringModel>) -> bool {
        wf_nstring(v)
    }

    open spec fn ends_before(v: Option<IStringModel>, next: u8) -> bool {
        true
    }

    proof fn lemma_roundtrip(v: Option<IStringModel>, rest: Seq<u8>) {
        lemma_nstring_roundtrip(v, rest);
        match v {
            Some(x) => {
                lemma_string_roundtrip(x, rest);
            },
            None => {
                lemma_nil_bytes();
            },
        }
    }
}

impl Reversible for AStringRule {
    type Item = AString;

    open spec fn wf(v: AStringModel) -> bool {
        wf_astring(v)
    }

    open spec fn ends_before(v: AStringModel, next: u8) -> bool {
        v is Atom ==> !CharClass::AString.spec_has(next)
    }

    proof fn lemma_roundtrip(v: AStringModel, rest: Seq<u8>) {
        lemma_astring_roundtrip(v, rest);
        match v {
            AStringModel::Atom(a) => {},
            AStringModel::String(x) => {
                lemma_string_roundtrip(x, rest);
            },
        }
    }
}

impl Reversible for CharsetRule {
    type Item = Charset;

    open spec fn wf(v: CharsetModel) -> bool {
        wf_charset(v)
    }

    open spec fn ends_before(v: CharsetModel, next: u8) -> bool {
        v is Atom ==> !CharClass::Atom.spec_has(next)
    }

    proof fn lemma_roundtrip(v: CharsetModel, rest: Seq<u8>) {
        lemma_charset_roundtrip(v, rest);
        match v {
            CharsetModel::Atom(a) => {},
            CharsetModel::Quoted(q) => {
                lemma_quoted_roundtrip(q, rest);
            },
        }
    }
}

impl Reversible for NumberRule {
    type Item = u32;

    open spec fn wf(v: u32) -> bool {
        true
    }

    open spec fn ends_before(v: u32, next: u8) -> bool {
        !CharClass::Digit.spec_has(next)
    }

    proof fn lemma_roundtrip(v: u32, rest: Seq<u8>) {
        lemma_number_roundtrip(v, rest);
        lemma_digits(v as nat);
    }
}

impl Reversible for NzNumberRule {
    type Item = NzNumber;

    open spec fn wf(v: u32) -> bool {
        v >= 1
    }

    open spec fn ends_before(v: u32, next: u8) -> bool {
        !CharClass::Digit.spec_has(next)
    }

    proof fn lemma_roundtrip(v: u32, rest: Seq<u8>) {
        lemma_number_roundtrip(v, rest);
        lemma_digits(v as nat);
    }
}

} // verus!
