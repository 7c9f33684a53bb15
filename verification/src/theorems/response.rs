//! Greetings and status responses that are written and read back.

use crate::auth::{
    spec_auth_mechanism_from, spec_encode_auth_mechanism, AuthMechanismModel,
};
use crate::error::{error_at, spec_or, Category, ParseError};
use crate::flag::{spec_flag_perm, FlagPerm, FlagPermModel, FlagPermRule};
use crate::lex::{eq_ignore_case, kw, spec_lower, spec_tag_no_case, CharClass};
use crate::list::{spec_separated0, spec_wire_joined};
use crate::number::spec_digits;
use crate::response::{
    spec_bracketed_code, spec_capability, spec_capability_data, spec_capability_from,
    spec_charset_list, spec_code_badcharset, spec_code_capability, spec_code_extension,
    spec_code_number, spec_code_permanentflags, spec_code_plain, spec_code_with_data,
    spec_code_word, spec_encode_capability, spec_encode_capability_data, spec_encode_charsets,
    spec_encode_code, spec_plain_capability, spec_resp_text_code, Capability, CapabilityModel,
    CapabilityRule, CodeModel,
};
use crate::strings::{is_atom, Charset, CharsetModel, CharsetRule};
use crate::theorems::flag::wf_flag_perm;
use crate::theorems::keywords::{
    lemma_auth_words, lemma_capability_words, lemma_kw_alert, lemma_kw_badcharset,
    lemma_kw_bs_star, lemma_kw_capability, lemma_kw_capability_sp, lemma_kw_compressionactive,
    lemma_kw_overquota, lemma_kw_parse, lemma_kw_permanentflags, lemma_kw_permanentflags_paren,
    lemma_kw_read_only, lemma_kw_read_write, lemma_kw_sp_paren, lemma_kw_toobig,
    lemma_kw_trycreate, lemma_kw_uidnext, lemma_kw_uidnext_sp, lemma_kw_uidvalidity,
    lemma_kw_uidvalidity_sp, lemma_kw_unseen, lemma_kw_unseen_sp,
};
use crate::theorems::lex::{
    lemma_byte, lemma_no_byte, lemma_no_run, lemma_run, lemma_tag, lemma_tag_mismatch,
};
use crate::theorems::list::{
    all_end_before, lemma_separated0_empty, lemma_separated1_roundtrip, Reversible,
};
use crate::theorems::strings::wf_charset;
use vstd::prelude::*;

verus! {

/// A mechanism is one that an atom can name: a mechanism without a variant
/// of its own is named by an atom that names no other.
pub open spec fn wf_auth_mechanism(m: AuthMechanismModel) -> bool {
    m matches AuthMechanismModel::Other(a) ==> is_atom(a) && spec_auth_mechanism_from(a) == m
}

/// The name of a mechanism is an atom that names it.
pub proof fn lemma_auth_mechanism_name(m: AuthMechanismModel)
    requires
        wf_auth_mechanism(m),
    ensures
        is_atom(spec_encode_auth_mechanism(m)),
        spec_auth_mechanism_from(spec_encode_auth_mechanism(m)) == m,
{
    reveal(eq_ignore_case);
    lemma_auth_words();
    let name = spec_encode_auth_mechanism(m);
    match m {
        AuthMechanismModel::Other(a) => {},
        _ => {
            assert(name[0] == name[0]);
        },
    }
}

/// A capability is one that an atom can name.
pub open spec fn wf_capability(c: CapabilityModel) -> bool {
    match c {
        CapabilityModel::Auth(m) => wf_auth_mechanism(m),
        CapabilityModel::Other(a) => is_atom(a) && spec_capability_from(a) == c,
        _ => true,
    }
}

/// A name that begins with `AUTH=` is none of the plain names.
proof fn lemma_auth_is_not_plain(a: Seq<u8>)
    requires
        a.len() >= 1,
        spec_lower(a[0]) == 'a' as u8,
    ensures
        spec_plain_capability(a) is None,
{
    reveal(eq_ignore_case);
    lemma_capability_words();
}

/// The name of a capability is an atom that names it.
pub proof fn lemma_capability_name(c: CapabilityModel)
    requires
        wf_capability(c),
    ensures
        is_atom(spec_encode_capability(c)),
        spec_capability_from(spec_encode_capability(c)) == c,
{
    reveal(eq_ignore_case);
    lemma_capability_words();
    let name = spec_encode_capability(c);
    match c {
        CapabilityModel::Other(a) => {},
        CapabilityModel::Auth(m) => {
            lemma_auth_mechanism_name(m);
            let inner = spec_encode_auth_mechanism(m);
            assert(name[0] == 'A' as u8);
            lemma_auth_is_not_plain(name);
            assert(name.take(5) =~= kw("AUTH="));
            assert(name.skip(5) =~= inner);
            assert forall|i: int| 0 <= i < name.len() implies CharClass::Atom.spec_has(
                #[trigger] name[i],
            ) by {
                if i >= 5 {
                    assert(name[i] == inner[i - 5]);
                }
            }
        },
        CapabilityModel::LiteralMinus => {
            assert(name[7] != kw("LITERAL+")[7]);
            assert(name[0] == name[0]);
        },
        _ => {
            assert(name[0] == name[0]);
        },
    }
}

/// A capability is read back where a byte that is no atom character
/// follows.
pub proof fn lemma_capability_roundtrip(c: CapabilityModel, rest: Seq<u8>)
    requires
        wf_capability(c),
        rest.len() >= 1,
        !CharClass::Atom.spec_has(rest[0]),
    ensures
        spec_capability(spec_encode_capability(c) + rest) == Ok::<_, ParseError>((rest, c)),
        spec_encode_capability(c).len() >= 1,
{
    lemma_capability_name(c);
    lemma_run(spec_encode_capability(c), rest, CharClass::Atom);
}

impl Reversible for CapabilityRule {
    type Item = Capability;

    open spec fn wf(v: CapabilityModel) -> bool {
        wf_capability(v)
    }

    open spec fn ends_before(v: CapabilityModel, next: u8) -> bool {
        !CharClass::Atom.spec_has(next)
    }

    proof fn lemma_roundtrip(v: CapabilityModel, rest: Seq<u8>) {
        lemma_capability_roundtrip(v, rest);
    }
}

/// Every capability of a list is well formed, and there is at least one.
pub open spec fn wf_capabilities(caps: Seq<CapabilityModel>) -> bool {
    &&& caps.len() >= 1
    &&& forall|i: int| 0 <= i < caps.len() ==> wf_capability(#[trigger] caps[i])
}

/// `CAPABILITY` and its capabilities are read back where a byte follows
/// that is neither a space nor an atom character.
pub proof fn lemma_capability_data_roundtrip(caps: Seq<CapabilityModel>, rest: Seq<u8>)
    requires
        wf_capabilities(caps),
        rest.len() >= 1,
        rest[0] != ' ' as u8,
        !CharClass::Atom.spec_has(rest[0]),
    ensures
        spec_capability_data(spec_encode_capability_data(caps) + rest) == Ok::<_, ParseError>(
            (rest, caps),
        ),
{
    lemma_kw_capability();
    lemma_kw_capability_sp();
    let list = spec_wire_joined::<Capability>(caps, ' ' as u8);
    let s = spec_encode_capability_data(caps) + rest;
    assert(kw("CAPABILITY ") =~= kw("CAPABILITY") + seq![' ' as u8]);
    assert(s =~= kw("CAPABILITY") + (seq![' ' as u8] + (list + rest)));
    lemma_tag(kw("CAPABILITY"), seq![' ' as u8] + (list + rest));
    lemma_byte(' ' as u8, list + rest);
    assert(all_end_before::<CapabilityRule>(caps, ' ' as u8));
    assert(all_end_before::<CapabilityRule>(caps, rest[0]));
    lemma_separated1_roundtrip::<CapabilityRule>(caps, ' ' as u8, rest);
}

} // verus!

verus! {

/// The error of a token that does not match at the front of `s`.
pub open spec fn spec_no_match(s: Seq<u8>) -> Result<(Seq<u8>, ()), ParseError> {
    Err(error_at(Category::CharacterClass, s))
}

/// The keyword of a code is not read from input whose first byte is not
/// the first letter of the keyword.
proof fn lemma_code_words_fail(s: Seq<u8>)
    requires
        s.len() >= 1,
    ensures
        spec_lower(s[0]) != 'a' as u8 ==> spec_tag_no_case(s, kw("ALERT")) == spec_no_match(s),
        spec_lower(s[0]) != 'b' as u8 ==> spec_tag_no_case(s, kw("BADCHARSET")) == spec_no_match(
            s,
        ),
        spec_lower(s[0]) != 'c' as u8 ==> spec_tag_no_case(s, kw("CAPABILITY")) == spec_no_match(
            s,
        ) && spec_tag_no_case(s, kw("COMPRESSIONACTIVE")) == spec_no_match(s),
        spec_lower(s[0]) != 'p' as u8 ==> spec_tag_no_case(s, kw("PARSE")) == spec_no_match(s)
            && spec_tag_no_case(s, kw("PERMANENTFLAGS")) == spec_no_match(s),
        spec_lower(s[0]) != 'r' as u8 ==> spec_tag_no_case(s, kw("READ-ONLY")) == spec_no_match(s)
            && spec_tag_no_case(s, kw("READ-WRITE")) == spec_no_match(s),
        spec_lower(s[0]) != 't' as u8 ==> spec_tag_no_case(s, kw("TRYCREATE")) == spec_no_match(s)
            && spec_tag_no_case(s, kw("TOOBIG")) == spec_no_match(s),
        spec_lower(s[0]) != 'u' as u8 ==> spec_tag_no_case(s, kw("UIDNEXT")) == spec_no_match(s)
            && spec_tag_no_case(s, kw("UIDVALIDITY")) == spec_no_match(s) && spec_tag_no_case(
            s,
            kw("UNSEEN"),
        ) == spec_no_match(s),
        spec_lower(s[0]) != 'o' as u8 ==> spec_tag_no_case(s, kw("OVERQUOTA")) == spec_no_match(s),
{
    if spec_lower(s[0]) != 'a' as u8 {
        lemma_kw_alert();
        lemma_tag_mismatch(s, kw("ALERT"), 0);
    }
    if spec_lower(s[0]) != 'b' as u8 {
        lemma_kw_badcharset();
        lemma_tag_mismatch(s, kw("BADCHARSET"), 0);
    }
    if spec_lower(s[0]) != 'c' as u8 {
        lemma_kw_capability();
        lemma_kw_compressionactive();
        lemma_tag_mismatch(s, kw("CAPABILITY"), 0);
        lemma_tag_mismatch(s, kw("COMPRESSIONACTIVE"), 0);
    }
    if spec_lower(s[0]) != 'p' as u8 {
        lemma_kw_parse();
        lemma_kw_permanentflags();
        lemma_tag_mismatch(s, kw("PARSE"), 0);
        lemma_tag_mismatch(s, kw("PERMANENTFLAGS"), 0);
    }
    if spec_lower(s[0]) != 'r' as u8 {
        lemma_kw_read_only();
        lemma_kw_read_write();
        lemma_tag_mismatch(s, kw("READ-ONLY"), 0);
        lemma_tag_mismatch(s, kw("READ-WRITE"), 0);
    }
    if spec_lower(s[0]) != 't' as u8 {
        lemma_kw_trycreate();
        lemma_kw_toobig();
        lemma_tag_mismatch(s, kw("TRYCREATE"), 0);
        lemma_tag_mismatch(s, kw("TOOBIG"), 0);
    }
    if spec_lower(s[0]) != 'u' as u8 {
        lemma_kw_uidnext();
        lemma_kw_uidvalidity();
        lemma_kw_unseen();
        lemma_tag_mismatch(s, kw("UIDNEXT"), 0);
        lemma_tag_mismatch(s, kw("UIDVALIDITY"), 0);
        lemma_tag_mismatch(s, kw("UNSEEN"), 0);
    }
    if spec_lower(s[0]) != 'o' as u8 {
        lemma_kw_overquota();
        lemma_tag_mismatch(s, kw("OVERQUOTA"), 0);
    }
}

/// Where every keyword before `READ-ONLY` fails to match, the codes before
/// it in the order of the rule fail recoverably.
proof fn lemma_first_codes_fail(s: Seq<u8>)
    requires
        spec_tag_no_case(s, kw("ALERT")) == spec_no_match(s),
        spec_tag_no_case(s, kw("BADCHARSET")) == spec_no_match(s),
        spec_tag_no_case(s, kw("CAPABILITY")) == spec_no_match(s),
        spec_tag_no_case(s, kw("PARSE")) == spec_no_match(s),
        spec_tag_no_case(s, kw("PERMANENTFLAGS")) == spec_no_match(s),
    ensures
        spec_resp_text_code(s) == spec_or(
            spec_code_plain(s),
            spec_or(spec_code_with_data(s), spec_code_extension(s)),
        ),
{
    reveal(spec_resp_text_code);
    assert(spec_code_word(s, kw("ALERT"), CodeModel::Alert) matches Err(ParseError::Error(_)));
    assert(spec_code_badcharset(s) matches Err(ParseError::Error(_)));
    assert(spec_capability_data(s) matches Err(ParseError::Error(_)));
    assert(spec_code_capability(s) matches Err(ParseError::Error(_)));
    assert(spec_code_word(s, kw("PARSE"), CodeModel::Parse) matches Err(ParseError::Error(_)));
    assert(spec_code_permanentflags(s) matches Err(ParseError::Error(_)));
}

/// A code is one of those that have a variant of their own, with
/// well-formed content.
pub open spec fn wf_known_code(c: CodeModel) -> bool {
    match c {
        CodeModel::BadCharset { allowed } => forall|i: int|
            0 <= i < allowed.len() ==> wf_charset(#[trigger] allowed[i]),
        CodeModel::Capability(caps) => wf_capabilities(caps),
        CodeModel::PermanentFlags(flags) => forall|i: int|
            0 <= i < flags.len() ==> wf_flag_perm(#[trigger] flags[i]),
        CodeModel::UidNext(n) => n >= 1,
        CodeModel::UidValidity(n) => n >= 1,
        CodeModel::Unseen(n) => n >= 1,
        CodeModel::Other(_) => false,
        _ => true,
    }
}

/// `ALERT` is read back.
proof fn lemma_alert_roundtrip(rest: Seq<u8>)
    ensures
        spec_resp_text_code(kw("ALERT") + rest) == Ok::<_, ParseError>((rest, CodeModel::Alert)),
{
    reveal(spec_resp_text_code);
    lemma_tag(kw("ALERT"), rest);
}

/// `PARSE` is read back.
proof fn lemma_parse_roundtrip(rest: Seq<u8>)
    ensures
        spec_resp_text_code(kw("PARSE") + rest) == Ok::<_, ParseError>((rest, CodeModel::Parse)),
{
    reveal(spec_resp_text_code);
    lemma_kw_parse();
    let s = kw("PARSE") + rest;
    assert(s[0] == 'P' as u8);
    lemma_code_words_fail(s);
    lemma_tag(kw("PARSE"), rest);
    assert(spec_code_word(s, kw("ALERT"), CodeModel::Alert) matches Err(ParseError::Error(_)));
    assert(spec_code_badcharset(s) matches Err(ParseError::Error(_)));
    assert(spec_capability_data(s) matches Err(ParseError::Error(_)));
    assert(spec_code_capability(s) matches Err(ParseError::Error(_)));
}

/// The keywords before `READ-ONLY` do not match input that begins with
/// none of their first letters.
proof fn lemma_not_a_first_code(s: Seq<u8>)
    requires
        s.len() >= 1,
        spec_lower(s[0]) == 'r' as u8 || spec_lower(s[0]) == 't' as u8 || spec_lower(s[0])
            == 'u' as u8 || spec_lower(s[0]) == 'o' as u8,
    ensures
        spec_resp_text_code(s) == spec_or(
            spec_code_plain(s),
            spec_or(spec_code_with_data(s), spec_code_extension(s)),
        ),
{
    lemma_code_words_fail(s);
    lemma_first_codes_fail(s);
}

/// `READ-ONLY`, `READ-WRITE` and `TRYCREATE` are read back.
proof fn lemma_plain_code_roundtrip(c: CodeModel, rest: Seq<u8>)
    requires
        c is ReadOnly || c is ReadWrite || c is TryCreate,
    ensures
        spec_resp_text_code(spec_encode_code(c) + rest) == Ok::<_, ParseError>((rest, c)),
{
    let word = spec_encode_code(c);
    let s = word + rest;
    lemma_kw_read_only();
    lemma_kw_read_write();
    lemma_kw_trycreate();
    assert(s[0] == word[0]);
    assert(s[5] == word[5]);
    lemma_not_a_first_code(s);
    lemma_code_words_fail(s);
    lemma_tag(word, rest);
    if c is ReadWrite {
        lemma_tag_mismatch(s, kw("READ-ONLY"), 5);
    }
    assert(spec_code_plain(s) == Ok::<_, ParseError>((rest, c)));
}

/// The codes of extensions are read back.
proof fn lemma_extension_code_roundtrip(c: CodeModel, rest: Seq<u8>)
    requires
        c is CompressionActive || c is OverQuota || c is TooBig,
    ensures
        spec_resp_text_code(spec_encode_code(c) + rest) == Ok::<_, ParseError>((rest, c)),
{
    let word = spec_encode_code(c);
    let s = word + rest;
    lemma_kw_compressionactive();
    lemma_kw_overquota();
    lemma_kw_toobig();
    assert(s[0] == word[0]);
    assert(s[1] == word[1]);
    lemma_code_words_fail(s);
    lemma_tag(word, rest);
    if c is CompressionActive {
        lemma_kw_capability();
        lemma_tag_mismatch(s, kw("CAPABILITY"), 1);
    }
    if c is TooBig {
        lemma_kw_trycreate();
        lemma_tag_mismatch(s, kw("TRYCREATE"), 1);
    }
    lemma_first_codes_fail(s);
    assert(spec_code_plain(s) matches Err(ParseError::Error(_)));
    assert(spec_code_number(s, kw("UIDNEXT")) matches Err(ParseError::Error(_)));
    assert(spec_code_number(s, kw("UIDVALIDITY")) matches Err(ParseError::Error(_)));
    assert(spec_code_number(s, kw("UNSEEN")) matches Err(ParseError::Error(_)));
    assert(spec_code_with_data(s) matches Err(ParseError::Error(_)));
    assert(spec_code_extension(s) == Ok::<_, ParseError>((rest, c)));
}

/// The keyword of a code with a number, without the space behind it.
pub open spec fn spec_number_code_word(c: CodeModel) -> Seq<u8> {
    match c {
        CodeModel::UidNext(_) => kw("UIDNEXT"),
        CodeModel::UidValidity(_) => kw("UIDVALIDITY"),
        _ => kw("UNSEEN"),
    }
}

/// The number of a code with a number.
pub open spec fn spec_number_code_value(c: CodeModel) -> u32 {
    match c {
        CodeModel::UidNext(n) => n,
        CodeModel::UidValidity(n) => n,
        CodeModel::Unseen(n) => n,
        _ => 0,
    }
}

/// A code with a number is written as its keyword, a space and the number.
proof fn lemma_number_code_form(c: CodeModel)
    requires
        c is UidNext || c is UidValidity || c is Unseen,
    ensures
        spec_encode_code(c) == spec_number_code_word(c) + seq![' ' as u8] + spec_digits(
            spec_number_code_value(c) as nat,
        ),
{
    lemma_kw_uidnext();
    lemma_kw_uidnext_sp();
    lemma_kw_uidvalidity();
    lemma_kw_uidvalidity_sp();
    lemma_kw_unseen();
    lemma_kw_unseen_sp();
    assert(kw("UIDNEXT ") =~= kw("UIDNEXT") + seq![' ' as u8]);
    assert(kw("UIDVALIDITY ") =~= kw("UIDVALIDITY") + seq![' ' as u8]);
    assert(kw("UNSEEN ") =~= kw("UNSEEN") + seq![' ' as u8]);
}

/// A code that is a keyword and a number is read back.
proof fn lemma_number_code_roundtrip(c: CodeModel, rest: Seq<u8>)
    requires
        c is UidNext || c is UidValidity || c is Unseen,
        wf_known_code(c),
        rest.len() >= 1,
        rest[0] == ']' as u8,
    ensures
        spec_resp_text_code(spec_encode_code(c) + rest) == Ok::<_, ParseError>((rest, c)),
{
    let word = spec_number_code_word(c);
    let n = spec_number_code_value(c);
    let digits = spec_digits(n as nat);
    let s = spec_encode_code(c) + rest;
    lemma_number_code_form(c);
    assert(s =~= word + (seq![' ' as u8] + (digits + rest)));
    lemma_kw_uidnext();
    lemma_kw_uidvalidity();
    lemma_kw_unseen();
    assert(s[0] == word[0]);
    assert(s[1] == word[1]);
    assert(s[3] == word[3]);
    lemma_not_a_first_code(s);
    lemma_code_words_fail(s);
    lemma_tag(word, seq![' ' as u8] + (digits + rest));
    lemma_byte(' ' as u8, digits + rest);
    crate::number::lemma_number_roundtrip(n, rest);
    assert(spec_code_number(s, word) == Ok::<_, ParseError>((rest, n)));
    if c is UidValidity {
        lemma_tag_mismatch(s, kw("UIDNEXT"), 3);
    }
    if c is Unseen {
        lemma_tag_mismatch(s, kw("UIDNEXT"), 1);
        lemma_tag_mismatch(s, kw("UIDVALIDITY"), 1);
    }
    assert(spec_code_with_data(s) == Ok::<_, ParseError>((rest, c)));
    assert(spec_code_plain(s) matches Err(ParseError::Error(_)));
}

/// The charsets of a `BADCHARSET` code are read back.
proof fn lemma_charsets_roundtrip(allowed: Seq<CharsetModel>, rest: Seq<u8>)
    requires
        allowed.len() >= 1,
        forall|i: int| 0 <= i < allowed.len() ==> wf_charset(#[trigger] allowed[i]),
    ensures
        spec_charset_list(spec_encode_charsets(allowed) + rest) == Ok::<_, ParseError>(
            (rest, allowed),
        ),
{
    lemma_kw_sp_paren();
    let list = spec_wire_joined::<Charset>(allowed, ' ' as u8);
    let close = seq![')' as u8] + rest;
    let tail = spec_encode_charsets(allowed) + rest;
    assert(kw(" (") =~= seq![' ' as u8, '(' as u8]);
    assert(tail =~= seq![' ' as u8] + (seq!['(' as u8] + (list + close)));
    lemma_byte(' ' as u8, seq!['(' as u8] + (list + close));
    lemma_byte('(' as u8, list + close);
    assert(all_end_before::<CharsetRule>(allowed, ' ' as u8));
    assert(all_end_before::<CharsetRule>(allowed, close[0]));
    lemma_separated1_roundtrip::<CharsetRule>(allowed, ' ' as u8, close);
    lemma_byte(')' as u8, rest);
}

/// The code `BADCHARSET` is read back with its charsets.
proof fn lemma_badcharset_roundtrip(allowed: Seq<CharsetModel>, rest: Seq<u8>)
    requires
        wf_known_code(CodeModel::BadCharset { allowed }),
        rest.len() >= 1,
        rest[0] == ']' as u8,
    ensures
        spec_resp_text_code(spec_encode_code(CodeModel::BadCharset { allowed }) + rest) == Ok::<
            _,
            ParseError,
        >((rest, CodeModel::BadCharset { allowed })),
{
    reveal(spec_resp_text_code);
    lemma_kw_badcharset();
    let c = CodeModel::BadCharset { allowed };
    let s = spec_encode_code(c) + rest;
    let tail = spec_encode_charsets(allowed) + rest;
    assert(s =~= kw("BADCHARSET") + tail);
    assert(s[0] == 'B' as u8);
    lemma_code_words_fail(s);
    lemma_tag(kw("BADCHARSET"), tail);
    if allowed.len() == 0 {
        assert(allowed =~= Seq::<CharsetModel>::empty());
        assert(tail =~= rest);
        lemma_no_byte(rest, ' ' as u8);
        assert(spec_charset_list(tail) matches Err(ParseError::Error(_)));
    } else {
        lemma_charsets_roundtrip(allowed, rest);
    }
    assert(spec_code_badcharset(s) == Ok::<_, ParseError>((rest, c)));
    assert(spec_code_word(s, kw("ALERT"), CodeModel::Alert) matches Err(ParseError::Error(_)));
}

/// `CAPABILITY` and its capabilities are read back as a code.
proof fn lemma_capability_code_roundtrip(caps: Seq<CapabilityModel>, rest: Seq<u8>)
    requires
        wf_capabilities(caps),
        rest.len() >= 1,
        rest[0] == ']' as u8,
    ensures
        spec_resp_text_code(spec_encode_code(CodeModel::Capability(caps)) + rest) == Ok::<
            _,
            ParseError,
        >((rest, CodeModel::Capability(caps))),
{
    reveal(spec_resp_text_code);
    lemma_kw_capability_sp();
    let s = spec_encode_code(CodeModel::Capability(caps)) + rest;
    assert(s[0] == 'C' as u8);
    lemma_code_words_fail(s);
    lemma_capability_data_roundtrip(caps, rest);
    assert(spec_code_word(s, kw("ALERT"), CodeModel::Alert) matches Err(ParseError::Error(_)));
    assert(spec_code_badcharset(s) matches Err(ParseError::Error(_)));
    assert(spec_code_capability(s) == Ok::<_, ParseError>((rest, CodeModel::Capability(caps))));
}

/// The flags of a `PERMANENTFLAGS` code are read back from between the
/// parentheses.
proof fn lemma_flag_perms_roundtrip(flags: Seq<FlagPermModel>, rest: Seq<u8>)
    requires
        forall|i: int| 0 <= i < flags.len() ==> wf_flag_perm(#[trigger] flags[i]),
    ensures
        spec_separated0::<FlagPermRule>(
            spec_wire_joined::<FlagPerm>(flags, ' ' as u8) + (seq![')' as u8] + rest),
            ' ' as u8,
        ) == Ok::<_, ParseError>((seq![')' as u8] + rest, flags)),
{
    let list = spec_wire_joined::<FlagPerm>(flags, ' ' as u8);
    let close = seq![')' as u8] + rest;
    if flags.len() == 0 {
        lemma_kw_bs_star();
        assert(flags =~= Seq::<FlagPermModel>::empty());
        assert(list + close =~= close);
        lemma_tag_mismatch(close, kw("\\*"), 0);
        lemma_no_byte(close, '\\' as u8);
        lemma_no_run(close, CharClass::Atom);
        assert(spec_flag_perm(close) matches Err(ParseError::Error(_)));
        lemma_separated0_empty::<FlagPermRule>(' ' as u8, close);
    } else {
        assert(all_end_before::<FlagPermRule>(flags, ' ' as u8));
        assert(all_end_before::<FlagPermRule>(flags, close[0]));
        lemma_separated1_roundtrip::<FlagPermRule>(flags, ' ' as u8, close);
    }
}

/// The code `PERMANENTFLAGS` is written as its keyword, a space and the
/// flags in parentheses.
proof fn lemma_permanentflags_form(flags: Seq<FlagPermModel>)
    ensures
        spec_encode_code(CodeModel::PermanentFlags(flags)) == kw("PERMANENTFLAGS") + (seq![
            ' ' as u8,
        ] + (seq!['(' as u8] + (spec_wire_joined::<FlagPerm>(flags, ' ' as u8) + seq![
            ')' as u8,
        ]))),
        kw("PERMANENTFLAGS")[0] == 'P' as u8,
        kw("PERMANENTFLAGS")[1] == 'E' as u8,
        kw("PERMANENTFLAGS").len() == 14,
{
    lemma_kw_permanentflags();
    lemma_kw_permanentflags_paren();
    assert(kw("PERMANENTFLAGS (") =~= kw("PERMANENTFLAGS") + seq![' ' as u8, '(' as u8]);
    assert(spec_encode_code(CodeModel::PermanentFlags(flags)) =~= kw("PERMANENTFLAGS") + (seq![
        ' ' as u8,
    ] + (seq!['(' as u8] + (spec_wire_joined::<FlagPerm>(flags, ' ' as u8) + seq![
        ')' as u8,
    ]))));
}

/// The code `PERMANENTFLAGS` is read back by its own rule, and its written
/// form begins with `PE`.
proof fn lemma_permanentflags_own(flags: Seq<FlagPermModel>, rest: Seq<u8>)
    requires
        forall|i: int| 0 <= i < flags.len() ==> wf_flag_perm(#[trigger] flags[i]),
    ensures
        spec_code_permanentflags(spec_encode_code(CodeModel::PermanentFlags(flags)) + rest)
            == Ok::<_, ParseError>((rest, CodeModel::PermanentFlags(flags))),
        (spec_encode_code(CodeModel::PermanentFlags(flags)) + rest).len() >= 2,
        (spec_encode_code(CodeModel::PermanentFlags(flags)) + rest)[0] == 'P' as u8,
        (spec_encode_code(CodeModel::PermanentFlags(flags)) + rest)[1] == 'E' as u8,
{
    let s = spec_encode_code(CodeModel::PermanentFlags(flags)) + rest;
    let list = spec_wire_joined::<FlagPerm>(flags, ' ' as u8);
    let close = seq![')' as u8] + rest;
    let inner = list + close;
    let paren = seq!['(' as u8] + inner;
    let tail = seq![' ' as u8] + paren;
    lemma_permanentflags_form(flags);
    assert(s =~= kw("PERMANENTFLAGS") + tail);
    lemma_tag(kw("PERMANENTFLAGS"), tail);
    lemma_byte(' ' as u8, paren);
    lemma_byte('(' as u8, inner);
    lemma_byte(')' as u8, rest);
    lemma_flag_perms_roundtrip(flags, rest);
}

/// The code `PERMANENTFLAGS` is read back with its flags.
proof fn lemma_permanentflags_roundtrip(flags: Seq<FlagPermModel>, rest: Seq<u8>)
    requires
        wf_known_code(CodeModel::PermanentFlags(flags)),
        rest.len() >= 1,
        rest[0] == ']' as u8,
    ensures
        spec_resp_text_code(spec_encode_code(CodeModel::PermanentFlags(flags)) + rest) == Ok::<
            _,
            ParseError,
        >((rest, CodeModel::PermanentFlags(flags))),
{
    reveal(spec_resp_text_code);
    let s = spec_encode_code(CodeModel::PermanentFlags(flags)) + rest;
    lemma_permanentflags_own(flags, rest);
    lemma_code_words_fail(s);
    lemma_kw_parse();
    lemma_tag_mismatch(s, kw("PARSE"), 1);
    assert(spec_code_word(s, kw("ALERT"), CodeModel::Alert) matches Err(ParseError::Error(_)));
    assert(spec_code_badcharset(s) matches Err(ParseError::Error(_)));
    assert(spec_capability_data(s) matches Err(ParseError::Error(_)));
    assert(spec_code_capability(s) matches Err(ParseError::Error(_)));
    assert(spec_code_word(s, kw("PARSE"), CodeModel::Parse) matches Err(ParseError::Error(_)));
}

/// A code that has a variant of its own is read back from between the
/// brackets.
pub proof fn lemma_known_code_roundtrip(c: CodeModel, rest: Seq<u8>)
    requires
        wf_known_code(c),
    ensures
        spec_bracketed_code(spec_encode_code(c) + seq![']' as u8] + rest) == Ok::<_, ParseError>(
            (rest, c),
        ),
{
    let close = seq![']' as u8] + rest;
    assert(spec_encode_code(c) + seq![']' as u8] + rest =~= spec_encode_code(c) + close);
    lemma_byte(']' as u8, rest);
    match c {
        CodeModel::Alert => lemma_alert_roundtrip(close),
        CodeModel::Parse => lemma_parse_roundtrip(close),
        CodeModel::BadCharset { allowed } => lemma_badcharset_roundtrip(allowed, close),
        CodeModel::Capability(caps) => lemma_capability_code_roundtrip(caps, close),
        CodeModel::PermanentFlags(flags) => lemma_permanentflags_roundtrip(flags, close),
        CodeModel::UidNext(_) | CodeModel::UidValidity(_) | CodeModel::Unseen(
            _,
        ) => lemma_number_code_roundtrip(c, close),
        CodeModel::ReadOnly | CodeModel::ReadWrite | CodeModel::TryCreate => lemma_plain_code_roundtrip(
            c,
            close,
        ),
        CodeModel::CompressionActive | CodeModel::OverQuota | CodeModel::TooBig => lemma_extension_code_roundtrip(
            c,
            close,
        ),
        CodeModel::Other(_) => {},
    }
}

} // verus!
