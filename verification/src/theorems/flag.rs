//! Flags that are written and read back.

use crate::error::ParseError;
use crate::flag::{
    spec_backslash_atom, spec_encode_flag, spec_encode_flag_list, spec_encode_flag_perm,
    spec_encode_system_flag, spec_flag, spec_flag_fetch, spec_flag_from, spec_flag_list,
    spec_flag_perm, Flag, FlagFetchRule, FlagModel, FlagPerm, FlagPermModel, FlagPermRule, FlagRule,
    SystemFlag,
};
use crate::lex::{eq_ignore_case, kw, CharClass};
use crate::list::{spec_separated0, spec_wire_joined};
use crate::strings::is_atom;
use crate::theorems::keywords::lemma_flag_words;
use crate::theorems::lex::{lemma_byte, lemma_no_byte, lemma_no_run, lemma_run, lemma_tag, lemma_tag_mismatch};
use crate::theorems::list::{
    all_end_before, lemma_separated0_empty, lemma_separated1_roundtrip, Reversible,
};
use vstd::prelude::*;

verus! {

/// The name of a system flag, without the backslash.
pub open spec fn spec_system_flag_name(f: SystemFlag) -> Seq<u8> {
    match f {
        SystemFlag::Answered => kw("ANSWERED"),
        SystemFlag::Deleted => kw("DELETED"),
        SystemFlag::Draft => kw("DRAFT"),
        SystemFlag::Flagged => kw("FLAGGED"),
        SystemFlag::Seen => kw("SEEN"),
    }
}

/// The name of a system flag is an atom that names this flag and no other,
/// and the flag is written as a backslash and its name.
pub proof fn lemma_system_flag_name(f: SystemFlag)
    ensures
        is_atom(spec_system_flag_name(f)),
        spec_flag_from(spec_system_flag_name(f)) == FlagModel::System(f),
        spec_encode_system_flag(f) == seq!['\\' as u8] + spec_system_flag_name(f),
        !eq_ignore_case(spec_system_flag_name(f), kw("RECENT")),
{
    reveal(eq_ignore_case);
    lemma_flag_words();
    let name = spec_system_flag_name(f);
    assert(name[0] != kw("RECENT")[0]);
    match f {
        SystemFlag::Answered => {},
        SystemFlag::Deleted => {},
        SystemFlag::Draft => {},
        SystemFlag::Flagged => {
            assert(name[0] != kw("DELETED")[0]);
        },
        SystemFlag::Seen => {},
    }
    assert(spec_encode_system_flag(f) =~= seq!['\\' as u8] + name);
}

/// A flag is one that the rule `flag` yields: an extension is named by an
/// atom that names no system flag, a keyword by any atom.
pub open spec fn wf_flag(f: FlagModel) -> bool {
    match f {
        FlagModel::System(_) => true,
        FlagModel::Extension(a) => is_atom(a) && spec_flag_from(a) == FlagModel::Extension(a),
        FlagModel::Keyword(a) => is_atom(a),
        FlagModel::Recent => false,
    }
}

/// A flag is one that the rule `flag-fetch` yields.
pub open spec fn wf_flag_fetch(f: FlagModel) -> bool {
    match f {
        FlagModel::Recent => true,
        FlagModel::Extension(a) => wf_flag(f) && !eq_ignore_case(a, kw("RECENT")),
        _ => wf_flag(f),
    }
}

/// A permanent flag is one that the rule `flag-perm` yields.
pub open spec fn wf_flag_perm(f: FlagPermModel) -> bool {
    match f {
        FlagPermModel::Flag(f) => wf_flag(f),
        FlagPermModel::Asterisk => true,
    }
}

/// A backslash and an atom are read back as the atom.
pub proof fn lemma_backslash_atom(a: Seq<u8>, rest: Seq<u8>)
    requires
        is_atom(a),
        rest.len() >= 1,
        !CharClass::Atom.spec_has(rest[0]),
    ensures
        spec_backslash_atom(seq!['\\' as u8] + a + rest) == Ok::<_, ParseError>((rest, a)),
{
    assert(seq!['\\' as u8] + a + rest =~= seq!['\\' as u8] + (a + rest));
    lemma_byte('\\' as u8, a + rest);
    lemma_run(a, rest, CharClass::Atom);
}

/// A flag is read back where a byte that is no atom character follows.
pub proof fn lemma_flag_roundtrip(f: FlagModel, rest: Seq<u8>)
    requires
        wf_flag(f),
        rest.len() >= 1,
        !CharClass::Atom.spec_has(rest[0]),
    ensures
        spec_flag(spec_encode_flag(f) + rest) == Ok::<_, ParseError>((rest, f)),
        spec_flag_fetch(spec_encode_flag(f) + rest) == if wf_flag_fetch(f) {
            Ok::<_, ParseError>((rest, f))
        } else {
            Ok::<_, ParseError>((rest, FlagModel::Recent))
        },
        spec_encode_flag(f).len() >= 1,
        spec_encode_flag(f)[0] == '\\' as u8 ==> spec_encode_flag(f).len() >= 2
            && CharClass::Atom.spec_has(spec_encode_flag(f)[1]),
        spec_encode_flag(f)[0] != '\\' as u8 ==> CharClass::Atom.spec_has(spec_encode_flag(f)[0]),
{
    let s = spec_encode_flag(f) + rest;
    match f {
        FlagModel::System(x) => {
            lemma_system_flag_name(x);
            let name = spec_system_flag_name(x);
            assert(s =~= seq!['\\' as u8] + name + rest);
            lemma_backslash_atom(name, rest);
            assert(spec_encode_flag(f)[1] == name[0]);
        },
        FlagModel::Extension(a) => {
            lemma_backslash_atom(a, rest);
            assert(spec_encode_flag(f)[1] == a[0]);
        },
        FlagModel::Keyword(a) => {
            assert(CharClass::Atom.spec_has(a[0]));
            assert(s[0] == a[0]);
            lemma_no_byte(s, '\\' as u8);
            lemma_run(a, rest, CharClass::Atom);
        },
        FlagModel::Recent => {},
    }
}

/// `\Recent` is read back by the rule `flag-fetch`.
pub proof fn lemma_recent_roundtrip(rest: Seq<u8>)
    requires
        rest.len() >= 1,
        !CharClass::Atom.spec_has(rest[0]),
    ensures
        spec_flag_fetch(spec_encode_flag(FlagModel::Recent) + rest) == Ok::<_, ParseError>(
            (rest, FlagModel::Recent),
        ),
{
    reveal(eq_ignore_case);
    lemma_flag_words();
    let name = kw("RECENT");
    assert(spec_encode_flag(FlagModel::Recent) + rest =~= seq!['\\' as u8] + name + rest);
    lemma_backslash_atom(name, rest);
}

/// A permanent flag is read back where a byte that is no atom character
/// follows.
pub proof fn lemma_flag_perm_roundtrip(f: FlagPermModel, rest: Seq<u8>)
    requires
        wf_flag_perm(f),
        rest.len() >= 1,
        !CharClass::Atom.spec_has(rest[0]),
    ensures
        spec_flag_perm(spec_encode_flag_perm(f) + rest) == Ok::<_, ParseError>((rest, f)),
        spec_encode_flag_perm(f).len() >= 1,
{
    lemma_flag_words();
    let s = spec_encode_flag_perm(f) + rest;
    match f {
        FlagPermModel::Asterisk => {
            lemma_tag(kw("\\*"), rest);
        },
        FlagPermModel::Flag(x) => {
            lemma_flag_roundtrip(x, rest);
            let e = spec_encode_flag(x);
            if e[0] == '\\' as u8 {
                assert(s[1] == e[1]);
                lemma_tag_mismatch(s, kw("\\*"), 1);
            } else {
                assert(s[0] == e[0]);
                lemma_tag_mismatch(s, kw("\\*"), 0);
            }
        },
    }
}

impl Reversible for FlagRule {
    type Item = Flag;

    open spec fn wf(v: FlagModel) -> bool {
        wf_flag(v)
    }

    open spec fn ends_before(v: FlagModel, next: u8) -> bool {
        !CharClass::Atom.spec_has(next)
    }

    proof fn lemma_roundtrip(v: FlagModel, rest: Seq<u8>) {
        lemma_flag_roundtrip(v, rest);
    }
}

impl Reversible for FlagFetchRule {
    type Item = Flag;

    open spec fn wf(v: FlagModel) -> bool {
        wf_flag_fetch(v)
    }

    open spec fn ends_before(v: FlagModel, next: u8) -> bool {
        !CharClass::Atom.spec_has(next)
    }

    proof fn lemma_roundtrip(v: FlagModel, rest: Seq<u8>) {
        if v is Recent {
            lemma_recent_roundtrip(rest);
            lemma_flag_words();
        } else {
            lemma_flag_roundtrip(v, rest);
        }
    }
}

impl Reversible for FlagPermRule {
    type Item = FlagPerm;

    open spec fn wf(v: FlagPermModel) -> bool {
        wf_flag_perm(v)
    }

    open spec fn ends_before(v: FlagPermModel, next: u8) -> bool {
        !CharClass::Atom.spec_has(next)
    }

    proof fn lemma_roundtrip(v: FlagPermModel, rest: Seq<u8>) {
        lemma_flag_perm_roundtrip(v, rest);
    }
}

/// Every flag of a list is one that the rule `flag` yields.
pub open spec fn wf_flags(flags: Seq<FlagModel>) -> bool {
    forall|i: int| 0 <= i < flags.len() ==> wf_flag(#[trigger] flags[i])
}

/// A list of flags in parentheses is read back, whatever follows it.
pub proof fn lemma_flag_list_roundtrip(flags: Seq<FlagModel>, rest: Seq<u8>)
    requires
        wf_flags(flags),
    ensures
        spec_flag_list(spec_encode_flag_list(flags) + rest) == Ok::<_, ParseError>((rest, flags)),
{
    let inner = spec_wire_joined::<Flag>(flags, ' ' as u8);
    let close = seq![')' as u8] + rest;
    let s = spec_encode_flag_list(flags) + rest;
    assert(s =~= seq!['(' as u8] + (inner + close));
    lemma_byte('(' as u8, inner + close);
    lemma_byte(')' as u8, rest);
    if flags.len() == 0 {
        assert(flags =~= Seq::<FlagModel>::empty());
        assert(inner + close =~= close);
        lemma_no_byte(close, '\\' as u8);
        lemma_no_run(close, CharClass::Atom);
        assert(spec_flag(close) is Err);
        lemma_separated0_empty::<FlagRule>(' ' as u8, close);
        assert(spec_separated0::<FlagRule>(inner + close, ' ' as u8) == Ok::<_, ParseError>(
            (close, flags),
        ));
    } else {
        assert(all_end_before::<FlagRule>(flags, ' ' as u8));
        assert(all_end_before::<FlagRule>(flags, close[0]));
        lemma_separated1_roundtrip::<FlagRule>(flags, ' ' as u8, close);
        assert(spec_separated0::<FlagRule>(inner + close, ' ' as u8) == Ok::<_, ParseError>(
            (close, flags),
        ));
    }
    assert(spec_flag_list(s) == Ok::<_, ParseError>((rest, flags)));
}

} // verus!
