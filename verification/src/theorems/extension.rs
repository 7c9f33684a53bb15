//! Body extensions that are written and read back.

use crate::body::{
    spec_body_extension, spec_body_extension_list, spec_body_extensions,
    spec_encode_body_extension, spec_encode_body_extensions, BodyExtensionModel,
};
use crate::error::ParseError;
use crate::lex::{kw, CharClass};
use crate::number::{lemma_digits, lemma_number_roundtrip, spec_digits, spec_number};
use crate::strings::{spec_nstring, IStringModel};
use crate::theorems::lex::{lemma_byte, lemma_no_byte, lemma_no_run, lemma_tag_mismatch};
use crate::theorems::params::lemma_no_string;
use crate::theorems::strings::{lemma_nil_bytes, lemma_nstring_roundtrip, wf_nstring};
use vstd::prelude::*;

verus! {

/// A body extension is well formed within a budget: its strings are, its
/// lists are not empty, and it is nested no deeper than the budget allows.
pub open spec fn wf_extension(e: BodyExtensionModel, budget: nat) -> bool
    decreases budget,
{
    if budget == 0 {
        false
    } else {
        match e {
            BodyExtensionModel::NString(n) => wf_nstring(n),
            BodyExtensionModel::Number(_) => true,
            BodyExtensionModel::List(items) => items.len() >= 1 && forall|i: int|
                0 <= i < items.len() ==> wf_extension(#[trigger] items[i], (budget - 1) as nat),
        }
    }
}

/// Every extension of a list is well formed within the budget.
pub open spec fn wf_extensions(items: Seq<BodyExtensionModel>, budget: nat) -> bool {
    forall|i: int| 0 <= i < items.len() ==> wf_extension(#[trigger] items[i], budget)
}

/// No nstring is read from input that begins with a digit or a
/// parenthesis.
pub proof fn lemma_no_nstring(s: Seq<u8>)
    requires
        s.len() >= 1,
        CharClass::Digit.spec_has(s[0]) || s[0] == '(' as u8 || s[0] == ')' as u8,
    ensures
        spec_nstring(s) matches Err(ParseError::Error(_)),
{
    reveal(spec_nstring);
    lemma_no_string(s);
    lemma_nil_bytes();
    lemma_tag_mismatch(s, kw("NIL"), 0);
}

/// The written form of extensions begins with the first of them.
proof fn lemma_extensions_front(items: Seq<BodyExtensionModel>, n: nat, lead: bool)
    requires
        1 <= n <= items.len(),
    ensures
        spec_encode_body_extensions(items, n, lead) == (if lead {
            seq![' ' as u8]
        } else {
            Seq::<u8>::empty()
        }) + (spec_encode_body_extension(items[0]) + spec_encode_body_extensions(
            items.skip(1),
            (n - 1) as nat,
            true,
        )),
    decreases n,
{
    let lead_sp = if lead {
        seq![' ' as u8]
    } else {
        Seq::<u8>::empty()
    };
    let tail = items.skip(1);
    if n == 1 {
        assert(spec_encode_body_extensions(items, 0, lead) =~= Seq::<u8>::empty());
        assert(spec_encode_body_extensions(tail, 0, true) =~= Seq::<u8>::empty());
        assert(spec_encode_body_extensions(items, 1, lead) =~= lead_sp + (
        spec_encode_body_extension(items[0]) + spec_encode_body_extensions(tail, 0, true)));
    } else {
        lemma_extensions_front(items, (n - 1) as nat, lead);
        assert(tail[n - 2] == items[n - 1]);
        let before = spec_encode_body_extensions(tail, (n - 2) as nat, true);
        assert(spec_encode_body_extensions(tail, (n - 1) as nat, true) == before + seq![' ' as u8]
            + spec_encode_body_extension(items[n - 1]));
        assert(spec_encode_body_extensions(items, n, lead) =~= lead_sp + (
        spec_encode_body_extension(items[0]) + spec_encode_body_extensions(
            tail,
            (n - 1) as nat,
            true,
        )));
    }
}

/// What is read as an nstring is read as an extension.
proof fn lemma_extension_from_nstring(
    s: Seq<u8>,
    rest: Seq<u8>,
    n: Option<IStringModel>,
    budget: nat,
)
    requires
        budget >= 1,
        spec_nstring(s) == Ok::<_, ParseError>((rest, n)),
    ensures
        spec_body_extension(s, budget) == Ok::<_, ParseError>(
            (rest, BodyExtensionModel::NString(n)),
        ),
{
}

/// What is read as a number is read as an extension.
proof fn lemma_extension_from_number(s: Seq<u8>, rest: Seq<u8>, n: u32, budget: nat)
    requires
        budget >= 1,
        s.len() >= 1,
        CharClass::Digit.spec_has(s[0]),
        spec_number(s) == Ok::<_, ParseError>((rest, n)),
    ensures
        spec_body_extension(s, budget) == Ok::<_, ParseError>(
            (rest, BodyExtensionModel::Number(n)),
        ),
{
    lemma_no_nstring(s);
}

/// What is read as a list of extensions is read as an extension.
proof fn lemma_extension_from_list(
    s: Seq<u8>,
    rest: Seq<u8>,
    e: BodyExtensionModel,
    budget: nat,
)
    requires
        budget >= 1,
        s.len() >= 1,
        s[0] == '(' as u8,
        spec_body_extension_list(s, (budget - 1) as nat) == Ok::<_, ParseError>((rest, e)),
    ensures
        spec_body_extension(s, budget) == Ok::<_, ParseError>((rest, e)),
{
    lemma_no_nstring(s);
    lemma_no_run(s, CharClass::Digit);
}

/// A list of extensions is read from input in which the first is read and
/// then the others.
proof fn lemma_extension_list_pieces(
    t0: Seq<u8>,
    t1: Seq<u8>,
    rest: Seq<u8>,
    items: Seq<BodyExtensionModel>,
    budget: nat,
)
    requires
        items.len() >= 1,
        spec_body_extension(t0, budget) == Ok::<_, ParseError>((t1, items[0])),
        spec_body_extensions(t1, budget, seq![items[0]]) == Ok::<_, ParseError>(
            (seq![')' as u8] + rest, items),
        ),
    ensures
        spec_body_extension_list(seq!['(' as u8] + t0, budget) == Ok::<_, ParseError>(
            (rest, BodyExtensionModel::List(items)),
        ),
{
    lemma_byte('(' as u8, t0);
    lemma_byte(')' as u8, rest);
}

/// Further extensions are read from input in which a space and an
/// extension are read, and then the others.
proof fn lemma_extensions_step(
    t0: Seq<u8>,
    t1: Seq<u8>,
    rest: Seq<u8>,
    first: BodyExtensionModel,
    acc: Seq<BodyExtensionModel>,
    all: Seq<BodyExtensionModel>,
    budget: nat,
)
    requires
        spec_body_extension(t0, budget) == Ok::<_, ParseError>((t1, first)),
        t1.len() <= t0.len(),
        spec_body_extensions(t1, budget, acc.push(first)) == Ok::<_, ParseError>((rest, all)),
    ensures
        spec_body_extensions(seq![' ' as u8] + t0, budget, acc) == Ok::<_, ParseError>(
            (rest, all),
        ),
{
    lemma_byte(' ' as u8, t0);
}

/// A body extension is read back before a space or a closing parenthesis,
/// and its written form is not empty.
pub proof fn lemma_extension_roundtrip(e: BodyExtensionModel, budget: nat, rest: Seq<u8>)
    requires
        wf_extension(e, budget),
        rest.len() >= 1,
        rest[0] == ' ' as u8 || rest[0] == ')' as u8,
    ensures
        spec_body_extension(spec_encode_body_extension(e) + rest, budget) == Ok::<_, ParseError>(
            (rest, e),
        ),
        spec_encode_body_extension(e).len() >= 1,
    decreases budget, 0nat,
{
    let s = spec_encode_body_extension(e) + rest;
    match e {
        BodyExtensionModel::NString(n) => {
            lemma_nstring_roundtrip(n, rest);
            lemma_extension_from_nstring(s, rest, n, budget);
            lemma_nil_bytes();
            if n is Some {
                crate::theorems::strings::lemma_string_roundtrip(n->0, rest);
            }
        },
        BodyExtensionModel::Number(n) => {
            lemma_digits(n as nat);
            assert(s[0] == spec_digits(n as nat)[0]);
            lemma_number_roundtrip(n, rest);
            lemma_extension_from_number(s, rest, n, budget);
        },
        BodyExtensionModel::List(items) => {
            let close = seq![')' as u8] + rest;
            let tail = items.skip(1);
            let others = spec_encode_body_extensions(tail, tail.len(), true);
            let t1 = others + close;
            let t0 = spec_encode_body_extension(items[0]) + t1;
            lemma_extensions_front(items, items.len(), false);
            assert(s =~= seq!['(' as u8] + t0);
            if tail.len() >= 1 {
                lemma_extensions_front(tail, tail.len(), true);
                assert(t1[0] == ' ' as u8);
            } else {
                assert(others =~= Seq::<u8>::empty());
                assert(t1 =~= close);
            }
            lemma_extension_roundtrip(items[0], (budget - 1) as nat, t1);
            assert forall|i: int| 0 <= i < tail.len() implies wf_extension(
                #[trigger] tail[i],
                (budget - 1) as nat,
            ) by {
                assert(tail[i] == items[i + 1]);
            }
            lemma_extensions_roundtrip(tail, (budget - 1) as nat, seq![items[0]], close);
            assert(seq![items[0]] + tail =~= items);
            lemma_extension_list_pieces(t0, t1, rest, items, (budget - 1) as nat);
            lemma_extension_from_list(s, rest, e, budget);
        },
    }
}

/// Extensions that each stand behind a space are read back, behind
/// whatever was read before them, before a closing parenthesis.
pub proof fn lemma_extensions_roundtrip(
    items: Seq<BodyExtensionModel>,
    budget: nat,
    acc: Seq<BodyExtensionModel>,
    rest: Seq<u8>,
)
    requires
        wf_extensions(items, budget),
        rest.len() >= 1,
        rest[0] == ')' as u8,
    ensures
        spec_body_extensions(
            spec_encode_body_extensions(items, items.len(), true) + rest,
            budget,
            acc,
        ) == Ok::<_, ParseError>((rest, acc + items)),
    decreases budget, 1 + items.len(),
{
    let s = spec_encode_body_extensions(items, items.len(), true) + rest;
    if items.len() == 0 {
        assert(s =~= rest);
        lemma_no_byte(rest, ' ' as u8);
        assert(acc + items =~= acc);
    } else {
        let tail = items.skip(1);
        let t1 = spec_encode_body_extensions(tail, tail.len(), true) + rest;
        let t0 = spec_encode_body_extension(items[0]) + t1;
        lemma_extensions_front(items, items.len(), true);
        assert(s =~= seq![' ' as u8] + t0);
        if tail.len() >= 1 {
            lemma_extensions_front(tail, tail.len(), true);
            assert(t1[0] == ' ' as u8);
        } else {
            assert(t1 =~= rest);
        }
        lemma_extension_roundtrip(items[0], budget, t1);
        assert forall|i: int| 0 <= i < tail.len() implies wf_extension(
            #[trigger] tail[i],
            budget,
        ) by {
            assert(tail[i] == items[i + 1]);
        }
        lemma_extensions_roundtrip(tail, budget, acc.push(items[0]), rest);
        assert(acc.push(items[0]) + tail =~= acc + items);
        lemma_extensions_step(t0, t1, rest, items[0], acc, acc + items, budget);
    }
}

} // verus!
