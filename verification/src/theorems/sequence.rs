//! Sequence sets that are written and read back.

use crate::error::ParseError;
use crate::lex::CharClass;
use crate::number::{lemma_digits, lemma_number_roundtrip};
use crate::sequence::{
    spec_encode_seq_no, spec_encode_sequence, spec_encode_sequence_set, spec_sentinel,
    spec_seq_number, spec_sequence, spec_sequence_set_of, SeqNo, Sequence, SequenceRule,
};
use crate::theorems::lex::{lemma_byte, lemma_no_byte, lemma_no_run};
use crate::theorems::list::{all_end_before, lemma_separated1_roundtrip, Reversible};
use vstd::prelude::*;

verus! {

/// A sequence number is such as the grammar yields: a value is not zero.
pub open spec fn wf_seq_no(n: SeqNo) -> bool {
    n matches SeqNo::Value(v) ==> v >= 1
}

/// An element of a sequence set is such as the grammar yields.
pub open spec fn wf_sequence(s: Sequence) -> bool {
    match s {
        Sequence::Single(n) => wf_seq_no(n),
        Sequence::Range(from, to) => wf_seq_no(from) && wf_seq_no(to),
    }
}

/// A sequence number is read back where a byte that is no digit follows.
pub proof fn lemma_seq_number_roundtrip(n: SeqNo, rest: Seq<u8>)
    requires
        wf_seq_no(n),
        rest.len() >= 1,
        !CharClass::Digit.spec_has(rest[0]),
    ensures
        spec_seq_number(spec_encode_seq_no(n) + rest) == Ok::<_, ParseError>((rest, n)),
        spec_encode_seq_no(n).len() >= 1,
{
    let s = spec_encode_seq_no(n) + rest;
    match n {
        SeqNo::Value(v) => {
            lemma_number_roundtrip(v, rest);
            lemma_digits(v as nat);
        },
        SeqNo::Largest => {
            assert(s[0] == '*' as u8);
            lemma_no_run(s, CharClass::Digit);
            lemma_byte('*' as u8, rest);
        },
    }
}

/// An element of a sequence set is read back where a byte follows that is
/// neither a digit nor a colon: the ends of a range come back in the order
/// in which they were written.
pub proof fn lemma_sequence_roundtrip(v: Sequence, rest: Seq<u8>)
    requires
        wf_sequence(v),
        rest.len() >= 1,
        !CharClass::Digit.spec_has(rest[0]),
        rest[0] != ':' as u8,
    ensures
        spec_sequence(spec_encode_sequence(v) + rest) == Ok::<_, ParseError>((rest, v)),
        spec_encode_sequence(v).len() >= 1,
{
    match v {
        Sequence::Single(n) => {
            lemma_seq_number_roundtrip(n, rest);
            lemma_no_byte(rest, ':' as u8);
        },
        Sequence::Range(from, to) => {
            let after = seq![':' as u8] + (spec_encode_seq_no(to) + rest);
            assert(spec_encode_sequence(v) + rest =~= spec_encode_seq_no(from) + after);
            lemma_seq_number_roundtrip(from, after);
            lemma_byte(':' as u8, spec_encode_seq_no(to) + rest);
            lemma_seq_number_roundtrip(to, rest);
        },
    }
}

impl Reversible for SequenceRule {
    type Item = Sequence;

    open spec fn wf(v: Sequence) -> bool {
        wf_sequence(v)
    }

    open spec fn ends_before(v: Sequence, next: u8) -> bool {
        !CharClass::Digit.spec_has(next) && next != ':' as u8
    }

    proof fn lemma_roundtrip(v: Sequence, rest: Seq<u8>) {
        lemma_sequence_roundtrip(v, rest);
    }
}

/// A sequence set is such as the grammar yields: it is not empty, and each
/// of its elements is well formed.
pub open spec fn wf_sequence_set(set: Seq<Sequence>) -> bool {
    &&& set.len() >= 1
    &&& forall|i: int| 0 <= i < set.len() ==> wf_sequence(#[trigger] set[i])
}

/// A sequence set that is written denotes itself: the text is read back as
/// the same elements in the same order.
pub proof fn lemma_sequence_set_roundtrip(set: Seq<Sequence>)
    requires
        wf_sequence_set(set),
    ensures
        spec_sequence_set_of(spec_encode_sequence_set(set)) == Ok::<_, ()>(set),
{
    let text = spec_encode_sequence_set(set);
    let rest = seq![spec_sentinel()];
    assert(text.push(spec_sentinel()) =~= text + rest);
    assert(all_end_before::<SequenceRule>(set, ',' as u8));
    assert(all_end_before::<SequenceRule>(set, rest[0]));
    lemma_separated1_roundtrip::<SequenceRule>(set, ',' as u8, rest);
}

} // verus!
