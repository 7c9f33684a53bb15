//! Sequence sets: message numbers, ranges of them, and `*` for the largest
//! number in use.

use crate::codec::{emit, emit_byte, Encoder};
use crate::error::{agrees, IMAPResult, ParseError, SpecResult};
use crate::lex::{byte, put_byte, spec_byte};
use crate::list::{encode_joined, separated1, spec_separated1, spec_wire_joined, Rule};
use crate::number::{nz_number, spec_digits, spec_nz_number};
use vstd::prelude::*;
use vstd::slice::*;
use vstd::string::*;

verus! {

/// A message number, or `*` for the largest number in use.
#[derive(Debug, Clone, Copy, PartialEq, Eq, Structural)]
pub enum SeqNo {
    Value(u32),
    Largest,
}

/// One element of a sequence set: a number, or a range whose ends are kept
/// in the order in which they were written.
#[derive(Debug, Clone, Copy, PartialEq, Eq, Structural)]
pub enum Sequence {
    Single(SeqNo),
    Range(SeqNo, SeqNo),
}

impl DeepView for SeqNo {
    type V = SeqNo;

    open spec fn deep_view(&self) -> SeqNo {
        *self
    }
}

impl DeepView for Sequence {
    type V = Sequence;

    open spec fn deep_view(&self) -> Sequence {
        *self
    }
}

/// `seq-number = nz-number / "*"`
pub open spec fn spec_seq_number(s: Seq<u8>) -> SpecResult<SeqNo> {
    match spec_nz_number(s) {
        Ok((rest, n)) => Ok((rest, SeqNo::Value(n))),
        Err(ParseError::Error(_)) => match spec_byte(s, '*' as u8) {
            Ok((rest, _)) => Ok((rest, SeqNo::Largest)),
            Err(e) => Err(e),
        },
        Err(e) => Err(e),
    }
}

/// `seq-range = seq-number ":" seq-number`
pub open spec fn spec_seq_range(s: Seq<u8>) -> SpecResult<Sequence> {
    match spec_seq_number(s) {
        Err(e) => Err(e),
        Ok((r1, from)) => match spec_byte(r1, ':' as u8) {
            Err(e) => Err(e),
            Ok((r2, _)) => match spec_seq_number(r2) {
                Err(e) => Err(e),
                Ok((r3, to)) => Ok((r3, Sequence::Range(from, to))),
            },
        },
    }
}

/// One element of a sequence set: `seq-range / seq-number`.
pub open spec fn spec_sequence(s: Seq<u8>) -> SpecResult<Sequence> {
    match spec_seq_range(s) {
        Err(ParseError::Error(_)) => match spec_seq_number(s) {
            Err(e) => Err(e),
            Ok((rest, n)) => Ok((rest, Sequence::Single(n))),
        },
        r => r,
    }
}

/// The rule for one element of a sequence set.
pub struct SequenceRule;

/// `sequence-set = (seq-number / seq-range) *("," (seq-number / seq-range))`
pub open spec fn spec_sequence_set(s: Seq<u8>) -> SpecResult<Seq<Sequence>> {
    spec_separated1::<SequenceRule>(s, ',' as u8)
}

/// Parses a `seq-number`.
pub fn seq_number<'a>(input: &'a [u8]) -> (r: IMAPResult<'a, SeqNo>)
    ensures
        agrees(r, spec_seq_number(input@)),
{
    match nz_number(input) {
        Ok((rest, n)) => Ok((rest, SeqNo::Value(n.get()))),
        Err(ParseError::Error(_)) => match byte(input, '*' as u8) {
            Ok((rest, _)) => Ok((rest, SeqNo::Largest)),
            Err(e) => Err(e),
        },
        Err(e) => Err(e),
    }
}

/// Parses a `seq-range`.
pub fn seq_range<'a>(input: &'a [u8]) -> (r: IMAPResult<'a, Sequence>)
    ensures
        agrees(r, spec_seq_range(input@)),
{
    let (r1, from) = seq_number(input)?;
    let (r2, _) = byte(r1, ':' as u8)?;
    let (r3, to) = seq_number(r2)?;
    Ok((r3, Sequence::Range(from, to)))
}

/// Parses one element of a sequence set.
pub fn sequence<'a>(input: &'a [u8]) -> (r: IMAPResult<'a, Sequence>)
    ensures
        agrees(r, spec_sequence(input@)),
{
    match seq_range(input) {
        Err(ParseError::Error(_)) => {
            let (rest, n) = seq_number(input)?;
            Ok((rest, Sequence::Single(n)))
        },
        r => r,
    }
}

impl Rule for SequenceRule {
    type Out = Sequence;

    open spec fn rule(s: Seq<u8>) -> SpecResult<Sequence> {
        spec_sequence(s)
    }

    fn parse<'a>(input: &'a [u8]) -> (r: IMAPResult<'a, Sequence>) {
        sequence(input)
    }
}

/// Parses a `sequence-set`.
pub fn sequence_set<'a>(input: &'a [u8]) -> (r: IMAPResult<'a, Vec<Sequence>>)
    ensures
        agrees(r, spec_sequence_set(input@)),
{
    separated1::<SequenceRule>(input, ',' as u8)
}

/// A sequence number: its digits, or `*`.
pub open spec fn spec_encode_seq_no(n: SeqNo) -> Seq<u8> {
    match n {
        SeqNo::Value(v) => spec_digits(v as nat),
        SeqNo::Largest => seq!['*' as u8],
    }
}

/// An element of a sequence set: a number, or the two ends of a range with
/// a colon between them, in the order in which they were given.
pub open spec fn spec_encode_sequence(s: Sequence) -> Seq<u8> {
    match s {
        Sequence::Single(n) => spec_encode_seq_no(n),
        Sequence::Range(from, to) => spec_encode_seq_no(from) + seq![':' as u8]
            + spec_encode_seq_no(to),
    }
}

/// A sequence set: its elements with commas between them.
pub open spec fn spec_encode_sequence_set(set: Seq<Sequence>) -> Seq<u8> {
    spec_wire_joined::<Sequence>(set, ',' as u8)
}

impl Encoder for SeqNo {
    open spec fn wire(v: SeqNo) -> Seq<u8> {
        spec_encode_seq_no(v)
    }

    fn encode_into(&self, out: &mut Vec<u8>) {
        match self {
            SeqNo::Value(number) => number.encode_into(out),
            SeqNo::Largest => put_byte(out, '*' as u8),
        }
    }
}

impl Encoder for Sequence {
    open spec fn wire(v: Sequence) -> Seq<u8> {
        spec_encode_sequence(v)
    }

    fn encode_into(&self, out: &mut Vec<u8>) {
        match self {
            Sequence::Single(seq_no) => seq_no.encode_into(out),
            Sequence::Range(from, to) => {
                let s = Ghost(out@);
                from.encode_into(out);
                let d = Ghost(spec_encode_seq_no(*from));
                let d = emit_byte(':' as u8, out, s, d);
                let d = emit(to, out, s, d);
            },
        }
    }
}

/// Appends a sequence set.
pub fn encode_sequence_set(set: &[Sequence], out: &mut Vec<u8>)
    ensures
        final(out)@ == old(out)@ + spec_encode_sequence_set(set.deep_view()),
{
    encode_joined::<Sequence>(set, ',' as u8, out);
}

/// The byte that is put behind a textual sequence set, so that the
/// streaming parser sees where the text ends.
pub open spec fn spec_sentinel() -> u8 {
    '|' as u8
}

/// The sequence set that `text` denotes: what the rule `sequence-set`
/// yields on the text with the sentinel behind it, provided that the rule
/// stops exactly at the sentinel.
pub open spec fn spec_sequence_set_of(text: Seq<u8>) -> Result<Seq<Sequence>, ()> {
    match spec_sequence_set(text.push(spec_sentinel())) {
        Ok((rest, set)) => if rest == seq![spec_sentinel()] {
            Ok(set)
        } else {
            Err(())
        },
        Err(_) => Err(()),
    }
}

/// The sequence set that the bytes `text` denote.
pub fn sequence_set_of(text: &[u8]) -> (r: Result<Vec<Sequence>, ()>)
    ensures
        match r {
            Ok(set) => spec_sequence_set_of(text@) == Ok::<_, ()>(set@),
            Err(_) => spec_sequence_set_of(text@) is Err,
        },
{
    let mut blocker = slice_to_vec(text);
    blocker.push('|' as u8);
    match sequence_set(blocker.as_slice()) {
        Ok((rest, set)) => {
            assert(set.deep_view() =~= set@);
            if rest.len() == 1 && rest[0] == '|' as u8 {
                assert(rest@ =~= seq![spec_sentinel()]);
                Ok(set)
            } else {
                Err(())
            }
        },
        Err(_) => Err(()),
    }
}

/// What can be turned into a sequence set.
pub trait ToSequence: Sized {
    /// The sequence set that the value denotes, if it denotes one.
    spec fn spec_to_sequence(self) -> Result<Seq<Sequence>, ()>;

    /// The sequence set that the value denotes, if it denotes one.
    fn to_sequence(self) -> (r: Result<Vec<Sequence>, ()>)
        ensures
            match r {
                Ok(set) => self.spec_to_sequence() == Ok::<_, ()>(set@),
                Err(_) => self.spec_to_sequence() is Err,
            },
    ;
}

impl ToSequence for Sequence {
    open spec fn spec_to_sequence(self) -> Result<Seq<Sequence>, ()> {
        Ok(seq![self])
    }

    fn to_sequence(self) -> (r: Result<Vec<Sequence>, ()>) {
        let mut set: Vec<Sequence> = Vec::new();
        set.push(self);
        assert(set@ =~= seq![self]);
        Ok(set)
    }
}

impl ToSequence for Vec<Sequence> {
    open spec fn spec_to_sequence(self) -> Result<Seq<Sequence>, ()> {
        Ok(self@)
    }

    fn to_sequence(self) -> (r: Result<Vec<Sequence>, ()>) {
        Ok(self)
    }
}

impl ToSequence for &str {
    open spec fn spec_to_sequence(self) -> Result<Seq<Sequence>, ()> {
        spec_sequence_set_of(self.spec_bytes())
    }

    fn to_sequence(self) -> (r: Result<Vec<Sequence>, ()>) {
        sequence_set_of(self.as_bytes())
    }
}

} // verus!
