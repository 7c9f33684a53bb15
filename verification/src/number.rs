//! Decimal numbers: `number`, `nz-number` and their 64-bit relative, with
//! the encoder that writes them back.

use crate::error::{agrees, error, error_at, Category, IMAPResult, ParseError, SpecResult};
use crate::codec::Encoder;
use crate::lex::{lemma_span, lemma_span_bounds, spec_take_while1, take_while1, CharClass};
use crate::list::Rule;
use vstd::prelude::*;

verus! {

/// The value of a run of decimal digits, most significant digit first.
pub open spec fn spec_decimal(d: Seq<u8>) -> nat
    decreases d.len(),
{
    if d.len() == 0 {
        0
    } else {
        10 * spec_decimal(d.drop_last()) + (d.last() - '0' as u8) as nat
    }
}

/// The decimal digits of `n`, most significant digit first, without leading
/// zeros.
pub open spec fn spec_digits(n: nat) -> Seq<u8>
    decreases n,
{
    if n < 10 {
        seq![('0' as u8 + n) as u8]
    } else {
        spec_digits(n / 10).push(('0' as u8 + n % 10) as u8)
    }
}

/// The digits of a number are digits, begin with a zero only for zero
/// itself, and have the number as their value.
pub proof fn lemma_digits(n: nat)
    ensures
        spec_digits(n).len() >= 1,
        CharClass::Digit.all(spec_digits(n)),
        spec_digits(n)[0] == '0' as u8 <==> n == 0,
        spec_decimal(spec_digits(n)) == n,
    decreases n,
{
    let d = spec_digits(n);
    if n < 10 {
        assert(d.drop_last().len() == 0);
        assert(spec_decimal(d.drop_last()) == 0);
    } else {
        lemma_digits(n / 10);
        assert(d.drop_last() =~= spec_digits(n / 10));
    }
}

/// `number`: one or more digits whose value fits in 32 bits.
pub open spec fn spec_number(s: Seq<u8>) -> SpecResult<u32> {
    match spec_take_while1(s, CharClass::Digit) {
        Err(e) => Err(e),
        Ok((rest, d)) => if spec_decimal(d) <= u32::MAX {
            Ok((rest, spec_decimal(d) as u32))
        } else {
            Err(error_at(Category::Overflow, s))
        },
    }
}

/// A 64-bit number: one or more digits whose value fits in 64 bits.
pub open spec fn spec_number64(s: Seq<u8>) -> SpecResult<u64> {
    match spec_take_while1(s, CharClass::Digit) {
        Err(e) => Err(e),
        Ok((rest, d)) => if spec_decimal(d) <= u64::MAX {
            Ok((rest, spec_decimal(d) as u64))
        } else {
            Err(error_at(Category::Overflow, s))
        },
    }
}

/// `nz-number`: a number that is not zero and does not begin with a zero.
pub open spec fn spec_nz_number(s: Seq<u8>) -> SpecResult<u32> {
    match spec_take_while1(s, CharClass::Digit) {
        Err(e) => Err(e),
        Ok((rest, d)) => if d[0] != '0' as u8 && spec_decimal(d) <= u32::MAX {
            Ok((rest, spec_decimal(d) as u32))
        } else {
            Err(error_at(Category::Overflow, s))
        },
    }
}

/// Appending digits never makes the value smaller.
proof fn lemma_decimal_grows(d: Seq<u8>, n: int)
    requires
        0 <= n <= d.len(),
        CharClass::Digit.all(d),
    ensures
        spec_decimal(d.take(n)) <= spec_decimal(d),
    decreases d.len() - n,
{
    if n < d.len() {
        let e = d.take(n + 1);
        assert(e.drop_last() =~= d.take(n));
        assert(e.last() == d[n]);
        lemma_decimal_grows(d, n + 1);
    } else {
        assert(d.take(n) =~= d);
    }
}

/// The value of a run of digits, when it is at most `max`.
pub fn decimal_value(digits: &[u8], max: u64) -> (r: Option<u64>)
    requires
        CharClass::Digit.all(digits@),
    ensures
        r == if spec_decimal(digits@) <= max {
            Some(spec_decimal(digits@) as u64)
        } else {
            None
        },
{
    let mut acc: u64 = 0;
    let mut i: usize = 0;
    while i < digits.len()
        invariant
            i <= digits.len(),
            CharClass::Digit.all(digits@),
            acc == spec_decimal(digits@.take(i as int)),
            acc <= max,
        decreases digits.len() - i,
    {
        let d: u8 = digits[i] - '0' as u8;
        let next: u128 = acc as u128 * 10 + d as u128;
        proof {
            let e = digits@.take(i + 1);
            assert(e.drop_last() =~= digits@.take(i as int));
            assert(e.last() == digits@[i as int]);
            assert(spec_decimal(e) == next);
            lemma_decimal_grows(digits@, i + 1);
        }
        if next > max as u128 {
            return None;
        }
        acc = next as u64;
        i += 1;
    }
    assert(digits@.take(i as int) =~= digits@);
    Some(acc)
}

/// Parses a `number`.
pub fn number<'a>(input: &'a [u8]) -> (r: IMAPResult<'a, u32>)
    ensures
        agrees(r, spec_number(input@)),
{
    let (rest, digits) = take_while1(input, CharClass::Digit)?;
    proof {
        lemma_span_bounds(input@, CharClass::Digit);
    }
    match decimal_value(digits, u32::MAX as u64) {
        Some(v) => Ok((rest, v as u32)),
        None => Err(error(Category::Overflow, input)),
    }
}

/// Parses a 64-bit number.
pub fn number64<'a>(input: &'a [u8]) -> (r: IMAPResult<'a, u64>)
    ensures
        agrees(r, spec_number64(input@)),
{
    let (rest, digits) = take_while1(input, CharClass::Digit)?;
    proof {
        lemma_span_bounds(input@, CharClass::Digit);
    }
    match decimal_value(digits, u64::MAX) {
        Some(v) => Ok((rest, v)),
        None => Err(error(Category::Overflow, input)),
    }
}

/// A number in `[1, 2^32 - 1]`.
#[derive(Debug, Clone, Copy, PartialEq, Eq, Hash)]
pub struct NzNumber {
    value: u32,
}

impl DeepView for NzNumber {
    type V = u32;

    closed spec fn deep_view(&self) -> u32 {
        self.value
    }
}

impl NzNumber {
    #[verifier::type_invariant]
    spec fn positive(self) -> bool {
        self.value >= 1
    }

    /// The number `value`, unless it is zero.
    pub fn new(value: u32) -> (r: Option<NzNumber>)
        ensures
            value == 0 <==> r is None,
            r matches Some(n) ==> n.deep_view() == value,
    {
        if value == 0 {
            None
        } else {
            Some(NzNumber { value })
        }
    }

    /// The number as a plain integer, which is never zero.
    pub fn get(&self) -> (r: u32)
        ensures
            r == self.deep_view(),
            r >= 1,
    {
        proof {
            use_type_invariant(self);
        }
        self.value
    }
}

/// Parses an `nz-number`.
pub fn nz_number<'a>(input: &'a [u8]) -> (r: IMAPResult<'a, NzNumber>)
    ensures
        agrees(r, spec_nz_number(input@)),
{
    let (rest, digits) = take_while1(input, CharClass::Digit)?;
    proof {
        lemma_span_bounds(input@, CharClass::Digit);
    }
    if digits[0] == '0' as u8 {
        return Err(error(Category::Overflow, input));
    }
    match decimal_value(digits, u32::MAX as u64) {
        Some(v) => {
            proof {
                lemma_decimal_leading(digits@);
            }
            match NzNumber::new(v as u32) {
                Some(n) => Ok((rest, n)),
                None => Err(error(Category::Overflow, input)),
            }
        },
        None => Err(error(Category::Overflow, input)),
    }
}

/// A run of digits that does not begin with a zero has a positive value.
pub proof fn lemma_decimal_leading(d: Seq<u8>)
    requires
        d.len() >= 1,
        CharClass::Digit.all(d),
        d[0] != '0' as u8,
    ensures
        spec_decimal(d) >= 1,
    decreases d.len(),
{
    if d.len() > 1 {
        let e = d.drop_last();
        assert(e[0] == d[0]);
        lemma_decimal_leading(e);
    } else {
        assert(d.last() == d[0]);
    }
}

/// Appends the decimal digits of `n`.
pub fn encode_number(n: u64, out: &mut Vec<u8>)
    ensures
        final(out)@ == old(out)@ + spec_digits(n as nat),
{
    let mut low: Vec<u8> = Vec::new();
    let mut m: u64 = n;
    while m >= 10
        invariant
            spec_digits(n as nat) == spec_digits(m as nat) + low@.reverse(),
        decreases m,
    {
        let d: u8 = '0' as u8 + (m % 10) as u8;
        proof {
            let before = low@;
            let after = low@.push(d);
            assert(after.reverse() =~= seq![d] + before.reverse());
            assert(spec_digits((m / 10) as nat) + (seq![d] + before.reverse()) =~= spec_digits(
                (m / 10) as nat,
            ).push(d) + before.reverse());
        }
        low.push(d);
        m = m / 10;
    }
    let ghost start = out@;
    out.push('0' as u8 + m as u8);
    let mut i: usize = low.len();
    while i > 0
        invariant
            i <= low.len(),
            out@ == start + spec_digits(m as nat) + low@.reverse().take(low.len() - i),
            spec_digits(n as nat) == spec_digits(m as nat) + low@.reverse(),
            m < 10,
        decreases i,
    {
        i -= 1;
        proof {
            let r = low@.reverse();
            let k = low.len() - i - 1;
            assert(r.take(k + 1) =~= r.take(k).push(r[k]));
            assert(r[k] == low@[i as int]);
            assert((start + spec_digits(m as nat) + r.take(k)).push(r[k]) =~= start + spec_digits(
                m as nat,
            ) + r.take(k + 1));
        }
        out.push(low[i]);
    }
    proof {
        let r = low@.reverse();
        assert(r.take(low.len() as int) =~= r);
        assert(start + spec_digits(m as nat) + r =~= start + (spec_digits(m as nat) + r));
    }
}

/// A number written in decimal is read back as itself, wherever a byte
/// other than a digit follows.
pub proof fn lemma_number_roundtrip(n: u32, rest: Seq<u8>)
    requires
        rest.len() > 0,
        !CharClass::Digit.spec_has(rest[0]),
    ensures
        spec_number(spec_digits(n as nat) + rest) == Ok::<_, ParseError>((rest, n)),
        spec_number64(spec_digits(n as nat) + rest) == Ok::<_, ParseError>((rest, n as u64)),
        n >= 1 ==> spec_nz_number(spec_digits(n as nat) + rest) == Ok::<_, ParseError>((rest, n)),
{
    lemma_digits_then(n as nat, rest);
}

/// A 64-bit number written in decimal is read back as itself, wherever a
/// byte other than a digit follows.
pub proof fn lemma_number64_roundtrip(n: u64, rest: Seq<u8>)
    requires
        rest.len() > 0,
        !CharClass::Digit.spec_has(rest[0]),
    ensures
        spec_number64(spec_digits(n as nat) + rest) == Ok::<_, ParseError>((rest, n)),
{
    lemma_digits_then(n as nat, rest);
}

/// The digits of `n` followed by something that is no digit: the run of
/// digits read from the front is exactly the digits of `n`.
pub proof fn lemma_digits_then(n: nat, rest: Seq<u8>)
    requires
        rest.len() > 0,
        !CharClass::Digit.spec_has(rest[0]),
    ensures
        spec_take_while1(spec_digits(n) + rest, CharClass::Digit) == Ok::<_, ParseError>(
            (rest, spec_digits(n)),
        ),
        spec_decimal(spec_digits(n)) == n,
        spec_digits(n)[0] == '0' as u8 <==> n == 0,
{
    let d = spec_digits(n);
    let s = d + rest;
    lemma_digits(n);
    assert forall|i: int| 0 <= i < d.len() implies CharClass::Digit.spec_has(#[trigger] s[i]) by {
        assert(s[i] == d[i]);
    }
    assert(s[d.len() as int] == rest[0]);
    lemma_span(s, CharClass::Digit, d.len() as int);
    assert(s.take(d.len() as int) =~= d);
    assert(s.skip(d.len() as int) =~= rest);
}

} // verus!

verus! {

/// The rule `number`.
pub struct NumberRule;

/// The rule `nz-number`.
pub struct NzNumberRule;

impl Rule for NumberRule {
    type Out = u32;

    open spec fn rule(s: Seq<u8>) -> SpecResult<u32> {
        spec_number(s)
    }

    fn parse<'a>(input: &'a [u8]) -> (r: IMAPResult<'a, u32>) {
        number(input)
    }
}

impl Rule for NzNumberRule {
    type Out = NzNumber;

    open spec fn rule(s: Seq<u8>) -> SpecResult<u32> {
        spec_nz_number(s)
    }

    fn parse<'a>(input: &'a [u8]) -> (r: IMAPResult<'a, NzNumber>) {
        nz_number(input)
    }
}

impl Encoder for u32 {
    open spec fn wire(v: u32) -> Seq<u8> {
        spec_digits(v as nat)
    }

    fn encode_into(&self, out: &mut Vec<u8>) {
        encode_number(*self as u64, out);
    }
}

impl Encoder for u64 {
    open spec fn wire(v: u64) -> Seq<u8> {
        spec_digits(v as nat)
    }

    fn encode_into(&self, out: &mut Vec<u8>) {
        encode_number(*self, out);
    }
}

impl Encoder for NzNumber {
    open spec fn wire(v: u32) -> Seq<u8> {
        spec_digits(v as nat)
    }

    fn encode_into(&self, out: &mut Vec<u8>) {
        encode_number(self.get() as u64, out);
    }
}

} // verus!
