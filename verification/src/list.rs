//! Repetition: lists of items with or without a separating byte, for
//! parsing and for encoding.

use crate::error::{agrees, error, error_at, Category, IMAPResult, ParseError, SpecResult};
use crate::codec::Encoder;
use crate::lex::{byte, spec_byte};
use crate::strings::NonEmptyVec;
use vstd::prelude::*;

verus! {

/// A rule of the grammar that yields one item: what it accepts, and the
/// parser that implements it.
pub trait Rule {
    /// The item.
    type Out: DeepView;

    /// What the rule yields on `s`.
    spec fn rule(s: Seq<u8>) -> SpecResult<<Self::Out as DeepView>::V>;

    /// Parses one item.
    fn parse<'a>(input: &'a [u8]) -> (r: IMAPResult<'a, Self::Out>)
        ensures
            agrees(r, Self::rule(input@)),
    ;
}

/// Further items, each behind the byte `sep`, gathered behind `acc`. The
/// list ends before the first separator that no item follows.
pub open spec fn spec_more<R: Rule>(s: Seq<u8>, sep: u8, acc: Seq<<R::Out as DeepView>::V>)
    -> SpecResult<Seq<<R::Out as DeepView>::V>>
    decreases s.len(),
{
    match spec_byte(s, sep) {
        Err(ParseError::Error(_)) => Ok((s, acc)),
        Err(e) => Err(e),
        Ok((r1, _)) => match R::rule(r1) {
            Err(ParseError::Error(_)) => Ok((s, acc)),
            Err(e) => Err(e),
            Ok((r2, v)) => if r2.len() < s.len() {
                spec_more::<R>(r2, sep, acc.push(v))
            } else {
                Err(error_at(Category::CharacterClass, s))
            },
        },
    }
}

/// One or more items with the byte `sep` between them.
pub open spec fn spec_separated1<R: Rule>(s: Seq<u8>, sep: u8) -> SpecResult<
    Seq<<R::Out as DeepView>::V>,
> {
    match R::rule(s) {
        Err(e) => Err(e),
        Ok((rest, v)) => spec_more::<R>(rest, sep, seq![v]),
    }
}

/// Any number of items with the byte `sep` between them.
pub open spec fn spec_separated0<R: Rule>(s: Seq<u8>, sep: u8) -> SpecResult<
    Seq<<R::Out as DeepView>::V>,
> {
    match R::rule(s) {
        Err(ParseError::Error(_)) => Ok((s, Seq::empty())),
        Err(e) => Err(e),
        Ok((rest, v)) => spec_more::<R>(rest, sep, seq![v]),
    }
}

/// Any number of items, each behind the byte `sep`.
pub open spec fn spec_preceded0<R: Rule>(s: Seq<u8>, sep: u8) -> SpecResult<
    Seq<<R::Out as DeepView>::V>,
> {
    spec_more::<R>(s, sep, Seq::empty())
}

/// Parses further items, each behind the byte `sep`, and adds them to
/// `first`.
pub fn more<'a, R: Rule>(input: &'a [u8], sep: u8, first: Vec<R::Out>) -> (r: IMAPResult<
    'a,
    Vec<R::Out>,
>)
    ensures
        agrees(r, spec_more::<R>(input@, sep, first.deep_view())),
        r matches Ok((_, items)) ==> items@.len() >= first@.len(),
{
    let mut cur: &[u8] = input;
    let mut acc: Vec<R::Out> = first;
    loop
        invariant
            spec_more::<R>(input@, sep, first.deep_view()) == spec_more::<R>(
                cur@,
                sep,
                acc.deep_view(),
            ),
            acc@.len() >= first@.len(),
        decreases cur@.len(),
    {
        let r1 = match byte(cur, sep) {
            Ok((r1, _)) => r1,
            Err(ParseError::Error(_)) => {
                return Ok((cur, acc));
            },
            Err(e) => {
                return Err(e);
            },
        };
        match R::parse(r1) {
            Ok((r2, v)) => {
                if r2.len() >= cur.len() {
                    return Err(error(Category::CharacterClass, cur));
                }
                let ghost before = acc.deep_view();
                let ghost item = v.deep_view();
                acc.push(v);
                assert(acc.deep_view() =~= before.push(item));
                cur = r2;
            },
            Err(ParseError::Error(_)) => {
                return Ok((cur, acc));
            },
            Err(e) => {
                return Err(e);
            },
        }
    }
}

/// Parses one or more items with the byte `sep` between them.
pub fn separated1<'a, R: Rule>(input: &'a [u8], sep: u8) -> (r: IMAPResult<'a, Vec<R::Out>>)
    ensures
        agrees(r, spec_separated1::<R>(input@, sep)),
        r matches Ok((_, items)) ==> items@.len() >= 1,
{
    let (rest, v) = R::parse(input)?;
    let mut first: Vec<R::Out> = Vec::new();
    let ghost item = v.deep_view();
    first.push(v);
    assert(first.deep_view() =~= seq![item]);
    more::<R>(rest, sep, first)
}

/// Parses any number of items with the byte `sep` between them.
pub fn separated0<'a, R: Rule>(input: &'a [u8], sep: u8) -> (r: IMAPResult<'a, Vec<R::Out>>)
    ensures
        agrees(r, spec_separated0::<R>(input@, sep)),
{
    match R::parse(input) {
        Ok((rest, v)) => {
            let mut first: Vec<R::Out> = Vec::new();
            let ghost item = v.deep_view();
            first.push(v);
            assert(first.deep_view() =~= seq![item]);
            more::<R>(rest, sep, first)
        },
        Err(ParseError::Error(_)) => {
            let none: Vec<R::Out> = Vec::new();
            assert(none.deep_view() =~= Seq::empty());
            Ok((input, none))
        },
        Err(e) => Err(e),
    }
}

/// Parses any number of items, each behind the byte `sep`.
pub fn preceded0<'a, R: Rule>(input: &'a [u8], sep: u8) -> (r: IMAPResult<'a, Vec<R::Out>>)
    ensures
        agrees(r, spec_preceded0::<R>(input@, sep)),
{
    let none: Vec<R::Out> = Vec::new();
    assert(none.deep_view() =~= Seq::empty());
    more::<R>(input, sep, none)
}

/// The items of `items`, each behind the byte `sep`.
pub open spec fn spec_wire_each<T: Encoder>(items: Seq<T::V>, sep: u8) -> Seq<u8>
    decreases items.len(),
{
    if items.len() == 0 {
        Seq::empty()
    } else {
        spec_wire_each::<T>(items.drop_last(), sep) + seq![sep] + T::wire(items.last())
    }
}

/// The items of `items` with the byte `sep` between them.
pub open spec fn spec_wire_joined<T: Encoder>(items: Seq<T::V>, sep: u8) -> Seq<u8> {
    if items.len() == 0 {
        Seq::empty()
    } else {
        T::wire(items[0]) + spec_wire_each::<T>(items.skip(1), sep)
    }
}

/// Appends the items from index `from` on, each behind the byte `sep`.
pub fn encode_each<T: Encoder>(items: &[T], from: usize, sep: u8, out: &mut Vec<u8>)
    requires
        from <= items@.len(),
    ensures
        final(out)@ == old(out)@ + spec_wire_each::<T>(
            items.deep_view().skip(from as int),
            sep,
        ),
{
    let ghost start = out@;
    let ghost all = items.deep_view();
    let mut i: usize = from;
    while i < items.len()
        invariant
            from <= i <= items.len(),
            all == items.deep_view(),
            out@ == start + spec_wire_each::<T>(all.subrange(from as int, i as int), sep),
        decreases items.len() - i,
    {
        proof {
            let t = all.subrange(from as int, i + 1);
            assert(t.drop_last() =~= all.subrange(from as int, i as int));
            assert(t.last() == items@[i as int].deep_view());
        }
        out.push(sep);
        items[i].encode_into(out);
        assert(out@ =~= start + spec_wire_each::<T>(all.subrange(from as int, i + 1), sep));
        i += 1;
    }
    assert(all.subrange(from as int, i as int) =~= all.skip(from as int));
}

/// Appends the items with the byte `sep` between them.
pub fn encode_joined<T: Encoder>(items: &[T], sep: u8, out: &mut Vec<u8>)
    ensures
        final(out)@ == old(out)@ + spec_wire_joined::<T>(items.deep_view(), sep),
{
    let ghost start = out@;
    if items.len() > 0 {
        items[0].encode_into(out);
        encode_each::<T>(items, 1, sep, out);
        assert(out@ =~= start + spec_wire_joined::<T>(items.deep_view(), sep));
    } else {
        assert(out@ =~= start + spec_wire_joined::<T>(items.deep_view(), sep));
    }
}

} // verus!

verus! {

/// Further items without anything between them, gathered behind `acc`.
pub open spec fn spec_repeat<R: Rule>(s: Seq<u8>, acc: Seq<<R::Out as DeepView>::V>) -> SpecResult<
    Seq<<R::Out as DeepView>::V>,
>
    decreases s.len(),
{
    match R::rule(s) {
        Err(ParseError::Error(_)) => Ok((s, acc)),
        Err(e) => Err(e),
        Ok((rest, v)) => if rest.len() < s.len() {
            spec_repeat::<R>(rest, acc.push(v))
        } else {
            Err(error_at(Category::CharacterClass, s))
        },
    }
}

/// One or more items without anything between them.
pub open spec fn spec_many1<R: Rule>(s: Seq<u8>) -> SpecResult<Seq<<R::Out as DeepView>::V>> {
    match R::rule(s) {
        Err(e) => Err(e),
        Ok((rest, v)) => spec_repeat::<R>(rest, seq![v]),
    }
}

/// Parses one or more items without anything between them.
pub fn many1<'a, R: Rule>(input: &'a [u8]) -> (r: IMAPResult<'a, Vec<R::Out>>)
    ensures
        agrees(r, spec_many1::<R>(input@)),
        r matches Ok((_, items)) ==> items@.len() >= 1,
{
    let (rest, v) = R::parse(input)?;
    let mut acc: Vec<R::Out> = Vec::new();
    let ghost item = v.deep_view();
    acc.push(v);
    assert(acc.deep_view() =~= seq![item]);
    let mut cur: &[u8] = rest;
    loop
        invariant
            spec_many1::<R>(input@) == spec_repeat::<R>(cur@, acc.deep_view()),
            acc@.len() >= 1,
        decreases cur@.len(),
    {
        match R::parse(cur) {
            Ok((rest, v)) => {
                if rest.len() >= cur.len() {
                    return Err(error(Category::CharacterClass, cur));
                }
                let ghost before = acc.deep_view();
                let ghost item = v.deep_view();
                acc.push(v);
                assert(acc.deep_view() =~= before.push(item));
                cur = rest;
            },
            Err(ParseError::Error(_)) => {
                return Ok((cur, acc));
            },
            Err(e) => {
                return Err(e);
            },
        }
    }
}

/// The items of `items`, one after the other.
pub open spec fn spec_wire_all<T: Encoder>(items: Seq<T::V>) -> Seq<u8>
    decreases items.len(),
{
    if items.len() == 0 {
        Seq::empty()
    } else {
        spec_wire_all::<T>(items.drop_last()) + T::wire(items.last())
    }
}

/// Appends the items, one after the other.
pub fn encode_all<T: Encoder>(items: &[T], out: &mut Vec<u8>)
    ensures
        final(out)@ == old(out)@ + spec_wire_all::<T>(items.deep_view()),
{
    let ghost start = out@;
    let ghost all = items.deep_view();
    let mut i: usize = 0;
    while i < items.len()
        invariant
            i <= items.len(),
            all == items.deep_view(),
            out@ == start + spec_wire_all::<T>(all.take(i as int)),
        decreases items.len() - i,
    {
        proof {
            let t = all.take(i + 1);
            assert(t.drop_last() =~= all.take(i as int));
            assert(t.last() == items@[i as int].deep_view());
        }
        items[i].encode_into(out);
        assert(out@ =~= start + spec_wire_all::<T>(all.take(i + 1)));
        i += 1;
    }
    assert(all.take(i as int) =~= all);
}

} // verus!

verus! {

/// An item behind the byte `sep`.
pub open spec fn spec_preceded<R: Rule>(s: Seq<u8>, sep: u8) -> SpecResult<
    <R::Out as DeepView>::V,
> {
    match spec_byte(s, sep) {
        Err(e) => Err(e),
        Ok((rest, _)) => R::rule(rest),
    }
}

/// An item behind the byte `sep`, or nothing where the two do not match.
pub open spec fn spec_opt_preceded<R: Rule>(s: Seq<u8>, sep: u8) -> SpecResult<
    Option<<R::Out as DeepView>::V>,
> {
    match spec_preceded::<R>(s, sep) {
        Ok((rest, v)) => Ok((rest, Some(v))),
        Err(ParseError::Error(_)) => Ok((s, None)),
        Err(e) => Err(e),
    }
}

/// Parses an item behind the byte `sep`.
pub fn preceded<'a, R: Rule>(input: &'a [u8], sep: u8) -> (r: IMAPResult<'a, R::Out>)
    ensures
        agrees(r, spec_preceded::<R>(input@, sep)),
{
    let (rest, _) = byte(input, sep)?;
    R::parse(rest)
}

/// Parses an item behind the byte `sep`, or nothing where the two do not
/// match.
pub fn opt_preceded<'a, R: Rule>(input: &'a [u8], sep: u8) -> (r: IMAPResult<'a, Option<R::Out>>)
    ensures
        agrees(r, spec_opt_preceded::<R>(input@, sep)),
{
    match preceded::<R>(input, sep) {
        Ok((rest, v)) => Ok((rest, Some(v))),
        Err(ParseError::Error(_)) => Ok((input, None)),
        Err(e) => Err(e),
    }
}

} // verus!

verus! {

/// A value behind the byte `sep`, or nothing for no value.
pub open spec fn spec_wire_opt<T: Encoder>(v: Option<T::V>, sep: u8) -> Seq<u8> {
    match v {
        Some(x) => seq![sep] + T::wire(x),
        None => Seq::empty(),
    }
}

/// Appends a value behind the byte `sep`, or nothing for no value.
pub fn encode_opt<T: Encoder>(v: &Option<T>, sep: u8, out: &mut Vec<u8>)
    ensures
        final(out)@ == old(out)@ + spec_wire_opt::<T>(v.deep_view(), sep),
{
    let ghost start = out@;
    match v {
        Some(x) => {
            out.push(sep);
            x.encode_into(out);
            assert(out@ =~= start + spec_wire_opt::<T>(v.deep_view(), sep));
        },
        None => {
            assert(out@ =~= start + spec_wire_opt::<T>(v.deep_view(), sep));
        },
    }
}

} // verus!

verus! {

/// Parses one or more items with the byte `sep` between them into a vector
/// that is known not to be empty.
pub fn separated1_nonempty<'a, R: Rule>(input: &'a [u8], sep: u8) -> (r: IMAPResult<
    'a,
    NonEmptyVec<R::Out>,
>)
    ensures
        agrees(r, spec_separated1::<R>(input@, sep)),
{
    let (rest, items) = separated1::<R>(input, sep)?;
    let ghost model = items.deep_view();
    let list = NonEmptyVec::unvalidated(items);
    assert(list.deep_view() =~= model);
    Ok((rest, list))
}

/// Appends the items of a vector that is not empty, with the byte `sep`
/// between them.
pub fn encode_joined_nonempty<T: Encoder>(items: &NonEmptyVec<T>, sep: u8, out: &mut Vec<u8>)
    ensures
        final(out)@ == old(out)@ + spec_wire_joined::<T>(items.deep_view(), sep),
{
    let slice = items.as_slice();
    assert(slice.deep_view() =~= items.deep_view());
    encode_joined::<T>(slice, sep, out);
}

} // verus!
