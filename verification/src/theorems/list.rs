//! Lists that are written and read back.

use crate::codec::Encoder;
use crate::error::ParseError;
use crate::list::{
    spec_more, spec_opt_preceded, spec_preceded, spec_preceded0, spec_repeat, spec_separated0,
    spec_separated1, spec_wire_all, spec_wire_each, spec_wire_joined, spec_wire_opt, Rule,
};
use crate::theorems::lex::{lemma_byte, lemma_no_byte};
use vstd::prelude::*;

verus! {

/// A rule whose items are read back as they were written.
pub trait Reversible: Rule<Out = <Self as Reversible>::Item> {
    /// The item, which has a wire form.
    type Item: Encoder;

    /// The item is one that the rule can yield.
    spec fn wf(v: <Self::Item as DeepView>::V) -> bool;

    /// The byte `next` may stand behind the written item: it cannot be
    /// taken for a part of it.
    spec fn ends_before(v: <Self::Item as DeepView>::V, next: u8) -> bool;

    /// A well-formed item is read back where a byte follows that may stand
    /// behind it, and its written form is not empty.
    proof fn lemma_roundtrip(v: <Self::Item as DeepView>::V, rest: Seq<u8>)
        requires
            Self::wf(v),
            rest.len() >= 1,
            Self::ends_before(v, rest[0]),
        ensures
            Self::rule(<Self::Item as Encoder>::wire(v) + rest) == Ok::<_, ParseError>((rest, v)),
            <Self::Item as Encoder>::wire(v).len() >= 1,
    ;
}

/// Every item is well formed and may be followed by the byte `next`.
pub open spec fn all_end_before<R: Reversible>(
    items: Seq<<R::Item as DeepView>::V>,
    next: u8,
) -> bool {
    forall|i: int|
        0 <= i < items.len() ==> R::wf(#[trigger] items[i]) && R::ends_before(items[i], next)
}

/// The written form of items that each stand behind a separator begins
/// with the first of them.
pub proof fn lemma_wire_each_front<T: Encoder>(items: Seq<T::V>, sep: u8)
    requires
        items.len() >= 1,
    ensures
        spec_wire_each::<T>(items, sep) == seq![sep] + T::wire(items[0]) + spec_wire_each::<T>(
            items.skip(1),
            sep,
        ),
    decreases items.len(),
{
    if items.len() == 1 {
        assert(items.drop_last() =~= Seq::<T::V>::empty());
        assert(items.skip(1) =~= Seq::<T::V>::empty());
        assert(spec_wire_each::<T>(items, sep) =~= seq![sep] + T::wire(items[0])
            + spec_wire_each::<T>(items.skip(1), sep));
    } else {
        let w = items.drop_last();
        lemma_wire_each_front::<T>(w, sep);
        assert(w.skip(1) =~= items.skip(1).drop_last());
        assert(w[0] == items[0]);
        assert(items.skip(1).last() == items.last());
        assert(spec_wire_each::<T>(items, sep) =~= seq![sep] + T::wire(items[0])
            + spec_wire_each::<T>(items.skip(1), sep));
    }
}

/// The written form of items without separators begins with the first of
/// them.
pub proof fn lemma_wire_all_front<T: Encoder>(items: Seq<T::V>)
    requires
        items.len() >= 1,
    ensures
        spec_wire_all::<T>(items) == T::wire(items[0]) + spec_wire_all::<T>(items.skip(1)),
    decreases items.len(),
{
    if items.len() == 1 {
        assert(items.drop_last() =~= Seq::<T::V>::empty());
        assert(items.skip(1) =~= Seq::<T::V>::empty());
        assert(spec_wire_all::<T>(items) =~= T::wire(items[0]) + spec_wire_all::<T>(
            items.skip(1),
        ));
    } else {
        let w = items.drop_last();
        lemma_wire_all_front::<T>(w);
        assert(w.skip(1) =~= items.skip(1).drop_last());
        assert(w[0] == items[0]);
        assert(items.skip(1).last() == items.last());
        assert(spec_wire_all::<T>(items) =~= T::wire(items[0]) + spec_wire_all::<T>(
            items.skip(1),
        ));
    }
}

/// Items that each stand behind a separator are read back, behind whatever
/// was read before them, where something follows that is no separator, or a
/// separator behind which no item is read.
pub proof fn lemma_more_roundtrip<R: Reversible>(
    items: Seq<<R::Item as DeepView>::V>,
    sep: u8,
    acc: Seq<<R::Item as DeepView>::V>,
    rest: Seq<u8>,
)
    requires
        rest.len() >= 1,
        rest[0] != sep || R::rule(rest.skip(1)) matches Err(ParseError::Error(_)),
        all_end_before::<R>(items, sep),
        all_end_before::<R>(items, rest[0]),
    ensures
        spec_more::<R>(spec_wire_each::<R::Item>(items, sep) + rest, sep, acc) == Ok::<
            _,
            ParseError,
        >((rest, acc + items)),
    decreases items.len(),
{
    let s = spec_wire_each::<R::Item>(items, sep) + rest;
    if items.len() == 0 {
        assert(s =~= rest);
        if rest[0] != sep {
            lemma_no_byte(rest, sep);
        }
        assert(acc + items =~= acc);
    } else {
        let first = items[0];
        let tail = items.skip(1);
        lemma_wire_each_front::<R::Item>(items, sep);
        let after = spec_wire_each::<R::Item>(tail, sep) + rest;
        let r1 = <R::Item as Encoder>::wire(first) + after;
        assert(s =~= seq![sep] + r1);
        lemma_byte(sep, r1);
        if tail.len() > 0 {
            lemma_wire_each_front::<R::Item>(tail, sep);
            assert(after[0] == sep);
        } else {
            assert(after =~= rest);
        }
        assert(R::wf(first) && R::ends_before(first, sep) && R::ends_before(first, rest[0]));
        R::lemma_roundtrip(first, after);
        assert forall|i: int| 0 <= i < tail.len() implies R::wf(#[trigger] tail[i])
            && R::ends_before(tail[i], sep) && R::ends_before(tail[i], rest[0]) by {
            assert(tail[i] == items[i + 1]);
        }
        lemma_more_roundtrip::<R>(tail, sep, acc.push(first), rest);
        assert(acc.push(first) + tail =~= acc + items);
    }
}

/// One or more items with separators between them are read back where
/// something follows that is no separator, or a separator behind which no
/// item is read.
pub proof fn lemma_separated1_roundtrip<R: Reversible>(
    items: Seq<<R::Item as DeepView>::V>,
    sep: u8,
    rest: Seq<u8>,
)
    requires
        items.len() >= 1,
        rest.len() >= 1,
        rest[0] != sep || R::rule(rest.skip(1)) matches Err(ParseError::Error(_)),
        all_end_before::<R>(items, sep),
        all_end_before::<R>(items, rest[0]),
    ensures
        spec_separated1::<R>(spec_wire_joined::<R::Item>(items, sep) + rest, sep) == Ok::<
            _,
            ParseError,
        >((rest, items)),
        spec_separated0::<R>(spec_wire_joined::<R::Item>(items, sep) + rest, sep) == Ok::<
            _,
            ParseError,
        >((rest, items)),
        spec_wire_joined::<R::Item>(items, sep).len() >= 1,
{
    let first = items[0];
    let tail = items.skip(1);
    let after = spec_wire_each::<R::Item>(tail, sep) + rest;
    let s = spec_wire_joined::<R::Item>(items, sep) + rest;
    assert(s =~= <R::Item as Encoder>::wire(first) + after);
    if tail.len() > 0 {
        lemma_wire_each_front::<R::Item>(tail, sep);
        assert(after[0] == sep);
    } else {
        assert(after =~= rest);
    }
    assert(R::wf(first) && R::ends_before(first, sep) && R::ends_before(first, rest[0]));
    R::lemma_roundtrip(first, after);
    assert forall|i: int| 0 <= i < tail.len() implies R::wf(#[trigger] tail[i]) && R::ends_before(
        tail[i],
        sep,
    ) && R::ends_before(tail[i], rest[0]) by {
        assert(tail[i] == items[i + 1]);
    }
    lemma_more_roundtrip::<R>(tail, sep, seq![first], rest);
    assert(seq![first] + tail =~= items);
}

/// Any number of items that each stand behind a separator are read back
/// where something follows that is no separator.
pub proof fn lemma_preceded0_roundtrip<R: Reversible>(
    items: Seq<<R::Item as DeepView>::V>,
    sep: u8,
    rest: Seq<u8>,
)
    requires
        rest.len() >= 1,
        rest[0] != sep,
        all_end_before::<R>(items, sep),
        all_end_before::<R>(items, rest[0]),
    ensures
        spec_preceded0::<R>(spec_wire_each::<R::Item>(items, sep) + rest, sep) == Ok::<
            _,
            ParseError,
        >((rest, items)),
{
    lemma_more_roundtrip::<R>(items, sep, Seq::empty(), rest);
    assert(Seq::<<R::Item as DeepView>::V>::empty() + items =~= items);
}

/// No item is read from input on which the rule fails: the empty list is
/// read back.
pub proof fn lemma_separated0_empty<R: Reversible>(sep: u8, rest: Seq<u8>)
    requires
        R::rule(rest) matches Err(ParseError::Error(_)),
    ensures
        spec_separated0::<R>(
            spec_wire_joined::<R::Item>(Seq::<<R::Item as DeepView>::V>::empty(), sep) + rest,
            sep,
        ) == Ok::<_, ParseError>((rest, Seq::<<R::Item as DeepView>::V>::empty())),
{
    assert(spec_wire_joined::<R::Item>(Seq::<<R::Item as DeepView>::V>::empty(), sep) + rest
        =~= rest);
}

/// An item behind a separator is read back.
pub proof fn lemma_preceded_roundtrip<R: Reversible>(
    v: <R::Item as DeepView>::V,
    sep: u8,
    rest: Seq<u8>,
)
    requires
        R::wf(v),
        rest.len() >= 1,
        R::ends_before(v, rest[0]),
    ensures
        spec_preceded::<R>(seq![sep] + <R::Item as Encoder>::wire(v) + rest, sep) == Ok::<
            _,
            ParseError,
        >((rest, v)),
        spec_opt_preceded::<R>(spec_wire_opt::<R::Item>(Some(v), sep) + rest, sep) == Ok::<
            _,
            ParseError,
        >((rest, Some(v))),
{
    let r1 = <R::Item as Encoder>::wire(v) + rest;
    assert(seq![sep] + <R::Item as Encoder>::wire(v) + rest =~= seq![sep] + r1);
    lemma_byte(sep, r1);
    R::lemma_roundtrip(v, rest);
}

/// Nothing is read where no separator stands.
pub proof fn lemma_opt_preceded_none<R: Reversible>(sep: u8, rest: Seq<u8>)
    requires
        rest.len() >= 1,
        rest[0] != sep,
    ensures
        spec_opt_preceded::<R>(
            spec_wire_opt::<R::Item>(None::<<R::Item as DeepView>::V>, sep) + rest,
            sep,
        ) == Ok::<_, ParseError>((rest, None::<<R::Item as DeepView>::V>)),
{
    assert(spec_wire_opt::<R::Item>(None::<<R::Item as DeepView>::V>, sep) + rest =~= rest);
    lemma_no_byte(rest, sep);
}

/// Items without separators are read back, behind whatever was read before
/// them, where the rule fails on what follows.
pub proof fn lemma_repeat_roundtrip<R: Reversible>(
    items: Seq<<R::Item as DeepView>::V>,
    acc: Seq<<R::Item as DeepView>::V>,
    rest: Seq<u8>,
    next: u8,
)
    requires
        rest.len() >= 1,
        R::rule(rest) matches Err(ParseError::Error(_)),
        all_end_before::<R>(items, rest[0]),
        all_end_before::<R>(items, next),
        forall|i: int|
            0 <= i < items.len() ==> (#[trigger] <R::Item as Encoder>::wire(items[i])).len() >= 1
                && <R::Item as Encoder>::wire(items[i])[0] == next,
    ensures
        spec_repeat::<R>(spec_wire_all::<R::Item>(items) + rest, acc) == Ok::<_, ParseError>(
            (rest, acc + items),
        ),
    decreases items.len(),
{
    let s = spec_wire_all::<R::Item>(items) + rest;
    if items.len() == 0 {
        assert(s =~= rest);
        assert(acc + items =~= acc);
    } else {
        let first = items[0];
        let tail = items.skip(1);
        lemma_wire_all_front::<R::Item>(items);
        let after = spec_wire_all::<R::Item>(tail) + rest;
        assert(s =~= <R::Item as Encoder>::wire(first) + after);
        if tail.len() > 0 {
            lemma_wire_all_front::<R::Item>(tail);
            assert(tail[0] == items[1]);
            assert(<R::Item as Encoder>::wire(items[1]).len() >= 1);
            assert(after[0] == next);
        } else {
            assert(after =~= rest);
        }
        assert(R::wf(first) && R::ends_before(first, next) && R::ends_before(first, rest[0]));
        R::lemma_roundtrip(first, after);
        assert forall|i: int| 0 <= i < tail.len() implies R::wf(#[trigger] tail[i])
            && R::ends_before(tail[i], next) && R::ends_before(tail[i], rest[0]) by {
            assert(tail[i] == items[i + 1]);
        }
        assert forall|i: int| 0 <= i < tail.len() implies (#[trigger] <R::Item as Encoder>::wire(
            tail[i],
        )).len() >= 1 && <R::Item as Encoder>::wire(tail[i])[0] == next by {
            assert(tail[i] == items[i + 1]);
            assert(<R::Item as Encoder>::wire(items[i + 1]).len() >= 1);
        }
        lemma_repeat_roundtrip::<R>(tail, acc.push(first), rest, next);
        assert(acc.push(first) + tail =~= acc + items);
    }
}

} // verus!
