//! The primitive lexers on input that begins with what they look for.

use crate::error::{error_at, Category, ParseError};
use crate::lex::{
    eq_ignore_case, lemma_span, span, spec_byte, spec_crlf, spec_lower, spec_tag,
    spec_tag_no_case, spec_take_while, spec_take_while1, CharClass,
};
use vstd::prelude::*;

verus! {

/// A token is read from input that begins with it.
pub proof fn lemma_tag(t: Seq<u8>, rest: Seq<u8>)
    ensures
        spec_tag(t + rest, t) == Ok::<_, ParseError>((rest, ())),
        spec_tag_no_case(t + rest, t) == Ok::<_, ParseError>((rest, ())),
{
    reveal(eq_ignore_case);
    let s = t + rest;
    assert(s.take(t.len() as int) =~= t);
    assert(s.skip(t.len() as int) =~= rest);
}

/// A token is not read from input that differs from it at the index `i`,
/// even when case is ignored.
pub proof fn lemma_tag_mismatch(s: Seq<u8>, t: Seq<u8>, i: int)
    requires
        0 <= i < s.len(),
        i < t.len(),
        spec_lower(s[i]) != spec_lower(t[i]),
    ensures
        spec_tag_no_case(s, t) == Err::<(Seq<u8>, ()), _>(error_at(Category::CharacterClass, s)),
        spec_tag(s, t) == Err::<(Seq<u8>, ()), _>(error_at(Category::CharacterClass, s)),
{
    reveal(eq_ignore_case);
    if s.len() >= t.len() {
        let p = s.take(t.len() as int);
        assert(p[i] == s[i]);
        if p == t {
            assert(p[i] == t[i]);
        }
    } else {
        let p = t.take(s.len() as int);
        assert(p[i] == t[i]);
        if s == p {
            assert(s[i] == p[i]);
        }
    }
}

/// A byte is read from input that begins with it.
pub proof fn lemma_byte(b: u8, rest: Seq<u8>)
    ensures
        spec_byte(seq![b] + rest, b) == Ok::<_, ParseError>((rest, ())),
{
    let s = seq![b] + rest;
    assert(s.skip(1) =~= rest);
}

/// The end of a line is read from input that begins with CR and LF,
/// whether a bare LF is tolerated or not.
pub proof fn lemma_crlf(rest: Seq<u8>, relaxed: bool)
    ensures
        spec_crlf(seq!['\r' as u8, '\n' as u8] + rest, relaxed) == Ok::<_, ParseError>((rest, ())),
{
    let s = seq!['\r' as u8, '\n' as u8] + rest;
    assert(s.skip(1).skip(1) =~= rest);
    assert(s.skip(1)[0] == '\n' as u8);
}

/// A run of a class is read as a whole where a byte outside the class
/// follows it.
pub proof fn lemma_run(run: Seq<u8>, rest: Seq<u8>, class: CharClass)
    requires
        class.all(run),
        rest.len() >= 1,
        !class.spec_has(rest[0]),
    ensures
        span(run + rest, class) == run.len(),
        spec_take_while(run + rest, class) == Ok::<_, ParseError>((rest, run)),
        run.len() >= 1 ==> spec_take_while1(run + rest, class) == Ok::<_, ParseError>(
            (rest, run),
        ),
        run.len() == 0 ==> spec_take_while1(run + rest, class) == Err::<(Seq<u8>, Seq<u8>), _>(
            error_at(Category::CharacterClass, run + rest),
        ),
{
    let s = run + rest;
    assert forall|i: int| 0 <= i < run.len() implies class.spec_has(#[trigger] s[i]) by {
        assert(s[i] == run[i]);
    }
    assert(s[run.len() as int] == rest[0]);
    lemma_span(s, class, run.len() as int);
    assert(s.take(run.len() as int) =~= run);
    assert(s.skip(run.len() as int) =~= rest);
}

/// No run of a class is read from input that begins with a byte outside the
/// class.
pub proof fn lemma_no_run(s: Seq<u8>, class: CharClass)
    requires
        s.len() >= 1,
        !class.spec_has(s[0]),
    ensures
        spec_take_while1(s, class) == Err::<(Seq<u8>, Seq<u8>), _>(
            error_at(Category::CharacterClass, s),
        ),
{
    lemma_span(s, class, 0);
}

/// No byte `b` is read from input that begins with another byte.
pub proof fn lemma_no_byte(s: Seq<u8>, b: u8)
    requires
        s.len() >= 1,
        s[0] != b,
    ensures
        spec_byte(s, b) == Err::<(Seq<u8>, ()), _>(error_at(Category::CharacterClass, s)),
{
}

} // verus!
