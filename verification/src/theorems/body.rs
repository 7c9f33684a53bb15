//! The bound on the nesting of body structures.

use crate::body::{
    spec_body, spec_body_content, spec_body_type_1part, spec_body_type_basic, spec_body_type_mpart,
    spec_body_type_msg, spec_body_type_specific, spec_body_type_text, spec_param,
};
use crate::error::{Category, ParseError};
use crate::lex::{kw, spec_byte};
use crate::strings::{spec_literal, spec_literal_header, spec_quoted, spec_string};
use crate::theorems::keywords::{lemma_kw_media_message, lemma_kw_media_text};
use crate::theorems::lex::{lemma_no_byte, lemma_tag_mismatch};
use vstd::prelude::*;

verus! {

/// The first `n` bytes of `s` are opening parentheses.
pub open spec fn opens(s: Seq<u8>, n: nat) -> bool {
    s.len() >= n && forall|i: int| 0 <= i < n ==> s[i] == '(' as u8
}

/// What begins with a parenthesis is no single part: none of the three
/// kinds matches it.
pub proof fn lemma_parenthesis_is_no_part(s: Seq<u8>, budget: nat)
    requires
        budget >= 1,
        opens(s, 1),
    ensures
        spec_body_type_specific(s, budget) matches Err(ParseError::Error(_)),
{
    reveal(spec_string);
    lemma_kw_media_message();
    lemma_kw_media_text();
    lemma_tag_mismatch(s, kw("\"MESSAGE\" \"RFC822\""), 0);
    lemma_tag_mismatch(s, kw("\"TEXT\" "), 0);
    lemma_no_byte(s, '"' as u8);
    lemma_no_byte(s, '{' as u8);
    assert(spec_body_type_msg(s, budget) matches Err(ParseError::Error(_)));
    assert(spec_body_type_text(s) matches Err(ParseError::Error(_)));
    assert(spec_quoted(s) matches Err(ParseError::Error(_)));
    assert(spec_literal_header(s) matches Err(ParseError::Error(_)));
    assert(spec_literal(s) matches Err(ParseError::Error(_)));
    assert(spec_string(s) matches Err(ParseError::Error(_)));
    assert(spec_param(s) matches Err(ParseError::Error(_)));
    assert(spec_body_type_basic(s) matches Err(ParseError::Error(_)));
}

/// As many opening parentheses as the budget allows levels exhaust the
/// budget: the rule `body` fails for good, with the category of the
/// budget, whatever follows the parentheses. The input is never taken for
/// incomplete.
pub proof fn lemma_nesting_exhausts_budget(s: Seq<u8>, budget: nat)
    requires
        budget >= 1,
        opens(s, budget),
    ensures
        spec_body(s, budget) matches Err(ParseError::Failure(m)) && m.category == Category::Budget,
    decreases budget,
{
    let r1 = s.skip(1);
    assert(s[0] == '(' as u8);
    assert(spec_byte(s, '(' as u8) == Ok::<_, ParseError>((r1, ())));
    if budget == 1 {
        assert(spec_body_type_1part(r1, 0) is Err);
        assert(spec_body_content(r1, 0) is Err);
    } else if budget == 2 {
        assert(spec_body_type_msg(r1, 0) is Err);
        assert(spec_body_type_specific(r1, 0) is Err);
        assert(spec_body_type_1part(r1, 1) is Err);
        assert(spec_body_content(r1, 1) is Err);
    } else {
        assert forall|i: int| 0 <= i < budget - 1 implies r1[i] == '(' as u8 by {
            assert(r1[i] == s[i + 1]);
        }
        assert(opens(r1, (budget - 1) as nat));
        lemma_parenthesis_is_no_part(r1, (budget - 2) as nat);
        assert(spec_body_type_1part(r1, (budget - 1) as nat) matches Err(ParseError::Error(_)));
        lemma_nesting_exhausts_budget(r1, (budget - 1) as nat);
        assert(spec_body_type_mpart(r1, (budget - 1) as nat) matches Err(ParseError::Failure(m))
            && m.category == Category::Budget);
        assert(spec_body_content(r1, (budget - 1) as nat) matches Err(ParseError::Failure(m))
            && m.category == Category::Budget);
    }
}

} // verus!
