//! Untagged data that is written and read back.

use crate::error::{spec_or, ParseError};
use crate::extensions::{spec_enable_data, spec_quota_response, spec_quotaroot_response};
use crate::flag::FlagModel;
use crate::lex::{kw, CharClass, Quirks};
use crate::list::spec_wire_each;
use crate::mailbox::{
    spec_data_exists, spec_data_flags, spec_data_list, spec_data_lsub, spec_data_recent,
    spec_data_search, spec_data_status, spec_mailbox_data, spec_number_word,
};
use crate::number::{
    lemma_digits, lemma_number_roundtrip, spec_digits, spec_number, spec_nz_number, NzNumber,
    NzNumberRule,
};
use crate::response::{
    spec_as_response, spec_capability_data, spec_data_capability, spec_encode_data_body,
    spec_message_data, spec_message_data_of, spec_resp_cond_bye, spec_resp_cond_state,
    spec_status_kind, spec_untagged, spec_untagged_bye, spec_untagged_status, CapabilityModel,
    DataModel,
};
use crate::theorems::flag::{lemma_flag_list_roundtrip, wf_flags};
use crate::theorems::keywords::{
    lemma_kw_bad, lemma_kw_bye, lemma_kw_capability, lemma_kw_enabled, lemma_kw_exists,
    lemma_kw_expunge, lemma_kw_flags, lemma_kw_flags_sp, lemma_kw_list, lemma_kw_lsub, lemma_kw_no,
    lemma_kw_ok, lemma_kw_quota_sp, lemma_kw_quotaroot_sp, lemma_kw_recent, lemma_kw_search,
    lemma_kw_sp_exists, lemma_kw_sp_expunge, lemma_kw_sp_recent, lemma_kw_status,
};
use crate::theorems::lex::{lemma_byte, lemma_no_run, lemma_tag, lemma_tag_mismatch};
use crate::theorems::list::{all_end_before, lemma_preceded0_roundtrip};
use crate::theorems::response::{lemma_capability_data_roundtrip, wf_capabilities};
use vstd::prelude::*;

verus! {

/// The keywords of a status and of `BYE` are not read from input whose
/// first byte is none of their first letters.
pub proof fn lemma_status_words_fail(s: Seq<u8>, quirks: Quirks)
    requires
        s.len() >= 1,
        crate::lex::spec_lower(s[0]) != 'o' as u8,
        crate::lex::spec_lower(s[0]) != 'n' as u8,
        crate::lex::spec_lower(s[0]) != 'b' as u8,
    ensures
        spec_untagged_status(s, quirks) matches Err(ParseError::Error(_)),
        spec_untagged_bye(s, quirks) matches Err(ParseError::Error(_)),
{
    lemma_kw_ok();
    lemma_kw_no();
    lemma_kw_bad();
    lemma_kw_bye();
    lemma_tag_mismatch(s, kw("OK"), 0);
    lemma_tag_mismatch(s, kw("NO"), 0);
    lemma_tag_mismatch(s, kw("BAD"), 0);
    lemma_tag_mismatch(s, kw("BYE"), 0);
    assert(spec_status_kind(s) matches Err(ParseError::Error(_)));
    assert(spec_resp_cond_state(s, quirks) matches Err(ParseError::Error(_)));
    assert(spec_resp_cond_bye(s, quirks) matches Err(ParseError::Error(_)));
}

/// The keywords of mailbox data are not read from input whose first byte
/// is not their first letter.
pub proof fn lemma_data_words_fail(s: Seq<u8>)
    requires
        s.len() >= 1,
    ensures
        crate::lex::spec_lower(s[0]) != 'f' as u8 ==> spec_data_flags(s) matches Err(
            ParseError::Error(_),
        ),
        crate::lex::spec_lower(s[0]) != 'l' as u8 ==> (spec_data_list(s) matches Err(
            ParseError::Error(_),
        )) && (spec_data_lsub(s) matches Err(ParseError::Error(_))),
        crate::lex::spec_lower(s[0]) != 's' as u8 ==> (spec_data_search(s) matches Err(
            ParseError::Error(_),
        )) && (spec_data_status(s) matches Err(ParseError::Error(_))),
        crate::lex::spec_lower(s[0]) != 'q' as u8 ==> (spec_quotaroot_response(s) matches Err(
            ParseError::Error(_),
        )) && (spec_quota_response(s) matches Err(ParseError::Error(_))),
        crate::lex::spec_lower(s[0]) != 'c' as u8 ==> spec_data_capability(s) matches Err(
            ParseError::Error(_),
        ),
        crate::lex::spec_lower(s[0]) != 'e' as u8 ==> spec_enable_data(s) matches Err(
            ParseError::Error(_),
        ),
        !CharClass::Digit.spec_has(s[0]) ==> (spec_data_exists(s) matches Err(
            ParseError::Error(_),
        )) && (spec_data_recent(s) matches Err(ParseError::Error(_))) && (spec_message_data(
            s,
        ) matches Err(ParseError::Error(_))),
{
    if crate::lex::spec_lower(s[0]) != 'f' as u8 {
        lemma_kw_flags();
        lemma_tag_mismatch(s, kw("FLAGS"), 0);
    }
    if crate::lex::spec_lower(s[0]) != 'l' as u8 {
        lemma_kw_list();
        lemma_kw_lsub();
        lemma_tag_mismatch(s, kw("LIST"), 0);
        lemma_tag_mismatch(s, kw("LSUB"), 0);
    }
    if crate::lex::spec_lower(s[0]) != 's' as u8 {
        lemma_kw_search();
        lemma_kw_status();
        lemma_tag_mismatch(s, kw("SEARCH"), 0);
        lemma_tag_mismatch(s, kw("STATUS"), 0);
    }
    if crate::lex::spec_lower(s[0]) != 'q' as u8 {
        lemma_kw_quotaroot_sp();
        lemma_kw_quota_sp();
        lemma_tag_mismatch(s, kw("QUOTAROOT "), 0);
        lemma_tag_mismatch(s, kw("QUOTA "), 0);
    }
    if crate::lex::spec_lower(s[0]) != 'c' as u8 {
        lemma_kw_capability();
        lemma_tag_mismatch(s, kw("CAPABILITY"), 0);
        assert(spec_capability_data(s) matches Err(ParseError::Error(_)));
    }
    if crate::lex::spec_lower(s[0]) != 'e' as u8 {
        lemma_kw_enabled();
        lemma_tag_mismatch(s, kw("ENABLED"), 0);
    }
    if !CharClass::Digit.spec_has(s[0]) {
        lemma_no_run(s, CharClass::Digit);
        assert(spec_number(s) matches Err(ParseError::Error(_)));
        assert(spec_nz_number(s) matches Err(ParseError::Error(_)));
        assert(spec_number_word(s, kw("EXISTS")) matches Err(ParseError::Error(_)));
        assert(spec_number_word(s, kw("RECENT")) matches Err(ParseError::Error(_)));
    }
}

/// What the rule for untagged data yields where no status is read.
pub proof fn lemma_untagged_is_data(s: Seq<u8>, quirks: Quirks)
    requires
        spec_untagged_status(s, quirks) matches Err(ParseError::Error(_)),
        spec_untagged_bye(s, quirks) matches Err(ParseError::Error(_)),
    ensures
        spec_untagged(s, quirks) == spec_or(
            spec_as_response(spec_mailbox_data(s)),
            spec_or(
                spec_as_response(spec_message_data(s)),
                spec_or(
                    spec_as_response(spec_data_capability(s)),
                    spec_as_response(spec_enable_data(s)),
                ),
            ),
        ),
{
    reveal(spec_untagged);
}

/// A number at the front of untagged data, a space and a keyword.
pub proof fn lemma_number_word(n: u32, word: Seq<u8>, rest: Seq<u8>)
    ensures
        spec_number_word(spec_digits(n as nat) + (seq![' ' as u8] + (word + rest)), word) == Ok::<
            _,
            ParseError,
        >((rest, n)),
        (spec_digits(n as nat) + (seq![' ' as u8] + (word + rest))).len() >= 1,
        CharClass::Digit.spec_has((spec_digits(n as nat) + (seq![' ' as u8] + (word + rest)))[0]),
{
    let after = seq![' ' as u8] + (word + rest);
    lemma_number_roundtrip(n, after);
    lemma_byte(' ' as u8, word + rest);
    lemma_tag(word, rest);
    lemma_digits(n as nat);
    assert((spec_digits(n as nat) + after)[0] == spec_digits(n as nat)[0]);
}

/// How a number, a keyword with a space before it, and what follows are
/// grouped.
pub proof fn lemma_number_word_form(digits: Seq<u8>, sp_word: Seq<u8>, word: Seq<u8>, rest: Seq<u8>)
    requires
        sp_word == seq![' ' as u8] + word,
    ensures
        digits + sp_word + rest == digits + (seq![' ' as u8] + (word + rest)),
{
    assert(digits + sp_word + rest =~= digits + (seq![' ' as u8] + (word + rest)));
}

/// `EXISTS` with its number is read back as mailbox data.
pub proof fn lemma_exists_roundtrip(n: u32, rest: Seq<u8>)
    ensures
        spec_mailbox_data(spec_encode_data_body(DataModel::Exists(n)) + rest) == Ok::<
            _,
            ParseError,
        >((rest, DataModel::Exists(n))),
        (spec_encode_data_body(DataModel::Exists(n)) + rest).len() >= 1,
        CharClass::Digit.spec_has((spec_encode_data_body(DataModel::Exists(n)) + rest)[0]),
{
    reveal(spec_encode_data_body);
    reveal(spec_mailbox_data);
    lemma_kw_exists();
    lemma_kw_sp_exists();
    let s = spec_encode_data_body(DataModel::Exists(n)) + rest;
    assert(kw(" EXISTS") =~= seq![' ' as u8] + kw("EXISTS"));
    lemma_number_word_form(spec_digits(n as nat), kw(" EXISTS"), kw("EXISTS"), rest);
    lemma_number_word(n, kw("EXISTS"), rest);
    lemma_data_words_fail(s);
}

/// `RECENT` with its number is read back as mailbox data.
pub proof fn lemma_recent_roundtrip(n: u32, rest: Seq<u8>)
    ensures
        spec_mailbox_data(spec_encode_data_body(DataModel::Recent(n)) + rest) == Ok::<
            _,
            ParseError,
        >((rest, DataModel::Recent(n))),
        (spec_encode_data_body(DataModel::Recent(n)) + rest).len() >= 1,
        CharClass::Digit.spec_has((spec_encode_data_body(DataModel::Recent(n)) + rest)[0]),
{
    reveal(spec_encode_data_body);
    reveal(spec_mailbox_data);
    lemma_kw_recent();
    lemma_kw_sp_recent();
    lemma_kw_exists();
    let s = spec_encode_data_body(DataModel::Recent(n)) + rest;
    let after = kw("RECENT") + rest;
    assert(kw(" RECENT") =~= seq![' ' as u8] + kw("RECENT"));
    lemma_number_word_form(spec_digits(n as nat), kw(" RECENT"), kw("RECENT"), rest);
    lemma_number_word(n, kw("RECENT"), rest);
    lemma_data_words_fail(s);
    lemma_number_roundtrip(n, seq![' ' as u8] + after);
    lemma_byte(' ' as u8, after);
    assert(after[0] == 'R' as u8);
    lemma_tag_mismatch(after, kw("EXISTS"), 0);
    assert(spec_number_word(s, kw("EXISTS")) matches Err(ParseError::Error(_)));
    assert(spec_data_exists(s) matches Err(ParseError::Error(_)));
}

/// `EXPUNGE` with its number is read back as message data, and is no
/// mailbox data.
pub proof fn lemma_expunge_roundtrip(n: u32, rest: Seq<u8>)
    requires
        n >= 1,
    ensures
        spec_mailbox_data(spec_encode_data_body(DataModel::Expunge(n)) + rest) matches Err(
            ParseError::Error(_),
        ),
        spec_message_data(spec_encode_data_body(DataModel::Expunge(n)) + rest) == Ok::<
            _,
            ParseError,
        >((rest, DataModel::Expunge(n))),
        (spec_encode_data_body(DataModel::Expunge(n)) + rest).len() >= 1,
        CharClass::Digit.spec_has((spec_encode_data_body(DataModel::Expunge(n)) + rest)[0]),
{
    reveal(spec_encode_data_body);
    reveal(spec_mailbox_data);
    lemma_kw_expunge();
    lemma_kw_sp_expunge();
    lemma_kw_exists();
    lemma_kw_recent();
    let s = spec_encode_data_body(DataModel::Expunge(n)) + rest;
    let after = kw("EXPUNGE") + rest;
    assert(kw(" EXPUNGE") =~= seq![' ' as u8] + kw("EXPUNGE"));
    lemma_number_word_form(spec_digits(n as nat), kw(" EXPUNGE"), kw("EXPUNGE"), rest);
    lemma_number_word(n, kw("EXPUNGE"), rest);
    lemma_data_words_fail(s);
    lemma_number_roundtrip(n, seq![' ' as u8] + after);
    lemma_byte(' ' as u8, after);
    lemma_tag(kw("EXPUNGE"), rest);
    assert(after[0] == 'E' as u8);
    assert(after[2] == 'P' as u8);
    lemma_tag_mismatch(after, kw("EXISTS"), 2);
    lemma_tag_mismatch(after, kw("RECENT"), 0);
    assert(spec_number_word(s, kw("EXISTS")) matches Err(ParseError::Error(_)));
    assert(spec_number_word(s, kw("RECENT")) matches Err(ParseError::Error(_)));
    assert(spec_data_exists(s) matches Err(ParseError::Error(_)));
    assert(spec_data_recent(s) matches Err(ParseError::Error(_)));
    assert(spec_message_data_of(after, n) == Ok::<_, ParseError>((rest, DataModel::Expunge(n))));
}

/// `SEARCH` with its numbers is read back as mailbox data.
pub proof fn lemma_search_roundtrip(numbers: Seq<u32>, rest: Seq<u8>)
    requires
        forall|i: int| 0 <= i < numbers.len() ==> #[trigger] numbers[i] >= 1,
        rest.len() >= 1,
        rest[0] != ' ' as u8,
        !CharClass::Digit.spec_has(rest[0]),
    ensures
        spec_mailbox_data(spec_encode_data_body(DataModel::Search(numbers)) + rest) == Ok::<
            _,
            ParseError,
        >((rest, DataModel::Search(numbers))),
        (spec_encode_data_body(DataModel::Search(numbers)) + rest).len() >= 1,
        (spec_encode_data_body(DataModel::Search(numbers)) + rest)[0] == 'S' as u8,
{
    reveal(spec_encode_data_body);
    reveal(spec_mailbox_data);
    lemma_kw_search();
    let list = spec_wire_each::<NzNumber>(numbers, ' ' as u8);
    let s = spec_encode_data_body(DataModel::Search(numbers)) + rest;
    assert(s =~= kw("SEARCH") + (list + rest));
    assert(s[0] == 'S' as u8);
    lemma_data_words_fail(s);
    lemma_tag(kw("SEARCH"), list + rest);
    assert(all_end_before::<NzNumberRule>(numbers, ' ' as u8));
    assert(all_end_before::<NzNumberRule>(numbers, rest[0]));
    lemma_preceded0_roundtrip::<NzNumberRule>(numbers, ' ' as u8, rest);
}

/// `FLAGS` with its flags is read back as mailbox data.
pub proof fn lemma_flags_roundtrip(flags: Seq<FlagModel>, rest: Seq<u8>)
    requires
        wf_flags(flags),
    ensures
        spec_mailbox_data(spec_encode_data_body(DataModel::Flags(flags)) + rest) == Ok::<
            _,
            ParseError,
        >((rest, DataModel::Flags(flags))),
        (spec_encode_data_body(DataModel::Flags(flags)) + rest).len() >= 1,
        (spec_encode_data_body(DataModel::Flags(flags)) + rest)[0] == 'F' as u8,
{
    reveal(spec_encode_data_body);
    reveal(spec_mailbox_data);
    lemma_kw_flags();
    lemma_kw_flags_sp();
    let list = crate::flag::spec_encode_flag_list(flags);
    let s = spec_encode_data_body(DataModel::Flags(flags)) + rest;
    assert(kw("FLAGS ") =~= kw("FLAGS") + seq![' ' as u8]);
    assert(s =~= kw("FLAGS") + (seq![' ' as u8] + (list + rest)));
    assert(s[0] == 'F' as u8);
    lemma_tag(kw("FLAGS"), seq![' ' as u8] + (list + rest));
    lemma_byte(' ' as u8, list + rest);
    lemma_flag_list_roundtrip(flags, rest);
}

/// `CAPABILITY` with its capabilities is read back as data, and is neither
/// mailbox data nor message data.
pub proof fn lemma_capability_data(caps: Seq<CapabilityModel>, rest: Seq<u8>)
    requires
        wf_capabilities(caps),
        rest.len() >= 1,
        rest[0] != ' ' as u8,
        !CharClass::Atom.spec_has(rest[0]),
    ensures
        spec_mailbox_data(spec_encode_data_body(DataModel::Capability(caps)) + rest) matches Err(
            ParseError::Error(_),
        ),
        spec_message_data(spec_encode_data_body(DataModel::Capability(caps)) + rest) matches Err(
            ParseError::Error(_),
        ),
        spec_data_capability(spec_encode_data_body(DataModel::Capability(caps)) + rest) == Ok::<
            _,
            ParseError,
        >((rest, DataModel::Capability(caps))),
        (spec_encode_data_body(DataModel::Capability(caps)) + rest).len() >= 1,
        (spec_encode_data_body(DataModel::Capability(caps)) + rest)[0] == 'C' as u8,
{
    reveal(spec_encode_data_body);
    reveal(spec_mailbox_data);
    crate::theorems::keywords::lemma_kw_capability_sp();
    let s = spec_encode_data_body(DataModel::Capability(caps)) + rest;
    assert(s[0] == 'C' as u8);
    lemma_data_words_fail(s);
    lemma_capability_data_roundtrip(caps, rest);
}

} // verus!
