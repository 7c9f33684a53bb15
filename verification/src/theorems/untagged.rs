//! Responses with untagged data that are written and read back.

use crate::error::{spec_or, ParseError};
use crate::extensions::{
    spec_enable_data, spec_quota_response, spec_quotaroot_response, CapabilityEnableRule,
};
use crate::flag::FlagNameAttributeModel;
use crate::lex::{kw, spec_lower, CharClass, Quirks};
use crate::list::{spec_wire_each, spec_wire_joined};
use crate::mailbox::{
    spec_data_list, spec_data_search, spec_encode_mailbox, spec_encode_mailbox_list,
    spec_mailbox_data, spec_word_mailbox_list, MailboxModel,
};
use crate::quota::{QuotaGet, QuotaGetModel, QuotaResourceRule};
use crate::response::{
    spec_as_response, spec_crlf_bytes, spec_data_capability, spec_encode_data_body,
    spec_encode_response, spec_message_data, spec_response, spec_response_data, spec_untagged,
    CapabilityEnable, CapabilityEnableModel, DataModel, ResponseModel,
};
use crate::status::{StatusDataItem, StatusDataItemModel};
use crate::strings::{spec_encode_astring, AString, AStringModel, AStringRule};
use crate::theorems::data::{
    lemma_capability_data, lemma_data_words_fail, lemma_exists_roundtrip,
    lemma_expunge_roundtrip, lemma_flags_roundtrip, lemma_recent_roundtrip,
    lemma_search_roundtrip, lemma_status_words_fail, lemma_untagged_is_data,
};
use crate::theorems::flag::wf_flags;
use crate::theorems::keywords::{
    lemma_kw_enabled, lemma_kw_list, lemma_kw_list_sp, lemma_kw_lsub, lemma_kw_lsub_sp,
    lemma_kw_quota_sp, lemma_kw_quotaroot_sp, lemma_kw_search, lemma_kw_sp_paren, lemma_kw_star,
    lemma_kw_status, lemma_kw_status_sp,
};
use crate::theorems::lex::{lemma_byte, lemma_crlf, lemma_tag, lemma_tag_mismatch};
use crate::theorems::list::{
    all_end_before, lemma_preceded0_roundtrip, lemma_separated1_roundtrip,
};
use crate::theorems::listing::{
    lemma_mailbox_list_roundtrip, lemma_status_items_roundtrip, wf_capability_enable,
    wf_name_attributes, wf_quota_get, wf_status_item,
};
use crate::theorems::mailbox::{lemma_mailbox_roundtrip, wf_mailbox};
use crate::theorems::response::wf_capabilities;
use crate::theorems::status::lemma_no_continue_req;
use crate::theorems::strings::{lemma_astring_roundtrip, wf_astring};
use vstd::prelude::*;

verus! {

/// What the grammar tries for untagged data once it has found no status:
/// mailbox data, message data, capabilities, enabled capabilities.
pub open spec fn spec_data_alternatives(s: Seq<u8>) -> Result<
    (Seq<u8>, ResponseModel),
    ParseError,
> {
    spec_or(
        spec_as_response(spec_mailbox_data(s)),
        spec_or(
            spec_as_response(spec_message_data(s)),
            spec_or(
                spec_as_response(spec_data_capability(s)),
                spec_as_response(spec_enable_data(s)),
            ),
        ),
    )
}

/// What may stand behind untagged data: the end of the line.
pub open spec fn at_line_end(rest: Seq<u8>) -> bool {
    rest.len() >= 1 && rest[0] == '\r' as u8
}

/// How a keyword with its space and what follows it are grouped.
proof fn lemma_word_sp_form(word_sp: Seq<u8>, word: Seq<u8>, body: Seq<u8>, rest: Seq<u8>)
    requires
        word_sp == word + seq![' ' as u8],
    ensures
        word_sp + body + rest == word + (seq![' ' as u8] + (body + rest)),
{
    assert(word_sp + body + rest =~= word + (seq![' ' as u8] + (body + rest)));
}

/// The keyword `LIST` or `LSUB`.
pub open spec fn spec_listing_word(lsub: bool) -> Seq<u8> {
    if lsub {
        kw("LSUB")
    } else {
        kw("LIST")
    }
}

/// The data of a listing.
pub open spec fn spec_listing(
    lsub: bool,
    items: Seq<FlagNameAttributeModel>,
    delimiter: Option<u8>,
    mailbox: MailboxModel,
) -> DataModel {
    if lsub {
        DataModel::Lsub { items, delimiter, mailbox }
    } else {
        DataModel::List { items, delimiter, mailbox }
    }
}

/// A listing is read as mailbox data from its keyword, a space and what
/// the rule `mailbox-list` reads.
proof fn lemma_listing_pieces(
    lsub: bool,
    body: Seq<u8>,
    rest: Seq<u8>,
    written: Option<Seq<FlagNameAttributeModel>>,
    items: Seq<FlagNameAttributeModel>,
    delimiter: Option<u8>,
    mailbox: MailboxModel,
)
    requires
        crate::mailbox::spec_mailbox_list(body) == Ok::<_, ParseError>(
            (rest, (written, delimiter, mailbox)),
        ),
        items == match written {
            Some(i) => i,
            None => Seq::<FlagNameAttributeModel>::empty(),
        },
    ensures
        spec_mailbox_data(spec_listing_word(lsub) + (seq![' ' as u8] + body)) == Ok::<
            _,
            ParseError,
        >((rest, spec_listing(lsub, items, delimiter, mailbox))),
        (spec_listing_word(lsub) + (seq![' ' as u8] + body))[0] == 'L' as u8,
{
    reveal(spec_mailbox_data);
    lemma_kw_list();
    lemma_kw_lsub();
    let word = spec_listing_word(lsub);
    let s = word + (seq![' ' as u8] + body);
    assert(s[0] == 'L' as u8);
    assert(s[1] == word[1]);
    lemma_data_words_fail(s);
    lemma_tag(word, seq![' ' as u8] + body);
    lemma_byte(' ' as u8, body);
    assert(spec_word_mailbox_list(s, word) == Ok::<_, ParseError>(
        (rest, (items, delimiter, mailbox)),
    ));
    if lsub {
        lemma_tag_mismatch(s, kw("LIST"), 1);
        assert(spec_data_list(s) matches Err(ParseError::Error(_)));
    }
}

/// A listing is written as its keyword, a space and what follows.
proof fn lemma_listing_form(
    lsub: bool,
    items: Seq<FlagNameAttributeModel>,
    delimiter: Option<u8>,
    mailbox: MailboxModel,
    rest: Seq<u8>,
)
    ensures
        spec_encode_data_body(spec_listing(lsub, items, delimiter, mailbox)) + rest
            == spec_listing_word(lsub) + (seq![' ' as u8] + (spec_encode_mailbox_list(
            items,
            delimiter,
            mailbox,
        ) + rest)),
{
    reveal(spec_encode_data_body);
    lemma_kw_list();
    lemma_kw_list_sp();
    lemma_kw_lsub();
    lemma_kw_lsub_sp();
    let word = spec_listing_word(lsub);
    let word_sp = if lsub {
        kw("LSUB ")
    } else {
        kw("LIST ")
    };
    assert(word_sp =~= word + seq![' ' as u8]);
    lemma_word_sp_form(word_sp, word, spec_encode_mailbox_list(items, delimiter, mailbox), rest);
}

/// `LIST` and `LSUB` with what follows them are read back as mailbox data.
pub proof fn lemma_listing_roundtrip(
    lsub: bool,
    items: Seq<FlagNameAttributeModel>,
    delimiter: Option<u8>,
    mailbox: MailboxModel,
    rest: Seq<u8>,
)
    requires
        wf_name_attributes(items),
        delimiter matches Some(c) ==> CharClass::Text.spec_has(c),
        wf_mailbox(mailbox),
        at_line_end(rest),
    ensures
        spec_mailbox_data(
            spec_encode_data_body(spec_listing(lsub, items, delimiter, mailbox)) + rest,
        ) == Ok::<_, ParseError>((rest, spec_listing(lsub, items, delimiter, mailbox))),
        (spec_encode_data_body(spec_listing(lsub, items, delimiter, mailbox)) + rest)[0]
            == 'L' as u8,
{
    let body = spec_encode_mailbox_list(items, delimiter, mailbox) + rest;
    lemma_listing_form(lsub, items, delimiter, mailbox, rest);
    lemma_mailbox_list_roundtrip(items, delimiter, mailbox, rest);
    let written = if items.len() == 0 {
        None::<Seq<FlagNameAttributeModel>>
    } else {
        Some(items)
    };
    if items.len() == 0 {
        assert(items =~= Seq::<FlagNameAttributeModel>::empty());
    }
    lemma_listing_pieces(lsub, body, rest, written, items, delimiter, mailbox);
}

/// A mailbox status is read as mailbox data from its keyword and what its
/// parts read.
#[verifier::rlimit(60)]
proof fn lemma_mailbox_status_pieces(
    m: Seq<u8>,
    list: Seq<u8>,
    rest: Seq<u8>,
    mailbox: MailboxModel,
    items: Seq<StatusDataItemModel>,
)
    requires
        crate::mailbox::spec_mailbox(m + (seq![' ' as u8] + (seq!['(' as u8] + (list + (seq![
            ')' as u8,
        ] + rest))))) == Ok::<_, ParseError>(
            (seq![' ' as u8] + (seq!['(' as u8] + (list + (seq![')' as u8] + rest))), mailbox),
        ),
        crate::mailbox::spec_status_items(seq!['(' as u8] + (list + (seq![')' as u8] + rest)))
            == Ok::<_, ParseError>((rest, items)),
    ensures
        spec_mailbox_data(
            kw("STATUS") + (seq![' ' as u8] + (m + (seq![' ' as u8] + (seq!['(' as u8] + (list + (
            seq![')' as u8] + rest)))))),
        ) == Ok::<_, ParseError>((rest, DataModel::Status { mailbox, items })),
        (kw("STATUS") + (seq![' ' as u8] + (m + (seq![' ' as u8] + (seq!['(' as u8] + (list + (
        seq![')' as u8] + rest)))))))[0] == 'S' as u8,
{
    reveal(spec_mailbox_data);
    lemma_kw_status();
    lemma_kw_search();
    let paren = seq!['(' as u8] + (list + (seq![')' as u8] + rest));
    let after_mailbox = seq![' ' as u8] + paren;
    let s = kw("STATUS") + (seq![' ' as u8] + (m + after_mailbox));
    assert(s[0] == 'S' as u8);
    assert(s[1] == 'T' as u8);
    lemma_data_words_fail(s);
    lemma_tag_mismatch(s, kw("SEARCH"), 1);
    assert(spec_data_search(s) matches Err(ParseError::Error(_)));
    lemma_tag(kw("STATUS"), seq![' ' as u8] + (m + after_mailbox));
    lemma_byte(' ' as u8, m + after_mailbox);
    lemma_byte(' ' as u8, paren);
}

/// How the pieces of a mailbox status lie behind each other.
proof fn lemma_mailbox_status_form(
    word_sp: Seq<u8>,
    word: Seq<u8>,
    m: Seq<u8>,
    open: Seq<u8>,
    list: Seq<u8>,
    rest: Seq<u8>,
)
    requires
        open == seq![' ' as u8, '(' as u8],
        word_sp == word + seq![' ' as u8],
    ensures
        (word_sp + m + open + list + seq![')' as u8]) + rest == word + (seq![' ' as u8] + (m + (
        seq![' ' as u8] + (seq!['(' as u8] + (list + (seq![')' as u8] + rest)))))),
{
    assert((word_sp + m + open + list + seq![')' as u8]) + rest =~= word + (seq![' ' as u8] + (m
        + (seq![' ' as u8] + (seq!['(' as u8] + (list + (seq![')' as u8] + rest)))))));
}

/// A mailbox status is written as its keyword, the mailbox and the items
/// in parentheses.
proof fn lemma_mailbox_status_written(
    mailbox: MailboxModel,
    items: Seq<StatusDataItemModel>,
    rest: Seq<u8>,
)
    ensures
        spec_encode_data_body(DataModel::Status { mailbox, items }) + rest == kw("STATUS") + (seq![
            ' ' as u8,
        ] + (spec_encode_mailbox(mailbox) + (seq![' ' as u8] + (seq!['(' as u8] + (
        spec_wire_joined::<StatusDataItem>(items, ' ' as u8) + (seq![')' as u8] + rest)))))),
{
    reveal(spec_encode_data_body);
    lemma_kw_status();
    lemma_kw_status_sp();
    lemma_kw_sp_paren();
    assert(kw(" (") =~= seq![' ' as u8, '(' as u8]);
    assert(kw("STATUS ") =~= kw("STATUS") + seq![' ' as u8]);
    lemma_mailbox_status_form(
        kw("STATUS "),
        kw("STATUS"),
        spec_encode_mailbox(mailbox),
        kw(" ("),
        spec_wire_joined::<StatusDataItem>(items, ' ' as u8),
        rest,
    );
}

/// `STATUS` with its mailbox and its items is read back as mailbox data.
pub proof fn lemma_mailbox_status_roundtrip(
    mailbox: MailboxModel,
    items: Seq<StatusDataItemModel>,
    rest: Seq<u8>,
)
    requires
        wf_mailbox(mailbox),
        forall|i: int| 0 <= i < items.len() ==> wf_status_item(#[trigger] items[i]),
    ensures
        spec_mailbox_data(spec_encode_data_body(DataModel::Status { mailbox, items }) + rest)
            == Ok::<_, ParseError>((rest, DataModel::Status { mailbox, items })),
        (spec_encode_data_body(DataModel::Status { mailbox, items }) + rest)[0] == 'S' as u8,
{
    let m = spec_encode_mailbox(mailbox);
    let list = spec_wire_joined::<StatusDataItem>(items, ' ' as u8);
    let paren = seq!['(' as u8] + (list + (seq![')' as u8] + rest));
    lemma_mailbox_status_written(mailbox, items, rest);
    lemma_mailbox_roundtrip(mailbox, seq![' ' as u8] + paren);
    lemma_status_items_roundtrip(items, rest);
    lemma_mailbox_status_pieces(m, list, rest, mailbox, items);
}

} // verus!

verus! {

/// A quota is read as mailbox data from its keyword and what its parts
/// read.
#[verifier::rlimit(60)]
proof fn lemma_quota_pieces(
    r: Seq<u8>,
    list: Seq<u8>,
    rest: Seq<u8>,
    root: AStringModel,
    quotas: Seq<QuotaGetModel>,
)
    requires
        crate::strings::spec_astring(r + (seq![' ' as u8] + (seq!['(' as u8] + (list + (seq![
            ')' as u8,
        ] + rest))))) == Ok::<_, ParseError>(
            (seq![' ' as u8] + (seq!['(' as u8] + (list + (seq![')' as u8] + rest))), root),
        ),
        crate::list::spec_separated1::<QuotaResourceRule>(
            list + (seq![')' as u8] + rest),
            ' ' as u8,
        ) == Ok::<_, ParseError>((seq![')' as u8] + rest, quotas)),
    ensures
        spec_mailbox_data(
            kw("QUOTA ") + (r + (seq![' ' as u8] + (seq!['(' as u8] + (list + (seq![')' as u8]
                + rest))))),
        ) == Ok::<_, ParseError>((rest, DataModel::Quota { root, quotas })),
        (kw("QUOTA ") + (r + (seq![' ' as u8] + (seq!['(' as u8] + (list + (seq![')' as u8]
            + rest))))))[0] == 'Q' as u8,
{
    reveal(spec_mailbox_data);
    lemma_kw_quota_sp();
    lemma_kw_quotaroot_sp();
    let close = seq![')' as u8] + rest;
    let paren = seq!['(' as u8] + (list + close);
    let after_root = seq![' ' as u8] + paren;
    let s = kw("QUOTA ") + (r + after_root);
    assert(s[0] == 'Q' as u8);
    assert(s[5] == ' ' as u8);
    lemma_data_words_fail(s);
    lemma_tag_mismatch(s, kw("QUOTAROOT "), 5);
    assert(spec_quotaroot_response(s) matches Err(ParseError::Error(_)));
    lemma_tag(kw("QUOTA "), r + after_root);
    lemma_byte(' ' as u8, paren);
    lemma_byte('(' as u8, list + close);
    lemma_byte(')' as u8, rest);
    assert(spec_quota_response(s) == Ok::<_, ParseError>(
        (rest, DataModel::Quota { root, quotas }),
    ));
}

/// How the pieces of a quota lie behind each other.
proof fn lemma_quota_form(word: Seq<u8>, r: Seq<u8>, open: Seq<u8>, list: Seq<u8>, rest: Seq<u8>)
    requires
        open == seq![' ' as u8, '(' as u8],
    ensures
        (word + r + open + list + seq![')' as u8]) + rest == word + (r + (seq![' ' as u8] + (seq![
            '(' as u8,
        ] + (list + (seq![')' as u8] + rest))))),
{
    assert((word + r + open + list + seq![')' as u8]) + rest =~= word + (r + (seq![' ' as u8] + (
    seq!['(' as u8] + (list + (seq![')' as u8] + rest))))));
}

/// `QUOTA` with its root and its resources is read back as mailbox data.
pub proof fn lemma_quota_roundtrip(root: AStringModel, quotas: Seq<QuotaGetModel>, rest: Seq<u8>)
    requires
        wf_astring(root),
        quotas.len() >= 1,
        forall|i: int| 0 <= i < quotas.len() ==> wf_quota_get(#[trigger] quotas[i]),
    ensures
        spec_mailbox_data(spec_encode_data_body(DataModel::Quota { root, quotas }) + rest) == Ok::<
            _,
            ParseError,
        >((rest, DataModel::Quota { root, quotas })),
        (spec_encode_data_body(DataModel::Quota { root, quotas }) + rest)[0] == 'Q' as u8,
{
    reveal(spec_encode_data_body);
    let r = spec_encode_astring(root);
    let list = spec_wire_joined::<QuotaGet>(quotas, ' ' as u8);
    let close = seq![')' as u8] + rest;
    let paren = seq!['(' as u8] + (list + close);
    lemma_kw_sp_paren();
    assert(kw(" (") =~= seq![' ' as u8, '(' as u8]);
    lemma_quota_form(kw("QUOTA "), r, kw(" ("), list, rest);
    lemma_astring_roundtrip(root, seq![' ' as u8] + paren);
    assert(all_end_before::<QuotaResourceRule>(quotas, ' ' as u8));
    assert(all_end_before::<QuotaResourceRule>(quotas, close[0]));
    lemma_separated1_roundtrip::<QuotaResourceRule>(quotas, ' ' as u8, close);
    lemma_quota_pieces(r, list, rest, root, quotas);
}

/// The roots of a mailbox are read as mailbox data from the keyword and
/// what the parts read.
#[verifier::rlimit(60)]
proof fn lemma_quotaroot_pieces(
    m: Seq<u8>,
    list: Seq<u8>,
    rest: Seq<u8>,
    mailbox: MailboxModel,
    roots: Seq<AStringModel>,
)
    requires
        crate::mailbox::spec_mailbox(m + (list + rest)) == Ok::<_, ParseError>(
            (list + rest, mailbox),
        ),
        crate::list::spec_preceded0::<AStringRule>(list + rest, ' ' as u8) == Ok::<_, ParseError>(
            (rest, roots),
        ),
    ensures
        spec_mailbox_data(kw("QUOTAROOT ") + (m + (list + rest))) == Ok::<_, ParseError>(
            (rest, DataModel::QuotaRoot { mailbox, roots }),
        ),
        (kw("QUOTAROOT ") + (m + (list + rest)))[0] == 'Q' as u8,
{
    reveal(spec_mailbox_data);
    lemma_kw_quotaroot_sp();
    let s = kw("QUOTAROOT ") + (m + (list + rest));
    assert(s[0] == 'Q' as u8);
    lemma_data_words_fail(s);
    lemma_tag(kw("QUOTAROOT "), m + (list + rest));
    assert(spec_quotaroot_response(s) == Ok::<_, ParseError>(
        (rest, DataModel::QuotaRoot { mailbox, roots }),
    ));
}

/// Every root is a well-formed astring.
pub open spec fn wf_roots(roots: Seq<AStringModel>) -> bool {
    forall|i: int| 0 <= i < roots.len() ==> wf_astring(#[trigger] roots[i])
}

/// `QUOTAROOT` with its mailbox and its roots is read back as mailbox data.
pub proof fn lemma_quotaroot_roundtrip(
    mailbox: MailboxModel,
    roots: Seq<AStringModel>,
    rest: Seq<u8>,
)
    requires
        wf_mailbox(mailbox),
        wf_roots(roots),
        at_line_end(rest),
    ensures
        spec_mailbox_data(spec_encode_data_body(DataModel::QuotaRoot { mailbox, roots }) + rest)
            == Ok::<_, ParseError>((rest, DataModel::QuotaRoot { mailbox, roots })),
        (spec_encode_data_body(DataModel::QuotaRoot { mailbox, roots }) + rest)[0] == 'Q' as u8,
{
    reveal(spec_encode_data_body);
    let m = spec_encode_mailbox(mailbox);
    let list = spec_wire_each::<AString>(roots, ' ' as u8);
    assert((kw("QUOTAROOT ") + m + list) + rest =~= kw("QUOTAROOT ") + (m + (list + rest)));
    assert(all_end_before::<AStringRule>(roots, ' ' as u8));
    assert(all_end_before::<AStringRule>(roots, rest[0]));
    lemma_preceded0_roundtrip::<AStringRule>(roots, ' ' as u8, rest);
    if roots.len() > 0 {
        crate::theorems::list::lemma_wire_each_front::<AString>(roots, ' ' as u8);
        assert((list + rest)[0] == ' ' as u8);
    } else {
        assert(list + rest =~= rest);
    }
    lemma_mailbox_roundtrip(mailbox, list + rest);
    lemma_quotaroot_pieces(m, list, rest, mailbox, roots);
}

/// Every enabled capability is well formed.
pub open spec fn wf_enabled(caps: Seq<CapabilityEnableModel>) -> bool {
    forall|i: int| 0 <= i < caps.len() ==> wf_capability_enable(#[trigger] caps[i])
}

/// Enabled capabilities are read as data from the keyword and what the
/// rule for the list reads; they are neither mailbox data nor message data
/// nor a list of capabilities.
#[verifier::rlimit(60)]
proof fn lemma_enabled_pieces(list: Seq<u8>, rest: Seq<u8>, caps: Seq<CapabilityEnableModel>)
    requires
        crate::list::spec_preceded0::<CapabilityEnableRule>(list + rest, ' ' as u8) == Ok::<
            _,
            ParseError,
        >((rest, caps)),
    ensures
        spec_data_alternatives(kw("ENABLED") + (list + rest)) == Ok::<_, ParseError>(
            (rest, ResponseModel::Data(DataModel::Enabled { capabilities: caps })),
        ),
        (kw("ENABLED") + (list + rest))[0] == 'E' as u8,
{
    reveal(spec_mailbox_data);
    lemma_kw_enabled();
    let s = kw("ENABLED") + (list + rest);
    assert(s[0] == 'E' as u8);
    lemma_data_words_fail(s);
    lemma_tag(kw("ENABLED"), list + rest);
    assert(spec_mailbox_data(s) matches Err(ParseError::Error(_)));
    assert(spec_enable_data(s) == Ok::<_, ParseError>(
        (rest, DataModel::Enabled { capabilities: caps }),
    ));
}

/// `ENABLED` with its capabilities is read back as data.
pub proof fn lemma_enabled_roundtrip(caps: Seq<CapabilityEnableModel>, rest: Seq<u8>)
    requires
        wf_enabled(caps),
        at_line_end(rest),
    ensures
        spec_data_alternatives(
            spec_encode_data_body(DataModel::Enabled { capabilities: caps }) + rest,
        ) == Ok::<_, ParseError>(
            (rest, ResponseModel::Data(DataModel::Enabled { capabilities: caps })),
        ),
        (spec_encode_data_body(DataModel::Enabled { capabilities: caps }) + rest)[0] == 'E' as u8,
{
    reveal(spec_encode_data_body);
    let list = spec_wire_each::<CapabilityEnable>(caps, ' ' as u8);
    assert((kw("ENABLED") + list) + rest =~= kw("ENABLED") + (list + rest));
    assert(all_end_before::<CapabilityEnableRule>(caps, ' ' as u8));
    assert(all_end_before::<CapabilityEnableRule>(caps, rest[0]));
    lemma_preceded0_roundtrip::<CapabilityEnableRule>(caps, ' ' as u8, rest);
    lemma_enabled_pieces(list, rest, caps);
}

/// A FETCH is read as message data from its number, its keyword and what
/// the rule for its items reads, and is no mailbox data.
#[verifier::rlimit(60)]
proof fn lemma_fetch_pieces(
    seq: u32,
    body: Seq<u8>,
    rest: Seq<u8>,
    items: Seq<crate::fetch::FetchAttributeValueModel>,
)
    requires
        seq >= 1,
        crate::fetch::spec_msg_att(body + rest) == Ok::<_, ParseError>((rest, items)),
    ensures
        spec_data_alternatives(
            crate::number::spec_digits(seq as nat) + (seq![' ' as u8] + (kw("FETCH") + (seq![
                ' ' as u8,
            ] + (body + rest)))),
        ) == Ok::<_, ParseError>((rest, ResponseModel::Data(DataModel::Fetch { seq, items }))),
        CharClass::Digit.spec_has(
            (crate::number::spec_digits(seq as nat) + (seq![' ' as u8] + (kw("FETCH") + (seq![
                ' ' as u8,
            ] + (body + rest)))))[0],
        ),
{
    reveal(spec_mailbox_data);
    crate::theorems::keywords::lemma_kw_fetch();
    crate::theorems::keywords::lemma_kw_exists();
    crate::theorems::keywords::lemma_kw_recent();
    crate::theorems::keywords::lemma_kw_expunge();
    let digits = crate::number::spec_digits(seq as nat);
    let after_word = seq![' ' as u8] + (body + rest);
    let word = kw("FETCH") + after_word;
    let after_digits = seq![' ' as u8] + word;
    let s = digits + after_digits;
    crate::number::lemma_number_roundtrip(seq, after_digits);
    crate::number::lemma_digits(seq as nat);
    assert(s[0] == digits[0]);
    lemma_byte(' ' as u8, word);
    assert(word[0] == 'F' as u8);
    lemma_tag_mismatch(word, kw("EXISTS"), 0);
    lemma_tag_mismatch(word, kw("RECENT"), 0);
    lemma_tag_mismatch(word, kw("EXPUNGE"), 0);
    lemma_tag(kw("FETCH"), after_word);
    lemma_byte(' ' as u8, body + rest);
    lemma_data_words_fail(s);
    assert(crate::mailbox::spec_number_word(s, kw("EXISTS")) matches Err(ParseError::Error(_)));
    assert(crate::mailbox::spec_number_word(s, kw("RECENT")) matches Err(ParseError::Error(_)));
    assert(crate::mailbox::spec_data_exists(s) matches Err(ParseError::Error(_)));
    assert(crate::mailbox::spec_data_recent(s) matches Err(ParseError::Error(_)));
    assert(spec_mailbox_data(s) matches Err(ParseError::Error(_)));
    assert(crate::response::spec_message_data_of(word, seq) == Ok::<_, ParseError>(
        (rest, DataModel::Fetch { seq, items }),
    ));
}

/// How the pieces of a FETCH lie behind each other.
proof fn lemma_fetch_form(digits: Seq<u8>, word_sp: Seq<u8>, word: Seq<u8>, body: Seq<u8>, rest: Seq<u8>)
    requires
        word_sp == seq![' ' as u8] + word + seq![' ' as u8],
    ensures
        (digits + word_sp + body) + rest == digits + (seq![' ' as u8] + (word + (seq![
            ' ' as u8,
        ] + (body + rest)))),
{
    assert((digits + word_sp + body) + rest =~= digits + (seq![' ' as u8] + (word + (seq![
        ' ' as u8,
    ] + (body + rest)))));
}

/// A FETCH with its items is read back as data.
pub proof fn lemma_fetch_roundtrip(
    seq: u32,
    items: Seq<crate::fetch::FetchAttributeValueModel>,
    rest: Seq<u8>,
)
    requires
        seq >= 1,
        crate::theorems::fetch::wf_msg_att(items),
    ensures
        spec_data_alternatives(spec_encode_data_body(DataModel::Fetch { seq, items }) + rest)
            == Ok::<_, ParseError>((rest, ResponseModel::Data(DataModel::Fetch { seq, items }))),
        CharClass::Digit.spec_has(
            (spec_encode_data_body(DataModel::Fetch { seq, items }) + rest)[0],
        ),
{
    reveal(spec_encode_data_body);
    crate::theorems::keywords::lemma_kw_fetch();
    crate::theorems::keywords::lemma_kw_sp_fetch_sp();
    let body = crate::fetch::spec_encode_msg_att(items);
    assert(kw(" FETCH ") =~= seq![' ' as u8] + kw("FETCH") + seq![' ' as u8]);
    lemma_fetch_form(crate::number::spec_digits(seq as nat), kw(" FETCH "), kw("FETCH"), body, rest);
    crate::theorems::fetch::lemma_msg_att_roundtrip(items, rest);
    lemma_fetch_pieces(seq, body, rest, items);
}

/// Untagged data is such as the grammar yields. Of the items of a FETCH
/// only flags, sizes, unique identifiers and the three texts are described
/// here: a FETCH with another item is not well formed in this sense.
pub open spec fn wf_data(d: DataModel) -> bool {
    match d {
        DataModel::Capability(caps) => wf_capabilities(caps),
        DataModel::List { items, delimiter, mailbox } | DataModel::Lsub {
            items,
            delimiter,
            mailbox,
        } => wf_name_attributes(items) && (delimiter matches Some(c) ==> CharClass::Text.spec_has(
            c,
        )) && wf_mailbox(mailbox),
        DataModel::Status { mailbox, items } => wf_mailbox(mailbox) && forall|i: int|
            0 <= i < items.len() ==> wf_status_item(#[trigger] items[i]),
        DataModel::Search(numbers) => forall|i: int|
            0 <= i < numbers.len() ==> #[trigger] numbers[i] >= 1,
        DataModel::Flags(flags) => wf_flags(flags),
        DataModel::Exists(_) => true,
        DataModel::Recent(_) => true,
        DataModel::Expunge(n) => n >= 1,
        DataModel::Fetch { seq, items } => seq >= 1 && crate::theorems::fetch::wf_msg_att(items),
        DataModel::Enabled { capabilities } => wf_enabled(capabilities),
        DataModel::Quota { root, quotas } => wf_astring(root) && quotas.len() >= 1 && forall|
            i: int,
        |
            0 <= i < quotas.len() ==> wf_quota_get(#[trigger] quotas[i]),
        DataModel::QuotaRoot { mailbox, roots } => wf_mailbox(mailbox) && wf_roots(roots),
    }
}

/// Untagged data is read back by the rules for data, and does not begin
/// like a status.
pub proof fn lemma_data_alternatives(d: DataModel, rest: Seq<u8>)
    requires
        wf_data(d),
        at_line_end(rest),
    ensures
        spec_data_alternatives(spec_encode_data_body(d) + rest) == Ok::<_, ParseError>(
            (rest, ResponseModel::Data(d)),
        ),
        (spec_encode_data_body(d) + rest).len() >= 1,
        spec_lower((spec_encode_data_body(d) + rest)[0]) != 'o' as u8,
        spec_lower((spec_encode_data_body(d) + rest)[0]) != 'n' as u8,
        spec_lower((spec_encode_data_body(d) + rest)[0]) != 'b' as u8,
{
    match d {
        DataModel::Capability(caps) => {
            lemma_capability_data(caps, rest);
        },
        DataModel::List { items, delimiter, mailbox } => {
            lemma_listing_roundtrip(false, items, delimiter, mailbox, rest);
        },
        DataModel::Lsub { items, delimiter, mailbox } => {
            lemma_listing_roundtrip(true, items, delimiter, mailbox, rest);
        },
        DataModel::Status { mailbox, items } => {
            lemma_mailbox_status_roundtrip(mailbox, items, rest);
        },
        DataModel::Search(numbers) => {
            lemma_search_roundtrip(numbers, rest);
        },
        DataModel::Flags(flags) => {
            lemma_flags_roundtrip(flags, rest);
        },
        DataModel::Exists(n) => {
            lemma_exists_roundtrip(n, rest);
        },
        DataModel::Recent(n) => {
            lemma_recent_roundtrip(n, rest);
        },
        DataModel::Expunge(n) => {
            lemma_expunge_roundtrip(n, rest);
        },
        DataModel::Fetch { seq, items } => {
            lemma_fetch_roundtrip(seq, items, rest);
        },
        DataModel::Enabled { capabilities } => {
            lemma_enabled_roundtrip(capabilities, rest);
        },
        DataModel::Quota { root, quotas } => {
            lemma_quota_roundtrip(root, quotas, rest);
        },
        DataModel::QuotaRoot { mailbox, roots } => {
            lemma_quotaroot_roundtrip(mailbox, roots, rest);
        },
    }
}

/// Untagged data is read from `*`, a space, what the rules for data read,
/// and the end of the line.
#[verifier::rlimit(60)]
proof fn lemma_response_data_pieces(body: Seq<u8>, d: DataModel, quirks: Quirks)
    requires
        spec_data_alternatives(body + spec_crlf_bytes()) == Ok::<_, ParseError>(
            (spec_crlf_bytes(), ResponseModel::Data(d)),
        ),
        (body + spec_crlf_bytes()).len() >= 1,
        spec_lower((body + spec_crlf_bytes())[0]) != 'o' as u8,
        spec_lower((body + spec_crlf_bytes())[0]) != 'n' as u8,
        spec_lower((body + spec_crlf_bytes())[0]) != 'b' as u8,
    ensures
        spec_response(kw("* ") + body + spec_crlf_bytes(), quirks) == Ok::<_, ParseError>(
            (Seq::<u8>::empty(), ResponseModel::Data(d)),
        ),
{
    lemma_kw_star();
    let line = body + spec_crlf_bytes();
    let s = kw("* ") + body + spec_crlf_bytes();
    assert(s =~= seq!['*' as u8] + (seq![' ' as u8] + line));
    assert(s[0] == '*' as u8);
    lemma_no_continue_req(s, quirks);
    lemma_byte('*' as u8, seq![' ' as u8] + line);
    lemma_byte(' ' as u8, line);
    lemma_status_words_fail(line, quirks);
    lemma_untagged_is_data(line, quirks);
    lemma_crlf(Seq::empty(), quirks.crlf_relaxed);
    assert(spec_crlf_bytes() + Seq::<u8>::empty() =~= spec_crlf_bytes());
    assert(spec_untagged(line, quirks) == Ok::<_, ParseError>(
        (spec_crlf_bytes(), ResponseModel::Data(d)),
    ));
    assert(spec_response_data(s, quirks) == Ok::<_, ParseError>(
        (Seq::<u8>::empty(), ResponseModel::Data(d)),
    ));
}

/// Untagged data that is written is read back as the same data, with
/// nothing left over, whatever the quirks.
pub proof fn lemma_data_roundtrip(d: DataModel, quirks: Quirks)
    requires
        wf_data(d),
    ensures
        spec_response(spec_encode_response(ResponseModel::Data(d)), quirks) == Ok::<
            _,
            ParseError,
        >((Seq::<u8>::empty(), ResponseModel::Data(d))),
{
    lemma_data_alternatives(d, spec_crlf_bytes());
    lemma_response_data_pieces(spec_encode_data_body(d), d, quirks);
}

} // verus!
