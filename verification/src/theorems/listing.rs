//! Listings, mailbox status, quotas and enabled capabilities that are
//! written and read back.

use crate::error::ParseError;
use crate::extensions::{spec_capability_enable, spec_capability_enable_from, CapabilityEnableRule};
use crate::flag::{
    spec_encode_name_attribute, spec_mbx_list_flags, spec_name_attribute,
    spec_name_attribute_from, spec_selectability_count, FlagNameAttribute, FlagNameAttributeModel,
    NameAttributeRule,
};
use crate::lex::{eq_ignore_case, kw, spec_tag_no_case, CharClass};
use crate::list::{spec_separated1, spec_wire_joined};
use crate::mailbox::{
    spec_delimiter, spec_encode_delimiter, spec_encode_mailbox, spec_encode_mailbox_list,
    spec_list_attributes, spec_mailbox, spec_mailbox_list, spec_quoted_delimiter, spec_status_items,
    MailboxModel,
};
use crate::number::{lemma_number64_roundtrip, lemma_number_roundtrip, spec_digits};
use crate::quota::{
    spec_encode_quota_get, spec_encode_resource, spec_quota_resource, spec_resource_from, QuotaGet,
    QuotaGetModel, QuotaResourceRule, ResourceModel,
};
use crate::response::{
    spec_encode_capability_enable, CapabilityEnable, CapabilityEnableModel,
};
use crate::status::{
    spec_encode_status_item, spec_status_att_list, spec_status_att_val, spec_word_number,
    spec_word_nz_number, StatusAttValRule, StatusDataItem, StatusDataItemModel,
};
use crate::strings::is_atom;
use crate::theorems::flag::lemma_backslash_atom;
use crate::theorems::keywords::{
    lemma_kw_annotation_storage, lemma_kw_bs_marked, lemma_kw_bs_noinferiors,
    lemma_kw_bs_noselect, lemma_kw_bs_unmarked, lemma_kw_mailbox, lemma_kw_marked,
    lemma_kw_message, lemma_kw_messages_sp, lemma_kw_nil, lemma_kw_noinferiors,
    lemma_kw_noselect, lemma_kw_recent_sp, lemma_kw_storage, lemma_kw_uidnext_sp,
    lemma_kw_uidvalidity_sp, lemma_kw_unmarked, lemma_kw_unseen_sp, lemma_kw_utf8_accept,
    lemma_kw_utf8_only,
};
use crate::theorems::lex::{lemma_byte, lemma_no_byte, lemma_run, lemma_tag, lemma_tag_mismatch};
use crate::theorems::list::{all_end_before, lemma_separated1_roundtrip, Reversible};
use crate::theorems::mailbox::{follows_mailbox, lemma_mailbox_roundtrip, wf_mailbox};
use crate::theorems::strings::lemma_quoted_char_roundtrip;
use vstd::prelude::*;

verus! {

/// The name of a mailbox name attribute that has a variant of its own,
/// without the backslash.
pub open spec fn spec_attribute_name(f: FlagNameAttributeModel) -> Seq<u8> {
    match f {
        FlagNameAttributeModel::Noinferiors => kw("Noinferiors"),
        FlagNameAttributeModel::Noselect => kw("Noselect"),
        FlagNameAttributeModel::Marked => kw("Marked"),
        FlagNameAttributeModel::Unmarked => kw("Unmarked"),
        FlagNameAttributeModel::Extension(a) => a,
    }
}

/// A mailbox name attribute is one that an atom behind a backslash can
/// name.
pub open spec fn wf_name_attribute(f: FlagNameAttributeModel) -> bool {
    f matches FlagNameAttributeModel::Extension(a) ==> is_atom(a) && spec_name_attribute_from(a)
        == f
}

/// The name of a mailbox name attribute is an atom that names it, and the
/// attribute is written as a backslash and its name.
proof fn lemma_attribute_name(f: FlagNameAttributeModel)
    requires
        wf_name_attribute(f),
    ensures
        is_atom(spec_attribute_name(f)),
        spec_name_attribute_from(spec_attribute_name(f)) == f,
        spec_encode_name_attribute(f) == seq!['\\' as u8] + spec_attribute_name(f),
{
    reveal(eq_ignore_case);
    lemma_kw_noinferiors();
    lemma_kw_noselect();
    lemma_kw_marked();
    lemma_kw_unmarked();
    lemma_kw_bs_noinferiors();
    lemma_kw_bs_noselect();
    lemma_kw_bs_marked();
    lemma_kw_bs_unmarked();
    let name = spec_attribute_name(f);
    if !(f is Extension) {
        assert(name[0] == name[0]);
    }
    assert(spec_encode_name_attribute(f) =~= seq!['\\' as u8] + name);
}

/// A mailbox name attribute is read back where a byte that is no atom
/// character follows.
pub proof fn lemma_name_attribute_roundtrip(f: FlagNameAttributeModel, rest: Seq<u8>)
    requires
        wf_name_attribute(f),
        rest.len() >= 1,
        !CharClass::Atom.spec_has(rest[0]),
    ensures
        spec_name_attribute(spec_encode_name_attribute(f) + rest) == Ok::<_, ParseError>(
            (rest, f),
        ),
        spec_encode_name_attribute(f).len() >= 1,
{
    lemma_attribute_name(f);
    lemma_backslash_atom(spec_attribute_name(f), rest);
}

impl Reversible for NameAttributeRule {
    type Item = FlagNameAttribute;

    open spec fn wf(v: FlagNameAttributeModel) -> bool {
        wf_name_attribute(v)
    }

    open spec fn ends_before(v: FlagNameAttributeModel, next: u8) -> bool {
        !CharClass::Atom.spec_has(next)
    }

    proof fn lemma_roundtrip(v: FlagNameAttributeModel, rest: Seq<u8>) {
        lemma_name_attribute_roundtrip(v, rest);
    }
}

/// The attributes of a listing are such as the grammar yields: each is
/// well formed, and at most one of them is a selectability attribute.
pub open spec fn wf_name_attributes(items: Seq<FlagNameAttributeModel>) -> bool {
    &&& forall|i: int| 0 <= i < items.len() ==> wf_name_attribute(#[trigger] items[i])
    &&& spec_selectability_count(items) <= 1
}

/// The attributes of a listing are read back from between the
/// parentheses; none are read back as no attributes at all.
proof fn lemma_list_attributes(items: Seq<FlagNameAttributeModel>, rest: Seq<u8>)
    requires
        wf_name_attributes(items),
    ensures
        spec_list_attributes(
            seq!['(' as u8] + (spec_wire_joined::<FlagNameAttribute>(items, ' ' as u8) + (seq![
                ')' as u8,
            ] + rest)),
        ) == Ok::<_, ParseError>(
            (
                rest,
                if items.len() == 0 {
                    None::<Seq<FlagNameAttributeModel>>
                } else {
                    Some(items)
                },
            ),
        ),
{
    let list = spec_wire_joined::<FlagNameAttribute>(items, ' ' as u8);
    let close = seq![')' as u8] + rest;
    lemma_byte('(' as u8, list + close);
    lemma_byte(')' as u8, rest);
    if items.len() == 0 {
        assert(list + close =~= close);
        lemma_no_byte(close, '\\' as u8);
        assert(spec_name_attribute(close) matches Err(ParseError::Error(_)));
        assert(spec_separated1::<NameAttributeRule>(close, ' ' as u8) matches Err(
            ParseError::Error(_),
        ));
        assert(spec_mbx_list_flags(close) matches Err(ParseError::Error(_)));
    } else {
        assert(all_end_before::<NameAttributeRule>(items, ' ' as u8));
        assert(all_end_before::<NameAttributeRule>(items, close[0]));
        lemma_separated1_roundtrip::<NameAttributeRule>(items, ' ' as u8, close);
        assert(spec_mbx_list_flags(list + close) == Ok::<_, ParseError>((close, items)));
    }
}

/// The hierarchy delimiter is read back.
proof fn lemma_delimiter_roundtrip(d: Option<u8>, rest: Seq<u8>)
    requires
        d matches Some(c) ==> CharClass::Text.spec_has(c),
    ensures
        spec_delimiter(spec_encode_delimiter(d) + rest) == Ok::<_, ParseError>((rest, d)),
{
    let s = spec_encode_delimiter(d) + rest;
    match d {
        Some(c) => {
            let e = crate::strings::spec_encode_quoted_char(c);
            let after = seq!['"' as u8] + rest;
            assert(s =~= seq!['"' as u8] + (e + after));
            lemma_byte('"' as u8, e + after);
            lemma_quoted_char_roundtrip(c, after);
            lemma_byte('"' as u8, rest);
        },
        None => {
            lemma_kw_nil();
            assert(s[0] == 'N' as u8);
            lemma_no_byte(s, '"' as u8);
            lemma_tag(kw("NIL"), rest);
            assert(spec_quoted_delimiter(s) matches Err(ParseError::Error(_)));
        },
    }
}

/// How the pieces of a listing lie behind each other.
proof fn lemma_mailbox_list_form(
    list: Seq<u8>,
    delimiter: Seq<u8>,
    mailbox: Seq<u8>,
    rest: Seq<u8>,
)
    ensures
        (seq!['(' as u8] + list + seq![')' as u8] + seq![' ' as u8] + delimiter + seq![' ' as u8]
            + mailbox) + rest == seq!['(' as u8] + (list + (seq![')' as u8] + (seq![' ' as u8] + (
        delimiter + (seq![' ' as u8] + (mailbox + rest)))))),
{
    assert((seq!['(' as u8] + list + seq![')' as u8] + seq![' ' as u8] + delimiter + seq![
        ' ' as u8,
    ] + mailbox) + rest =~= seq!['(' as u8] + (list + (seq![')' as u8] + (seq![' ' as u8] + (
    delimiter + (seq![' ' as u8] + (mailbox + rest)))))));
}

/// A listing is read from its pieces: the attributes in parentheses, the
/// delimiter and the mailbox, with a space between them.
proof fn lemma_mailbox_list_pieces(
    list: Seq<u8>,
    d: Seq<u8>,
    m: Seq<u8>,
    rest: Seq<u8>,
    items: Option<Seq<FlagNameAttributeModel>>,
    delimiter: Option<u8>,
    mailbox: MailboxModel,
)
    requires
        spec_list_attributes(
            seq!['(' as u8] + (list + (seq![')' as u8] + (seq![' ' as u8] + (d + (seq![
                ' ' as u8,
            ] + (m + rest)))))),
        ) == Ok::<_, ParseError>((seq![' ' as u8] + (d + (seq![' ' as u8] + (m + rest))), items)),
        spec_delimiter(d + (seq![' ' as u8] + (m + rest))) == Ok::<_, ParseError>(
            (seq![' ' as u8] + (m + rest), delimiter),
        ),
        spec_mailbox(m + rest) == Ok::<_, ParseError>((rest, mailbox)),
    ensures
        spec_mailbox_list(
            seq!['(' as u8] + (list + (seq![')' as u8] + (seq![' ' as u8] + (d + (seq![
                ' ' as u8,
            ] + (m + rest)))))),
        ) == Ok::<_, ParseError>((rest, (items, delimiter, mailbox))),
{
    lemma_byte(' ' as u8, d + (seq![' ' as u8] + (m + rest)));
    lemma_byte(' ' as u8, m + rest);
}

/// What follows `LIST` or `LSUB` is read back.
pub proof fn lemma_mailbox_list_roundtrip(
    items: Seq<FlagNameAttributeModel>,
    delimiter: Option<u8>,
    mailbox: MailboxModel,
    rest: Seq<u8>,
)
    requires
        wf_name_attributes(items),
        delimiter matches Some(c) ==> CharClass::Text.spec_has(c),
        wf_mailbox(mailbox),
        follows_mailbox(mailbox, rest),
    ensures
        spec_mailbox_list(spec_encode_mailbox_list(items, delimiter, mailbox) + rest) == Ok::<
            _,
            ParseError,
        >(
            (
                rest,
                (
                    if items.len() == 0 {
                        None::<Seq<FlagNameAttributeModel>>
                    } else {
                        Some(items)
                    },
                    delimiter,
                    mailbox,
                ),
            ),
        ),
{
    let list = spec_wire_joined::<FlagNameAttribute>(items, ' ' as u8);
    let d = spec_encode_delimiter(delimiter);
    let m = spec_encode_mailbox(mailbox);
    let after_delimiter = seq![' ' as u8] + (m + rest);
    let after_list = seq![' ' as u8] + (d + after_delimiter);
    lemma_mailbox_list_form(list, d, m, rest);
    lemma_list_attributes(items, after_list);
    lemma_delimiter_roundtrip(delimiter, after_delimiter);
    lemma_mailbox_roundtrip(mailbox, rest);
    lemma_mailbox_list_pieces(
        list,
        d,
        m,
        rest,
        if items.len() == 0 {
            None::<Seq<FlagNameAttributeModel>>
        } else {
            Some(items)
        },
        delimiter,
        mailbox,
    );
}

} // verus!

verus! {

/// An item of a mailbox status is such as the grammar yields.
pub open spec fn wf_status_item(i: StatusDataItemModel) -> bool {
    match i {
        StatusDataItemModel::UidNext(n) => n >= 1,
        StatusDataItemModel::UidValidity(n) => n >= 1,
        _ => true,
    }
}

/// The keyword of an item of a mailbox status, with its space.
pub open spec fn spec_status_item_word(i: StatusDataItemModel) -> Seq<u8> {
    match i {
        StatusDataItemModel::Messages(_) => kw("MESSAGES "),
        StatusDataItemModel::Recent(_) => kw("RECENT "),
        StatusDataItemModel::UidNext(_) => kw("UIDNEXT "),
        StatusDataItemModel::UidValidity(_) => kw("UIDVALIDITY "),
        StatusDataItemModel::Unseen(_) => kw("UNSEEN "),
    }
}

/// The number of an item of a mailbox status.
pub open spec fn spec_status_item_value(i: StatusDataItemModel) -> u32 {
    match i {
        StatusDataItemModel::Messages(n) => n,
        StatusDataItemModel::Recent(n) => n,
        StatusDataItemModel::UidNext(n) => n,
        StatusDataItemModel::UidValidity(n) => n,
        StatusDataItemModel::Unseen(n) => n,
    }
}

/// The keywords of the items of a mailbox status that come before the
/// keyword of the item `i` are not read from what begins with that keyword.
proof fn lemma_status_item_words(i: StatusDataItemModel, s: Seq<u8>)
    requires
        s.len() >= spec_status_item_word(i).len(),
        s.take(spec_status_item_word(i).len() as int) == spec_status_item_word(i),
    ensures
        !(i is Messages) ==> spec_tag_no_case(s, kw("MESSAGES ")) matches Err(
            ParseError::Error(_),
        ),
        !(i is Messages) && !(i is Recent) ==> spec_tag_no_case(s, kw("RECENT ")) matches Err(
            ParseError::Error(_),
        ),
        i is UidValidity || i is Unseen ==> spec_tag_no_case(s, kw("UIDNEXT ")) matches Err(
            ParseError::Error(_),
        ),
        i is Unseen ==> spec_tag_no_case(s, kw("UIDVALIDITY ")) matches Err(ParseError::Error(_)),
        spec_status_item_word(i).len() >= 7,
{
    lemma_kw_messages_sp();
    lemma_kw_recent_sp();
    lemma_kw_uidnext_sp();
    lemma_kw_uidvalidity_sp();
    lemma_kw_unseen_sp();
    let word = spec_status_item_word(i);
    let p = s.take(word.len() as int);
    assert(s[0] == p[0]);
    assert(s[1] == p[1]);
    assert(s[3] == p[3]);
    if !(i is Messages) {
        lemma_tag_mismatch(s, kw("MESSAGES "), 0);
    }
    if !(i is Messages) && !(i is Recent) {
        lemma_tag_mismatch(s, kw("RECENT "), 0);
    }
    if i is UidValidity {
        lemma_tag_mismatch(s, kw("UIDNEXT "), 3);
    }
    if i is Unseen {
        lemma_tag_mismatch(s, kw("UIDNEXT "), 1);
        lemma_tag_mismatch(s, kw("UIDVALIDITY "), 1);
    }
}

/// An item of a mailbox status is read back where a byte that is no digit
/// follows.
pub proof fn lemma_status_item_roundtrip(i: StatusDataItemModel, rest: Seq<u8>)
    requires
        wf_status_item(i),
        rest.len() >= 1,
        !CharClass::Digit.spec_has(rest[0]),
    ensures
        spec_status_att_val(spec_encode_status_item(i) + rest) == Ok::<_, ParseError>((rest, i)),
        spec_encode_status_item(i).len() >= 1,
{
    let word = spec_status_item_word(i);
    let n = spec_status_item_value(i);
    let digits = spec_digits(n as nat);
    let s = spec_encode_status_item(i) + rest;
    assert(s =~= word + (digits + rest));
    assert(s.take(word.len() as int) =~= word);
    lemma_status_item_words(i, s);
    lemma_tag(word, digits + rest);
    lemma_number_roundtrip(n, rest);
    assert(spec_word_number(s, word) == Ok::<_, ParseError>((rest, n)));
    if n >= 1 {
        assert(spec_word_nz_number(s, word) == Ok::<_, ParseError>((rest, n)));
    }
    match i {
        StatusDataItemModel::Messages(_) => {},
        StatusDataItemModel::Recent(_) => {
            assert(spec_word_number(s, kw("MESSAGES ")) matches Err(ParseError::Error(_)));
        },
        StatusDataItemModel::UidNext(_) => {
            assert(spec_word_number(s, kw("MESSAGES ")) matches Err(ParseError::Error(_)));
            assert(spec_word_number(s, kw("RECENT ")) matches Err(ParseError::Error(_)));
        },
        StatusDataItemModel::UidValidity(_) => {
            assert(spec_word_number(s, kw("MESSAGES ")) matches Err(ParseError::Error(_)));
            assert(spec_word_number(s, kw("RECENT ")) matches Err(ParseError::Error(_)));
            assert(spec_word_nz_number(s, kw("UIDNEXT ")) matches Err(ParseError::Error(_)));
        },
        StatusDataItemModel::Unseen(_) => {
            assert(spec_word_number(s, kw("MESSAGES ")) matches Err(ParseError::Error(_)));
            assert(spec_word_number(s, kw("RECENT ")) matches Err(ParseError::Error(_)));
            assert(spec_word_nz_number(s, kw("UIDNEXT ")) matches Err(ParseError::Error(_)));
            assert(spec_word_nz_number(s, kw("UIDVALIDITY ")) matches Err(ParseError::Error(_)));
        },
    }
}

impl Reversible for StatusAttValRule {
    type Item = StatusDataItem;

    open spec fn wf(v: StatusDataItemModel) -> bool {
        wf_status_item(v)
    }

    open spec fn ends_before(v: StatusDataItemModel, next: u8) -> bool {
        !CharClass::Digit.spec_has(next)
    }

    proof fn lemma_roundtrip(v: StatusDataItemModel, rest: Seq<u8>) {
        lemma_status_item_roundtrip(v, rest);
    }
}

/// The items of a mailbox status are read back from between the
/// parentheses.
pub proof fn lemma_status_items_roundtrip(items: Seq<StatusDataItemModel>, rest: Seq<u8>)
    requires
        forall|i: int| 0 <= i < items.len() ==> wf_status_item(#[trigger] items[i]),
    ensures
        spec_status_items(
            seq!['(' as u8] + (spec_wire_joined::<StatusDataItem>(items, ' ' as u8) + (seq![
                ')' as u8,
            ] + rest)),
        ) == Ok::<_, ParseError>((rest, items)),
{
    let list = spec_wire_joined::<StatusDataItem>(items, ' ' as u8);
    let close = seq![')' as u8] + rest;
    lemma_byte('(' as u8, list + close);
    lemma_byte(')' as u8, rest);
    if items.len() == 0 {
        assert(items =~= Seq::<StatusDataItemModel>::empty());
        assert(list + close =~= close);
        lemma_kw_messages_sp();
        lemma_kw_recent_sp();
        lemma_kw_uidnext_sp();
        lemma_kw_uidvalidity_sp();
        lemma_kw_unseen_sp();
        lemma_tag_mismatch(close, kw("MESSAGES "), 0);
        lemma_tag_mismatch(close, kw("RECENT "), 0);
        lemma_tag_mismatch(close, kw("UIDNEXT "), 0);
        lemma_tag_mismatch(close, kw("UIDVALIDITY "), 0);
        lemma_tag_mismatch(close, kw("UNSEEN "), 0);
        assert(spec_status_att_val(close) matches Err(ParseError::Error(_)));
        assert(spec_status_att_list(close) matches Err(ParseError::Error(_)));
    } else {
        assert(all_end_before::<StatusAttValRule>(items, ' ' as u8));
        assert(all_end_before::<StatusAttValRule>(items, close[0]));
        lemma_separated1_roundtrip::<StatusAttValRule>(items, ' ' as u8, close);
    }
}

/// A resource is one that an atom can name.
pub open spec fn wf_resource(r: ResourceModel) -> bool {
    r matches ResourceModel::Other(a) ==> is_atom(a) && spec_resource_from(a) == r
}

/// The name of a resource is an atom that names it.
proof fn lemma_resource_name(r: ResourceModel)
    requires
        wf_resource(r),
    ensures
        is_atom(spec_encode_resource(r)),
        spec_resource_from(spec_encode_resource(r)) == r,
{
    reveal(eq_ignore_case);
    lemma_kw_storage();
    lemma_kw_message();
    lemma_kw_mailbox();
    lemma_kw_annotation_storage();
    let name = spec_encode_resource(r);
    match r {
        ResourceModel::Other(a) => {},
        ResourceModel::Mailbox => {
            assert(name[1] != kw("MESSAGE")[1]);
            assert(name[0] == name[0]);
        },
        _ => {
            assert(name[0] == name[0]);
        },
    }
}

/// The use of a resource is such as the grammar yields.
pub open spec fn wf_quota_get(q: QuotaGetModel) -> bool {
    wf_resource(q.resource)
}

/// How the pieces of the use of a resource lie behind each other.
proof fn lemma_quota_get_form(name: Seq<u8>, usage: Seq<u8>, limit: Seq<u8>, rest: Seq<u8>)
    ensures
        (name + seq![' ' as u8] + usage + seq![' ' as u8] + limit) + rest == name + (seq![
            ' ' as u8,
        ] + (usage + (seq![' ' as u8] + (limit + rest)))),
{
    assert((name + seq![' ' as u8] + usage + seq![' ' as u8] + limit) + rest =~= name + (seq![
        ' ' as u8,
    ] + (usage + (seq![' ' as u8] + (limit + rest)))));
}

/// The use of a resource is read back where a byte that is no digit
/// follows.
pub proof fn lemma_quota_get_roundtrip(q: QuotaGetModel, rest: Seq<u8>)
    requires
        wf_quota_get(q),
        rest.len() >= 1,
        !CharClass::Digit.spec_has(rest[0]),
    ensures
        spec_quota_resource(spec_encode_quota_get(q) + rest) == Ok::<_, ParseError>((rest, q)),
        spec_encode_quota_get(q).len() >= 1,
{
    let name = spec_encode_resource(q.resource);
    let usage = spec_digits(q.usage as nat);
    let limit = spec_digits(q.limit as nat);
    let after_usage = seq![' ' as u8] + (limit + rest);
    let after_name = seq![' ' as u8] + (usage + after_usage);
    lemma_resource_name(q.resource);
    lemma_quota_get_form(name, usage, limit, rest);
    lemma_run(name, after_name, CharClass::Atom);
    lemma_byte(' ' as u8, usage + after_usage);
    lemma_number64_roundtrip(q.usage, after_usage);
    lemma_byte(' ' as u8, limit + rest);
    lemma_number64_roundtrip(q.limit, rest);
}

impl Reversible for QuotaResourceRule {
    type Item = QuotaGet;

    open spec fn wf(v: QuotaGetModel) -> bool {
        wf_quota_get(v)
    }

    open spec fn ends_before(v: QuotaGetModel, next: u8) -> bool {
        !CharClass::Digit.spec_has(next)
    }

    proof fn lemma_roundtrip(v: QuotaGetModel, rest: Seq<u8>) {
        lemma_quota_get_roundtrip(v, rest);
    }
}

/// An enabled capability is one that an atom can name.
pub open spec fn wf_capability_enable(c: CapabilityEnableModel) -> bool {
    c matches CapabilityEnableModel::Other(a) ==> is_atom(a) && spec_capability_enable_from(a)
        == c
}

/// An enabled capability is read back where a byte that is no atom
/// character follows.
pub proof fn lemma_capability_enable_roundtrip(c: CapabilityEnableModel, rest: Seq<u8>)
    requires
        wf_capability_enable(c),
        rest.len() >= 1,
        !CharClass::Atom.spec_has(rest[0]),
    ensures
        spec_capability_enable(spec_encode_capability_enable(c) + rest) == Ok::<_, ParseError>(
            (rest, c),
        ),
        spec_encode_capability_enable(c).len() >= 1,
{
    reveal(eq_ignore_case);
    lemma_kw_utf8_accept();
    lemma_kw_utf8_only();
    let name = spec_encode_capability_enable(c);
    if !(c is Other) {
        assert(name[0] == name[0]);
    }
    lemma_run(name, rest, CharClass::Atom);
}

impl Reversible for CapabilityEnableRule {
    type Item = CapabilityEnable;

    open spec fn wf(v: CapabilityEnableModel) -> bool {
        wf_capability_enable(v)
    }

    open spec fn ends_before(v: CapabilityEnableModel, next: u8) -> bool {
        !CharClass::Atom.spec_has(next)
    }

    proof fn lemma_roundtrip(v: CapabilityEnableModel, rest: Seq<u8>) {
        lemma_capability_enable_roundtrip(v, rest);
    }
}

} // verus!
