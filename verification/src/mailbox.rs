//! Mailbox names and the data that a server sends about mailboxes.

use crate::codec::{appended, emit, emit_byte, Encoder};
use crate::error::{agrees, spec_or, IMAPResult, ParseError, SpecResult};
use crate::extensions::{
    quota_response, quotaroot_response, spec_quota_response, spec_quotaroot_response,
};
use crate::flag::{
    flag_list, mbx_list_flags, spec_flag_list, spec_mbx_list_flags, FlagNameAttribute,
    FlagNameAttributeModel,
};
use crate::lex::{
    byte, bytes_eq_ignore_case, dquote, eq_ignore_case, kw, lemma_span_bounds, put, put_byte,
    put_str, sp, spec_byte, spec_dquote, spec_sp, spec_tag_no_case, spec_take_while1,
    tag_no_case, take_while1, CharClass,
};
use crate::list::{encode_joined, preceded0, spec_preceded0, spec_wire_joined};
use crate::number::{number, spec_number, NzNumberRule};
use crate::response::{Data, DataModel};
use crate::status::{spec_status_att_list, status_att_list, StatusDataItem, StatusDataItemModel};
use crate::strings::{
    astring, lemma_take_while1, nil, quoted_char, spec_astring, spec_encode_astring,
    spec_encode_quoted_char, spec_encode_string, spec_nil, spec_quoted_char, spec_string, string,
    spec_validate, validate, AString, AStringModel, IString, IStringModel, QuotedChar,
    ValidationError,
};
use vstd::prelude::*;
use vstd::slice::*;
use vstd::string::*;

verus! {

/// A mailbox name. `INBOX` in any mix of case is the one mailbox `Inbox`;
/// every other name is kept as it was written.
#[derive(Debug, Clone, PartialEq, Eq, Hash)]
pub enum Mailbox {
    Inbox,
    Other(AString),
}

/// A mailbox name as a mathematical value.
pub enum MailboxModel {
    Inbox,
    Other(AStringModel),
}

impl DeepView for Mailbox {
    type V = MailboxModel;

    open spec fn deep_view(&self) -> MailboxModel {
        match self {
            Mailbox::Inbox => MailboxModel::Inbox,
            Mailbox::Other(a) => MailboxModel::Other(a.deep_view()),
        }
    }
}

/// The bytes that an astring stands for, whatever its form.
pub open spec fn spec_astring_bytes(a: AStringModel) -> Seq<u8> {
    match a {
        AStringModel::Atom(b) => b,
        AStringModel::String(IStringModel::Quoted(b)) => b,
        AStringModel::String(IStringModel::Literal(l)) => l.data,
    }
}

/// The mailbox that an astring names: `Inbox` exactly when its bytes are
/// `INBOX` in any mix of case.
pub open spec fn spec_mailbox_from(a: AStringModel) -> MailboxModel {
    if eq_ignore_case(spec_astring_bytes(a), kw("INBOX")) {
        MailboxModel::Inbox
    } else {
        MailboxModel::Other(a)
    }
}

impl AString {
    /// The bytes that the astring stands for, whatever its form.
    pub fn as_bytes(&self) -> (r: &[u8])
        ensures
            r@ == spec_astring_bytes(self.deep_view()),
    {
        match self {
            AString::Atom(a) => a.as_bytes(),
            AString::String(IString::Quoted(q)) => q.as_bytes(),
            AString::String(IString::Literal(l)) => l.data(),
        }
    }
}

impl Mailbox {
    /// The mailbox that `name` names.
    pub fn from(name: AString) -> (r: Mailbox)
        ensures
            r.deep_view() == spec_mailbox_from(name.deep_view()),
    {
        if bytes_eq_ignore_case(name.as_bytes(), "INBOX".as_bytes()) {
            Mailbox::Inbox
        } else {
            Mailbox::Other(name)
        }
    }

    /// The mailbox with the name `name`, unless the name is too long for
    /// any form of astring.
    pub fn try_from(name: &[u8]) -> (r: Result<Mailbox, ValidationError>)
        ensures
            r is Ok <==> AString::spec_try_from(name@) is Some,
            r matches Ok(m) ==> m.deep_view() == spec_mailbox_from(
                AString::spec_try_from(name@)->0,
            ),
            r matches Ok(m) ==> (m is Inbox <==> eq_ignore_case(name@, kw("INBOX"))),
    {
        match AString::try_from(name) {
            Ok(a) => Ok(Mailbox::from(a)),
            Err(e) => Err(e),
        }
    }
}

/// `mailbox = "INBOX" / astring`
pub open spec fn spec_mailbox(s: Seq<u8>) -> SpecResult<MailboxModel> {
    match spec_astring(s) {
        Err(e) => Err(e),
        Ok((rest, a)) => Ok((rest, spec_mailbox_from(a))),
    }
}

/// Parses a `mailbox`.
pub fn mailbox<'a>(input: &'a [u8]) -> (r: IMAPResult<'a, Mailbox>)
    ensures
        agrees(r, spec_mailbox(input@)),
{
    let (rest, a) = astring(input)?;
    Ok((rest, Mailbox::from(a)))
}

/// A name made of `list-char`: at least one, wildcards included.
#[derive(Debug, PartialEq, Eq, Hash)]
pub struct ListCharString {
    inner: Vec<u8>,
}

/// A sequence of bytes is one or more `list-char`.
pub open spec fn is_list_char_string(s: Seq<u8>) -> bool {
    s.len() >= 1 && CharClass::List.all(s)
}

impl DeepView for ListCharString {
    type V = Seq<u8>;

    closed spec fn deep_view(&self) -> Seq<u8> {
        self.inner@
    }
}

impl Clone for ListCharString {
    fn clone(&self) -> (r: Self)
        ensures
            r.deep_view() == self.deep_view(),
    {
        proof {
            use_type_invariant(self);
        }
        ListCharString { inner: slice_to_vec(self.inner.as_slice()) }
    }
}

impl ListCharString {
    #[verifier::type_invariant]
    spec fn valid(self) -> bool {
        is_list_char_string(self.inner@)
    }

    /// The name made of `bytes`, or why they are none.
    pub fn try_from(bytes: &[u8]) -> (r: Result<ListCharString, ValidationError>)
        ensures
            match r {
                Ok(a) => is_list_char_string(bytes@) && a.deep_view() == bytes@,
                Err(e) => spec_validate(bytes@, CharClass::List, true) == Err::<(), _>(e),
            },
            r is Ok <==> is_list_char_string(bytes@),
    {
        match validate(bytes, CharClass::List, true) {
            Ok(()) => Ok(ListCharString { inner: slice_to_vec(bytes) }),
            Err(e) => {
                proof {
                    lemma_span_bounds(bytes@, CharClass::List);
                }
                Err(e)
            },
        }
    }

    /// The bytes of the name.
    pub fn as_bytes(&self) -> (r: &[u8])
        ensures
            r@ == self.deep_view(),
            is_list_char_string(r@),
    {
        proof {
            use_type_invariant(self);
        }
        self.inner.as_slice()
    }
}

/// A mailbox name or pattern in a LIST command.
#[derive(Debug, Clone, PartialEq, Eq, Hash)]
pub enum ListMailbox {
    Token(ListCharString),
    String(IString),
}

/// A list mailbox as a mathematical value.
pub enum ListMailboxModel {
    Token(Seq<u8>),
    String(IStringModel),
}

impl DeepView for ListMailbox {
    type V = ListMailboxModel;

    open spec fn deep_view(&self) -> ListMailboxModel {
        match self {
            ListMailbox::Token(t) => ListMailboxModel::Token(t.deep_view()),
            ListMailbox::String(s) => ListMailboxModel::String(s.deep_view()),
        }
    }
}

/// `list-mailbox = 1*list-char / string`
pub open spec fn spec_list_mailbox(s: Seq<u8>) -> SpecResult<ListMailboxModel> {
    match spec_take_while1(s, CharClass::List) {
        Ok((rest, t)) => Ok((rest, ListMailboxModel::Token(t))),
        Err(ParseError::Error(_)) => match spec_string(s) {
            Ok((rest, v)) => Ok((rest, ListMailboxModel::String(v))),
            Err(e) => Err(e),
        },
        Err(e) => Err(e),
    }
}

/// Parses a `list-mailbox`.
pub fn list_mailbox<'a>(input: &'a [u8]) -> (r: IMAPResult<'a, ListMailbox>)
    ensures
        agrees(r, spec_list_mailbox(input@)),
{
    match take_while1(input, CharClass::List) {
        Ok((rest, run)) => {
            proof {
                lemma_take_while1(input@, CharClass::List);
            }
            Ok((rest, ListMailbox::Token(ListCharString { inner: slice_to_vec(run) })))
        },
        Err(ParseError::Error(_)) => match string(input) {
            Ok((rest, v)) => Ok((rest, ListMailbox::String(v))),
            Err(e) => Err(e),
        },
        Err(e) => Err(e),
    }
}

/// `"(" [mbx-list-flags] ")"`: the attributes, if any are written.
pub open spec fn spec_list_attributes(s: Seq<u8>) -> SpecResult<
    Option<Seq<FlagNameAttributeModel>>,
> {
    match spec_byte(s, '(' as u8) {
        Err(e) => Err(e),
        Ok((r1, _)) => match spec_mbx_list_flags(r1) {
            Ok((r2, flags)) => match spec_byte(r2, ')' as u8) {
                Err(e) => Err(e),
                Ok((r3, _)) => Ok((r3, Some(flags))),
            },
            Err(ParseError::Error(_)) => match spec_byte(r1, ')' as u8) {
                Err(e) => Err(e),
                Ok((r3, _)) => Ok((r3, None)),
            },
            Err(e) => Err(e),
        },
    }
}

/// `DQUOTE QUOTED-CHAR DQUOTE`
pub open spec fn spec_quoted_delimiter(s: Seq<u8>) -> SpecResult<u8> {
    match spec_dquote(s) {
        Err(e) => Err(e),
        Ok((r1, _)) => match spec_quoted_char(r1) {
            Err(e) => Err(e),
            Ok((r2, c)) => match spec_dquote(r2) {
                Err(e) => Err(e),
                Ok((r3, _)) => Ok((r3, c)),
            },
        },
    }
}

/// `DQUOTE QUOTED-CHAR DQUOTE / nil`: the hierarchy delimiter, if there is
/// one.
pub open spec fn spec_delimiter(s: Seq<u8>) -> SpecResult<Option<u8>> {
    match spec_quoted_delimiter(s) {
        Ok((rest, c)) => Ok((rest, Some(c))),
        Err(ParseError::Error(_)) => match spec_nil(s) {
            Err(e) => Err(e),
            Ok((rest, _)) => Ok((rest, None)),
        },
        Err(e) => Err(e),
    }
}

/// `mailbox-list = "(" [mbx-list-flags] ")" SP (DQUOTE QUOTED-CHAR DQUOTE /
/// nil) SP mailbox`
pub open spec fn spec_mailbox_list(s: Seq<u8>) -> SpecResult<
    (Option<Seq<FlagNameAttributeModel>>, Option<u8>, MailboxModel),
> {
    match spec_list_attributes(s) {
        Err(e) => Err(e),
        Ok((r1, flags)) => match spec_sp(r1) {
            Err(e) => Err(e),
            Ok((r2, _)) => match spec_delimiter(r2) {
                Err(e) => Err(e),
                Ok((r3, delimiter)) => match spec_sp(r3) {
                    Err(e) => Err(e),
                    Ok((r4, _)) => match spec_mailbox(r4) {
                        Err(e) => Err(e),
                        Ok((r5, mailbox)) => Ok((r5, (flags, delimiter, mailbox))),
                    },
                },
            },
        },
    }
}

/// Parses `"(" [mbx-list-flags] ")"`.
pub fn list_attributes<'a>(input: &'a [u8]) -> (r: IMAPResult<'a, Option<Vec<FlagNameAttribute>>>)
    ensures
        agrees(r, spec_list_attributes(input@)),
{
    let (r1, _) = byte(input, '(' as u8)?;
    match mbx_list_flags(r1) {
        Ok((r2, flags)) => {
            let (r3, _) = byte(r2, ')' as u8)?;
            Ok((r3, Some(flags)))
        },
        Err(ParseError::Error(_)) => {
            let (r3, _) = byte(r1, ')' as u8)?;
            Ok((r3, None))
        },
        Err(e) => Err(e),
    }
}

/// Parses `DQUOTE QUOTED-CHAR DQUOTE`.
pub fn quoted_delimiter<'a>(input: &'a [u8]) -> (r: IMAPResult<'a, QuotedChar>)
    ensures
        agrees(r, spec_quoted_delimiter(input@)),
{
    let (r1, _) = dquote(input)?;
    let (r2, c) = quoted_char(r1)?;
    let (r3, _) = dquote(r2)?;
    Ok((r3, c))
}

/// Parses the hierarchy delimiter.
pub fn delimiter<'a>(input: &'a [u8]) -> (r: IMAPResult<'a, Option<QuotedChar>>)
    ensures
        agrees(r, spec_delimiter(input@)),
{
    match quoted_delimiter(input) {
        Ok((rest, c)) => Ok((rest, Some(c))),
        Err(ParseError::Error(_)) => {
            let (rest, _) = nil(input)?;
            Ok((rest, None))
        },
        Err(e) => Err(e),
    }
}

/// Parses a `mailbox-list`.
pub fn mailbox_list<'a>(input: &'a [u8]) -> (r: IMAPResult<
    'a,
    (Option<Vec<FlagNameAttribute>>, Option<QuotedChar>, Mailbox),
>)
    ensures
        agrees(r, spec_mailbox_list(input@)),
{
    let (r1, flags) = list_attributes(input)?;
    let (r2, _) = sp(r1)?;
    let (r3, maybe_delimiter) = delimiter(r2)?;
    let (r4, _) = sp(r3)?;
    let (r5, mailbox) = mailbox(r4)?;
    Ok((r5, (flags, maybe_delimiter, mailbox)))
}

/// A mailbox name: `INBOX` for the inbox, else the astring.
pub open spec fn spec_encode_mailbox(m: MailboxModel) -> Seq<u8> {
    match m {
        MailboxModel::Inbox => kw("INBOX"),
        MailboxModel::Other(a) => spec_encode_astring(a),
    }
}

/// A list mailbox: the token as it is, or the string.
pub open spec fn spec_encode_list_mailbox(m: ListMailboxModel) -> Seq<u8> {
    match m {
        ListMailboxModel::Token(t) => t,
        ListMailboxModel::String(s) => spec_encode_string(s),
    }
}

/// The hierarchy delimiter between double quotes, or `NIL`.
pub open spec fn spec_encode_delimiter(d: Option<u8>) -> Seq<u8> {
    match d {
        Some(c) => seq!['"' as u8] + spec_encode_quoted_char(c) + seq!['"' as u8],
        None => kw("NIL"),
    }
}

/// What follows `LIST` or `LSUB`: the attributes in parentheses, the
/// delimiter and the mailbox.
pub open spec fn spec_encode_mailbox_list(
    items: Seq<FlagNameAttributeModel>,
    delimiter: Option<u8>,
    mailbox: MailboxModel,
) -> Seq<u8> {
    seq!['(' as u8] + spec_wire_joined::<FlagNameAttribute>(items, ' ' as u8) + seq![')' as u8]
        + seq![' ' as u8] + spec_encode_delimiter(delimiter) + seq![' ' as u8]
        + spec_encode_mailbox(mailbox)
}

impl Encoder for Mailbox {
    open spec fn wire(v: MailboxModel) -> Seq<u8> {
        spec_encode_mailbox(v)
    }

    fn encode_into(&self, out: &mut Vec<u8>) {
        match self {
            Mailbox::Inbox => put_str(out, "INBOX"),
            Mailbox::Other(a) => a.encode_into(out),
        }
    }
}

impl Encoder for ListMailbox {
    open spec fn wire(v: ListMailboxModel) -> Seq<u8> {
        spec_encode_list_mailbox(v)
    }

    fn encode_into(&self, out: &mut Vec<u8>) {
        match self {
            ListMailbox::Token(t) => put(out, t.as_bytes()),
            ListMailbox::String(s) => s.encode_into(out),
        }
    }
}

/// Appends the hierarchy delimiter.
pub fn encode_delimiter(delimiter: &Option<QuotedChar>, out: &mut Vec<u8>)
    ensures
        final(out)@ == old(out)@ + spec_encode_delimiter(delimiter.deep_view()),
{
    let ghost start = out@;
    match delimiter {
        Some(c) => {
            out.push('"' as u8);
            c.encode_into(out);
            out.push('"' as u8);
            assert(out@ =~= start + spec_encode_delimiter(delimiter.deep_view()));
        },
        None => put_str(out, "NIL"),
    }
}

/// Appends what follows `LIST` or `LSUB`.
pub fn encode_mailbox_list(
    items: &[FlagNameAttribute],
    delimiter: &Option<QuotedChar>,
    mailbox: &Mailbox,
    out: &mut Vec<u8>,
)
    ensures
        final(out)@ == old(out)@ + spec_encode_mailbox_list(
            items.deep_view(),
            delimiter.deep_view(),
            mailbox.deep_view(),
        ),
{
    let s = Ghost(out@);
    put_byte(out, '(' as u8);
    let d = Ghost(Seq::<u8>::empty().push('(' as u8));
    encode_joined::<FlagNameAttribute>(items, ' ' as u8, out);
    let d = appended(
        s,
        d,
        Ghost(spec_wire_joined::<FlagNameAttribute>(items.deep_view(), ' ' as u8)),
    );
    let d = emit_byte(')' as u8, out, s, d);
    let d = emit_byte(' ' as u8, out, s, d);
    encode_delimiter(delimiter, out);
    let d = appended(s, d, Ghost(spec_encode_delimiter(delimiter.deep_view())));
    let d = emit_byte(' ' as u8, out, s, d);
    let d = emit(mailbox, out, s, d);
}

} // verus!

verus! {

/// `"FLAGS" SP flag-list`
pub open spec fn spec_data_flags(s: Seq<u8>) -> SpecResult<DataModel> {
    match spec_tag_no_case(s, kw("FLAGS")) {
        Err(e) => Err(e),
        Ok((r1, _)) => match spec_sp(r1) {
            Err(e) => Err(e),
            Ok((r2, _)) => match spec_flag_list(r2) {
                Err(e) => Err(e),
                Ok((r3, flags)) => Ok((r3, DataModel::Flags(flags))),
            },
        },
    }
}

/// The keyword `word`, then `SP mailbox-list`; attributes that are not
/// written count as none.
pub open spec fn spec_word_mailbox_list(s: Seq<u8>, word: Seq<u8>) -> SpecResult<
    (Seq<FlagNameAttributeModel>, Option<u8>, MailboxModel),
> {
    match spec_tag_no_case(s, word) {
        Err(e) => Err(e),
        Ok((r1, _)) => match spec_sp(r1) {
            Err(e) => Err(e),
            Ok((r2, _)) => match spec_mailbox_list(r2) {
                Err(e) => Err(e),
                Ok((r3, (items, delimiter, mailbox))) => Ok(
                    (
                        r3,
                        (
                            match items {
                                Some(i) => i,
                                None => Seq::empty(),
                            },
                            delimiter,
                            mailbox,
                        ),
                    ),
                ),
            },
        },
    }
}

/// `"LIST" SP mailbox-list`
pub open spec fn spec_data_list(s: Seq<u8>) -> SpecResult<DataModel> {
    match spec_word_mailbox_list(s, kw("LIST")) {
        Err(e) => Err(e),
        Ok((rest, (items, delimiter, mailbox))) => Ok(
            (rest, DataModel::List { items, delimiter, mailbox }),
        ),
    }
}

/// `"LSUB" SP mailbox-list`
pub open spec fn spec_data_lsub(s: Seq<u8>) -> SpecResult<DataModel> {
    match spec_word_mailbox_list(s, kw("LSUB")) {
        Err(e) => Err(e),
        Ok((rest, (items, delimiter, mailbox))) => Ok(
            (rest, DataModel::Lsub { items, delimiter, mailbox }),
        ),
    }
}

/// `"SEARCH" *(SP nz-number)`
pub open spec fn spec_data_search(s: Seq<u8>) -> SpecResult<DataModel> {
    match spec_tag_no_case(s, kw("SEARCH")) {
        Err(e) => Err(e),
        Ok((r1, _)) => match spec_preceded0::<NzNumberRule>(r1, ' ' as u8) {
            Err(e) => Err(e),
            Ok((r2, numbers)) => Ok((r2, DataModel::Search(numbers))),
        },
    }
}

/// `"(" [status-att-list] ")"`
pub open spec fn spec_status_items(s: Seq<u8>) -> SpecResult<Seq<StatusDataItemModel>> {
    match spec_byte(s, '(' as u8) {
        Err(e) => Err(e),
        Ok((r1, _)) => match spec_status_att_list(r1) {
            Ok((r2, items)) => match spec_byte(r2, ')' as u8) {
                Err(e) => Err(e),
                Ok((r3, _)) => Ok((r3, items)),
            },
            Err(ParseError::Error(_)) => match spec_byte(r1, ')' as u8) {
                Err(e) => Err(e),
                Ok((r3, _)) => Ok((r3, Seq::empty())),
            },
            Err(e) => Err(e),
        },
    }
}

/// `"STATUS" SP mailbox SP "(" [status-att-list] ")"`
pub open spec fn spec_data_status(s: Seq<u8>) -> SpecResult<DataModel> {
    match spec_tag_no_case(s, kw("STATUS")) {
        Err(e) => Err(e),
        Ok((r1, _)) => match spec_sp(r1) {
            Err(e) => Err(e),
            Ok((r2, _)) => match spec_mailbox(r2) {
                Err(e) => Err(e),
                Ok((r3, mailbox)) => match spec_sp(r3) {
                    Err(e) => Err(e),
                    Ok((r4, _)) => match spec_status_items(r4) {
                        Err(e) => Err(e),
                        Ok((r5, items)) => Ok((r5, DataModel::Status { mailbox, items })),
                    },
                },
            },
        },
    }
}

/// A number, a space and the keyword `word`.
pub open spec fn spec_number_word(s: Seq<u8>, word: Seq<u8>) -> SpecResult<u32> {
    match spec_number(s) {
        Err(e) => Err(e),
        Ok((r1, n)) => match spec_sp(r1) {
            Err(e) => Err(e),
            Ok((r2, _)) => match spec_tag_no_case(r2, word) {
                Err(e) => Err(e),
                Ok((r3, _)) => Ok((r3, n)),
            },
        },
    }
}

/// `number SP "EXISTS"`
pub open spec fn spec_data_exists(s: Seq<u8>) -> SpecResult<DataModel> {
    match spec_number_word(s, kw("EXISTS")) {
        Err(e) => Err(e),
        Ok((rest, n)) => Ok((rest, DataModel::Exists(n))),
    }
}

/// `number SP "RECENT"`
pub open spec fn spec_data_recent(s: Seq<u8>) -> SpecResult<DataModel> {
    match spec_number_word(s, kw("RECENT")) {
        Err(e) => Err(e),
        Ok((rest, n)) => Ok((rest, DataModel::Recent(n))),
    }
}

/// `mailbox-data = "FLAGS" SP flag-list / "LIST" SP mailbox-list / "LSUB" SP
/// mailbox-list / "SEARCH" *(SP nz-number) / "STATUS" SP mailbox SP "("
/// [status-att-list] ")" / number SP "EXISTS" / number SP "RECENT"`, and
/// the two responses of the quota extension.
#[verifier::opaque]
pub open spec fn spec_mailbox_data(s: Seq<u8>) -> SpecResult<DataModel> {
    spec_or(
        spec_data_flags(s),
        spec_or(
            spec_data_list(s),
            spec_or(
                spec_data_lsub(s),
                spec_or(
                    spec_data_search(s),
                    spec_or(
                        spec_data_status(s),
                        spec_or(
                            spec_data_exists(s),
                            spec_or(
                                spec_data_recent(s),
                                spec_or(spec_quotaroot_response(s), spec_quota_response(s)),
                            ),
                        ),
                    ),
                ),
            ),
        ),
    )
}

/// Parses `"FLAGS" SP flag-list`.
pub fn data_flags<'a>(input: &'a [u8]) -> (r: IMAPResult<'a, Data>)
    ensures
        agrees(r, spec_data_flags(input@)),
{
    let (r1, _) = tag_no_case(input, "FLAGS")?;
    let (r2, _) = sp(r1)?;
    let (r3, flags) = flag_list(r2)?;
    Ok((r3, Data::Flags(flags)))
}

/// Parses the keyword `word`, then `SP mailbox-list`.
pub fn word_mailbox_list<'a>(input: &'a [u8], word: &str) -> (r: IMAPResult<
    'a,
    (Vec<FlagNameAttribute>, Option<QuotedChar>, Mailbox),
>)
    ensures
        agrees(r, spec_word_mailbox_list(input@, kw(word))),
{
    let (r1, _) = tag_no_case(input, word)?;
    let (r2, _) = sp(r1)?;
    let (r3, (items, delimiter, mailbox)) = mailbox_list(r2)?;
    let items = match items {
        Some(i) => i,
        None => {
            let none: Vec<FlagNameAttribute> = Vec::new();
            assert(none.deep_view() =~= Seq::empty());
            none
        },
    };
    Ok((r3, (items, delimiter, mailbox)))
}

/// Parses `"LIST" SP mailbox-list`.
pub fn data_list<'a>(input: &'a [u8]) -> (r: IMAPResult<'a, Data>)
    ensures
        agrees(r, spec_data_list(input@)),
{
    let (rest, (items, delimiter, mailbox)) = word_mailbox_list(input, "LIST")?;
    Ok((rest, Data::List { items, delimiter, mailbox }))
}

/// Parses `"LSUB" SP mailbox-list`.
pub fn data_lsub<'a>(input: &'a [u8]) -> (r: IMAPResult<'a, Data>)
    ensures
        agrees(r, spec_data_lsub(input@)),
{
    let (rest, (items, delimiter, mailbox)) = word_mailbox_list(input, "LSUB")?;
    Ok((rest, Data::Lsub { items, delimiter, mailbox }))
}

/// Parses `"SEARCH" *(SP nz-number)`.
pub fn data_search<'a>(input: &'a [u8]) -> (r: IMAPResult<'a, Data>)
    ensures
        agrees(r, spec_data_search(input@)),
{
    let (r1, _) = tag_no_case(input, "SEARCH")?;
    let (r2, numbers) = preceded0::<NzNumberRule>(r1, ' ' as u8)?;
    Ok((r2, Data::Search(numbers)))
}

/// Parses `"(" [status-att-list] ")"`.
pub fn status_items<'a>(input: &'a [u8]) -> (r: IMAPResult<'a, Vec<StatusDataItem>>)
    ensures
        agrees(r, spec_status_items(input@)),
{
    let (r1, _) = byte(input, '(' as u8)?;
    match status_att_list(r1) {
        Ok((r2, items)) => {
            let (r3, _) = byte(r2, ')' as u8)?;
            Ok((r3, items))
        },
        Err(ParseError::Error(_)) => {
            let (r3, _) = byte(r1, ')' as u8)?;
            let none: Vec<StatusDataItem> = Vec::new();
            assert(none.deep_view() =~= Seq::empty());
            Ok((r3, none))
        },
        Err(e) => Err(e),
    }
}

/// Parses `"STATUS" SP mailbox SP "(" [status-att-list] ")"`.
pub fn data_status<'a>(input: &'a [u8]) -> (r: IMAPResult<'a, Data>)
    ensures
        agrees(r, spec_data_status(input@)),
{
    let (r1, _) = tag_no_case(input, "STATUS")?;
    let (r2, _) = sp(r1)?;
    let (r3, mailbox) = mailbox(r2)?;
    let (r4, _) = sp(r3)?;
    let (r5, items) = status_items(r4)?;
    Ok((r5, Data::Status { mailbox, items }))
}

/// Parses a number, a space and the keyword `word`.
pub fn number_word<'a>(input: &'a [u8], word: &str) -> (r: IMAPResult<'a, u32>)
    ensures
        agrees(r, spec_number_word(input@, kw(word))),
{
    let (r1, n) = number(input)?;
    let (r2, _) = sp(r1)?;
    let (r3, _) = tag_no_case(r2, word)?;
    Ok((r3, n))
}

/// Parses `number SP "EXISTS"`.
pub fn data_exists<'a>(input: &'a [u8]) -> (r: IMAPResult<'a, Data>)
    ensures
        agrees(r, spec_data_exists(input@)),
{
    let (rest, n) = number_word(input, "EXISTS")?;
    Ok((rest, Data::Exists(n)))
}

/// Parses `number SP "RECENT"`.
pub fn data_recent<'a>(input: &'a [u8]) -> (r: IMAPResult<'a, Data>)
    ensures
        agrees(r, spec_data_recent(input@)),
{
    let (rest, n) = number_word(input, "RECENT")?;
    Ok((rest, Data::Recent(n)))
}

/// Parses `mailbox-data`.
pub fn mailbox_data<'a>(input: &'a [u8]) -> (r: IMAPResult<'a, Data>)
    ensures
        agrees(r, spec_mailbox_data(input@)),
{
    reveal(spec_mailbox_data);
    match data_flags(input) {
        Err(ParseError::Error(_)) => match data_list(input) {
            Err(ParseError::Error(_)) => match data_lsub(input) {
                Err(ParseError::Error(_)) => match data_search(input) {
                    Err(ParseError::Error(_)) => match data_status(input) {
                        Err(ParseError::Error(_)) => match data_exists(input) {
                            Err(ParseError::Error(_)) => match data_recent(input) {
                                Err(ParseError::Error(_)) => match quotaroot_response(input) {
                                    Err(ParseError::Error(_)) => quota_response(input),
                                    r => r,
                                },
                                r => r,
                            },
                            r => r,
                        },
                        r => r,
                    },
                    r => r,
                },
                r => r,
            },
            r => r,
        },
        r => r,
    }
}

} // verus!
