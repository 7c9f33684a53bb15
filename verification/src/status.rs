//! The items of a STATUS response.

use crate::codec::Encoder;
use crate::error::{agrees, IMAPResult, ParseError, SpecResult};
use crate::lex::{kw, put_str, spec_tag_no_case, tag_no_case};
use crate::list::{separated1, spec_separated1, Rule};
use crate::number::{number, nz_number, spec_digits, spec_number, spec_nz_number, NzNumber};
use vstd::prelude::*;
use vstd::string::*;

verus! {

/// One item of a STATUS response.
#[derive(Debug, Clone, Copy, PartialEq, Eq, Hash)]
pub enum StatusDataItem {
    /// The number of messages in the mailbox.
    Messages(u32),
    /// The number of messages with the `\Recent` flag.
    Recent(u32),
    /// The next unique identifier.
    UidNext(NzNumber),
    /// The unique identifier validity.
    UidValidity(NzNumber),
    /// The number of messages without the `\Seen` flag.
    Unseen(u32),
}

/// An item of a STATUS response as a mathematical value.
pub enum StatusDataItemModel {
    Messages(u32),
    Recent(u32),
    UidNext(u32),
    UidValidity(u32),
    Unseen(u32),
}

impl DeepView for StatusDataItem {
    type V = StatusDataItemModel;

    open spec fn deep_view(&self) -> StatusDataItemModel {
        match self {
            StatusDataItem::Messages(n) => StatusDataItemModel::Messages(*n),
            StatusDataItem::Recent(n) => StatusDataItemModel::Recent(*n),
            StatusDataItem::UidNext(n) => StatusDataItemModel::UidNext(n.deep_view()),
            StatusDataItem::UidValidity(n) => StatusDataItemModel::UidValidity(n.deep_view()),
            StatusDataItem::Unseen(n) => StatusDataItemModel::Unseen(*n),
        }
    }
}

/// The keyword `word` with its space, then a number.
pub open spec fn spec_word_number(s: Seq<u8>, word: Seq<u8>) -> SpecResult<u32> {
    match spec_tag_no_case(s, word) {
        Err(e) => Err(e),
        Ok((rest, _)) => spec_number(rest),
    }
}

/// The keyword `word` with its space, then a number that is not zero.
pub open spec fn spec_word_nz_number(s: Seq<u8>, word: Seq<u8>) -> SpecResult<u32> {
    match spec_tag_no_case(s, word) {
        Err(e) => Err(e),
        Ok((rest, _)) => spec_nz_number(rest),
    }
}

/// `status-att-val = ("MESSAGES" SP number) / ("RECENT" SP number) /
/// ("UIDNEXT" SP nz-number) / ("UIDVALIDITY" SP nz-number) / ("UNSEEN" SP
/// number)`
pub open spec fn spec_status_att_val(s: Seq<u8>) -> SpecResult<StatusDataItemModel> {
    match spec_word_number(s, kw("MESSAGES ")) {
        Ok((r, n)) => Ok((r, StatusDataItemModel::Messages(n))),
        Err(ParseError::Error(_)) => match spec_word_number(s, kw("RECENT ")) {
            Ok((r, n)) => Ok((r, StatusDataItemModel::Recent(n))),
            Err(ParseError::Error(_)) => match spec_word_nz_number(s, kw("UIDNEXT ")) {
                Ok((r, n)) => Ok((r, StatusDataItemModel::UidNext(n))),
                Err(ParseError::Error(_)) => match spec_word_nz_number(s, kw("UIDVALIDITY ")) {
                    Ok((r, n)) => Ok((r, StatusDataItemModel::UidValidity(n))),
                    Err(ParseError::Error(_)) => match spec_word_number(s, kw("UNSEEN ")) {
                        Ok((r, n)) => Ok((r, StatusDataItemModel::Unseen(n))),
                        Err(e) => Err(e),
                    },
                    Err(e) => Err(e),
                },
                Err(e) => Err(e),
            },
            Err(e) => Err(e),
        },
        Err(e) => Err(e),
    }
}

/// The rule `status-att-val`.
pub struct StatusAttValRule;

/// `status-att-list = status-att-val *(SP status-att-val)`
pub open spec fn spec_status_att_list(s: Seq<u8>) -> SpecResult<Seq<StatusDataItemModel>> {
    spec_separated1::<StatusAttValRule>(s, ' ' as u8)
}

/// Parses the keyword `word` with its space, then a number.
pub fn word_number<'a>(input: &'a [u8], word: &str) -> (r: IMAPResult<'a, u32>)
    ensures
        agrees(r, spec_word_number(input@, kw(word))),
{
    let (rest, _) = tag_no_case(input, word)?;
    number(rest)
}

/// Parses the keyword `word` with its space, then a number that is not
/// zero.
pub fn word_nz_number<'a>(input: &'a [u8], word: &str) -> (r: IMAPResult<'a, NzNumber>)
    ensures
        agrees(r, spec_word_nz_number(input@, kw(word))),
{
    let (rest, _) = tag_no_case(input, word)?;
    nz_number(rest)
}

/// Parses a `status-att-val`.
pub fn status_att_val<'a>(input: &'a [u8]) -> (r: IMAPResult<'a, StatusDataItem>)
    ensures
        agrees(r, spec_status_att_val(input@)),
{
    match word_number(input, "MESSAGES ") {
        Ok((r, n)) => Ok((r, StatusDataItem::Messages(n))),
        Err(ParseError::Error(_)) => match word_number(input, "RECENT ") {
            Ok((r, n)) => Ok((r, StatusDataItem::Recent(n))),
            Err(ParseError::Error(_)) => match word_nz_number(input, "UIDNEXT ") {
                Ok((r, n)) => Ok((r, StatusDataItem::UidNext(n))),
                Err(ParseError::Error(_)) => match word_nz_number(input, "UIDVALIDITY ") {
                    Ok((r, n)) => Ok((r, StatusDataItem::UidValidity(n))),
                    Err(ParseError::Error(_)) => match word_number(input, "UNSEEN ") {
                        Ok((r, n)) => Ok((r, StatusDataItem::Unseen(n))),
                        Err(e) => Err(e),
                    },
                    Err(e) => Err(e),
                },
                Err(e) => Err(e),
            },
            Err(e) => Err(e),
        },
        Err(e) => Err(e),
    }
}

impl Rule for StatusAttValRule {
    type Out = StatusDataItem;

    open spec fn rule(s: Seq<u8>) -> SpecResult<StatusDataItemModel> {
        spec_status_att_val(s)
    }

    fn parse<'a>(input: &'a [u8]) -> (r: IMAPResult<'a, StatusDataItem>) {
        status_att_val(input)
    }
}

/// Parses a `status-att-list`.
pub fn status_att_list<'a>(input: &'a [u8]) -> (r: IMAPResult<'a, Vec<StatusDataItem>>)
    ensures
        agrees(r, spec_status_att_list(input@)),
{
    separated1::<StatusAttValRule>(input, ' ' as u8)
}

/// An item of a STATUS response: its keyword and its number.
pub open spec fn spec_encode_status_item(i: StatusDataItemModel) -> Seq<u8> {
    match i {
        StatusDataItemModel::Messages(n) => kw("MESSAGES ") + spec_digits(n as nat),
        StatusDataItemModel::Recent(n) => kw("RECENT ") + spec_digits(n as nat),
        StatusDataItemModel::UidNext(n) => kw("UIDNEXT ") + spec_digits(n as nat),
        StatusDataItemModel::UidValidity(n) => kw("UIDVALIDITY ") + spec_digits(n as nat),
        StatusDataItemModel::Unseen(n) => kw("UNSEEN ") + spec_digits(n as nat),
    }
}

impl Encoder for StatusDataItem {
    open spec fn wire(v: StatusDataItemModel) -> Seq<u8> {
        spec_encode_status_item(v)
    }

    fn encode_into(&self, out: &mut Vec<u8>) {
        match self {
            StatusDataItem::Messages(n) => {
                put_str(out, "MESSAGES ");
                n.encode_into(out);
            },
            StatusDataItem::Recent(n) => {
                put_str(out, "RECENT ");
                n.encode_into(out);
            },
            StatusDataItem::UidNext(n) => {
                put_str(out, "UIDNEXT ");
                n.encode_into(out);
            },
            StatusDataItem::UidValidity(n) => {
                put_str(out, "UIDVALIDITY ");
                n.encode_into(out);
            },
            StatusDataItem::Unseen(n) => {
                put_str(out, "UNSEEN ");
                n.encode_into(out);
            },
        }
    }
}

} // verus!
