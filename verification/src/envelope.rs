//! The envelope of a message and the addresses in it.

use crate::codec::{appended, emit, emit_byte, Encoder};
use crate::error::{agrees, IMAPResult, ParseError, SpecResult};
use crate::lex::{byte, kw, put_byte, put_str, sp, spec_byte, spec_sp};
use crate::list::{encode_all, many1, spec_many1, spec_wire_all, Rule};
use crate::strings::{
    nil, nstring, spec_encode_nstring, spec_nil, spec_nstring, IStringModel, NString,
};
use vstd::prelude::*;
use vstd::string::*;

verus! {

/// One address of an envelope.
#[derive(Debug, Clone, PartialEq, Eq, Hash)]
pub struct Address {
    /// The personal name.
    pub name: NString,
    /// The source route.
    pub adl: NString,
    /// The mailbox name, or the name of a group.
    pub mailbox: NString,
    /// The host name; none for the start or the end of a group.
    pub host: NString,
}

/// An address as a mathematical value.
pub struct AddressModel {
    pub name: Option<IStringModel>,
    pub adl: Option<IStringModel>,
    pub mailbox: Option<IStringModel>,
    pub host: Option<IStringModel>,
}

/// The envelope structure of a message.
#[derive(Debug, Clone, PartialEq, Eq, Hash)]
pub struct Envelope {
    pub date: NString,
    pub subject: NString,
    pub from: Vec<Address>,
    pub sender: Vec<Address>,
    pub reply_to: Vec<Address>,
    pub to: Vec<Address>,
    pub cc: Vec<Address>,
    pub bcc: Vec<Address>,
    pub in_reply_to: NString,
    pub message_id: NString,
}

/// An envelope as a mathematical value.
pub struct EnvelopeModel {
    pub date: Option<IStringModel>,
    pub subject: Option<IStringModel>,
    pub from: Seq<AddressModel>,
    pub sender: Seq<AddressModel>,
    pub reply_to: Seq<AddressModel>,
    pub to: Seq<AddressModel>,
    pub cc: Seq<AddressModel>,
    pub bcc: Seq<AddressModel>,
    pub in_reply_to: Option<IStringModel>,
    pub message_id: Option<IStringModel>,
}

impl DeepView for Address {
    type V = AddressModel;

    open spec fn deep_view(&self) -> AddressModel {
        AddressModel {
            name: self.name.deep_view(),
            adl: self.adl.deep_view(),
            mailbox: self.mailbox.deep_view(),
            host: self.host.deep_view(),
        }
    }
}

impl DeepView for Envelope {
    type V = EnvelopeModel;

    open spec fn deep_view(&self) -> EnvelopeModel {
        EnvelopeModel {
            date: self.date.deep_view(),
            subject: self.subject.deep_view(),
            from: self.from.deep_view(),
            sender: self.sender.deep_view(),
            reply_to: self.reply_to.deep_view(),
            to: self.to.deep_view(),
            cc: self.cc.deep_view(),
            bcc: self.bcc.deep_view(),
            in_reply_to: self.in_reply_to.deep_view(),
            message_id: self.message_id.deep_view(),
        }
    }
}

/// `SP nstring`
#[verifier::opaque]
pub open spec fn spec_sp_nstring(s: Seq<u8>) -> SpecResult<Option<IStringModel>> {
    match spec_sp(s) {
        Err(e) => Err(e),
        Ok((rest, _)) => spec_nstring(rest),
    }
}

/// Parses `SP nstring`.
pub fn sp_nstring<'a>(input: &'a [u8]) -> (r: IMAPResult<'a, NString>)
    ensures
        agrees(r, spec_sp_nstring(input@)),
{
    proof {
        reveal(spec_sp_nstring);
    }
    let (rest, _) = sp(input)?;
    nstring(rest)
}

/// `address = "(" addr-name SP addr-adl SP addr-mailbox SP addr-host ")"`,
/// each of the four an nstring.
#[verifier::opaque]
pub open spec fn spec_address(s: Seq<u8>) -> SpecResult<AddressModel> {
    match spec_byte(s, '(' as u8) {
        Err(e) => Err(e),
        Ok((r1, _)) => match spec_nstring(r1) {
            Err(e) => Err(e),
            Ok((r2, name)) => match spec_sp_nstring(r2) {
                Err(e) => Err(e),
                Ok((r3, adl)) => match spec_sp_nstring(r3) {
                    Err(e) => Err(e),
                    Ok((r4, mailbox)) => match spec_sp_nstring(r4) {
                        Err(e) => Err(e),
                        Ok((r5, host)) => match spec_byte(r5, ')' as u8) {
                            Err(e) => Err(e),
                            Ok((r6, _)) => Ok((r6, AddressModel { name, adl, mailbox, host })),
                        },
                    },
                },
            },
        },
    }
}

/// Parses an `address`.
pub fn address<'a>(input: &'a [u8]) -> (r: IMAPResult<'a, Address>)
    ensures
        agrees(r, spec_address(input@)),
{
    proof {
        reveal(spec_address);
    }
    let (r1, _) = byte(input, '(' as u8)?;
    let (r2, name) = nstring(r1)?;
    let (r3, adl) = sp_nstring(r2)?;
    let (r4, mailbox) = sp_nstring(r3)?;
    let (r5, host) = sp_nstring(r4)?;
    let (r6, _) = byte(r5, ')' as u8)?;
    Ok((r6, Address { name, adl, mailbox, host }))
}

/// The rule `address`.
pub struct AddressRule;

impl Rule for AddressRule {
    type Out = Address;

    open spec fn rule(s: Seq<u8>) -> SpecResult<AddressModel> {
        spec_address(s)
    }

    fn parse<'a>(input: &'a [u8]) -> (r: IMAPResult<'a, Address>) {
        address(input)
    }
}

/// `"(" 1*address ")" / nil`: the addresses of one envelope field, none for
/// `NIL`.
pub open spec fn spec_address_list(s: Seq<u8>) -> SpecResult<Seq<AddressModel>> {
    match spec_byte(s, '(' as u8) {
        Ok((r1, _)) => match spec_many1::<AddressRule>(r1) {
            Ok((r2, list)) => match spec_byte(r2, ')' as u8) {
                Ok((r3, _)) => Ok((r3, list)),
                Err(ParseError::Error(_)) => spec_nil_list(s),
                Err(e) => Err(e),
            },
            Err(ParseError::Error(_)) => spec_nil_list(s),
            Err(e) => Err(e),
        },
        Err(ParseError::Error(_)) => spec_nil_list(s),
        Err(e) => Err(e),
    }
}

/// `nil` as the empty list of addresses.
pub open spec fn spec_nil_list(s: Seq<u8>) -> SpecResult<Seq<AddressModel>> {
    match spec_nil(s) {
        Err(e) => Err(e),
        Ok((rest, _)) => Ok((rest, Seq::empty())),
    }
}

/// Parses `nil` as the empty list of addresses.
pub fn nil_list<'a>(input: &'a [u8]) -> (r: IMAPResult<'a, Vec<Address>>)
    ensures
        agrees(r, spec_nil_list(input@)),
{
    let (rest, _) = nil(input)?;
    let none: Vec<Address> = Vec::new();
    assert(none.deep_view() =~= Seq::empty());
    Ok((rest, none))
}

/// Parses the addresses of one envelope field.
pub fn address_list<'a>(input: &'a [u8]) -> (r: IMAPResult<'a, Vec<Address>>)
    ensures
        agrees(r, spec_address_list(input@)),
{
    match byte(input, '(' as u8) {
        Ok((r1, _)) => match many1::<AddressRule>(r1) {
            Ok((r2, list)) => match byte(r2, ')' as u8) {
                Ok((r3, _)) => Ok((r3, list)),
                Err(ParseError::Error(_)) => nil_list(input),
                Err(e) => Err(e),
            },
            Err(ParseError::Error(_)) => nil_list(input),
            Err(e) => Err(e),
        },
        Err(ParseError::Error(_)) => nil_list(input),
        Err(e) => Err(e),
    }
}

/// `SP` and the addresses of one envelope field.
#[verifier::opaque]
pub open spec fn spec_sp_address_list(s: Seq<u8>) -> SpecResult<Seq<AddressModel>> {
    match spec_sp(s) {
        Err(e) => Err(e),
        Ok((rest, _)) => spec_address_list(rest),
    }
}

/// Parses `SP` and the addresses of one envelope field.
pub fn sp_address_list<'a>(input: &'a [u8]) -> (r: IMAPResult<'a, Vec<Address>>)
    ensures
        agrees(r, spec_sp_address_list(input@)),
{
    proof {
        reveal(spec_sp_address_list);
    }
    let (rest, _) = sp(input)?;
    address_list(rest)
}

/// `envelope = "(" env-date SP env-subject SP env-from SP env-sender SP
/// env-reply-to SP env-to SP env-cc SP env-bcc SP env-in-reply-to SP
/// env-message-id ")"`
#[verifier::opaque]
pub open spec fn spec_envelope(s: Seq<u8>) -> SpecResult<EnvelopeModel> {
    match spec_byte(s, '(' as u8) {
        Err(e) => Err(e),
        Ok((r1, _)) => match spec_nstring(r1) {
            Err(e) => Err(e),
            Ok((r2, date)) => match spec_sp_nstring(r2) {
                Err(e) => Err(e),
                Ok((r3, subject)) => match spec_sp_address_list(r3) {
                    Err(e) => Err(e),
                    Ok((r4, from)) => match spec_sp_address_list(r4) {
                        Err(e) => Err(e),
                        Ok((r5, sender)) => match spec_sp_address_list(r5) {
                            Err(e) => Err(e),
                            Ok((r6, reply_to)) => match spec_sp_address_list(r6) {
                                Err(e) => Err(e),
                                Ok((r7, to)) => match spec_sp_address_list(r7) {
                                    Err(e) => Err(e),
                                    Ok((r8, cc)) => match spec_sp_address_list(r8) {
                                        Err(e) => Err(e),
                                        Ok((r9, bcc)) => match spec_sp_nstring(r9) {
                                            Err(e) => Err(e),
                                            Ok((r10, in_reply_to)) => match spec_sp_nstring(r10) {
                                                Err(e) => Err(e),
                                                Ok((r11, message_id)) => match spec_byte(
                                                    r11,
                                                    ')' as u8,
                                                ) {
                                                    Err(e) => Err(e),
                                                    Ok((r12, _)) => Ok(
                                                        (
                                                            r12,
                                                            EnvelopeModel {
                                                                date,
                                                                subject,
                                                                from,
                                                                sender,
                                                                reply_to,
                                                                to,
                                                                cc,
                                                                bcc,
                                                                in_reply_to,
                                                                message_id,
                                                            },
                                                        ),
                                                    ),
                                                },
                                            },
                                        },
                                    },
                                },
                            },
                        },
                    },
                },
            },
        },
    }
}

/// Parses an `envelope`.
pub fn envelope<'a>(input: &'a [u8]) -> (r: IMAPResult<'a, Envelope>)
    ensures
        agrees(r, spec_envelope(input@)),
{
    proof {
        reveal(spec_envelope);
    }
    let (r1, _) = byte(input, '(' as u8)?;
    let (r2, date) = nstring(r1)?;
    let (r3, subject) = sp_nstring(r2)?;
    let (r4, from) = sp_address_list(r3)?;
    let (r5, sender) = sp_address_list(r4)?;
    let (r6, reply_to) = sp_address_list(r5)?;
    let (r7, to) = sp_address_list(r6)?;
    let (r8, cc) = sp_address_list(r7)?;
    let (r9, bcc) = sp_address_list(r8)?;
    let (r10, in_reply_to) = sp_nstring(r9)?;
    let (r11, message_id) = sp_nstring(r10)?;
    let (r12, _) = byte(r11, ')' as u8)?;
    Ok(
        (
            r12,
            Envelope {
                date,
                subject,
                from,
                sender,
                reply_to,
                to,
                cc,
                bcc,
                in_reply_to,
                message_id,
            },
        ),
    )
}

/// An address: its four fields in parentheses.
pub open spec fn spec_encode_address(a: AddressModel) -> Seq<u8> {
    seq!['(' as u8] + spec_encode_nstring(a.name) + seq![' ' as u8] + spec_encode_nstring(a.adl)
        + seq![' ' as u8] + spec_encode_nstring(a.mailbox) + seq![' ' as u8] + spec_encode_nstring(
        a.host,
    ) + seq![')' as u8]
}

/// The addresses of one envelope field: `NIL` for none, else the addresses
/// in parentheses.
pub open spec fn spec_encode_address_list(list: Seq<AddressModel>) -> Seq<u8> {
    if list.len() == 0 {
        kw("NIL")
    } else {
        seq!['(' as u8] + spec_wire_all::<Address>(list) + seq![')' as u8]
    }
}

/// An envelope: its ten fields in parentheses.
pub open spec fn spec_encode_envelope(e: EnvelopeModel) -> Seq<u8> {
    seq!['(' as u8] + spec_encode_nstring(e.date) + seq![' ' as u8] + spec_encode_nstring(
        e.subject,
    ) + seq![' ' as u8] + spec_encode_address_list(e.from) + seq![' ' as u8]
        + spec_encode_address_list(e.sender) + seq![' ' as u8] + spec_encode_address_list(
        e.reply_to,
    ) + seq![' ' as u8] + spec_encode_address_list(e.to) + seq![' ' as u8]
        + spec_encode_address_list(e.cc) + seq![' ' as u8] + spec_encode_address_list(e.bcc)
        + seq![' ' as u8] + spec_encode_nstring(e.in_reply_to) + seq![' ' as u8]
        + spec_encode_nstring(e.message_id) + seq![')' as u8]
}

impl Encoder for Address {
    open spec fn wire(v: AddressModel) -> Seq<u8> {
        spec_encode_address(v)
    }

    fn encode_into(&self, out: &mut Vec<u8>) {
        let ghost start = out@;
        out.push('(' as u8);
        self.name.encode_into(out);
        out.push(' ' as u8);
        self.adl.encode_into(out);
        out.push(' ' as u8);
        self.mailbox.encode_into(out);
        out.push(' ' as u8);
        self.host.encode_into(out);
        out.push(')' as u8);
        assert(out@ =~= start + spec_encode_address(self.deep_view()));
    }
}

/// Appends the addresses of one envelope field.
pub fn encode_address_list(list: &[Address], out: &mut Vec<u8>)
    ensures
        final(out)@ == old(out)@ + spec_encode_address_list(list.deep_view()),
{
    let ghost start = out@;
    if list.len() == 0 {
        put_str(out, "NIL");
    } else {
        out.push('(' as u8);
        encode_all::<Address>(list, out);
        out.push(')' as u8);
        assert(out@ =~= start + spec_encode_address_list(list.deep_view()));
    }
}

impl Encoder for Envelope {
    open spec fn wire(v: EnvelopeModel) -> Seq<u8> {
        spec_encode_envelope(v)
    }

    fn encode_into(&self, out: &mut Vec<u8>) {
        let s = Ghost(out@);
        put_byte(out, '(' as u8);
        let d = Ghost(Seq::<u8>::empty().push('(' as u8));
        let d = emit(&self.date, out, s, d);
        let d = emit_byte(' ' as u8, out, s, d);
        let d = emit(&self.subject, out, s, d);
        let d = emit_byte(' ' as u8, out, s, d);
        encode_address_list(self.from.as_slice(), out);
        let d = appended(s, d, Ghost(spec_encode_address_list(self.from.deep_view())));
        let d = emit_byte(' ' as u8, out, s, d);
        encode_address_list(self.sender.as_slice(), out);
        let d = appended(s, d, Ghost(spec_encode_address_list(self.sender.deep_view())));
        let d = emit_byte(' ' as u8, out, s, d);
        encode_address_list(self.reply_to.as_slice(), out);
        let d = appended(s, d, Ghost(spec_encode_address_list(self.reply_to.deep_view())));
        let d = emit_byte(' ' as u8, out, s, d);
        encode_address_list(self.to.as_slice(), out);
        let d = appended(s, d, Ghost(spec_encode_address_list(self.to.deep_view())));
        let d = emit_byte(' ' as u8, out, s, d);
        encode_address_list(self.cc.as_slice(), out);
        let d = appended(s, d, Ghost(spec_encode_address_list(self.cc.deep_view())));
        let d = emit_byte(' ' as u8, out, s, d);
        encode_address_list(self.bcc.as_slice(), out);
        let d = appended(s, d, Ghost(spec_encode_address_list(self.bcc.deep_view())));
        let d = emit_byte(' ' as u8, out, s, d);
        let d = emit(&self.in_reply_to, out, s, d);
        let d = emit_byte(' ' as u8, out, s, d);
        let d = emit(&self.message_id, out, s, d);
        let d = emit_byte(')' as u8, out, s, d);
    }
}

} // verus!
