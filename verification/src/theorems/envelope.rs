//! Envelopes that are written and read back.

use crate::codec::Encoder;
use crate::envelope::{
    spec_address, spec_address_list, spec_encode_address, spec_encode_address_list,
    spec_encode_envelope, spec_envelope, spec_sp_address_list, spec_sp_nstring, Address,
    AddressModel, AddressRule, EnvelopeModel,
};
use crate::error::ParseError;
use crate::lex::kw;
use crate::list::{spec_wire_all, Rule};
use crate::strings::{spec_encode_nstring, spec_nstring, IStringModel};
use crate::theorems::lex::{lemma_byte, lemma_no_byte, lemma_tag};
use crate::theorems::list::{lemma_repeat_roundtrip, lemma_wire_all_front, Reversible};
use crate::theorems::strings::{lemma_nil_bytes, lemma_nstring_roundtrip, wf_nstring};
use vstd::prelude::*;

verus! {

/// The nstring `v` is read from `s`, and `rest` is left.
#[verifier::opaque]
pub open spec fn reads_nstring(s: Seq<u8>, rest: Seq<u8>, v: Option<IStringModel>) -> bool {
    spec_nstring(s) == Ok::<_, ParseError>((rest, v))
}

/// An nstring is read back, whatever follows it.
proof fn lemma_reads_nstring(w: Seq<u8>, v: Option<IStringModel>, rest: Seq<u8>)
    requires
        wf_nstring(v),
        w == spec_encode_nstring(v),
    ensures
        reads_nstring(w + rest, rest, v),
{
    reveal(reads_nstring);
    lemma_nstring_roundtrip(v, rest);
}

/// A space and an nstring are read back, whatever follows them.
proof fn lemma_reads_sp_nstring(w: Seq<u8>, v: Option<IStringModel>, rest: Seq<u8>)
    requires
        wf_nstring(v),
        w == spec_encode_nstring(v),
    ensures
        spec_sp_nstring(seq![' ' as u8] + (w + rest)) == Ok::<_, ParseError>((rest, v)),
{
    lemma_sp_nstring_roundtrip(v, rest);
}

/// A space and the addresses of one envelope field are read back.
proof fn lemma_reads_sp_address_list(w: Seq<u8>, v: Seq<AddressModel>, rest: Seq<u8>)
    requires
        wf_address_list(v),
        w == spec_encode_address_list(v),
    ensures
        spec_sp_address_list(seq![' ' as u8] + (w + rest)) == Ok::<_, ParseError>((rest, v)),
{
    lemma_sp_address_list_roundtrip(v, rest);
}

/// A space and an nstring are read back, whatever follows them.
pub proof fn lemma_sp_nstring_roundtrip(v: Option<IStringModel>, rest: Seq<u8>)
    requires
        wf_nstring(v),
    ensures
        spec_sp_nstring(seq![' ' as u8] + (spec_encode_nstring(v) + rest)) == Ok::<_, ParseError>(
            (rest, v),
        ),
{
    reveal(spec_sp_nstring);
    lemma_byte(' ' as u8, spec_encode_nstring(v) + rest);
    lemma_nstring_roundtrip(v, rest);
}

/// An address is well formed: each of its four fields is.
pub open spec fn wf_address(a: AddressModel) -> bool {
    wf_nstring(a.name) && wf_nstring(a.adl) && wf_nstring(a.mailbox) && wf_nstring(a.host)
}

/// An address is read from input in which each field is read and leaves
/// the fields behind it.
proof fn lemma_address_pieces(
    t0: Seq<u8>,
    t1: Seq<u8>,
    t2: Seq<u8>,
    t3: Seq<u8>,
    rest: Seq<u8>,
    a: AddressModel,
)
    requires
        reads_nstring(t0, t1, a.name),
        spec_sp_nstring(t1) == Ok::<_, ParseError>((t2, a.adl)),
        spec_sp_nstring(t2) == Ok::<_, ParseError>((t3, a.mailbox)),
        spec_sp_nstring(t3) == Ok::<_, ParseError>((seq![')' as u8] + rest, a.host)),
    ensures
        spec_address(seq!['(' as u8] + t0) == Ok::<_, ParseError>((rest, a)),
{
    reveal(spec_address);
    reveal(reads_nstring);
    lemma_byte('(' as u8, t0);
    lemma_byte(')' as u8, rest);
}

/// An address is read back, whatever follows it, and begins with its
/// opening parenthesis.
pub proof fn lemma_address_roundtrip(a: AddressModel, rest: Seq<u8>)
    requires
        wf_address(a),
    ensures
        spec_address(spec_encode_address(a) + rest) == Ok::<_, ParseError>((rest, a)),
        spec_encode_address(a).len() >= 1,
        spec_encode_address(a)[0] == '(' as u8,
{
    let w0 = spec_encode_nstring(a.name);
    let w1 = spec_encode_nstring(a.adl);
    let w2 = spec_encode_nstring(a.mailbox);
    let w3 = spec_encode_nstring(a.host);
    let close = seq![')' as u8] + rest;
    let t3 = seq![' ' as u8] + (w3 + close);
    let t2 = seq![' ' as u8] + (w2 + t3);
    let t1 = seq![' ' as u8] + (w1 + t2);
    lemma_address_form(w0, w1, w2, w3, rest);
    lemma_reads_nstring(w0, a.name, t1);
    lemma_reads_sp_nstring(w1, a.adl, t2);
    lemma_reads_sp_nstring(w2, a.mailbox, t3);
    lemma_reads_sp_nstring(w3, a.host, close);
    lemma_address_pieces(w0 + t1, t1, t2, t3, rest, a);
}

/// How the four fields of an address lie between its parentheses.
proof fn lemma_address_form(w0: Seq<u8>, w1: Seq<u8>, w2: Seq<u8>, w3: Seq<u8>, rest: Seq<u8>)
    ensures
        seq!['(' as u8] + w0 + seq![' ' as u8] + w1 + seq![' ' as u8] + w2 + seq![' ' as u8] + w3
            + seq![')' as u8] + rest == seq!['(' as u8] + (w0 + (seq![' ' as u8] + (w1 + (seq![
            ' ' as u8,
        ] + (w2 + (seq![' ' as u8] + (w3 + (seq![')' as u8] + rest)))))))),
        (seq!['(' as u8] + w0 + seq![' ' as u8] + w1 + seq![' ' as u8] + w2 + seq![' ' as u8] + w3
            + seq![')' as u8])[0] == '(' as u8,
{
    assert(seq!['(' as u8] + w0 + seq![' ' as u8] + w1 + seq![' ' as u8] + w2 + seq![' ' as u8]
        + w3 + seq![')' as u8] + rest =~= seq!['(' as u8] + (w0 + (seq![' ' as u8] + (w1 + (seq![
        ' ' as u8,
    ] + (w2 + (seq![' ' as u8] + (w3 + (seq![')' as u8] + rest)))))))));
}

/// No address is read from input that does not begin with a parenthesis.
proof fn lemma_no_address(s: Seq<u8>)
    requires
        s.len() >= 1,
        s[0] != '(' as u8,
    ensures
        spec_address(s) matches Err(ParseError::Error(_)),
{
    reveal(spec_address);
    lemma_no_byte(s, '(' as u8);
}

impl Reversible for AddressRule {
    type Item = Address;

    open spec fn wf(v: AddressModel) -> bool {
        wf_address(v)
    }

    open spec fn ends_before(v: AddressModel, next: u8) -> bool {
        true
    }

    proof fn lemma_roundtrip(v: AddressModel, rest: Seq<u8>) {
        lemma_address_roundtrip(v, rest);
    }
}

/// Every address of a list is well formed.
pub open spec fn wf_address_list(list: Seq<AddressModel>) -> bool {
    forall|i: int| 0 <= i < list.len() ==> wf_address(#[trigger] list[i])
}

/// `NIL` is read back as the empty list of addresses.
proof fn lemma_no_addresses(rest: Seq<u8>)
    ensures
        spec_address_list(kw("NIL") + rest) == Ok::<_, ParseError>(
            (rest, Seq::<AddressModel>::empty()),
        ),
{
    let s = kw("NIL") + rest;
    lemma_nil_bytes();
    assert(s[0] == 'N' as u8);
    lemma_no_byte(s, '(' as u8);
    lemma_tag(kw("NIL"), rest);
}

/// One or more addresses in parentheses are read back.
proof fn lemma_some_addresses(list: Seq<AddressModel>, rest: Seq<u8>)
    requires
        wf_address_list(list),
        list.len() >= 1,
    ensures
        spec_address_list(seq!['(' as u8] + (spec_wire_all::<Address>(list) + (seq![')' as u8]
            + rest))) == Ok::<_, ParseError>((rest, list)),
{
    let close = seq![')' as u8] + rest;
    let inner = spec_wire_all::<Address>(list) + close;
    lemma_byte('(' as u8, inner);
    lemma_no_address(close);
    assert forall|i: int| 0 <= i < list.len() implies (#[trigger] Address::wire(
        list[i],
    )).len() >= 1 && Address::wire(list[i])[0] == '(' as u8 by {
        lemma_address_roundtrip(list[i], rest);
    }
    lemma_repeat_roundtrip::<AddressRule>(list, Seq::empty(), close, '(' as u8);
    assert(Seq::<AddressModel>::empty() + list =~= list);
    lemma_wire_all_front::<Address>(list);
    lemma_address_roundtrip(list[0], spec_wire_all::<Address>(list.skip(1)) + close);
    assert(inner =~= Address::wire(list[0]) + (spec_wire_all::<Address>(list.skip(1)) + close));
    lemma_byte(')' as u8, rest);
}

/// The addresses of one envelope field are read back, whatever follows
/// them.
pub proof fn lemma_address_list_roundtrip(list: Seq<AddressModel>, rest: Seq<u8>)
    requires
        wf_address_list(list),
    ensures
        spec_address_list(spec_encode_address_list(list) + rest) == Ok::<_, ParseError>(
            (rest, list),
        ),
{
    if list.len() == 0 {
        lemma_no_addresses(rest);
        assert(list =~= Seq::<AddressModel>::empty());
    } else {
        lemma_some_addresses(list, rest);
        assert(spec_encode_address_list(list) + rest =~= seq!['(' as u8] + (spec_wire_all::<
            Address,
        >(list) + (seq![')' as u8] + rest)));
    }
}

/// A space and the addresses of one envelope field are read back, whatever
/// follows them.
pub proof fn lemma_sp_address_list_roundtrip(list: Seq<AddressModel>, rest: Seq<u8>)
    requires
        wf_address_list(list),
    ensures
        spec_sp_address_list(seq![' ' as u8] + (spec_encode_address_list(list) + rest)) == Ok::<
            _,
            ParseError,
        >((rest, list)),
{
    reveal(spec_sp_address_list);
    lemma_byte(' ' as u8, spec_encode_address_list(list) + rest);
    lemma_address_list_roundtrip(list, rest);
}

/// An envelope is well formed: each of its ten fields is.
pub open spec fn wf_envelope(e: EnvelopeModel) -> bool {
    &&& wf_nstring(e.date)
    &&& wf_nstring(e.subject)
    &&& wf_address_list(e.from)
    &&& wf_address_list(e.sender)
    &&& wf_address_list(e.reply_to)
    &&& wf_address_list(e.to)
    &&& wf_address_list(e.cc)
    &&& wf_address_list(e.bcc)
    &&& wf_nstring(e.in_reply_to)
    &&& wf_nstring(e.message_id)
}

/// An envelope is read from input in which each field is read and leaves
/// the fields behind it.
proof fn lemma_envelope_pieces(
    t0: Seq<u8>,
    t1: Seq<u8>,
    t2: Seq<u8>,
    t3: Seq<u8>,
    t4: Seq<u8>,
    t5: Seq<u8>,
    t6: Seq<u8>,
    t7: Seq<u8>,
    t8: Seq<u8>,
    t9: Seq<u8>,
    rest: Seq<u8>,
    e: EnvelopeModel,
)
    requires
        reads_nstring(t0, t1, e.date),
        spec_sp_nstring(t1) == Ok::<_, ParseError>((t2, e.subject)),
        spec_sp_address_list(t2) == Ok::<_, ParseError>((t3, e.from)),
        spec_sp_address_list(t3) == Ok::<_, ParseError>((t4, e.sender)),
        spec_sp_address_list(t4) == Ok::<_, ParseError>((t5, e.reply_to)),
        spec_sp_address_list(t5) == Ok::<_, ParseError>((t6, e.to)),
        spec_sp_address_list(t6) == Ok::<_, ParseError>((t7, e.cc)),
        spec_sp_address_list(t7) == Ok::<_, ParseError>((t8, e.bcc)),
        spec_sp_nstring(t8) == Ok::<_, ParseError>((t9, e.in_reply_to)),
        spec_sp_nstring(t9) == Ok::<_, ParseError>((seq![')' as u8] + rest, e.message_id)),
    ensures
        spec_envelope(seq!['(' as u8] + t0) == Ok::<_, ParseError>((rest, e)),
{
    reveal(spec_envelope);
    reveal(reads_nstring);
    lemma_byte('(' as u8, t0);
    lemma_byte(')' as u8, rest);
}

/// An envelope is read back, whatever follows it.
pub proof fn lemma_envelope_roundtrip(e: EnvelopeModel, rest: Seq<u8>)
    requires
        wf_envelope(e),
    ensures
        spec_envelope(spec_encode_envelope(e) + rest) == Ok::<_, ParseError>((rest, e)),
{
    let w0 = spec_encode_nstring(e.date);
    let w1 = spec_encode_nstring(e.subject);
    let w2 = spec_encode_address_list(e.from);
    let w3 = spec_encode_address_list(e.sender);
    let w4 = spec_encode_address_list(e.reply_to);
    let w5 = spec_encode_address_list(e.to);
    let w6 = spec_encode_address_list(e.cc);
    let w7 = spec_encode_address_list(e.bcc);
    let w8 = spec_encode_nstring(e.in_reply_to);
    let w9 = spec_encode_nstring(e.message_id);
    let sp = seq![' ' as u8];
    let close = seq![')' as u8] + rest;
    let t9 = sp + (w9 + close);
    let t8 = sp + (w8 + t9);
    let t7 = sp + (w7 + t8);
    let t6 = sp + (w6 + t7);
    let t5 = sp + (w5 + t6);
    let t4 = sp + (w4 + t5);
    let t3 = sp + (w3 + t4);
    let t2 = sp + (w2 + t3);
    let t1 = sp + (w1 + t2);
    lemma_envelope_form(w0, w1, w2, w3, w4, w5, w6, w7, w8, w9, rest);
    assert(spec_envelope_fields(w0, w1, w2, w3, w4, w5, w6, w7, w8, w9, rest) == seq![
        '(' as u8,
    ] + (w0 + t1));
    lemma_reads_nstring(w0, e.date, t1);
    lemma_reads_sp_nstring(w1, e.subject, t2);
    lemma_reads_sp_address_list(w2, e.from, t3);
    lemma_reads_sp_address_list(w3, e.sender, t4);
    lemma_reads_sp_address_list(w4, e.reply_to, t5);
    lemma_reads_sp_address_list(w5, e.to, t6);
    lemma_reads_sp_address_list(w6, e.cc, t7);
    lemma_reads_sp_address_list(w7, e.bcc, t8);
    lemma_reads_sp_nstring(w8, e.in_reply_to, t9);
    lemma_reads_sp_nstring(w9, e.message_id, close);
    lemma_envelope_pieces(w0 + t1, t1, t2, t3, t4, t5, t6, t7, t8, t9, rest, e);
}

/// Five fields that each stand behind a space, and what follows them.
pub open spec fn spec_spaced(
    w0: Seq<u8>,
    w1: Seq<u8>,
    w2: Seq<u8>,
    w3: Seq<u8>,
    w4: Seq<u8>,
    rest: Seq<u8>,
) -> Seq<u8> {
    let sp = seq![' ' as u8];
    let t4 = sp + (w4 + rest);
    let t3 = sp + (w3 + t4);
    let t2 = sp + (w2 + t3);
    let t1 = sp + (w1 + t2);
    sp + (w0 + t1)
}

/// Five fields that each stand behind a space may be written behind what
/// precedes them one by one.
pub proof fn lemma_spaced(
    head: Seq<u8>,
    w0: Seq<u8>,
    w1: Seq<u8>,
    w2: Seq<u8>,
    w3: Seq<u8>,
    w4: Seq<u8>,
    rest: Seq<u8>,
)
    ensures
        head + seq![' ' as u8] + w0 + seq![' ' as u8] + w1 + seq![' ' as u8] + w2 + seq![
            ' ' as u8,
        ] + w3 + seq![' ' as u8] + w4 + rest == head + spec_spaced(w0, w1, w2, w3, w4, rest),
{
    assert(head + seq![' ' as u8] + w0 + seq![' ' as u8] + w1 + seq![' ' as u8] + w2 + seq![
        ' ' as u8,
    ] + w3 + seq![' ' as u8] + w4 + rest =~= head + spec_spaced(w0, w1, w2, w3, w4, rest));
}

/// Four fields that each stand behind a space, a closing parenthesis and
/// what follows it.
pub open spec fn spec_spaced_end(
    w0: Seq<u8>,
    w1: Seq<u8>,
    w2: Seq<u8>,
    w3: Seq<u8>,
    rest: Seq<u8>,
) -> Seq<u8> {
    let sp = seq![' ' as u8];
    let t3 = sp + (w3 + (seq![')' as u8] + rest));
    let t2 = sp + (w2 + t3);
    let t1 = sp + (w1 + t2);
    sp + (w0 + t1)
}

/// Four fields that each stand behind a space, and the closing
/// parenthesis, may be written behind what precedes them one by one.
proof fn lemma_spaced_end(
    head: Seq<u8>,
    w0: Seq<u8>,
    w1: Seq<u8>,
    w2: Seq<u8>,
    w3: Seq<u8>,
    rest: Seq<u8>,
)
    ensures
        head + seq![' ' as u8] + w0 + seq![' ' as u8] + w1 + seq![' ' as u8] + w2 + seq![
            ' ' as u8,
        ] + w3 + seq![')' as u8] + rest == head + spec_spaced_end(w0, w1, w2, w3, rest),
{
    assert(head + seq![' ' as u8] + w0 + seq![' ' as u8] + w1 + seq![' ' as u8] + w2 + seq![
        ' ' as u8,
    ] + w3 + seq![')' as u8] + rest =~= head + spec_spaced_end(w0, w1, w2, w3, rest));
}

/// The ten fields of an envelope between its parentheses, and what
/// follows.
pub open spec fn spec_envelope_fields(
    w0: Seq<u8>,
    w1: Seq<u8>,
    w2: Seq<u8>,
    w3: Seq<u8>,
    w4: Seq<u8>,
    w5: Seq<u8>,
    w6: Seq<u8>,
    w7: Seq<u8>,
    w8: Seq<u8>,
    w9: Seq<u8>,
    rest: Seq<u8>,
) -> Seq<u8> {
    seq!['(' as u8] + (w0 + spec_spaced(w1, w2, w3, w4, w5, spec_spaced_end(w6, w7, w8, w9, rest)))
}

/// How the ten fields of an envelope lie between its parentheses.
proof fn lemma_envelope_form(
    w0: Seq<u8>,
    w1: Seq<u8>,
    w2: Seq<u8>,
    w3: Seq<u8>,
    w4: Seq<u8>,
    w5: Seq<u8>,
    w6: Seq<u8>,
    w7: Seq<u8>,
    w8: Seq<u8>,
    w9: Seq<u8>,
    rest: Seq<u8>,
)
    ensures
        seq!['(' as u8] + w0 + seq![' ' as u8] + w1 + seq![' ' as u8] + w2 + seq![' ' as u8] + w3
            + seq![' ' as u8] + w4 + seq![' ' as u8] + w5 + seq![' ' as u8] + w6 + seq![' ' as u8]
            + w7 + seq![' ' as u8] + w8 + seq![' ' as u8] + w9 + seq![')' as u8] + rest
            == spec_envelope_fields(w0, w1, w2, w3, w4, w5, w6, w7, w8, w9, rest),
{
    let paren = seq!['(' as u8];
    let sp = seq![' ' as u8];
    let back = spec_spaced_end(w6, w7, w8, w9, rest);
    let l5 = paren + w0 + sp + w1 + sp + w2 + sp + w3 + sp + w4 + sp + w5;
    lemma_spaced_end(l5, w6, w7, w8, w9, rest);
    lemma_spaced(paren + w0, w1, w2, w3, w4, w5, back);
    let inner = spec_spaced(w1, w2, w3, w4, w5, back);
    assert(paren + w0 + inner =~= paren + (w0 + inner));
}

} // verus!
