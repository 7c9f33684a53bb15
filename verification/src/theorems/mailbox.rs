//! The folding of `INBOX`, and mailbox names that are written and read
//! back.

use crate::error::ParseError;
use crate::lex::{eq_ignore_case, kw, CharClass};
use crate::mailbox::{spec_astring_bytes, spec_encode_mailbox, spec_mailbox, MailboxModel};
use crate::strings::{spec_astring, spec_encode_astring, AStringModel};
use crate::theorems::keywords::lemma_kw_inbox;
use crate::theorems::lex::lemma_run;
use crate::theorems::strings::{follows_astring, lemma_astring_roundtrip, wf_astring};
use vstd::prelude::*;

verus! {

/// Whatever the rule `mailbox` reads is the inbox exactly when the bytes of
/// the astring that it read are `INBOX` in some mix of upper and lower
/// case; the form of the astring does not matter.
pub proof fn lemma_inbox_folding(s: Seq<u8>)
    ensures
        match spec_astring(s) {
            Ok((rest, a)) => spec_mailbox(s) == Ok::<_, ParseError>(
                (
                    rest,
                    if eq_ignore_case(spec_astring_bytes(a), kw("INBOX")) {
                        MailboxModel::Inbox
                    } else {
                        MailboxModel::Other(a)
                    },
                ),
            ),
            Err(e) => spec_mailbox(s) == Err::<(Seq<u8>, MailboxModel), _>(e),
        },
{
}

/// An astring whose bytes are `INBOX` in any mix of case, written in any of
/// its three forms, is read as the inbox.
pub proof fn lemma_inbox_in_any_form(a: AStringModel, rest: Seq<u8>)
    requires
        wf_astring(a),
        follows_astring(a, rest),
        eq_ignore_case(spec_astring_bytes(a), kw("INBOX")),
    ensures
        spec_mailbox(spec_encode_astring(a) + rest) == Ok::<_, ParseError>(
            (rest, MailboxModel::Inbox),
        ),
{
    lemma_astring_roundtrip(a, rest);
}

/// A mailbox is such as the rule `mailbox` yields: a mailbox other than the
/// inbox has a well-formed name whose bytes are not `INBOX` in any mix of
/// case.
pub open spec fn wf_mailbox(m: MailboxModel) -> bool {
    match m {
        MailboxModel::Inbox => true,
        MailboxModel::Other(a) => wf_astring(a) && !eq_ignore_case(
            spec_astring_bytes(a),
            kw("INBOX"),
        ),
    }
}

/// What may follow a mailbox: a byte that cannot continue an unquoted name.
pub open spec fn follows_mailbox(m: MailboxModel, rest: Seq<u8>) -> bool {
    match m {
        MailboxModel::Inbox => rest.len() >= 1 && !CharClass::AString.spec_has(rest[0]),
        MailboxModel::Other(a) => follows_astring(a, rest),
    }
}

/// A mailbox is read back.
pub proof fn lemma_mailbox_roundtrip(m: MailboxModel, rest: Seq<u8>)
    requires
        wf_mailbox(m),
        follows_mailbox(m, rest),
    ensures
        spec_mailbox(spec_encode_mailbox(m) + rest) == Ok::<_, ParseError>((rest, m)),
        spec_encode_mailbox(m).len() >= 1,
{
    match m {
        MailboxModel::Inbox => {
            reveal(eq_ignore_case);
            lemma_kw_inbox();
            lemma_run(kw("INBOX"), rest, CharClass::AString);
        },
        MailboxModel::Other(a) => {
            lemma_astring_roundtrip(a, rest);
            match a {
                AStringModel::Atom(b) => {},
                AStringModel::String(x) => {
                    crate::theorems::strings::lemma_string_roundtrip(x, rest);
                },
            }
        },
    }
}

} // verus!
