//! Responses of extensions: ENABLE and QUOTA.

use crate::error::{agrees, IMAPResult, SpecResult};
use crate::lex::{
    byte, bytes_eq_ignore_case, eq_ignore_case, kw, sp, spec_byte, spec_sp, spec_tag_no_case,
    tag_no_case,
};
use crate::list::{preceded0, separated1_nonempty, spec_preceded0, spec_separated1, Rule};
use crate::mailbox::{mailbox, spec_mailbox};
use crate::quota::QuotaResourceRule;
use crate::response::{CapabilityEnable, CapabilityEnableModel, Data, DataModel};
use crate::strings::{astring, atom, spec_astring, spec_atom, AStringRule, Atom};
use vstd::prelude::*;
use vstd::string::*;

verus! {

/// The enabled capability that an atom names.
pub open spec fn spec_capability_enable_from(a: Seq<u8>) -> CapabilityEnableModel {
    if eq_ignore_case(a, kw("UTF8=ACCEPT")) {
        CapabilityEnableModel::Utf8Accept
    } else if eq_ignore_case(a, kw("UTF8=ONLY")) {
        CapabilityEnableModel::Utf8Only
    } else {
        CapabilityEnableModel::Other(a)
    }
}

impl CapabilityEnable {
    /// The enabled capability that `a` names.
    pub fn from(a: Atom) -> (r: CapabilityEnable)
        ensures
            r.deep_view() == spec_capability_enable_from(a.deep_view()),
    {
        let name = a.as_bytes();
        if bytes_eq_ignore_case(name, "UTF8=ACCEPT".as_bytes()) {
            CapabilityEnable::Utf8Accept
        } else if bytes_eq_ignore_case(name, "UTF8=ONLY".as_bytes()) {
            CapabilityEnable::Utf8Only
        } else {
            CapabilityEnable::Other(a)
        }
    }
}

/// One enabled capability: an atom.
pub open spec fn spec_capability_enable(s: Seq<u8>) -> SpecResult<CapabilityEnableModel> {
    match spec_atom(s) {
        Err(e) => Err(e),
        Ok((rest, a)) => Ok((rest, spec_capability_enable_from(a))),
    }
}

/// Parses one enabled capability.
pub fn capability_enable<'a>(input: &'a [u8]) -> (r: IMAPResult<'a, CapabilityEnable>)
    ensures
        agrees(r, spec_capability_enable(input@)),
{
    let (rest, a) = atom(input)?;
    Ok((rest, CapabilityEnable::from(a)))
}

/// The rule for one enabled capability.
pub struct CapabilityEnableRule;

impl Rule for CapabilityEnableRule {
    type Out = CapabilityEnable;

    open spec fn rule(s: Seq<u8>) -> SpecResult<CapabilityEnableModel> {
        spec_capability_enable(s)
    }

    fn parse<'a>(input: &'a [u8]) -> (r: IMAPResult<'a, CapabilityEnable>) {
        capability_enable(input)
    }
}

/// `enable-data = "ENABLED" *(SP capability)`
pub open spec fn spec_enable_data(s: Seq<u8>) -> SpecResult<DataModel> {
    match spec_tag_no_case(s, kw("ENABLED")) {
        Err(e) => Err(e),
        Ok((r1, _)) => match spec_preceded0::<CapabilityEnableRule>(r1, ' ' as u8) {
            Err(e) => Err(e),
            Ok((r2, capabilities)) => Ok((r2, DataModel::Enabled { capabilities })),
        },
    }
}

/// Parses `enable-data`.
pub fn enable_data<'a>(input: &'a [u8]) -> (r: IMAPResult<'a, Data>)
    ensures
        agrees(r, spec_enable_data(input@)),
{
    let (r1, _) = tag_no_case(input, "ENABLED")?;
    let (r2, capabilities) = preceded0::<CapabilityEnableRule>(r1, ' ' as u8)?;
    Ok((r2, Data::Enabled { capabilities }))
}

/// `quota-response = "QUOTA" SP astring SP "(" quota-resource *(SP
/// quota-resource) ")"`
pub open spec fn spec_quota_response(s: Seq<u8>) -> SpecResult<DataModel> {
    match spec_tag_no_case(s, kw("QUOTA ")) {
        Err(e) => Err(e),
        Ok((r1, _)) => match spec_astring(r1) {
            Err(e) => Err(e),
            Ok((r2, root)) => match spec_sp(r2) {
                Err(e) => Err(e),
                Ok((r3, _)) => match spec_byte(r3, '(' as u8) {
                    Err(e) => Err(e),
                    Ok((r4, _)) => match spec_separated1::<QuotaResourceRule>(r4, ' ' as u8) {
                        Err(e) => Err(e),
                        Ok((r5, quotas)) => match spec_byte(r5, ')' as u8) {
                            Err(e) => Err(e),
                            Ok((r6, _)) => Ok((r6, DataModel::Quota { root, quotas })),
                        },
                    },
                },
            },
        },
    }
}

/// Parses a `quota-response`.
pub fn quota_response<'a>(input: &'a [u8]) -> (r: IMAPResult<'a, Data>)
    ensures
        agrees(r, spec_quota_response(input@)),
{
    let (r1, _) = tag_no_case(input, "QUOTA ")?;
    let (r2, root) = astring(r1)?;
    let (r3, _) = sp(r2)?;
    let (r4, _) = byte(r3, '(' as u8)?;
    let (r5, quotas) = separated1_nonempty::<QuotaResourceRule>(r4, ' ' as u8)?;
    let (r6, _) = byte(r5, ')' as u8)?;
    Ok((r6, Data::Quota { root, quotas }))
}

/// `quotaroot-response = "QUOTAROOT" SP mailbox *(SP astring)`
pub open spec fn spec_quotaroot_response(s: Seq<u8>) -> SpecResult<DataModel> {
    match spec_tag_no_case(s, kw("QUOTAROOT ")) {
        Err(e) => Err(e),
        Ok((r1, _)) => match spec_mailbox(r1) {
            Err(e) => Err(e),
            Ok((r2, mailbox)) => match spec_preceded0::<AStringRule>(r2, ' ' as u8) {
                Err(e) => Err(e),
                Ok((r3, roots)) => Ok((r3, DataModel::QuotaRoot { mailbox, roots })),
            },
        },
    }
}

/// Parses a `quotaroot-response`.
pub fn quotaroot_response<'a>(input: &'a [u8]) -> (r: IMAPResult<'a, Data>)
    ensures
        agrees(r, spec_quotaroot_response(input@)),
{
    let (r1, _) = tag_no_case(input, "QUOTAROOT ")?;
    let (r2, mailbox) = mailbox(r1)?;
    let (r3, roots) = preceded0::<AStringRule>(r2, ' ' as u8)?;
    Ok((r3, Data::QuotaRoot { mailbox, roots }))
}

} // verus!
