//! Quota resources and their use.

use crate::codec::{emit, emit_byte, Encoder};
use crate::error::{agrees, IMAPResult, SpecResult};
use crate::lex::{bytes_eq_ignore_case, eq_ignore_case, kw, put_str, sp, spec_sp};
use crate::list::Rule;
use crate::number::{number64, spec_digits, spec_number64};
use crate::strings::{atom, spec_atom, Atom};
use vstd::prelude::*;
use vstd::string::*;

verus! {

/// A resource that a quota limits.
#[derive(Debug, Clone, PartialEq, Eq, Hash)]
pub enum Resource {
    /// The sum of the sizes of the messages, in units of 1024 octets.
    Storage,
    /// The number of messages.
    Message,
    /// The number of mailboxes.
    Mailbox,
    /// The size of the annotations, in units of 1024 octets.
    AnnotationStorage,
    /// A resource that has no variant of its own.
    Other(Atom),
}

/// A resource as a mathematical value.
pub enum ResourceModel {
    Storage,
    Message,
    Mailbox,
    AnnotationStorage,
    Other(Seq<u8>),
}

impl DeepView for Resource {
    type V = ResourceModel;

    open spec fn deep_view(&self) -> ResourceModel {
        match self {
            Resource::Storage => ResourceModel::Storage,
            Resource::Message => ResourceModel::Message,
            Resource::Mailbox => ResourceModel::Mailbox,
            Resource::AnnotationStorage => ResourceModel::AnnotationStorage,
            Resource::Other(a) => ResourceModel::Other(a.deep_view()),
        }
    }
}

/// The use of one resource and its limit.
#[derive(Debug, Clone, PartialEq, Eq, Hash)]
pub struct QuotaGet {
    pub resource: Resource,
    pub usage: u64,
    pub limit: u64,
}

/// The use of a resource as a mathematical value.
pub struct QuotaGetModel {
    pub resource: ResourceModel,
    pub usage: u64,
    pub limit: u64,
}

impl DeepView for QuotaGet {
    type V = QuotaGetModel;

    open spec fn deep_view(&self) -> QuotaGetModel {
        QuotaGetModel { resource: self.resource.deep_view(), usage: self.usage, limit: self.limit }
    }
}

/// The resource that an atom names: a well-known one where the atom is its
/// name in any mix of case.
pub open spec fn spec_resource_from(a: Seq<u8>) -> ResourceModel {
    if eq_ignore_case(a, kw("STORAGE")) {
        ResourceModel::Storage
    } else if eq_ignore_case(a, kw("MESSAGE")) {
        ResourceModel::Message
    } else if eq_ignore_case(a, kw("MAILBOX")) {
        ResourceModel::Mailbox
    } else if eq_ignore_case(a, kw("ANNOTATION-STORAGE")) {
        ResourceModel::AnnotationStorage
    } else {
        ResourceModel::Other(a)
    }
}

impl Resource {
    /// The resource that `a` names.
    pub fn from(a: Atom) -> (r: Resource)
        ensures
            r.deep_view() == spec_resource_from(a.deep_view()),
    {
        let name = a.as_bytes();
        if bytes_eq_ignore_case(name, "STORAGE".as_bytes()) {
            Resource::Storage
        } else if bytes_eq_ignore_case(name, "MESSAGE".as_bytes()) {
            Resource::Message
        } else if bytes_eq_ignore_case(name, "MAILBOX".as_bytes()) {
            Resource::Mailbox
        } else if bytes_eq_ignore_case(name, "ANNOTATION-STORAGE".as_bytes()) {
            Resource::AnnotationStorage
        } else {
            Resource::Other(a)
        }
    }
}

/// `quota-resource = resource-name SP resource-usage SP resource-limit`
pub open spec fn spec_quota_resource(s: Seq<u8>) -> SpecResult<QuotaGetModel> {
    match spec_atom(s) {
        Err(e) => Err(e),
        Ok((r1, name)) => match spec_sp(r1) {
            Err(e) => Err(e),
            Ok((r2, _)) => match spec_number64(r2) {
                Err(e) => Err(e),
                Ok((r3, usage)) => match spec_sp(r3) {
                    Err(e) => Err(e),
                    Ok((r4, _)) => match spec_number64(r4) {
                        Err(e) => Err(e),
                        Ok((r5, limit)) => Ok(
                            (r5, QuotaGetModel { resource: spec_resource_from(name), usage, limit }),
                        ),
                    },
                },
            },
        },
    }
}

/// Parses a `quota-resource`.
pub fn quota_resource<'a>(input: &'a [u8]) -> (r: IMAPResult<'a, QuotaGet>)
    ensures
        agrees(r, spec_quota_resource(input@)),
{
    let (r1, name) = atom(input)?;
    let (r2, _) = sp(r1)?;
    let (r3, usage) = number64(r2)?;
    let (r4, _) = sp(r3)?;
    let (r5, limit) = number64(r4)?;
    Ok((r5, QuotaGet { resource: Resource::from(name), usage, limit }))
}

/// The rule `quota-resource`.
pub struct QuotaResourceRule;

impl Rule for QuotaResourceRule {
    type Out = QuotaGet;

    open spec fn rule(s: Seq<u8>) -> SpecResult<QuotaGetModel> {
        spec_quota_resource(s)
    }

    fn parse<'a>(input: &'a [u8]) -> (r: IMAPResult<'a, QuotaGet>) {
        quota_resource(input)
    }
}

/// A resource under its name.
pub open spec fn spec_encode_resource(r: ResourceModel) -> Seq<u8> {
    match r {
        ResourceModel::Storage => kw("STORAGE"),
        ResourceModel::Message => kw("MESSAGE"),
        ResourceModel::Mailbox => kw("MAILBOX"),
        ResourceModel::AnnotationStorage => kw("ANNOTATION-STORAGE"),
        ResourceModel::Other(a) => a,
    }
}

/// The use of a resource: name, usage and limit.
pub open spec fn spec_encode_quota_get(q: QuotaGetModel) -> Seq<u8> {
    spec_encode_resource(q.resource) + seq![' ' as u8] + spec_digits(q.usage as nat) + seq![
        ' ' as u8,
    ] + spec_digits(q.limit as nat)
}

impl Encoder for Resource {
    open spec fn wire(v: ResourceModel) -> Seq<u8> {
        spec_encode_resource(v)
    }

    fn encode_into(&self, out: &mut Vec<u8>) {
        match self {
            Resource::Storage => put_str(out, "STORAGE"),
            Resource::Message => put_str(out, "MESSAGE"),
            Resource::Mailbox => put_str(out, "MAILBOX"),
            Resource::AnnotationStorage => put_str(out, "ANNOTATION-STORAGE"),
            Resource::Other(a) => a.encode_into(out),
        }
    }
}

impl Encoder for QuotaGet {
    open spec fn wire(v: QuotaGetModel) -> Seq<u8> {
        spec_encode_quota_get(v)
    }

    fn encode_into(&self, out: &mut Vec<u8>) {
        let s = Ghost(out@);
        self.resource.encode_into(out);
        let d = Ghost(spec_encode_resource(self.resource.deep_view()));
        let d = emit_byte(' ' as u8, out, s, d);
        let d = emit(&self.usage, out, s, d);
        let d = emit_byte(' ' as u8, out, s, d);
        let d = emit(&self.limit, out, s, d);
    }
}

} // verus!
