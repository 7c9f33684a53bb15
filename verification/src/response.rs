//! Server responses: greeting, status, data and continuation requests, with
//! the response codes and capabilities that they carry.

use crate::auth::{spec_auth_mechanism_from, spec_encode_auth_mechanism, AuthMechanism, AuthMechanismModel};
use crate::codec::{appended, emit, emit_byte, emit_str, Encoder};
use crate::error::{agrees, error, spec_or, IMAPResult, ParseError, SpecResult};
use crate::fetch::{FetchAttributeValue, FetchAttributeValueModel};
use crate::flag::{
    Flag, FlagModel, FlagNameAttribute, FlagNameAttributeModel, FlagPerm, FlagPermModel,
    FlagPermRule,
};
use crate::lex::{
    byte, bytes_eq_ignore_case, crlf, eq_ignore_case, kw, put, put_byte, put_str, skip, sp,
    spec_byte, spec_crlf, spec_sp, spec_tag_no_case, spec_take_while, tag_no_case, take,
    take_while, CharClass, Quirks,
};
use crate::list::{
    encode_joined, encode_joined_nonempty, separated0, separated1, separated1_nonempty,
    spec_separated0, spec_separated1, spec_wire_joined, Rule,
};
use crate::mailbox::{Mailbox, MailboxModel};
use crate::number::{nz_number, spec_digits, spec_nz_number, NzNumber};
use crate::quota::{QuotaGet, QuotaGetModel};
use crate::status::{StatusDataItem, StatusDataItemModel};
use crate::strings::{
    atom, is_atom, spec_atom, spec_placeholder_text, spec_text, text, AString, AStringModel, Atom, Charset, CharsetModel,
    CharsetRule, NonEmptyVec, QuotedChar, Tag, Text,
};
use vstd::prelude::*;
use vstd::slice::*;
use vstd::string::*;

verus! {

/// A compression algorithm.
#[derive(Debug, Clone, Copy, PartialEq, Eq, Hash, Structural)]
pub enum CompressionAlgorithm {
    Deflate,
}

/// What a server is able to do.
#[derive(Debug, Clone, PartialEq, Eq, Hash)]
pub enum Capability {
    Imap4Rev1,
    /// `AUTH=` and a mechanism.
    Auth(AuthMechanism),
    LoginDisabled,
    StartTls,
    Idle,
    MailboxReferrals,
    LoginReferrals,
    SaslIr,
    Enable,
    /// `COMPRESS=` and an algorithm.
    Compress(CompressionAlgorithm),
    Quota,
    QuotaSet,
    LiteralPlus,
    LiteralMinus,
    Move,
    Id,
    Unselect,
    /// A capability that has no variant of its own.
    Other(Atom),
}

/// A capability as a mathematical value.
pub enum CapabilityModel {
    Imap4Rev1,
    Auth(AuthMechanismModel),
    LoginDisabled,
    StartTls,
    Idle,
    MailboxReferrals,
    LoginReferrals,
    SaslIr,
    Enable,
    Compress(CompressionAlgorithm),
    Quota,
    QuotaSet,
    LiteralPlus,
    LiteralMinus,
    Move,
    Id,
    Unselect,
    Other(Seq<u8>),
}

impl DeepView for Capability {
    type V = CapabilityModel;

    open spec fn deep_view(&self) -> CapabilityModel {
        match self {
            Capability::Imap4Rev1 => CapabilityModel::Imap4Rev1,
            Capability::Auth(m) => CapabilityModel::Auth(m.deep_view()),
            Capability::LoginDisabled => CapabilityModel::LoginDisabled,
            Capability::StartTls => CapabilityModel::StartTls,
            Capability::Idle => CapabilityModel::Idle,
            Capability::MailboxReferrals => CapabilityModel::MailboxReferrals,
            Capability::LoginReferrals => CapabilityModel::LoginReferrals,
            Capability::SaslIr => CapabilityModel::SaslIr,
            Capability::Enable => CapabilityModel::Enable,
            Capability::Compress(a) => CapabilityModel::Compress(*a),
            Capability::Quota => CapabilityModel::Quota,
            Capability::QuotaSet => CapabilityModel::QuotaSet,
            Capability::LiteralPlus => CapabilityModel::LiteralPlus,
            Capability::LiteralMinus => CapabilityModel::LiteralMinus,
            Capability::Move => CapabilityModel::Move,
            Capability::Id => CapabilityModel::Id,
            Capability::Unselect => CapabilityModel::Unselect,
            Capability::Other(a) => CapabilityModel::Other(a.deep_view()),
        }
    }
}

/// The capability that an atom names when it is one of the plain names, in
/// any mix of case.
pub open spec fn spec_plain_capability(a: Seq<u8>) -> Option<CapabilityModel> {
    if eq_ignore_case(a, kw("IMAP4REV1")) {
        Some(CapabilityModel::Imap4Rev1)
    } else if eq_ignore_case(a, kw("LOGINDISABLED")) {
        Some(CapabilityModel::LoginDisabled)
    } else if eq_ignore_case(a, kw("STARTTLS")) {
        Some(CapabilityModel::StartTls)
    } else if eq_ignore_case(a, kw("IDLE")) {
        Some(CapabilityModel::Idle)
    } else if eq_ignore_case(a, kw("MAILBOX-REFERRALS")) {
        Some(CapabilityModel::MailboxReferrals)
    } else if eq_ignore_case(a, kw("LOGIN-REFERRALS")) {
        Some(CapabilityModel::LoginReferrals)
    } else if eq_ignore_case(a, kw("SASL-IR")) {
        Some(CapabilityModel::SaslIr)
    } else if eq_ignore_case(a, kw("ENABLE")) {
        Some(CapabilityModel::Enable)
    } else if eq_ignore_case(a, kw("COMPRESS=DEFLATE")) {
        Some(CapabilityModel::Compress(CompressionAlgorithm::Deflate))
    } else {
        spec_plain_capability_more(a)
    }
}

/// The rest of the plain names.
pub open spec fn spec_plain_capability_more(a: Seq<u8>) -> Option<CapabilityModel> {
    if eq_ignore_case(a, kw("QUOTA")) {
        Some(CapabilityModel::Quota)
    } else if eq_ignore_case(a, kw("QUOTASET")) {
        Some(CapabilityModel::QuotaSet)
    } else if eq_ignore_case(a, kw("LITERAL+")) {
        Some(CapabilityModel::LiteralPlus)
    } else if eq_ignore_case(a, kw("LITERAL-")) {
        Some(CapabilityModel::LiteralMinus)
    } else if eq_ignore_case(a, kw("MOVE")) {
        Some(CapabilityModel::Move)
    } else if eq_ignore_case(a, kw("ID")) {
        Some(CapabilityModel::Id)
    } else if eq_ignore_case(a, kw("UNSELECT")) {
        Some(CapabilityModel::Unselect)
    } else {
        None
    }
}

/// The capability that an atom names: one of the plain names, `AUTH=` and
/// a mechanism, or the atom as it is.
pub open spec fn spec_capability_from(a: Seq<u8>) -> CapabilityModel {
    match spec_plain_capability(a) {
        Some(c) => c,
        None => if a.len() > 5 && eq_ignore_case(a.take(5), kw("AUTH=")) && is_atom(a.skip(5)) {
            CapabilityModel::Auth(spec_auth_mechanism_from(a.skip(5)))
        } else {
            CapabilityModel::Other(a)
        },
    }
}

impl Capability {
    /// The capability that `name` names if it is one of the plain names.
    pub fn plain(name: &[u8]) -> (r: Option<Capability>)
        ensures
            r.deep_view() == spec_plain_capability(name@),
    {
        if bytes_eq_ignore_case(name, "IMAP4REV1".as_bytes()) {
            Some(Capability::Imap4Rev1)
        } else if bytes_eq_ignore_case(name, "LOGINDISABLED".as_bytes()) {
            Some(Capability::LoginDisabled)
        } else if bytes_eq_ignore_case(name, "STARTTLS".as_bytes()) {
            Some(Capability::StartTls)
        } else if bytes_eq_ignore_case(name, "IDLE".as_bytes()) {
            Some(Capability::Idle)
        } else if bytes_eq_ignore_case(name, "MAILBOX-REFERRALS".as_bytes()) {
            Some(Capability::MailboxReferrals)
        } else if bytes_eq_ignore_case(name, "LOGIN-REFERRALS".as_bytes()) {
            Some(Capability::LoginReferrals)
        } else if bytes_eq_ignore_case(name, "SASL-IR".as_bytes()) {
            Some(Capability::SaslIr)
        } else if bytes_eq_ignore_case(name, "ENABLE".as_bytes()) {
            Some(Capability::Enable)
        } else if bytes_eq_ignore_case(name, "COMPRESS=DEFLATE".as_bytes()) {
            Some(Capability::Compress(CompressionAlgorithm::Deflate))
        } else {
            Capability::plain_more(name)
        }
    }

    /// The capability that `name` names if it is one of the remaining plain
    /// names.
    pub fn plain_more(name: &[u8]) -> (r: Option<Capability>)
        ensures
            r.deep_view() == spec_plain_capability_more(name@),
    {
        if bytes_eq_ignore_case(name, "QUOTA".as_bytes()) {
            Some(Capability::Quota)
        } else if bytes_eq_ignore_case(name, "QUOTASET".as_bytes()) {
            Some(Capability::QuotaSet)
        } else if bytes_eq_ignore_case(name, "LITERAL+".as_bytes()) {
            Some(Capability::LiteralPlus)
        } else if bytes_eq_ignore_case(name, "LITERAL-".as_bytes()) {
            Some(Capability::LiteralMinus)
        } else if bytes_eq_ignore_case(name, "MOVE".as_bytes()) {
            Some(Capability::Move)
        } else if bytes_eq_ignore_case(name, "ID".as_bytes()) {
            Some(Capability::Id)
        } else if bytes_eq_ignore_case(name, "UNSELECT".as_bytes()) {
            Some(Capability::Unselect)
        } else {
            None
        }
    }

    /// The capability that `a` names.
    pub fn from(a: Atom) -> (r: Capability)
        ensures
            r.deep_view() == spec_capability_from(a.deep_view()),
    {
        let name = a.as_bytes();
        match Capability::plain(name) {
            Some(c) => c,
            None => {
                if name.len() > 5 && bytes_eq_ignore_case(take(name, 5), "AUTH=".as_bytes()) {
                    match AuthMechanism::try_from(skip(name, 5)) {
                        Ok(m) => Capability::Auth(m),
                        Err(_) => Capability::Other(a),
                    }
                } else {
                    Capability::Other(a)
                }
            },
        }
    }
}

/// `capability = ("AUTH=" auth-type) / "COMPRESS=" algorithm / atom`
pub open spec fn spec_capability(s: Seq<u8>) -> SpecResult<CapabilityModel> {
    match spec_atom(s) {
        Err(e) => Err(e),
        Ok((rest, a)) => Ok((rest, spec_capability_from(a))),
    }
}

/// Parses a `capability`.
pub fn capability<'a>(input: &'a [u8]) -> (r: IMAPResult<'a, Capability>)
    ensures
        agrees(r, spec_capability(input@)),
{
    let (rest, a) = atom(input)?;
    Ok((rest, Capability::from(a)))
}

/// The rule `capability`.
pub struct CapabilityRule;

impl Rule for CapabilityRule {
    type Out = Capability;

    open spec fn rule(s: Seq<u8>) -> SpecResult<CapabilityModel> {
        spec_capability(s)
    }

    fn parse<'a>(input: &'a [u8]) -> (r: IMAPResult<'a, Capability>) {
        capability(input)
    }
}

/// `capability-data = "CAPABILITY" 1*(SP capability)`: one or more
/// capabilities behind the keyword.
pub open spec fn spec_capability_data(s: Seq<u8>) -> SpecResult<Seq<CapabilityModel>> {
    match spec_tag_no_case(s, kw("CAPABILITY")) {
        Err(e) => Err(e),
        Ok((r1, _)) => match spec_sp(r1) {
            Err(e) => Err(e),
            Ok((r2, _)) => spec_separated1::<CapabilityRule>(r2, ' ' as u8),
        },
    }
}

/// Parses `capability-data`.
pub fn capability_data<'a>(input: &'a [u8]) -> (r: IMAPResult<'a, NonEmptyVec<Capability>>)
    ensures
        agrees(r, spec_capability_data(input@)),
{
    let (r1, _) = tag_no_case(input, "CAPABILITY")?;
    let (r2, _) = sp(r1)?;
    separated1_nonempty::<CapabilityRule>(r2, ' ' as u8)
}

/// A capability under its canonical name, in upper case.
pub open spec fn spec_encode_capability(c: CapabilityModel) -> Seq<u8> {
    match c {
        CapabilityModel::Imap4Rev1 => kw("IMAP4REV1"),
        CapabilityModel::Auth(m) => kw("AUTH=") + spec_encode_auth_mechanism(m),
        CapabilityModel::LoginDisabled => kw("LOGINDISABLED"),
        CapabilityModel::StartTls => kw("STARTTLS"),
        CapabilityModel::Idle => kw("IDLE"),
        CapabilityModel::MailboxReferrals => kw("MAILBOX-REFERRALS"),
        CapabilityModel::LoginReferrals => kw("LOGIN-REFERRALS"),
        CapabilityModel::SaslIr => kw("SASL-IR"),
        CapabilityModel::Enable => kw("ENABLE"),
        CapabilityModel::Compress(CompressionAlgorithm::Deflate) => kw("COMPRESS=DEFLATE"),
        CapabilityModel::Quota => kw("QUOTA"),
        CapabilityModel::QuotaSet => kw("QUOTASET"),
        CapabilityModel::LiteralPlus => kw("LITERAL+"),
        CapabilityModel::LiteralMinus => kw("LITERAL-"),
        CapabilityModel::Move => kw("MOVE"),
        CapabilityModel::Id => kw("ID"),
        CapabilityModel::Unselect => kw("UNSELECT"),
        CapabilityModel::Other(a) => a,
    }
}

/// `CAPABILITY` and the capabilities, separated by spaces.
pub open spec fn spec_encode_capability_data(caps: Seq<CapabilityModel>) -> Seq<u8> {
    kw("CAPABILITY ") + spec_wire_joined::<Capability>(caps, ' ' as u8)
}

impl Encoder for Capability {
    open spec fn wire(v: CapabilityModel) -> Seq<u8> {
        spec_encode_capability(v)
    }

    fn encode_into(&self, out: &mut Vec<u8>) {
        match self {
            Capability::Imap4Rev1 => put_str(out, "IMAP4REV1"),
            Capability::Auth(m) => {
                put_str(out, "AUTH=");
                m.encode_into(out);
            },
            Capability::LoginDisabled => put_str(out, "LOGINDISABLED"),
            Capability::StartTls => put_str(out, "STARTTLS"),
            Capability::Idle => put_str(out, "IDLE"),
            Capability::MailboxReferrals => put_str(out, "MAILBOX-REFERRALS"),
            Capability::LoginReferrals => put_str(out, "LOGIN-REFERRALS"),
            Capability::SaslIr => put_str(out, "SASL-IR"),
            Capability::Enable => put_str(out, "ENABLE"),
            Capability::Compress(CompressionAlgorithm::Deflate) => put_str(
                out,
                "COMPRESS=DEFLATE",
            ),
            Capability::Quota => put_str(out, "QUOTA"),
            Capability::QuotaSet => put_str(out, "QUOTASET"),
            Capability::LiteralPlus => put_str(out, "LITERAL+"),
            Capability::LiteralMinus => put_str(out, "LITERAL-"),
            Capability::Move => put_str(out, "MOVE"),
            Capability::Id => put_str(out, "ID"),
            Capability::Unselect => put_str(out, "UNSELECT"),
            Capability::Other(a) => a.encode_into(out),
        }
    }
}

/// Appends `CAPABILITY` and the capabilities.
pub fn encode_capability_data(caps: &NonEmptyVec<Capability>, out: &mut Vec<u8>)
    ensures
        final(out)@ == old(out)@ + spec_encode_capability_data(caps.deep_view()),
{
    let ghost start = out@;
    put_str(out, "CAPABILITY ");
    encode_joined_nonempty::<Capability>(caps, ' ' as u8, out);
    assert(out@ =~= start + spec_encode_capability_data(caps.deep_view()));
}

} // verus!

verus! {

/// A response code: what stands in brackets at the head of a response
/// text.
#[derive(Debug, Clone, PartialEq, Eq, Hash)]
pub enum Code {
    Alert,
    BadCharset { allowed: Vec<Charset> },
    Capability(NonEmptyVec<Capability>),
    Parse,
    PermanentFlags(Vec<FlagPerm>),
    ReadOnly,
    ReadWrite,
    TryCreate,
    UidNext(NzNumber),
    UidValidity(NzNumber),
    Unseen(NzNumber),
    CompressionActive,
    OverQuota,
    TooBig,
    /// The bytes between the brackets, where they are no code that has a
    /// variant of its own.
    Other(Vec<u8>),
}

/// A response code as a mathematical value.
pub enum CodeModel {
    Alert,
    BadCharset { allowed: Seq<CharsetModel> },
    Capability(Seq<CapabilityModel>),
    Parse,
    PermanentFlags(Seq<FlagPermModel>),
    ReadOnly,
    ReadWrite,
    TryCreate,
    UidNext(u32),
    UidValidity(u32),
    Unseen(u32),
    CompressionActive,
    OverQuota,
    TooBig,
    Other(Seq<u8>),
}

impl DeepView for Code {
    type V = CodeModel;

    open spec fn deep_view(&self) -> CodeModel {
        match self {
            Code::Alert => CodeModel::Alert,
            Code::BadCharset { allowed } => CodeModel::BadCharset { allowed: allowed.deep_view() },
            Code::Capability(c) => CodeModel::Capability(c.deep_view()),
            Code::Parse => CodeModel::Parse,
            Code::PermanentFlags(f) => CodeModel::PermanentFlags(f.deep_view()),
            Code::ReadOnly => CodeModel::ReadOnly,
            Code::ReadWrite => CodeModel::ReadWrite,
            Code::TryCreate => CodeModel::TryCreate,
            Code::UidNext(n) => CodeModel::UidNext(n.deep_view()),
            Code::UidValidity(n) => CodeModel::UidValidity(n.deep_view()),
            Code::Unseen(n) => CodeModel::Unseen(n.deep_view()),
            Code::CompressionActive => CodeModel::CompressionActive,
            Code::OverQuota => CodeModel::OverQuota,
            Code::TooBig => CodeModel::TooBig,
            Code::Other(b) => CodeModel::Other(b@),
        }
    }
}

/// A code that is a keyword and nothing else.
pub open spec fn spec_code_word(s: Seq<u8>, word: Seq<u8>, code: CodeModel) -> SpecResult<
    CodeModel,
> {
    match spec_tag_no_case(s, word) {
        Err(e) => Err(e),
        Ok((rest, _)) => Ok((rest, code)),
    }
}

/// `SP "(" charset *(SP charset) ")"`
pub open spec fn spec_charset_list(s: Seq<u8>) -> SpecResult<Seq<CharsetModel>> {
    match spec_sp(s) {
        Err(e) => Err(e),
        Ok((r1, _)) => match spec_byte(r1, '(' as u8) {
            Err(e) => Err(e),
            Ok((r2, _)) => match spec_separated1::<CharsetRule>(r2, ' ' as u8) {
                Err(e) => Err(e),
                Ok((r3, list)) => match spec_byte(r3, ')' as u8) {
                    Err(e) => Err(e),
                    Ok((r4, _)) => Ok((r4, list)),
                },
            },
        },
    }
}

/// `"BADCHARSET" [SP "(" charset *(SP charset) ")"]`
pub open spec fn spec_code_badcharset(s: Seq<u8>) -> SpecResult<CodeModel> {
    match spec_tag_no_case(s, kw("BADCHARSET")) {
        Err(e) => Err(e),
        Ok((r1, _)) => match spec_charset_list(r1) {
            Ok((r2, allowed)) => Ok((r2, CodeModel::BadCharset { allowed })),
            Err(ParseError::Error(_)) => Ok((r1, CodeModel::BadCharset { allowed: Seq::empty() })),
            Err(e) => Err(e),
        },
    }
}

/// `capability-data` as a code.
pub open spec fn spec_code_capability(s: Seq<u8>) -> SpecResult<CodeModel> {
    match spec_capability_data(s) {
        Err(e) => Err(e),
        Ok((rest, caps)) => Ok((rest, CodeModel::Capability(caps))),
    }
}

/// `"PERMANENTFLAGS" SP "(" [flag-perm *(SP flag-perm)] ")"`
pub open spec fn spec_code_permanentflags(s: Seq<u8>) -> SpecResult<CodeModel> {
    match spec_tag_no_case(s, kw("PERMANENTFLAGS")) {
        Err(e) => Err(e),
        Ok((r1, _)) => match spec_sp(r1) {
            Err(e) => Err(e),
            Ok((r2, _)) => match spec_byte(r2, '(' as u8) {
                Err(e) => Err(e),
                Ok((r3, _)) => match spec_separated0::<FlagPermRule>(r3, ' ' as u8) {
                    Err(e) => Err(e),
                    Ok((r4, flags)) => match spec_byte(r4, ')' as u8) {
                        Err(e) => Err(e),
                        Ok((r5, _)) => Ok((r5, CodeModel::PermanentFlags(flags))),
                    },
                },
            },
        },
    }
}

/// A keyword, a space and a number that is not zero.
pub open spec fn spec_code_number(s: Seq<u8>, word: Seq<u8>) -> SpecResult<u32> {
    match spec_tag_no_case(s, word) {
        Err(e) => Err(e),
        Ok((r1, _)) => match spec_sp(r1) {
            Err(e) => Err(e),
            Ok((r2, _)) => spec_nz_number(r2),
        },
    }
}

/// `"UIDNEXT" SP nz-number`
pub open spec fn spec_code_uidnext(s: Seq<u8>) -> SpecResult<CodeModel> {
    match spec_code_number(s, kw("UIDNEXT")) {
        Err(e) => Err(e),
        Ok((rest, n)) => Ok((rest, CodeModel::UidNext(n))),
    }
}

/// `"UIDVALIDITY" SP nz-number`
pub open spec fn spec_code_uidvalidity(s: Seq<u8>) -> SpecResult<CodeModel> {
    match spec_code_number(s, kw("UIDVALIDITY")) {
        Err(e) => Err(e),
        Ok((rest, n)) => Ok((rest, CodeModel::UidValidity(n))),
    }
}

/// `"UNSEEN" SP nz-number`
pub open spec fn spec_code_unseen(s: Seq<u8>) -> SpecResult<CodeModel> {
    match spec_code_number(s, kw("UNSEEN")) {
        Err(e) => Err(e),
        Ok((rest, n)) => Ok((rest, CodeModel::Unseen(n))),
    }
}

/// The codes that carry data.
pub open spec fn spec_code_with_data(s: Seq<u8>) -> SpecResult<CodeModel> {
    spec_or(
        spec_code_uidnext(s),
        spec_or(spec_code_uidvalidity(s), spec_code_unseen(s)),
    )
}

/// The codes that are a keyword and nothing else, but for the first four.
pub open spec fn spec_code_plain(s: Seq<u8>) -> SpecResult<CodeModel> {
    spec_or(
        spec_code_word(s, kw("READ-ONLY"), CodeModel::ReadOnly),
        spec_or(
            spec_code_word(s, kw("READ-WRITE"), CodeModel::ReadWrite),
            spec_code_word(s, kw("TRYCREATE"), CodeModel::TryCreate),
        ),
    )
}

/// The codes of extensions.
pub open spec fn spec_code_extension(s: Seq<u8>) -> SpecResult<CodeModel> {
    spec_or(
        spec_code_word(s, kw("COMPRESSIONACTIVE"), CodeModel::CompressionActive),
        spec_or(
            spec_code_word(s, kw("OVERQUOTA"), CodeModel::OverQuota),
            spec_code_word(s, kw("TOOBIG"), CodeModel::TooBig),
        ),
    )
}

/// `resp-text-code = "ALERT" / "BADCHARSET" [SP "(" charset *(SP charset)
/// ")"] / capability-data / "PARSE" / "PERMANENTFLAGS" SP "(" [flag-perm
/// *(SP flag-perm)] ")" / "READ-ONLY" / "READ-WRITE" / "TRYCREATE" /
/// "UIDNEXT" SP nz-number / "UIDVALIDITY" SP nz-number / "UNSEEN" SP
/// nz-number / "COMPRESSIONACTIVE" / "OVERQUOTA" / "TOOBIG"`: the codes that
/// have a variant of their own, tried in this order.
#[verifier::opaque]
pub open spec fn spec_resp_text_code(s: Seq<u8>) -> SpecResult<CodeModel> {
    spec_or(
        spec_code_word(s, kw("ALERT"), CodeModel::Alert),
        spec_or(
            spec_code_badcharset(s),
            spec_or(
                spec_code_capability(s),
                spec_or(
                    spec_code_word(s, kw("PARSE"), CodeModel::Parse),
                    spec_or(
                        spec_code_permanentflags(s),
                        spec_or(
                            spec_code_plain(s),
                            spec_or(spec_code_with_data(s), spec_code_extension(s)),
                        ),
                    ),
                ),
            ),
        ),
    )
}

/// Parses a code that is the keyword `word` and nothing else.
pub fn code_word<'a>(input: &'a [u8], word: &str, code: Code) -> (r: IMAPResult<'a, Code>)
    ensures
        agrees(r, spec_code_word(input@, kw(word), code.deep_view())),
{
    let (rest, _) = tag_no_case(input, word)?;
    Ok((rest, code))
}

/// Parses `SP "(" charset *(SP charset) ")"`.
pub fn charset_list<'a>(input: &'a [u8]) -> (r: IMAPResult<'a, Vec<Charset>>)
    ensures
        agrees(r, spec_charset_list(input@)),
{
    let (r1, _) = sp(input)?;
    let (r2, _) = byte(r1, '(' as u8)?;
    let (r3, list) = separated1::<CharsetRule>(r2, ' ' as u8)?;
    let (r4, _) = byte(r3, ')' as u8)?;
    Ok((r4, list))
}

/// Parses the code `BADCHARSET`.
pub fn code_badcharset<'a>(input: &'a [u8]) -> (r: IMAPResult<'a, Code>)
    ensures
        agrees(r, spec_code_badcharset(input@)),
{
    let (r1, _) = tag_no_case(input, "BADCHARSET")?;
    match charset_list(r1) {
        Ok((r2, allowed)) => Ok((r2, Code::BadCharset { allowed })),
        Err(ParseError::Error(_)) => {
            let allowed: Vec<Charset> = Vec::new();
            assert(allowed.deep_view() =~= Seq::empty());
            Ok((r1, Code::BadCharset { allowed }))
        },
        Err(e) => Err(e),
    }
}

/// Parses `capability-data` as a code.
pub fn code_capability<'a>(input: &'a [u8]) -> (r: IMAPResult<'a, Code>)
    ensures
        agrees(r, spec_code_capability(input@)),
{
    let (rest, caps) = capability_data(input)?;
    Ok((rest, Code::Capability(caps)))
}

/// Parses the code `PERMANENTFLAGS`.
pub fn code_permanentflags<'a>(input: &'a [u8]) -> (r: IMAPResult<'a, Code>)
    ensures
        agrees(r, spec_code_permanentflags(input@)),
{
    let (r1, _) = tag_no_case(input, "PERMANENTFLAGS")?;
    let (r2, _) = sp(r1)?;
    let (r3, _) = byte(r2, '(' as u8)?;
    let (r4, flags) = separated0::<FlagPermRule>(r3, ' ' as u8)?;
    let (r5, _) = byte(r4, ')' as u8)?;
    Ok((r5, Code::PermanentFlags(flags)))
}

/// Parses the keyword `word`, a space and a number that is not zero.
pub fn code_number<'a>(input: &'a [u8], word: &str) -> (r: IMAPResult<'a, NzNumber>)
    ensures
        agrees(r, spec_code_number(input@, kw(word))),
{
    let (r1, _) = tag_no_case(input, word)?;
    let (r2, _) = sp(r1)?;
    nz_number(r2)
}

/// Parses the codes that carry a number.
pub fn code_with_data<'a>(input: &'a [u8]) -> (r: IMAPResult<'a, Code>)
    ensures
        agrees(r, spec_code_with_data(input@)),
{
    match code_number(input, "UIDNEXT") {
        Ok((rest, n)) => Ok((rest, Code::UidNext(n))),
        Err(ParseError::Error(_)) => match code_number(input, "UIDVALIDITY") {
            Ok((rest, n)) => Ok((rest, Code::UidValidity(n))),
            Err(ParseError::Error(_)) => match code_number(input, "UNSEEN") {
                Ok((rest, n)) => Ok((rest, Code::Unseen(n))),
                Err(e) => Err(e),
            },
            Err(e) => Err(e),
        },
        Err(e) => Err(e),
    }
}

/// Parses `READ-ONLY`, `READ-WRITE` or `TRYCREATE`.
pub fn code_plain<'a>(input: &'a [u8]) -> (r: IMAPResult<'a, Code>)
    ensures
        agrees(r, spec_code_plain(input@)),
{
    match code_word(input, "READ-ONLY", Code::ReadOnly) {
        Err(ParseError::Error(_)) => match code_word(input, "READ-WRITE", Code::ReadWrite) {
            Err(ParseError::Error(_)) => code_word(input, "TRYCREATE", Code::TryCreate),
            r => r,
        },
        r => r,
    }
}

/// Parses the codes of extensions.
pub fn code_extension<'a>(input: &'a [u8]) -> (r: IMAPResult<'a, Code>)
    ensures
        agrees(r, spec_code_extension(input@)),
{
    match code_word(input, "COMPRESSIONACTIVE", Code::CompressionActive) {
        Err(ParseError::Error(_)) => match code_word(input, "OVERQUOTA", Code::OverQuota) {
            Err(ParseError::Error(_)) => code_word(input, "TOOBIG", Code::TooBig),
            r => r,
        },
        r => r,
    }
}

/// Parses a `resp-text-code`.
pub fn resp_text_code<'a>(input: &'a [u8]) -> (r: IMAPResult<'a, Code>)
    ensures
        agrees(r, spec_resp_text_code(input@)),
{
    reveal(spec_resp_text_code);
    match code_word(input, "ALERT", Code::Alert) {
        Err(ParseError::Error(_)) => match code_badcharset(input) {
            Err(ParseError::Error(_)) => match code_capability(input) {
                Err(ParseError::Error(_)) => match code_word(input, "PARSE", Code::Parse) {
                    Err(ParseError::Error(_)) => match code_permanentflags(input) {
                        Err(ParseError::Error(_)) => match code_plain(input) {
                            Err(ParseError::Error(_)) => match code_with_data(input) {
                                Err(ParseError::Error(_)) => code_extension(input),
                                r => r,
                            },
                            r => r,
                        },
                        r => r,
                    },
                    r => r,
                },
                r => r,
            },
            r => r,
        },
        r => r,
    }
}

/// A code that has a variant of its own, with the closing bracket.
pub open spec fn spec_known_code(s: Seq<u8>) -> SpecResult<CodeModel> {
    match spec_resp_text_code(s) {
        Err(e) => Err(e),
        Ok((r1, code)) => match spec_byte(r1, ']' as u8) {
            Err(e) => Err(e),
            Ok((r2, _)) => Ok((r2, code)),
        },
    }
}

/// Any bytes up to the closing bracket, as a code without a variant of its
/// own.
pub open spec fn spec_other_code(s: Seq<u8>) -> SpecResult<CodeModel> {
    match spec_take_while(s, CharClass::Bracketed) {
        Err(e) => Err(e),
        Ok((r1, raw)) => match spec_byte(r1, ']' as u8) {
            Err(e) => Err(e),
            Ok((r2, _)) => Ok((r2, CodeModel::Other(raw))),
        },
    }
}

/// What follows the opening bracket: a code and the closing bracket. The
/// bytes between the brackets are kept as they are where they are no code
/// that has a variant of its own.
pub open spec fn spec_bracketed_code(s: Seq<u8>) -> SpecResult<CodeModel> {
    spec_or(spec_known_code(s), spec_other_code(s))
}

/// `SP text`
pub open spec fn spec_sp_text(s: Seq<u8>) -> SpecResult<Seq<u8>> {
    match spec_sp(s) {
        Err(e) => Err(e),
        Ok((rest, _)) => spec_text(rest),
    }
}

/// The text behind a code: `SP text`. With the quirk for a missing text,
/// `"..."` is supplied where the line ends right behind the code; the end
/// of the line is looked at, not consumed.
pub open spec fn spec_text_after_code(s: Seq<u8>, quirks: Quirks) -> SpecResult<Seq<u8>> {
    match spec_sp_text(s) {
        Err(ParseError::Error(e)) => if quirks.missing_text {
            match spec_crlf(s, quirks.crlf_relaxed) {
                Err(e2) => Err(e2),
                Ok(_) => Ok((s, spec_placeholder_text())),
            }
        } else {
            Err(ParseError::Error(e))
        },
        r => r,
    }
}

/// `resp-text = ["[" resp-text-code "]" SP] text`: where the input begins
/// with a bracket, a code must follow.
pub open spec fn spec_resp_text(s: Seq<u8>, quirks: Quirks) -> SpecResult<
    (Option<CodeModel>, Seq<u8>),
> {
    match spec_byte(s, '[' as u8) {
        Ok((r1, _)) => match spec_bracketed_code(r1) {
            Err(e) => Err(e),
            Ok((r2, code)) => match spec_text_after_code(r2, quirks) {
                Err(e) => Err(e),
                Ok((r3, t)) => Ok((r3, (Some(code), t))),
            },
        },
        Err(ParseError::Error(_)) => match spec_text(s) {
            Err(e) => Err(e),
            Ok((rest, t)) => Ok((rest, (None, t))),
        },
        Err(e) => Err(e),
    }
}

/// Parses a code that has a variant of its own, with the closing bracket.
pub fn known_code<'a>(input: &'a [u8]) -> (r: IMAPResult<'a, Code>)
    ensures
        agrees(r, spec_known_code(input@)),
{
    let (r1, code) = resp_text_code(input)?;
    let (r2, _) = byte(r1, ']' as u8)?;
    Ok((r2, code))
}

/// Parses any bytes up to the closing bracket.
pub fn other_code<'a>(input: &'a [u8]) -> (r: IMAPResult<'a, Code>)
    ensures
        agrees(r, spec_other_code(input@)),
{
    let (r1, raw) = take_while(input, CharClass::Bracketed)?;
    let (r2, _) = byte(r1, ']' as u8)?;
    Ok((r2, Code::Other(slice_to_vec(raw))))
}

/// Parses a code and the closing bracket.
pub fn bracketed_code<'a>(input: &'a [u8]) -> (r: IMAPResult<'a, Code>)
    ensures
        agrees(r, spec_bracketed_code(input@)),
{
    match known_code(input) {
        Err(ParseError::Error(_)) => other_code(input),
        r => r,
    }
}

/// Parses `SP text`.
pub fn sp_text<'a>(input: &'a [u8]) -> (r: IMAPResult<'a, Text>)
    ensures
        agrees(r, spec_sp_text(input@)),
{
    let (rest, _) = sp(input)?;
    text(rest)
}

/// Parses the text behind a code.
pub fn text_after_code<'a>(input: &'a [u8], quirks: Quirks) -> (r: IMAPResult<'a, Text>)
    ensures
        agrees(r, spec_text_after_code(input@, quirks)),
{
    match sp_text(input) {
        Err(ParseError::Error(e)) => if quirks.missing_text {
            match crlf(input, quirks.crlf_relaxed) {
                Err(e2) => Err(e2),
                Ok(_) => Ok((input, Text::placeholder())),
            }
        } else {
            Err(ParseError::Error(e))
        },
        r => r,
    }
}

/// Parses a `resp-text`.
pub fn resp_text<'a>(input: &'a [u8], quirks: Quirks) -> (r: IMAPResult<'a, (Option<Code>, Text)>)
    ensures
        agrees(r, spec_resp_text(input@, quirks)),
{
    match byte(input, '[' as u8) {
        Ok((r1, _)) => {
            let (r2, code) = bracketed_code(r1)?;
            let (r3, t) = text_after_code(r2, quirks)?;
            Ok((r3, (Some(code), t)))
        },
        Err(ParseError::Error(_)) => {
            let (rest, t) = text(input)?;
            Ok((rest, (None, t)))
        },
        Err(e) => Err(e),
    }
}

} // verus!

verus! {

/// The three kinds of greeting.
#[derive(Debug, Clone, Copy, PartialEq, Eq, Hash, Structural)]
pub enum GreetingKind {
    /// `OK`: the connection is not yet authenticated.
    Okay,
    /// The connection is already authenticated.
    PreAuth,
    /// The server refuses the connection.
    Bye,
}

impl DeepView for GreetingKind {
    type V = GreetingKind;

    open spec fn deep_view(&self) -> GreetingKind {
        *self
    }
}

/// The first message of a server.
#[derive(Debug, Clone, PartialEq, Eq, Hash)]
pub struct Greeting {
    pub kind: GreetingKind,
    pub code: Option<Code>,
    pub text: Text,
}

/// A greeting as a mathematical value.
pub struct GreetingModel {
    pub kind: GreetingKind,
    pub code: Option<CodeModel>,
    pub text: Seq<u8>,
}

impl DeepView for Greeting {
    type V = GreetingModel;

    open spec fn deep_view(&self) -> GreetingModel {
        GreetingModel {
            kind: self.kind,
            code: self.code.deep_view(),
            text: self.text.deep_view(),
        }
    }
}

/// The three conditions that a command can end in.
#[derive(Debug, Clone, Copy, PartialEq, Eq, Hash, Structural)]
pub enum StatusKind {
    /// `OK`
    Okay,
    No,
    Bad,
}

impl DeepView for StatusKind {
    type V = StatusKind;

    open spec fn deep_view(&self) -> StatusKind {
        *self
    }
}

/// A status response.
#[derive(Debug, Clone, PartialEq, Eq, Hash)]
pub enum Status {
    /// `OK`: success, or information where there is no tag.
    Okay { tag: Option<Tag>, code: Option<Code>, text: Text },
    /// Failure, or a warning where there is no tag.
    No { tag: Option<Tag>, code: Option<Code>, text: Text },
    /// A protocol error.
    Bad { tag: Option<Tag>, code: Option<Code>, text: Text },
    /// The server is about to close the connection.
    Bye { code: Option<Code>, text: Text },
}

/// A status response as a mathematical value.
pub enum StatusModel {
    Okay { tag: Option<Seq<u8>>, code: Option<CodeModel>, text: Seq<u8> },
    No { tag: Option<Seq<u8>>, code: Option<CodeModel>, text: Seq<u8> },
    Bad { tag: Option<Seq<u8>>, code: Option<CodeModel>, text: Seq<u8> },
    Bye { code: Option<CodeModel>, text: Seq<u8> },
}

impl DeepView for Status {
    type V = StatusModel;

    open spec fn deep_view(&self) -> StatusModel {
        match self {
            Status::Okay { tag, code, text } => StatusModel::Okay {
                tag: tag.deep_view(),
                code: code.deep_view(),
                text: text.deep_view(),
            },
            Status::No { tag, code, text } => StatusModel::No {
                tag: tag.deep_view(),
                code: code.deep_view(),
                text: text.deep_view(),
            },
            Status::Bad { tag, code, text } => StatusModel::Bad {
                tag: tag.deep_view(),
                code: code.deep_view(),
                text: text.deep_view(),
            },
            Status::Bye { code, text } => StatusModel::Bye {
                code: code.deep_view(),
                text: text.deep_view(),
            },
        }
    }
}

/// The status response of the given kind.
pub open spec fn spec_status_of(
    kind: StatusKind,
    tag: Option<Seq<u8>>,
    code: Option<CodeModel>,
    text: Seq<u8>,
) -> StatusModel {
    match kind {
        StatusKind::Okay => StatusModel::Okay { tag, code, text },
        StatusKind::No => StatusModel::No { tag, code, text },
        StatusKind::Bad => StatusModel::Bad { tag, code, text },
    }
}

impl Status {
    /// The status response of the given kind.
    pub fn new(kind: StatusKind, tag: Option<Tag>, code: Option<Code>, text: Text) -> (r: Status)
        ensures
            r.deep_view() == spec_status_of(
                kind,
                tag.deep_view(),
                code.deep_view(),
                text.deep_view(),
            ),
    {
        match kind {
            StatusKind::Okay => Status::Okay { tag, code, text },
            StatusKind::No => Status::No { tag, code, text },
            StatusKind::Bad => Status::Bad { tag, code, text },
        }
    }
}

/// A capability that a client has enabled.
#[derive(Debug, Clone, PartialEq, Eq, Hash)]
pub enum CapabilityEnable {
    /// `UTF8=ACCEPT`
    Utf8Accept,
    /// `UTF8=ONLY`
    Utf8Only,
    /// Any other capability.
    Other(Atom),
}

/// An enabled capability as a mathematical value.
pub enum CapabilityEnableModel {
    Utf8Accept,
    Utf8Only,
    Other(Seq<u8>),
}

impl DeepView for CapabilityEnable {
    type V = CapabilityEnableModel;

    open spec fn deep_view(&self) -> CapabilityEnableModel {
        match self {
            CapabilityEnable::Utf8Accept => CapabilityEnableModel::Utf8Accept,
            CapabilityEnable::Utf8Only => CapabilityEnableModel::Utf8Only,
            CapabilityEnable::Other(a) => CapabilityEnableModel::Other(a.deep_view()),
        }
    }
}

/// Data that a server sends without a tag.
#[derive(Debug, PartialEq, Eq, Hash)]
pub enum Data {
    Capability(NonEmptyVec<Capability>),
    List { items: Vec<FlagNameAttribute>, delimiter: Option<QuotedChar>, mailbox: Mailbox },
    Lsub { items: Vec<FlagNameAttribute>, delimiter: Option<QuotedChar>, mailbox: Mailbox },
    Status { mailbox: Mailbox, items: Vec<StatusDataItem> },
    Search(Vec<NzNumber>),
    Flags(Vec<Flag>),
    Exists(u32),
    Recent(u32),
    Expunge(NzNumber),
    Fetch { seq: NzNumber, items: NonEmptyVec<FetchAttributeValue> },
    Enabled { capabilities: Vec<CapabilityEnable> },
    Quota { root: AString, quotas: NonEmptyVec<QuotaGet> },
    QuotaRoot { mailbox: Mailbox, roots: Vec<AString> },
}

/// Untagged data as a mathematical value.
pub enum DataModel {
    Capability(Seq<CapabilityModel>),
    List { items: Seq<FlagNameAttributeModel>, delimiter: Option<u8>, mailbox: MailboxModel },
    Lsub { items: Seq<FlagNameAttributeModel>, delimiter: Option<u8>, mailbox: MailboxModel },
    Status { mailbox: MailboxModel, items: Seq<StatusDataItemModel> },
    Search(Seq<u32>),
    Flags(Seq<FlagModel>),
    Exists(u32),
    Recent(u32),
    Expunge(u32),
    Fetch { seq: u32, items: Seq<FetchAttributeValueModel> },
    Enabled { capabilities: Seq<CapabilityEnableModel> },
    Quota { root: AStringModel, quotas: Seq<QuotaGetModel> },
    QuotaRoot { mailbox: MailboxModel, roots: Seq<AStringModel> },
}

impl DeepView for Data {
    type V = DataModel;

    open spec fn deep_view(&self) -> DataModel {
        match self {
            Data::Capability(c) => DataModel::Capability(c.deep_view()),
            Data::List { items, delimiter, mailbox } => DataModel::List {
                items: items.deep_view(),
                delimiter: delimiter.deep_view(),
                mailbox: mailbox.deep_view(),
            },
            Data::Lsub { items, delimiter, mailbox } => DataModel::Lsub {
                items: items.deep_view(),
                delimiter: delimiter.deep_view(),
                mailbox: mailbox.deep_view(),
            },
            Data::Status { mailbox, items } => DataModel::Status {
                mailbox: mailbox.deep_view(),
                items: items.deep_view(),
            },
            Data::Search(n) => DataModel::Search(n.deep_view()),
            Data::Flags(f) => DataModel::Flags(f.deep_view()),
            Data::Exists(n) => DataModel::Exists(*n),
            Data::Recent(n) => DataModel::Recent(*n),
            Data::Expunge(n) => DataModel::Expunge(n.deep_view()),
            Data::Fetch { seq, items } => DataModel::Fetch {
                seq: seq.deep_view(),
                items: items.deep_view(),
            },
            Data::Enabled { capabilities } => DataModel::Enabled {
                capabilities: capabilities.deep_view(),
            },
            Data::Quota { root, quotas } => DataModel::Quota {
                root: root.deep_view(),
                quotas: quotas.deep_view(),
            },
            Data::QuotaRoot { mailbox, roots } => DataModel::QuotaRoot {
                mailbox: mailbox.deep_view(),
                roots: roots.deep_view(),
            },
        }
    }
}

/// A line by which a server asks for more of a command.
#[derive(Debug, Clone, PartialEq, Eq, Hash)]
pub enum CommandContinuationRequest {
    /// A text for a human reader, with or without a code.
    Basic { code: Option<Code>, text: Text },
    /// Data of an authentication exchange, decoded.
    Base64(Vec<u8>),
}

/// A continuation request as a mathematical value.
pub enum CommandContinuationRequestModel {
    Basic { code: Option<CodeModel>, text: Seq<u8> },
    Base64(Seq<u8>),
}

impl DeepView for CommandContinuationRequest {
    type V = CommandContinuationRequestModel;

    open spec fn deep_view(&self) -> CommandContinuationRequestModel {
        match self {
            CommandContinuationRequest::Basic {
                code,
                text,
            } => CommandContinuationRequestModel::Basic {
                code: code.deep_view(),
                text: text.deep_view(),
            },
            CommandContinuationRequest::Base64(d) => CommandContinuationRequestModel::Base64(d@),
        }
    }
}

/// Anything that a server sends after its greeting.
#[derive(Debug, PartialEq, Eq, Hash)]
pub enum Response {
    CommandContinuationRequest(CommandContinuationRequest),
    Data(Data),
    Status(Status),
}

/// A response as a mathematical value.
pub enum ResponseModel {
    CommandContinuationRequest(CommandContinuationRequestModel),
    Data(DataModel),
    Status(StatusModel),
}

impl DeepView for Response {
    type V = ResponseModel;

    open spec fn deep_view(&self) -> ResponseModel {
        match self {
            Response::CommandContinuationRequest(
                c,
            ) => ResponseModel::CommandContinuationRequest(c.deep_view()),
            Response::Data(d) => ResponseModel::Data(d.deep_view()),
            Response::Status(s) => ResponseModel::Status(s.deep_view()),
        }
    }
}

} // verus!

verus! {

/// `resp-cond-auth = ("OK" / "PREAUTH") SP resp-text`
pub open spec fn spec_resp_cond_auth(s: Seq<u8>, quirks: Quirks) -> SpecResult<
    (GreetingKind, (Option<CodeModel>, Seq<u8>)),
> {
    match spec_greeting_kind(s) {
        Err(e) => Err(e),
        Ok((r1, kind)) => match spec_sp(r1) {
            Err(e) => Err(e),
            Ok((r2, _)) => match spec_resp_text(r2, quirks) {
                Err(e) => Err(e),
                Ok((r3, t)) => Ok((r3, (kind, t))),
            },
        },
    }
}

/// `"OK" / "PREAUTH"`
pub open spec fn spec_greeting_kind(s: Seq<u8>) -> SpecResult<GreetingKind> {
    match spec_tag_no_case(s, kw("OK")) {
        Ok((rest, _)) => Ok((rest, GreetingKind::Okay)),
        Err(ParseError::Error(_)) => match spec_tag_no_case(s, kw("PREAUTH")) {
            Ok((rest, _)) => Ok((rest, GreetingKind::PreAuth)),
            Err(e) => Err(e),
        },
        Err(e) => Err(e),
    }
}

/// `resp-cond-bye = "BYE" SP resp-text`
pub open spec fn spec_resp_cond_bye(s: Seq<u8>, quirks: Quirks) -> SpecResult<
    (Option<CodeModel>, Seq<u8>),
> {
    match spec_tag_no_case(s, kw("BYE")) {
        Err(e) => Err(e),
        Ok((r1, _)) => match spec_sp(r1) {
            Err(e) => Err(e),
            Ok((r2, _)) => spec_resp_text(r2, quirks),
        },
    }
}

/// `resp-cond-auth / resp-cond-bye`, the second as the refusing kind of
/// greeting.
pub open spec fn spec_greeting_cond(s: Seq<u8>, quirks: Quirks) -> SpecResult<
    (GreetingKind, (Option<CodeModel>, Seq<u8>)),
> {
    match spec_resp_cond_auth(s, quirks) {
        Err(ParseError::Error(_)) => match spec_resp_cond_bye(s, quirks) {
            Err(e) => Err(e),
            Ok((rest, t)) => Ok((rest, (GreetingKind::Bye, t))),
        },
        r => r,
    }
}

/// `greeting = "*" SP (resp-cond-auth / resp-cond-bye) CRLF`
pub open spec fn spec_greeting(s: Seq<u8>, quirks: Quirks) -> SpecResult<GreetingModel> {
    match spec_byte(s, '*' as u8) {
        Err(e) => Err(e),
        Ok((r1, _)) => match spec_sp(r1) {
            Err(e) => Err(e),
            Ok((r2, _)) => match spec_greeting_cond(r2, quirks) {
                Err(e) => Err(e),
                Ok((r3, (kind, (code, text)))) => match spec_crlf(r3, quirks.crlf_relaxed) {
                    Err(e) => Err(e),
                    Ok((r4, _)) => Ok((r4, GreetingModel { kind, code, text })),
                },
            },
        },
    }
}

/// `"OK" / "NO" / "BAD"`
pub open spec fn spec_status_kind(s: Seq<u8>) -> SpecResult<StatusKind> {
    match spec_tag_no_case(s, kw("OK")) {
        Ok((rest, _)) => Ok((rest, StatusKind::Okay)),
        Err(ParseError::Error(_)) => match spec_tag_no_case(s, kw("NO")) {
            Ok((rest, _)) => Ok((rest, StatusKind::No)),
            Err(ParseError::Error(_)) => match spec_tag_no_case(s, kw("BAD")) {
                Ok((rest, _)) => Ok((rest, StatusKind::Bad)),
                Err(e) => Err(e),
            },
            Err(e) => Err(e),
        },
        Err(e) => Err(e),
    }
}

/// `resp-cond-state = ("OK" / "NO" / "BAD") SP resp-text`
pub open spec fn spec_resp_cond_state(s: Seq<u8>, quirks: Quirks) -> SpecResult<
    (StatusKind, Option<CodeModel>, Seq<u8>),
> {
    match spec_status_kind(s) {
        Err(e) => Err(e),
        Ok((r1, kind)) => match spec_sp(r1) {
            Err(e) => Err(e),
            Ok((r2, _)) => match spec_resp_text(r2, quirks) {
                Err(e) => Err(e),
                Ok((r3, (code, text))) => Ok((r3, (kind, code, text))),
            },
        },
    }
}

/// `response-tagged = tag SP resp-cond-state CRLF`
pub open spec fn spec_response_tagged(s: Seq<u8>, quirks: Quirks) -> SpecResult<StatusModel> {
    match crate::strings::spec_tag_imap(s) {
        Err(e) => Err(e),
        Ok((r1, tag)) => match spec_sp(r1) {
            Err(e) => Err(e),
            Ok((r2, _)) => match spec_resp_cond_state(r2, quirks) {
                Err(e) => Err(e),
                Ok((r3, (kind, code, text))) => match spec_crlf(r3, quirks.crlf_relaxed) {
                    Err(e) => Err(e),
                    Ok((r4, _)) => Ok((r4, spec_status_of(kind, Some(tag), code, text))),
                },
            },
        },
    }
}

/// `response-fatal = "*" SP resp-cond-bye CRLF`
pub open spec fn spec_response_fatal(s: Seq<u8>, quirks: Quirks) -> SpecResult<StatusModel> {
    match spec_byte(s, '*' as u8) {
        Err(e) => Err(e),
        Ok((r1, _)) => match spec_sp(r1) {
            Err(e) => Err(e),
            Ok((r2, _)) => match spec_resp_cond_bye(r2, quirks) {
                Err(e) => Err(e),
                Ok((r3, (code, text))) => match spec_crlf(r3, quirks.crlf_relaxed) {
                    Err(e) => Err(e),
                    Ok((r4, _)) => Ok((r4, StatusModel::Bye { code, text })),
                },
            },
        },
    }
}

/// `response-done = response-tagged / response-fatal`
pub open spec fn spec_response_done(s: Seq<u8>, quirks: Quirks) -> SpecResult<StatusModel> {
    spec_or(spec_response_tagged(s, quirks), spec_response_fatal(s, quirks))
}

/// `"EXPUNGE" / ("FETCH" SP msg-att)` for the message `seq`.
pub open spec fn spec_message_data_of(s: Seq<u8>, seq: u32) -> SpecResult<DataModel> {
    match spec_tag_no_case(s, kw("EXPUNGE")) {
        Ok((rest, _)) => Ok((rest, DataModel::Expunge(seq))),
        Err(ParseError::Error(_)) => match spec_tag_no_case(s, kw("FETCH")) {
            Err(e) => Err(e),
            Ok((r1, _)) => match spec_sp(r1) {
                Err(e) => Err(e),
                Ok((r2, _)) => match crate::fetch::spec_msg_att(r2) {
                    Err(e) => Err(e),
                    Ok((r3, items)) => Ok((r3, DataModel::Fetch { seq, items })),
                },
            },
        },
        Err(e) => Err(e),
    }
}

/// `message-data = nz-number SP ("EXPUNGE" / ("FETCH" SP msg-att))`
pub open spec fn spec_message_data(s: Seq<u8>) -> SpecResult<DataModel> {
    match spec_nz_number(s) {
        Err(e) => Err(e),
        Ok((r1, seq)) => match spec_sp(r1) {
            Err(e) => Err(e),
            Ok((r2, _)) => spec_message_data_of(r2, seq),
        },
    }
}

/// An untagged status: `resp-cond-state` without a tag.
pub open spec fn spec_untagged_status(s: Seq<u8>, quirks: Quirks) -> SpecResult<ResponseModel> {
    match spec_resp_cond_state(s, quirks) {
        Err(e) => Err(e),
        Ok((rest, (kind, code, text))) => Ok(
            (rest, ResponseModel::Status(spec_status_of(kind, None, code, text))),
        ),
    }
}

/// `resp-cond-bye` as a response.
pub open spec fn spec_untagged_bye(s: Seq<u8>, quirks: Quirks) -> SpecResult<ResponseModel> {
    match spec_resp_cond_bye(s, quirks) {
        Err(e) => Err(e),
        Ok((rest, (code, text))) => Ok(
            (rest, ResponseModel::Status(StatusModel::Bye { code, text })),
        ),
    }
}

/// Data as a response.
pub open spec fn spec_as_response(r: SpecResult<DataModel>) -> SpecResult<ResponseModel> {
    match r {
        Err(e) => Err(e),
        Ok((rest, d)) => Ok((rest, ResponseModel::Data(d))),
    }
}

/// `capability-data` as data.
pub open spec fn spec_data_capability(s: Seq<u8>) -> SpecResult<DataModel> {
    match spec_capability_data(s) {
        Err(e) => Err(e),
        Ok((rest, caps)) => Ok((rest, DataModel::Capability(caps))),
    }
}

/// What stands between `"*" SP` and `CRLF` in untagged data: `resp-cond-state
/// / resp-cond-bye / mailbox-data / message-data / capability-data /
/// enable-data`.
#[verifier::opaque]
pub open spec fn spec_untagged(s: Seq<u8>, quirks: Quirks) -> SpecResult<ResponseModel> {
    spec_or(
        spec_untagged_status(s, quirks),
        spec_or(
            spec_untagged_bye(s, quirks),
            spec_or(
                spec_as_response(crate::mailbox::spec_mailbox_data(s)),
                spec_or(
                    spec_as_response(spec_message_data(s)),
                    spec_or(
                        spec_as_response(spec_data_capability(s)),
                        spec_as_response(crate::extensions::spec_enable_data(s)),
                    ),
                ),
            ),
        ),
    )
}

/// `response-data = "*" SP (resp-cond-state / resp-cond-bye / mailbox-data /
/// message-data / capability-data / enable-data) CRLF`
pub open spec fn spec_response_data(s: Seq<u8>, quirks: Quirks) -> SpecResult<ResponseModel> {
    match spec_byte(s, '*' as u8) {
        Err(e) => Err(e),
        Ok((r1, _)) => match spec_sp(r1) {
            Err(e) => Err(e),
            Ok((r2, _)) => match spec_untagged(r2, quirks) {
                Err(e) => Err(e),
                Ok((r3, response)) => match spec_crlf(r3, quirks.crlf_relaxed) {
                    Err(e) => Err(e),
                    Ok((r4, _)) => Ok((r4, response)),
                },
            },
        },
    }
}

/// The text of the first line of `s` as far as base64 is looked for in it,
/// and the rest from the end of that line on; none where `s` holds no end
/// of a line. With a bare LF tolerated, a CR before it does not count as
/// text.
pub open spec fn spec_line_text(s: Seq<u8>, relaxed: bool) -> Option<(Seq<u8>, Seq<u8>)> {
    match crate::lex::spec_first_line_end(s, relaxed) {
        None => None,
        Some(i) => {
            let line = s.take(i as int);
            let text = if relaxed && line.len() > 0 && line.last() == '\r' as u8 {
                line.drop_last()
            } else {
                line
            };
            Some((text, s.skip(i as int)))
        },
    }
}

/// The payload of a continuation request whose first line decodes to
/// `decoded`: that data where the line is base64, else a response text.
pub open spec fn spec_continue_payload(
    s: Seq<u8>,
    rest: Seq<u8>,
    decoded: Option<Seq<u8>>,
    quirks: Quirks,
) -> SpecResult<CommandContinuationRequestModel> {
    match decoded {
        Some(data) => Ok((rest, CommandContinuationRequestModel::Base64(data))),
        None => match spec_resp_text(s, quirks) {
            Err(e) => Err(e),
            Ok((r, (code, text))) => Ok((r, CommandContinuationRequestModel::Basic { code, text })),
        },
    }
}

/// `continue-req = "+" SP (resp-text / base64) CRLF`: base64 where the
/// whole line is valid base64, a response text otherwise.
pub open spec fn spec_continue_req(s: Seq<u8>, quirks: Quirks) -> SpecResult<
    CommandContinuationRequestModel,
> {
    match crate::lex::spec_tag(s, kw("+ ")) {
        Err(e) => Err(e),
        Ok((r1, _)) => match spec_line_text(r1, quirks.crlf_relaxed) {
            None => Err(ParseError::Incomplete),
            Some((line, rest)) => match spec_continue_payload(
                r1,
                rest,
                crate::strings::base64_decoded(line),
                quirks,
            ) {
                Err(e) => Err(e),
                Ok((r2, c)) => match spec_crlf(r2, quirks.crlf_relaxed) {
                    Err(e) => Err(e),
                    Ok((r3, _)) => Ok((r3, c)),
                },
            },
        },
    }
}

/// `response = continue-req / response-data / response-done`
pub open spec fn spec_response(s: Seq<u8>, quirks: Quirks) -> SpecResult<ResponseModel> {
    spec_or(
        match spec_continue_req(s, quirks) {
            Err(e) => Err(e),
            Ok((rest, c)) => Ok((rest, ResponseModel::CommandContinuationRequest(c))),
        },
        spec_or(
            spec_response_data(s, quirks),
            match spec_response_done(s, quirks) {
                Err(e) => Err(e),
                Ok((rest, status)) => Ok((rest, ResponseModel::Status(status))),
            },
        ),
    )
}

/// Parses `"OK" / "PREAUTH"`.
pub fn greeting_kind<'a>(input: &'a [u8]) -> (r: IMAPResult<'a, GreetingKind>)
    ensures
        agrees(r, spec_greeting_kind(input@)),
{
    match tag_no_case(input, "OK") {
        Ok((rest, _)) => Ok((rest, GreetingKind::Okay)),
        Err(ParseError::Error(_)) => match tag_no_case(input, "PREAUTH") {
            Ok((rest, _)) => Ok((rest, GreetingKind::PreAuth)),
            Err(e) => Err(e),
        },
        Err(e) => Err(e),
    }
}

/// Parses a `resp-cond-auth`.
pub fn resp_cond_auth<'a>(input: &'a [u8], quirks: Quirks) -> (r: IMAPResult<
    'a,
    (GreetingKind, (Option<Code>, Text)),
>)
    ensures
        agrees(r, spec_resp_cond_auth(input@, quirks)),
{
    let (r1, kind) = greeting_kind(input)?;
    let (r2, _) = sp(r1)?;
    let (r3, t) = resp_text(r2, quirks)?;
    Ok((r3, (kind, t)))
}

/// Parses a `resp-cond-bye`.
pub fn resp_cond_bye<'a>(input: &'a [u8], quirks: Quirks) -> (r: IMAPResult<
    'a,
    (Option<Code>, Text),
>)
    ensures
        agrees(r, spec_resp_cond_bye(input@, quirks)),
{
    let (r1, _) = tag_no_case(input, "BYE")?;
    let (r2, _) = sp(r1)?;
    resp_text(r2, quirks)
}

/// Parses a `greeting`.
pub fn greeting<'a>(input: &'a [u8], quirks: Quirks) -> (r: IMAPResult<'a, Greeting>)
    ensures
        agrees(r, spec_greeting(input@, quirks)),
{
    let (r1, _) = byte(input, '*' as u8)?;
    let (r2, _) = sp(r1)?;
    let (r3, (kind, (code, text))) = match resp_cond_auth(r2, quirks) {
        Err(ParseError::Error(_)) => {
            let (rest, t) = resp_cond_bye(r2, quirks)?;
            (rest, (GreetingKind::Bye, t))
        },
        Err(e) => {
            return Err(e);
        },
        Ok(v) => v,
    };
    let (r4, _) = crlf(r3, quirks.crlf_relaxed)?;
    Ok((r4, Greeting { kind, code, text }))
}

/// Parses `"OK" / "NO" / "BAD"`.
pub fn status_kind<'a>(input: &'a [u8]) -> (r: IMAPResult<'a, StatusKind>)
    ensures
        agrees(r, spec_status_kind(input@)),
{
    match tag_no_case(input, "OK") {
        Ok((rest, _)) => Ok((rest, StatusKind::Okay)),
        Err(ParseError::Error(_)) => match tag_no_case(input, "NO") {
            Ok((rest, _)) => Ok((rest, StatusKind::No)),
            Err(ParseError::Error(_)) => match tag_no_case(input, "BAD") {
                Ok((rest, _)) => Ok((rest, StatusKind::Bad)),
                Err(e) => Err(e),
            },
            Err(e) => Err(e),
        },
        Err(e) => Err(e),
    }
}

/// Parses a `resp-cond-state`.
pub fn resp_cond_state<'a>(input: &'a [u8], quirks: Quirks) -> (r: IMAPResult<
    'a,
    (StatusKind, Option<Code>, Text),
>)
    ensures
        agrees(r, spec_resp_cond_state(input@, quirks)),
{
    let (r1, kind) = status_kind(input)?;
    let (r2, _) = sp(r1)?;
    let (r3, (maybe_code, text)) = resp_text(r2, quirks)?;
    Ok((r3, (kind, maybe_code, text)))
}

/// Parses a `response-tagged`.
pub fn response_tagged<'a>(input: &'a [u8], quirks: Quirks) -> (r: IMAPResult<'a, Status>)
    ensures
        agrees(r, spec_response_tagged(input@, quirks)),
{
    let (r1, tag) = crate::strings::tag_imap(input)?;
    let (r2, _) = sp(r1)?;
    let (r3, (kind, code, text)) = resp_cond_state(r2, quirks)?;
    let (r4, _) = crlf(r3, quirks.crlf_relaxed)?;
    Ok((r4, Status::new(kind, Some(tag), code, text)))
}

/// Parses a `response-fatal`.
pub fn response_fatal<'a>(input: &'a [u8], quirks: Quirks) -> (r: IMAPResult<'a, Status>)
    ensures
        agrees(r, spec_response_fatal(input@, quirks)),
{
    let (r1, _) = byte(input, '*' as u8)?;
    let (r2, _) = sp(r1)?;
    let (r3, (code, text)) = resp_cond_bye(r2, quirks)?;
    let (r4, _) = crlf(r3, quirks.crlf_relaxed)?;
    Ok((r4, Status::Bye { code, text }))
}

/// Parses a `response-done`.
pub fn response_done<'a>(input: &'a [u8], quirks: Quirks) -> (r: IMAPResult<'a, Status>)
    ensures
        agrees(r, spec_response_done(input@, quirks)),
{
    match response_tagged(input, quirks) {
        Err(ParseError::Error(_)) => response_fatal(input, quirks),
        r => r,
    }
}

/// Parses `message-data`.
pub fn message_data<'a>(input: &'a [u8]) -> (r: IMAPResult<'a, Data>)
    ensures
        agrees(r, spec_message_data(input@)),
{
    let (r1, seq) = nz_number(input)?;
    let (remaining, _) = sp(r1)?;
    match tag_no_case(remaining, "EXPUNGE") {
        Ok((rest, _)) => Ok((rest, Data::Expunge(seq))),
        Err(ParseError::Error(_)) => {
            let (r2, _) = tag_no_case(remaining, "FETCH")?;
            let (r3, _) = sp(r2)?;
            let (r4, items) = crate::fetch::msg_att(r3)?;
            Ok((r4, Data::Fetch { seq, items }))
        },
        Err(e) => Err(e),
    }
}

/// Parses an untagged status.
pub fn untagged_status<'a>(input: &'a [u8], quirks: Quirks) -> (r: IMAPResult<'a, Response>)
    ensures
        agrees(r, spec_untagged_status(input@, quirks)),
{
    let (rest, (kind, code, text)) = resp_cond_state(input, quirks)?;
    Ok((rest, Response::Status(Status::new(kind, None, code, text))))
}

/// Parses `resp-cond-bye` as a response.
pub fn untagged_bye<'a>(input: &'a [u8], quirks: Quirks) -> (r: IMAPResult<'a, Response>)
    ensures
        agrees(r, spec_untagged_bye(input@, quirks)),
{
    let (rest, (code, text)) = resp_cond_bye(input, quirks)?;
    Ok((rest, Response::Status(Status::Bye { code, text })))
}

/// Wraps parsed data as a response.
pub fn as_response<'a>(r: IMAPResult<'a, Data>) -> (out: IMAPResult<'a, Response>)
    ensures
        forall|s: SpecResult<DataModel>| agrees(r, s) ==> agrees(out, spec_as_response(s)),
{
    match r {
        Err(e) => Err(e),
        Ok((rest, d)) => Ok((rest, Response::Data(d))),
    }
}

/// Parses `capability-data` as data.
pub fn data_capability<'a>(input: &'a [u8]) -> (r: IMAPResult<'a, Data>)
    ensures
        agrees(r, spec_data_capability(input@)),
{
    let (rest, caps) = capability_data(input)?;
    Ok((rest, Data::Capability(caps)))
}

/// Parses what stands between `"*" SP` and `CRLF` in untagged data.
pub fn untagged<'a>(input: &'a [u8], quirks: Quirks) -> (r: IMAPResult<'a, Response>)
    ensures
        agrees(r, spec_untagged(input@, quirks)),
{
    reveal(spec_untagged);
    match untagged_status(input, quirks) {
        Err(ParseError::Error(_)) => match untagged_bye(input, quirks) {
            Err(ParseError::Error(_)) => match as_response(crate::mailbox::mailbox_data(input)) {
                Err(ParseError::Error(_)) => match as_response(message_data(input)) {
                    Err(ParseError::Error(_)) => match as_response(data_capability(input)) {
                        Err(ParseError::Error(_)) => as_response(
                            crate::extensions::enable_data(input),
                        ),
                        r => r,
                    },
                    r => r,
                },
                r => r,
            },
            r => r,
        },
        r => r,
    }
}

/// Parses `response-data`.
pub fn response_data<'a>(input: &'a [u8], quirks: Quirks) -> (r: IMAPResult<'a, Response>)
    ensures
        agrees(r, spec_response_data(input@, quirks)),
{
    let (r1, _) = byte(input, '*' as u8)?;
    let (r2, _) = sp(r1)?;
    let (r3, response) = untagged(r2, quirks)?;
    let (remaining, _) = crlf(r3, quirks.crlf_relaxed)?;
    Ok((remaining, response))
}

/// Gives the payload of a continuation request, once the decoding of its
/// first line is known: `input` is what follows `"+ "`, and `rest` what
/// follows the text of that line.
pub fn continue_payload<'a>(
    input: &'a [u8],
    rest: &'a [u8],
    decoded: Option<Vec<u8>>,
    quirks: Quirks,
) -> (r: IMAPResult<'a, CommandContinuationRequest>)
    ensures
        agrees(
            r,
            spec_continue_payload(
                input@,
                rest@,
                match decoded {
                    Some(d) => Some(d@),
                    None => None,
                },
                quirks,
            ),
        ),
{
    match decoded {
        Some(data) => Ok((rest, CommandContinuationRequest::Base64(data))),
        None => {
            let (r, (code, text)) = resp_text(input, quirks)?;
            Ok((r, CommandContinuationRequest::Basic { code, text }))
        },
    }
}

/// Parses a `continue-req`.
pub fn continue_req<'a>(input: &'a [u8], quirks: Quirks) -> (r: IMAPResult<
    'a,
    CommandContinuationRequest,
>)
    ensures
        agrees(r, spec_continue_req(input@, quirks)),
{
    let (r1, _) = crate::lex::tag(input, "+ ")?;
    let end = match crate::lex::first_line_end(r1, quirks.crlf_relaxed) {
        Some(i) => i,
        None => {
            return Err(ParseError::Incomplete);
        },
    };
    let line = take(r1, end);
    let line_text = if quirks.crlf_relaxed && line.len() > 0 && line[line.len() - 1]
        == '\r' as u8 {
        take(line, line.len() - 1)
    } else {
        line
    };
    let decoded = crate::strings::decode_base64(line_text);
    let (r2, continue_request) = continue_payload(r1, skip(r1, end), decoded, quirks)?;
    let (remaining, _) = crlf(r2, quirks.crlf_relaxed)?;
    Ok((remaining, continue_request))
}

/// Parses a `response`.
pub fn response<'a>(input: &'a [u8], quirks: Quirks) -> (r: IMAPResult<'a, Response>)
    ensures
        agrees(r, spec_response(input@, quirks)),
{
    match continue_req(input, quirks) {
        Ok((rest, c)) => Ok((rest, Response::CommandContinuationRequest(c))),
        Err(ParseError::Error(_)) => match response_data(input, quirks) {
            Err(ParseError::Error(_)) => match response_done(input, quirks) {
                Err(e) => Err(e),
                Ok((rest, status)) => Ok((rest, Response::Status(status))),
            },
            r => r,
        },
        Err(e) => Err(e),
    }
}

} // verus!

verus! {

/// The bytes CR and LF.
pub open spec fn spec_crlf_bytes() -> Seq<u8> {
    seq!['\r' as u8, '\n' as u8]
}

/// Appends CR and LF to an output that holds `start` and then `done`.
pub(crate) fn emit_crlf(out: &mut Vec<u8>, start: Ghost<Seq<u8>>, done: Ghost<Seq<u8>>) -> (r: Ghost<
    Seq<u8>,
>)
    requires
        old(out)@ == start@ + done@,
    ensures
        final(out)@ == start@ + r@,
        r@ == done@ + spec_crlf_bytes(),
{
    let ghost before = out@;
    out.push('\r' as u8);
    out.push('\n' as u8);
    assert(out@ =~= before + spec_crlf_bytes());
    appended(start, done, Ghost(spec_crlf_bytes()))
}

/// The charsets of a `BADCHARSET` code: nothing for none, else a space and
/// the charsets in parentheses.
pub open spec fn spec_encode_charsets(allowed: Seq<CharsetModel>) -> Seq<u8> {
    if allowed.len() == 0 {
        Seq::empty()
    } else {
        kw(" (") + spec_wire_joined::<Charset>(allowed, ' ' as u8) + seq![')' as u8]
    }
}

/// A response code, its keyword in upper case.
pub open spec fn spec_encode_code(c: CodeModel) -> Seq<u8> {
    match c {
        CodeModel::Alert => kw("ALERT"),
        CodeModel::BadCharset { allowed } => kw("BADCHARSET") + spec_encode_charsets(allowed),
        CodeModel::Capability(caps) => spec_encode_capability_data(caps),
        CodeModel::Parse => kw("PARSE"),
        CodeModel::PermanentFlags(f) => kw("PERMANENTFLAGS (") + spec_wire_joined::<FlagPerm>(
            f,
            ' ' as u8,
        ) + seq![')' as u8],
        CodeModel::ReadOnly => kw("READ-ONLY"),
        CodeModel::ReadWrite => kw("READ-WRITE"),
        CodeModel::TryCreate => kw("TRYCREATE"),
        CodeModel::UidNext(n) => kw("UIDNEXT ") + spec_digits(n as nat),
        CodeModel::UidValidity(n) => kw("UIDVALIDITY ") + spec_digits(n as nat),
        CodeModel::Unseen(n) => kw("UNSEEN ") + spec_digits(n as nat),
        CodeModel::CompressionActive => kw("COMPRESSIONACTIVE"),
        CodeModel::OverQuota => kw("OVERQUOTA"),
        CodeModel::TooBig => kw("TOOBIG"),
        CodeModel::Other(raw) => raw,
    }
}

/// A code in brackets with the space behind it, or nothing for no code.
pub open spec fn spec_encode_opt_code(code: Option<CodeModel>) -> Seq<u8> {
    match code {
        Some(c) => seq!['[' as u8] + spec_encode_code(c) + seq![']' as u8, ' ' as u8],
        None => Seq::empty(),
    }
}

/// A response text: the code, if there is one, and the text.
pub open spec fn spec_encode_resp_text(code: Option<CodeModel>, text: Seq<u8>) -> Seq<u8> {
    spec_encode_opt_code(code) + text
}

/// Appends the charsets of a `BADCHARSET` code.
pub fn encode_charsets(allowed: &[Charset], out: &mut Vec<u8>)
    ensures
        final(out)@ == old(out)@ + spec_encode_charsets(allowed.deep_view()),
{
    let ghost start = out@;
    if allowed.len() == 0 {
        assert(out@ =~= start + spec_encode_charsets(allowed.deep_view()));
    } else {
        put_str(out, " (");
        encode_joined::<Charset>(allowed, ' ' as u8, out);
        out.push(')' as u8);
        assert(out@ =~= start + spec_encode_charsets(allowed.deep_view()));
    }
}

impl Encoder for Code {
    open spec fn wire(v: CodeModel) -> Seq<u8> {
        spec_encode_code(v)
    }

    fn encode_into(&self, out: &mut Vec<u8>) {
        let ghost start = out@;
        match self {
            Code::Alert => put_str(out, "ALERT"),
            Code::BadCharset { allowed } => {
                put_str(out, "BADCHARSET");
                encode_charsets(allowed.as_slice(), out);
                assert(out@ =~= start + spec_encode_code(self.deep_view()));
            },
            Code::Capability(caps) => encode_capability_data(caps, out),
            Code::Parse => put_str(out, "PARSE"),
            Code::PermanentFlags(f) => {
                put_str(out, "PERMANENTFLAGS (");
                encode_joined::<FlagPerm>(f.as_slice(), ' ' as u8, out);
                out.push(')' as u8);
                assert(out@ =~= start + spec_encode_code(self.deep_view()));
            },
            Code::ReadOnly => put_str(out, "READ-ONLY"),
            Code::ReadWrite => put_str(out, "READ-WRITE"),
            Code::TryCreate => put_str(out, "TRYCREATE"),
            Code::UidNext(n) => {
                put_str(out, "UIDNEXT ");
                n.encode_into(out);
                assert(out@ =~= start + spec_encode_code(self.deep_view()));
            },
            Code::UidValidity(n) => {
                put_str(out, "UIDVALIDITY ");
                n.encode_into(out);
                assert(out@ =~= start + spec_encode_code(self.deep_view()));
            },
            Code::Unseen(n) => {
                put_str(out, "UNSEEN ");
                n.encode_into(out);
                assert(out@ =~= start + spec_encode_code(self.deep_view()));
            },
            Code::CompressionActive => put_str(out, "COMPRESSIONACTIVE"),
            Code::OverQuota => put_str(out, "OVERQUOTA"),
            Code::TooBig => put_str(out, "TOOBIG"),
            Code::Other(raw) => put(out, raw.as_slice()),
        }
    }
}

/// Appends a response text.
pub fn encode_resp_text(code: &Option<Code>, text: &Text, out: &mut Vec<u8>)
    ensures
        final(out)@ == old(out)@ + spec_encode_resp_text(code.deep_view(), text.deep_view()),
{
    let ghost start = out@;
    match code {
        Some(c) => {
            out.push('[' as u8);
            c.encode_into(out);
            out.push(']' as u8);
            out.push(' ' as u8);
            assert(out@ =~= start + spec_encode_opt_code(code.deep_view()));
        },
        None => {
            assert(out@ =~= start + spec_encode_opt_code(code.deep_view()));
        },
    }
    text.encode_into(out);
    assert(out@ =~= start + spec_encode_resp_text(code.deep_view(), text.deep_view()));
}

/// The keyword of a greeting kind, with the spaces around it.
pub open spec fn spec_greeting_word(kind: GreetingKind) -> Seq<u8> {
    match kind {
        GreetingKind::Okay => kw("* OK "),
        GreetingKind::PreAuth => kw("* PREAUTH "),
        GreetingKind::Bye => kw("* BYE "),
    }
}

/// A greeting as one line.
pub open spec fn spec_encode_greeting(g: GreetingModel) -> Seq<u8> {
    spec_greeting_word(g.kind) + spec_encode_resp_text(g.code, g.text) + spec_crlf_bytes()
}

impl Encoder for Greeting {
    open spec fn wire(v: GreetingModel) -> Seq<u8> {
        spec_encode_greeting(v)
    }

    fn encode_into(&self, out: &mut Vec<u8>) {
        let s = Ghost(out@);
        let word = match self.kind {
            GreetingKind::Okay => "* OK ",
            GreetingKind::PreAuth => "* PREAUTH ",
            GreetingKind::Bye => "* BYE ",
        };
        put_str(out, word);
        let d = Ghost(kw(word));
        encode_resp_text(&self.code, &self.text, out);
        let d = appended(
            s,
            d,
            Ghost(spec_encode_resp_text(self.code.deep_view(), self.text.deep_view())),
        );
        let d = emit_crlf(out, s, d);
    }
}

/// The tag of a status response, or `*` for none.
pub open spec fn spec_encode_opt_tag(tag: Option<Seq<u8>>) -> Seq<u8> {
    match tag {
        Some(t) => t,
        None => seq!['*' as u8],
    }
}

/// A status response as one line.
pub open spec fn spec_encode_status(s: StatusModel) -> Seq<u8> {
    match s {
        StatusModel::Okay { tag, code, text } => spec_encode_opt_tag(tag) + kw(" OK ")
            + spec_encode_resp_text(code, text) + spec_crlf_bytes(),
        StatusModel::No { tag, code, text } => spec_encode_opt_tag(tag) + kw(" NO ")
            + spec_encode_resp_text(code, text) + spec_crlf_bytes(),
        StatusModel::Bad { tag, code, text } => spec_encode_opt_tag(tag) + kw(" BAD ")
            + spec_encode_resp_text(code, text) + spec_crlf_bytes(),
        StatusModel::Bye { code, text } => kw("* BYE ") + spec_encode_resp_text(code, text)
            + spec_crlf_bytes(),
    }
}

/// Appends the tag of a status response, or `*` for none.
pub fn encode_opt_tag(tag: &Option<Tag>, out: &mut Vec<u8>)
    ensures
        final(out)@ == old(out)@ + spec_encode_opt_tag(tag.deep_view()),
{
    match tag {
        Some(t) => t.encode_into(out),
        None => put_byte(out, '*' as u8),
    }
}

/// Appends a status line: the tag, the keyword with its spaces, the
/// response text and the end of the line.
pub fn encode_status_line(
    tag: &Option<Tag>,
    word: &str,
    code: &Option<Code>,
    text: &Text,
    out: &mut Vec<u8>,
)
    ensures
        final(out)@ == old(out)@ + (spec_encode_opt_tag(tag.deep_view()) + kw(word)
            + spec_encode_resp_text(code.deep_view(), text.deep_view()) + spec_crlf_bytes()),
{
    let s = Ghost(out@);
    encode_opt_tag(tag, out);
    let d = Ghost(spec_encode_opt_tag(tag.deep_view()));
    let d = emit_str(word, out, s, d);
    encode_resp_text(code, text, out);
    let d = appended(s, d, Ghost(spec_encode_resp_text(code.deep_view(), text.deep_view())));
    let d = emit_crlf(out, s, d);
}

impl Encoder for Status {
    open spec fn wire(v: StatusModel) -> Seq<u8> {
        spec_encode_status(v)
    }

    fn encode_into(&self, out: &mut Vec<u8>) {
        match self {
            Status::Okay { tag, code, text } => encode_status_line(tag, " OK ", code, text, out),
            Status::No { tag, code, text } => encode_status_line(tag, " NO ", code, text, out),
            Status::Bad { tag, code, text } => encode_status_line(tag, " BAD ", code, text, out),
            Status::Bye { code, text } => {
                let s = Ghost(out@);
                put_str(out, "* BYE ");
                let d = Ghost(kw("* BYE "));
                encode_resp_text(code, text, out);
                let d = appended(
                    s,
                    d,
                    Ghost(spec_encode_resp_text(code.deep_view(), text.deep_view())),
                );
                let d = emit_crlf(out, s, d);
            },
        }
    }
}

/// An enabled capability under its name.
pub open spec fn spec_encode_capability_enable(c: CapabilityEnableModel) -> Seq<u8> {
    match c {
        CapabilityEnableModel::Utf8Accept => kw("UTF8=ACCEPT"),
        CapabilityEnableModel::Utf8Only => kw("UTF8=ONLY"),
        CapabilityEnableModel::Other(a) => a,
    }
}

impl Encoder for CapabilityEnable {
    open spec fn wire(v: CapabilityEnableModel) -> Seq<u8> {
        spec_encode_capability_enable(v)
    }

    fn encode_into(&self, out: &mut Vec<u8>) {
        match self {
            CapabilityEnable::Utf8Accept => put_str(out, "UTF8=ACCEPT"),
            CapabilityEnable::Utf8Only => put_str(out, "UTF8=ONLY"),
            CapabilityEnable::Other(a) => a.encode_into(out),
        }
    }
}

/// Untagged data without the `*` before it and the end of the line behind
/// it.
#[verifier::opaque]
pub open spec fn spec_encode_data_body(d: DataModel) -> Seq<u8> {
    match d {
        DataModel::Capability(caps) => spec_encode_capability_data(caps),
        DataModel::List { items, delimiter, mailbox } => kw("LIST ")
            + crate::mailbox::spec_encode_mailbox_list(items, delimiter, mailbox),
        DataModel::Lsub { items, delimiter, mailbox } => kw("LSUB ")
            + crate::mailbox::spec_encode_mailbox_list(items, delimiter, mailbox),
        DataModel::Status { mailbox, items } => kw("STATUS ") + crate::mailbox::spec_encode_mailbox(
            mailbox,
        ) + kw(" (") + spec_wire_joined::<StatusDataItem>(items, ' ' as u8) + seq![')' as u8],
        DataModel::Search(numbers) => kw("SEARCH") + crate::list::spec_wire_each::<NzNumber>(
            numbers,
            ' ' as u8,
        ),
        DataModel::Flags(flags) => kw("FLAGS ") + crate::flag::spec_encode_flag_list(flags),
        DataModel::Exists(n) => spec_digits(n as nat) + kw(" EXISTS"),
        DataModel::Recent(n) => spec_digits(n as nat) + kw(" RECENT"),
        DataModel::Expunge(n) => spec_digits(n as nat) + kw(" EXPUNGE"),
        DataModel::Fetch { seq, items } => spec_digits(seq as nat) + kw(" FETCH ")
            + crate::fetch::spec_encode_msg_att(items),
        DataModel::Enabled { capabilities } => kw("ENABLED") + crate::list::spec_wire_each::<
            CapabilityEnable,
        >(capabilities, ' ' as u8),
        DataModel::Quota { root, quotas } => kw("QUOTA ") + crate::strings::spec_encode_astring(
            root,
        ) + kw(" (") + spec_wire_joined::<QuotaGet>(quotas, ' ' as u8) + seq![')' as u8],
        DataModel::QuotaRoot { mailbox, roots } => kw("QUOTAROOT ")
            + crate::mailbox::spec_encode_mailbox(mailbox) + crate::list::spec_wire_each::<AString>(
            roots,
            ' ' as u8,
        ),
    }
}

/// Untagged data as one line.
pub open spec fn spec_encode_data(d: DataModel) -> Seq<u8> {
    kw("* ") + spec_encode_data_body(d) + spec_crlf_bytes()
}

/// Appends untagged data without the `*` before it and the end of the line
/// behind it.
pub fn encode_data_body(data: &Data, out: &mut Vec<u8>)
    ensures
        final(out)@ == old(out)@ + spec_encode_data_body(data.deep_view()),
{
    reveal(spec_encode_data_body);
    let s = Ghost(out@);
    match data {
        Data::Capability(caps) => encode_capability_data(caps, out),
        Data::List { items, delimiter, mailbox } => {
            put_str(out, "LIST ");
            crate::mailbox::encode_mailbox_list(items.as_slice(), delimiter, mailbox, out);
        },
        Data::Lsub { items, delimiter, mailbox } => {
            put_str(out, "LSUB ");
            crate::mailbox::encode_mailbox_list(items.as_slice(), delimiter, mailbox, out);
        },
        Data::Status { mailbox, items } => {
            put_str(out, "STATUS ");
            let d = Ghost(kw("STATUS "));
            let d = emit(mailbox, out, s, d);
            let d = emit_str(" (", out, s, d);
            encode_joined::<StatusDataItem>(items.as_slice(), ' ' as u8, out);
            let d = appended(
                s,
                d,
                Ghost(spec_wire_joined::<StatusDataItem>(items.deep_view(), ' ' as u8)),
            );
            let d = emit_byte(')' as u8, out, s, d);
        },
        Data::Search(numbers) => {
            put_str(out, "SEARCH");
            crate::list::encode_each::<NzNumber>(numbers.as_slice(), 0, ' ' as u8, out);
            assert(numbers.deep_view().skip(0) =~= numbers.deep_view());
        },
        Data::Flags(flags) => {
            put_str(out, "FLAGS ");
            crate::flag::encode_flag_list(flags.as_slice(), out);
        },
        Data::Exists(n) => {
            n.encode_into(out);
            put_str(out, " EXISTS");
        },
        Data::Recent(n) => {
            n.encode_into(out);
            put_str(out, " RECENT");
        },
        Data::Expunge(n) => {
            n.encode_into(out);
            put_str(out, " EXPUNGE");
        },
        Data::Fetch { seq, items } => {
            seq.encode_into(out);
            let d = Ghost(spec_digits(seq.deep_view() as nat));
            let d = emit_str(" FETCH ", out, s, d);
            crate::fetch::encode_msg_att(items, out);
            let d = appended(s, d, Ghost(crate::fetch::spec_encode_msg_att(items.deep_view())));
        },
        Data::Enabled { capabilities } => {
            put_str(out, "ENABLED");
            crate::list::encode_each::<CapabilityEnable>(
                capabilities.as_slice(),
                0,
                ' ' as u8,
                out,
            );
            assert(capabilities.deep_view().skip(0) =~= capabilities.deep_view());
        },
        Data::Quota { root, quotas } => {
            put_str(out, "QUOTA ");
            let d = Ghost(kw("QUOTA "));
            let d = emit(root, out, s, d);
            let d = emit_str(" (", out, s, d);
            encode_joined_nonempty::<QuotaGet>(quotas, ' ' as u8, out);
            let d = appended(
                s,
                d,
                Ghost(spec_wire_joined::<QuotaGet>(quotas.deep_view(), ' ' as u8)),
            );
            let d = emit_byte(')' as u8, out, s, d);
        },
        Data::QuotaRoot { mailbox, roots } => {
            put_str(out, "QUOTAROOT ");
            let d = Ghost(kw("QUOTAROOT "));
            let d = emit(mailbox, out, s, d);
            crate::list::encode_each::<AString>(roots.as_slice(), 0, ' ' as u8, out);
            assert(roots.deep_view().skip(0) =~= roots.deep_view());
            let d = appended(
                s,
                d,
                Ghost(crate::list::spec_wire_each::<AString>(roots.deep_view(), ' ' as u8)),
            );
        },
    }
}

impl Encoder for Data {
    open spec fn wire(v: DataModel) -> Seq<u8> {
        spec_encode_data(v)
    }

    fn encode_into(&self, out: &mut Vec<u8>) {
        let s = Ghost(out@);
        put_str(out, "* ");
        let d = Ghost(kw("* "));
        encode_data_body(self, out);
        let d = appended(s, d, Ghost(spec_encode_data_body(self.deep_view())));
        let d = emit_crlf(out, s, d);
    }
}

/// A continuation request as one line: a response text, or data in base64.
pub open spec fn spec_encode_continue(c: CommandContinuationRequestModel) -> Seq<u8> {
    match c {
        CommandContinuationRequestModel::Basic { code, text } => kw("+ ") + spec_encode_resp_text(
            code,
            text,
        ) + spec_crlf_bytes(),
        CommandContinuationRequestModel::Base64(data) => kw("+ ")
            + crate::strings::base64_encoded(data) + spec_crlf_bytes(),
    }
}

impl Encoder for CommandContinuationRequest {
    open spec fn wire(v: CommandContinuationRequestModel) -> Seq<u8> {
        spec_encode_continue(v)
    }

    fn encode_into(&self, out: &mut Vec<u8>) {
        let s = Ghost(out@);
        put_str(out, "+ ");
        let d = Ghost(kw("+ "));
        match self {
            CommandContinuationRequest::Basic { code, text } => {
                encode_resp_text(code, text, out);
                let d = appended(
                    s,
                    d,
                    Ghost(spec_encode_resp_text(code.deep_view(), text.deep_view())),
                );
                let d = emit_crlf(out, s, d);
            },
            CommandContinuationRequest::Base64(data) => {
                let encoded = crate::strings::encode_base64(data.as_slice());
                put(out, encoded.as_slice());
                let d = appended(s, d, Ghost(crate::strings::base64_encoded(data@)));
                let d = emit_crlf(out, s, d);
            },
        }
    }
}

/// A response as one line, or as several where it holds literals.
pub open spec fn spec_encode_response(r: ResponseModel) -> Seq<u8> {
    match r {
        ResponseModel::CommandContinuationRequest(c) => spec_encode_continue(c),
        ResponseModel::Data(d) => spec_encode_data(d),
        ResponseModel::Status(s) => spec_encode_status(s),
    }
}

impl Encoder for Response {
    open spec fn wire(v: ResponseModel) -> Seq<u8> {
        spec_encode_response(v)
    }

    fn encode_into(&self, out: &mut Vec<u8>) {
        match self {
            Response::CommandContinuationRequest(c) => c.encode_into(out),
            Response::Data(d) => d.encode_into(out),
            Response::Status(s) => s.encode_into(out),
        }
    }
}

} // verus!

verus! {

/// Why a text cannot stand in a continuation request.
#[derive(Debug, Clone, Copy, PartialEq, Eq, Structural)]
pub enum ContinueError {
    /// The text begins with a bracket and no code is given, or the written
    /// form is valid base64: a reader would take it for something else.
    Ambiguity,
}

impl CommandContinuationRequest {
    /// The request that carries `data`.
    pub fn base64(data: Vec<u8>) -> (r: CommandContinuationRequest)
        ensures
            r.deep_view() == CommandContinuationRequestModel::Base64(data@),
    {
        CommandContinuationRequest::Base64(data)
    }

    /// Gives the request with the code and the text, once the decoding of
    /// their written form is known: the request is refused if the text
    /// begins with a bracket without a code before it, or if the written
    /// form is valid base64.
    pub fn basic_checked(code: Option<Code>, text: Text, decoded: Option<Vec<u8>>) -> (r: Result<
        CommandContinuationRequest,
        ContinueError,
    >)
        ensures
            r is Ok <==> decoded is None && (code is Some || text.deep_view()[0] != '[' as u8),
            r matches Ok(c) ==> c.deep_view() == (CommandContinuationRequestModel::Basic {
                code: code.deep_view(),
                text: text.deep_view(),
            }),
    {
        let bracket = text.as_bytes()[0] == '[' as u8;
        if decoded.is_some() || (code.is_none() && bracket) {
            Err(ContinueError::Ambiguity)
        } else {
            Ok(CommandContinuationRequest::Basic { code, text })
        }
    }

    /// The request with the code and the text, unless a reader would take
    /// its written form for something else.
    pub fn basic(code: Option<Code>, text: Text) -> (r: Result<
        CommandContinuationRequest,
        ContinueError,
    >)
        ensures
            r is Ok <==> crate::strings::base64_decoded(
                spec_encode_resp_text(code.deep_view(), text.deep_view()),
            ) is None && (code is Some || text.deep_view()[0] != '[' as u8),
            r matches Ok(c) ==> c.deep_view() == (CommandContinuationRequestModel::Basic {
                code: code.deep_view(),
                text: text.deep_view(),
            }),
    {
        let mut written: Vec<u8> = Vec::new();
        encode_resp_text(&code, &text, &mut written);
        assert(written@ =~= spec_encode_resp_text(code.deep_view(), text.deep_view()));
        let decoded = crate::strings::decode_base64(written.as_slice());
        CommandContinuationRequest::basic_checked(code, text, decoded)
    }
}

/// The line that carries `data` in an authentication exchange. Reading the
/// line gives the data back, whatever the quirks.
pub fn base64_line(data: &[u8], quirks: Quirks) -> (r: Vec<u8>)
    ensures
        r@ == spec_encode_continue(CommandContinuationRequestModel::Base64(data@)),
        spec_continue_req(r@, quirks) == Ok::<_, ParseError>(
            (Seq::<u8>::empty(), CommandContinuationRequestModel::Base64(data@)),
        ),
{
    let text = crate::strings::encode_base64(data);
    let mut out: Vec<u8> = Vec::new();
    put_str(&mut out, "+ ");
    put(&mut out, text.as_slice());
    out.push('\r' as u8);
    out.push('\n' as u8);
    proof {
        let c = CommandContinuationRequestModel::Base64(data@);
        assert(out@ =~= spec_encode_continue(c));
        crate::theorems::continuation::lemma_continue_roundtrip(c, quirks);
    }
    out
}

} // verus!
