//! Message flags and mailbox name attributes.

use crate::codec::Encoder;
use crate::error::{agrees, error, error_at, Category, IMAPResult, ParseError, SpecResult};
use crate::lex::{
    byte, bytes_eq_ignore_case, eq_ignore_case, kw, put_str, spec_byte, spec_tag, tag,
};
use crate::list::{
    encode_joined, separated0, separated1, spec_separated0, spec_separated1, spec_wire_joined, Rule,
};
use crate::strings::{atom, spec_atom, Atom};
use vstd::prelude::*;
use vstd::string::*;

verus! {

/// The flags that the protocol defines for every message.
#[derive(Debug, Clone, Copy, PartialEq, Eq, Hash, Structural)]
pub enum SystemFlag {
    Answered,
    Deleted,
    Draft,
    Flagged,
    Seen,
}

/// A message flag.
#[derive(Debug, Clone, PartialEq, Eq, Hash)]
pub enum Flag {
    /// One of the system flags.
    System(SystemFlag),
    /// `"\" atom` with a name that is no system flag.
    Extension(Atom),
    /// A keyword: an atom without a backslash.
    Keyword(Atom),
    /// `\Recent`, which only responses carry.
    Recent,
}

/// A flag as a mathematical value.
pub enum FlagModel {
    System(SystemFlag),
    Extension(Seq<u8>),
    Keyword(Seq<u8>),
    Recent,
}

/// A flag that a client may store for good, or `\*` for "any keyword".
#[derive(Debug, Clone, PartialEq, Eq, Hash)]
pub enum FlagPerm {
    Flag(Flag),
    Asterisk,
}

/// A permanent flag as a mathematical value.
pub enum FlagPermModel {
    Flag(FlagModel),
    Asterisk,
}

/// An attribute of a mailbox name in a LIST or LSUB response.
#[derive(Debug, Clone, PartialEq, Eq, Hash)]
pub enum FlagNameAttribute {
    Noinferiors,
    Noselect,
    Marked,
    Unmarked,
    /// `"\" atom` with a name that is none of the four above.
    Extension(Atom),
}

/// A mailbox name attribute as a mathematical value.
pub enum FlagNameAttributeModel {
    Noinferiors,
    Noselect,
    Marked,
    Unmarked,
    Extension(Seq<u8>),
}

impl DeepView for SystemFlag {
    type V = SystemFlag;

    open spec fn deep_view(&self) -> SystemFlag {
        *self
    }
}

impl DeepView for Flag {
    type V = FlagModel;

    open spec fn deep_view(&self) -> FlagModel {
        match self {
            Flag::System(f) => FlagModel::System(*f),
            Flag::Extension(a) => FlagModel::Extension(a.deep_view()),
            Flag::Keyword(a) => FlagModel::Keyword(a.deep_view()),
            Flag::Recent => FlagModel::Recent,
        }
    }
}

impl DeepView for FlagPerm {
    type V = FlagPermModel;

    open spec fn deep_view(&self) -> FlagPermModel {
        match self {
            FlagPerm::Flag(f) => FlagPermModel::Flag(f.deep_view()),
            FlagPerm::Asterisk => FlagPermModel::Asterisk,
        }
    }
}

impl DeepView for FlagNameAttribute {
    type V = FlagNameAttributeModel;

    open spec fn deep_view(&self) -> FlagNameAttributeModel {
        match self {
            FlagNameAttribute::Noinferiors => FlagNameAttributeModel::Noinferiors,
            FlagNameAttribute::Noselect => FlagNameAttributeModel::Noselect,
            FlagNameAttribute::Marked => FlagNameAttributeModel::Marked,
            FlagNameAttribute::Unmarked => FlagNameAttributeModel::Unmarked,
            FlagNameAttribute::Extension(a) => FlagNameAttributeModel::Extension(a.deep_view()),
        }
    }
}

/// The flag that the atom behind a backslash names: a system flag where the
/// atom is its name in any mix of case.
pub open spec fn spec_flag_from(a: Seq<u8>) -> FlagModel {
    if eq_ignore_case(a, kw("ANSWERED")) {
        FlagModel::System(SystemFlag::Answered)
    } else if eq_ignore_case(a, kw("DELETED")) {
        FlagModel::System(SystemFlag::Deleted)
    } else if eq_ignore_case(a, kw("DRAFT")) {
        FlagModel::System(SystemFlag::Draft)
    } else if eq_ignore_case(a, kw("FLAGGED")) {
        FlagModel::System(SystemFlag::Flagged)
    } else if eq_ignore_case(a, kw("SEEN")) {
        FlagModel::System(SystemFlag::Seen)
    } else {
        FlagModel::Extension(a)
    }
}

/// The mailbox name attribute that the atom behind a backslash names.
pub open spec fn spec_name_attribute_from(a: Seq<u8>) -> FlagNameAttributeModel {
    if eq_ignore_case(a, kw("Noinferiors")) {
        FlagNameAttributeModel::Noinferiors
    } else if eq_ignore_case(a, kw("Noselect")) {
        FlagNameAttributeModel::Noselect
    } else if eq_ignore_case(a, kw("Marked")) {
        FlagNameAttributeModel::Marked
    } else if eq_ignore_case(a, kw("Unmarked")) {
        FlagNameAttributeModel::Unmarked
    } else {
        FlagNameAttributeModel::Extension(a)
    }
}

/// `"\" atom`
pub open spec fn spec_backslash_atom(s: Seq<u8>) -> SpecResult<Seq<u8>> {
    match spec_byte(s, '\\' as u8) {
        Err(e) => Err(e),
        Ok((rest, _)) => spec_atom(rest),
    }
}

/// `flag = "\Answered" / "\Flagged" / "\Deleted" / "\Seen" / "\Draft" / flag-keyword / flag-extension`
pub open spec fn spec_flag(s: Seq<u8>) -> SpecResult<FlagModel> {
    match spec_backslash_atom(s) {
        Ok((rest, a)) => Ok((rest, spec_flag_from(a))),
        Err(ParseError::Error(_)) => match spec_atom(s) {
            Ok((rest, a)) => Ok((rest, FlagModel::Keyword(a))),
            Err(e) => Err(e),
        },
        Err(e) => Err(e),
    }
}

/// `flag-fetch = flag / "\Recent"`
pub open spec fn spec_flag_fetch(s: Seq<u8>) -> SpecResult<FlagModel> {
    match spec_backslash_atom(s) {
        Ok((rest, a)) => if eq_ignore_case(a, kw("RECENT")) {
            Ok((rest, FlagModel::Recent))
        } else {
            spec_flag(s)
        },
        _ => spec_flag(s),
    }
}

/// `flag-perm = flag / "\*"`
pub open spec fn spec_flag_perm(s: Seq<u8>) -> SpecResult<FlagPermModel> {
    match spec_tag(s, kw("\\*")) {
        Ok((rest, _)) => Ok((rest, FlagPermModel::Asterisk)),
        Err(ParseError::Error(_)) => match spec_flag(s) {
            Ok((rest, f)) => Ok((rest, FlagPermModel::Flag(f))),
            Err(e) => Err(e),
        },
        Err(e) => Err(e),
    }
}

/// One mailbox name attribute: `"\" atom`.
pub open spec fn spec_name_attribute(s: Seq<u8>) -> SpecResult<FlagNameAttributeModel> {
    match spec_backslash_atom(s) {
        Err(e) => Err(e),
        Ok((rest, a)) => Ok((rest, spec_name_attribute_from(a))),
    }
}

/// Whether the attribute says if the mailbox can be selected or is marked:
/// the attributes of which a mailbox has at most one.
pub open spec fn spec_is_selectability(f: FlagNameAttributeModel) -> bool {
    f is Noselect || f is Marked || f is Unmarked
}

/// How many of the attributes are selectability attributes.
pub open spec fn spec_selectability_count(items: Seq<FlagNameAttributeModel>) -> nat
    decreases items.len(),
{
    if items.len() == 0 {
        0
    } else {
        spec_selectability_count(items.drop_last()) + if spec_is_selectability(items.last()) {
            1nat
        } else {
            0nat
        }
    }
}

/// The rule `flag`.
pub struct FlagRule;

/// The rule `flag-fetch`.
pub struct FlagFetchRule;

/// The rule `flag-perm`.
pub struct FlagPermRule;

/// The rule for one mailbox name attribute.
pub struct NameAttributeRule;

/// `flag-list = "(" [flag *(SP flag)] ")"`
pub open spec fn spec_flag_list(s: Seq<u8>) -> SpecResult<Seq<FlagModel>> {
    match spec_byte(s, '(' as u8) {
        Err(e) => Err(e),
        Ok((r1, _)) => match spec_separated0::<FlagRule>(r1, ' ' as u8) {
            Err(e) => Err(e),
            Ok((r2, flags)) => match spec_byte(r2, ')' as u8) {
                Err(e) => Err(e),
                Ok((r3, _)) => Ok((r3, flags)),
            },
        },
    }
}

/// `mbx-list-flags`: one or more attributes separated by spaces, in the
/// order in which they were written, of which at most one is a
/// selectability attribute.
pub open spec fn spec_mbx_list_flags(s: Seq<u8>) -> SpecResult<Seq<FlagNameAttributeModel>> {
    match spec_separated1::<NameAttributeRule>(s, ' ' as u8) {
        Err(e) => Err(e),
        Ok((rest, items)) => if spec_selectability_count(items) <= 1 {
            Ok((rest, items))
        } else {
            Err(error_at(Category::CharacterClass, s))
        },
    }
}

/// Parses `"\" atom`.
pub fn backslash_atom<'a>(input: &'a [u8]) -> (r: IMAPResult<'a, Atom>)
    ensures
        agrees(r, spec_backslash_atom(input@)),
{
    let (rest, _) = byte(input, '\\' as u8)?;
    atom(rest)
}

impl Flag {
    /// The flag that the atom behind a backslash names.
    pub fn system(a: Atom) -> (r: Flag)
        ensures
            r.deep_view() == spec_flag_from(a.deep_view()),
    {
        let name = a.as_bytes();
        if bytes_eq_ignore_case(name, "ANSWERED".as_bytes()) {
            Flag::System(SystemFlag::Answered)
        } else if bytes_eq_ignore_case(name, "DELETED".as_bytes()) {
            Flag::System(SystemFlag::Deleted)
        } else if bytes_eq_ignore_case(name, "DRAFT".as_bytes()) {
            Flag::System(SystemFlag::Draft)
        } else if bytes_eq_ignore_case(name, "FLAGGED".as_bytes()) {
            Flag::System(SystemFlag::Flagged)
        } else if bytes_eq_ignore_case(name, "SEEN".as_bytes()) {
            Flag::System(SystemFlag::Seen)
        } else {
            Flag::Extension(a)
        }
    }
}

impl FlagNameAttribute {
    /// The attribute that the atom behind a backslash names.
    pub fn from(a: Atom) -> (r: FlagNameAttribute)
        ensures
            r.deep_view() == spec_name_attribute_from(a.deep_view()),
    {
        let name = a.as_bytes();
        if bytes_eq_ignore_case(name, "Noinferiors".as_bytes()) {
            FlagNameAttribute::Noinferiors
        } else if bytes_eq_ignore_case(name, "Noselect".as_bytes()) {
            FlagNameAttribute::Noselect
        } else if bytes_eq_ignore_case(name, "Marked".as_bytes()) {
            FlagNameAttribute::Marked
        } else if bytes_eq_ignore_case(name, "Unmarked".as_bytes()) {
            FlagNameAttribute::Unmarked
        } else {
            FlagNameAttribute::Extension(a)
        }
    }

    /// Whether the attribute is one of which a mailbox has at most one.
    pub fn is_selectability(&self) -> (r: bool)
        ensures
            r == spec_is_selectability(self.deep_view()),
    {
        match self {
            FlagNameAttribute::Noselect | FlagNameAttribute::Marked | FlagNameAttribute::Unmarked => true,
            _ => false,
        }
    }
}

/// Parses a `flag`.
pub fn flag<'a>(input: &'a [u8]) -> (r: IMAPResult<'a, Flag>)
    ensures
        agrees(r, spec_flag(input@)),
{
    match backslash_atom(input) {
        Ok((rest, a)) => Ok((rest, Flag::system(a))),
        Err(ParseError::Error(_)) => match atom(input) {
            Ok((rest, a)) => Ok((rest, Flag::Keyword(a))),
            Err(e) => Err(e),
        },
        Err(e) => Err(e),
    }
}

/// Parses a `flag-fetch`.
pub fn flag_fetch<'a>(input: &'a [u8]) -> (r: IMAPResult<'a, Flag>)
    ensures
        agrees(r, spec_flag_fetch(input@)),
{
    match backslash_atom(input) {
        Ok((rest, a)) => if bytes_eq_ignore_case(a.as_bytes(), "RECENT".as_bytes()) {
            Ok((rest, Flag::Recent))
        } else {
            flag(input)
        },
        _ => flag(input),
    }
}

/// Parses a `flag-perm`.
pub fn flag_perm<'a>(input: &'a [u8]) -> (r: IMAPResult<'a, FlagPerm>)
    ensures
        agrees(r, spec_flag_perm(input@)),
{
    match tag(input, "\\*") {
        Ok((rest, _)) => Ok((rest, FlagPerm::Asterisk)),
        Err(ParseError::Error(_)) => match flag(input) {
            Ok((rest, f)) => Ok((rest, FlagPerm::Flag(f))),
            Err(e) => Err(e),
        },
        Err(e) => Err(e),
    }
}

/// Parses one mailbox name attribute.
pub fn name_attribute<'a>(input: &'a [u8]) -> (r: IMAPResult<'a, FlagNameAttribute>)
    ensures
        agrees(r, spec_name_attribute(input@)),
{
    let (rest, a) = backslash_atom(input)?;
    Ok((rest, FlagNameAttribute::from(a)))
}

impl Rule for FlagRule {
    type Out = Flag;

    open spec fn rule(s: Seq<u8>) -> SpecResult<FlagModel> {
        spec_flag(s)
    }

    fn parse<'a>(input: &'a [u8]) -> (r: IMAPResult<'a, Flag>) {
        flag(input)
    }
}

impl Rule for FlagFetchRule {
    type Out = Flag;

    open spec fn rule(s: Seq<u8>) -> SpecResult<FlagModel> {
        spec_flag_fetch(s)
    }

    fn parse<'a>(input: &'a [u8]) -> (r: IMAPResult<'a, Flag>) {
        flag_fetch(input)
    }
}

impl Rule for FlagPermRule {
    type Out = FlagPerm;

    open spec fn rule(s: Seq<u8>) -> SpecResult<FlagPermModel> {
        spec_flag_perm(s)
    }

    fn parse<'a>(input: &'a [u8]) -> (r: IMAPResult<'a, FlagPerm>) {
        flag_perm(input)
    }
}

impl Rule for NameAttributeRule {
    type Out = FlagNameAttribute;

    open spec fn rule(s: Seq<u8>) -> SpecResult<FlagNameAttributeModel> {
        spec_name_attribute(s)
    }

    fn parse<'a>(input: &'a [u8]) -> (r: IMAPResult<'a, FlagNameAttribute>) {
        name_attribute(input)
    }
}

/// Parses a `flag-list`.
pub fn flag_list<'a>(input: &'a [u8]) -> (r: IMAPResult<'a, Vec<Flag>>)
    ensures
        agrees(r, spec_flag_list(input@)),
{
    let (r1, _) = byte(input, '(' as u8)?;
    let (r2, flags) = separated0::<FlagRule>(r1, ' ' as u8)?;
    let (r3, _) = byte(r2, ')' as u8)?;
    Ok((r3, flags))
}

/// How many of the attributes are selectability attributes, counted up to
/// two.
pub fn selectability_count(items: &[FlagNameAttribute]) -> (n: usize)
    ensures
        n == if spec_selectability_count(items.deep_view()) <= 1 {
            spec_selectability_count(items.deep_view())
        } else {
            2
        },
{
    let ghost all = items.deep_view();
    let mut n: usize = 0;
    let mut i: usize = 0;
    while i < items.len()
        invariant
            i <= items.len(),
            all == items.deep_view(),
            n <= 2,
            n == if spec_selectability_count(all.take(i as int)) <= 1 {
                spec_selectability_count(all.take(i as int))
            } else {
                2
            },
        decreases items.len() - i,
    {
        proof {
            let t = all.take(i + 1);
            assert(t.drop_last() =~= all.take(i as int));
            assert(t.last() == items@[i as int].deep_view());
        }
        if items[i].is_selectability() && n < 2 {
            n += 1;
        }
        i += 1;
    }
    assert(all.take(i as int) =~= all);
    n
}

/// Parses `mbx-list-flags`.
pub fn mbx_list_flags<'a>(input: &'a [u8]) -> (r: IMAPResult<'a, Vec<FlagNameAttribute>>)
    ensures
        agrees(r, spec_mbx_list_flags(input@)),
{
    let (rest, items) = separated1::<NameAttributeRule>(input, ' ' as u8)?;
    if selectability_count(items.as_slice()) <= 1 {
        Ok((rest, items))
    } else {
        Err(error(Category::CharacterClass, input))
    }
}

/// A system flag under its name, in upper case.
pub open spec fn spec_encode_system_flag(f: SystemFlag) -> Seq<u8> {
    match f {
        SystemFlag::Answered => kw("\\ANSWERED"),
        SystemFlag::Deleted => kw("\\DELETED"),
        SystemFlag::Draft => kw("\\DRAFT"),
        SystemFlag::Flagged => kw("\\FLAGGED"),
        SystemFlag::Seen => kw("\\SEEN"),
    }
}

/// A flag: system flags and `\RECENT` in upper case, other names as they
/// are.
pub open spec fn spec_encode_flag(f: FlagModel) -> Seq<u8> {
    match f {
        FlagModel::System(s) => spec_encode_system_flag(s),
        FlagModel::Extension(a) => seq!['\\' as u8] + a,
        FlagModel::Keyword(a) => a,
        FlagModel::Recent => kw("\\RECENT"),
    }
}

/// A permanent flag.
pub open spec fn spec_encode_flag_perm(f: FlagPermModel) -> Seq<u8> {
    match f {
        FlagPermModel::Flag(f) => spec_encode_flag(f),
        FlagPermModel::Asterisk => kw("\\*"),
    }
}

/// A mailbox name attribute.
pub open spec fn spec_encode_name_attribute(f: FlagNameAttributeModel) -> Seq<u8> {
    match f {
        FlagNameAttributeModel::Noinferiors => kw("\\Noinferiors"),
        FlagNameAttributeModel::Noselect => kw("\\Noselect"),
        FlagNameAttributeModel::Marked => kw("\\Marked"),
        FlagNameAttributeModel::Unmarked => kw("\\Unmarked"),
        FlagNameAttributeModel::Extension(a) => seq!['\\' as u8] + a,
    }
}

/// A list of flags in parentheses.
pub open spec fn spec_encode_flag_list(flags: Seq<FlagModel>) -> Seq<u8> {
    seq!['(' as u8] + spec_wire_joined::<Flag>(flags, ' ' as u8) + seq![')' as u8]
}

impl Encoder for Flag {
    open spec fn wire(v: FlagModel) -> Seq<u8> {
        spec_encode_flag(v)
    }

    fn encode_into(&self, out: &mut Vec<u8>) {
        match self {
            Flag::System(SystemFlag::Answered) => put_str(out, "\\ANSWERED"),
            Flag::System(SystemFlag::Deleted) => put_str(out, "\\DELETED"),
            Flag::System(SystemFlag::Draft) => put_str(out, "\\DRAFT"),
            Flag::System(SystemFlag::Flagged) => put_str(out, "\\FLAGGED"),
            Flag::System(SystemFlag::Seen) => put_str(out, "\\SEEN"),
            Flag::Extension(a) => {
                let ghost start = out@;
                out.push('\\' as u8);
                a.encode_into(out);
                assert(out@ =~= start + spec_encode_flag(self.deep_view()));
            },
            Flag::Keyword(a) => a.encode_into(out),
            Flag::Recent => put_str(out, "\\RECENT"),
        }
    }
}

impl Encoder for FlagPerm {
    open spec fn wire(v: FlagPermModel) -> Seq<u8> {
        spec_encode_flag_perm(v)
    }

    fn encode_into(&self, out: &mut Vec<u8>) {
        match self {
            FlagPerm::Flag(f) => f.encode_into(out),
            FlagPerm::Asterisk => put_str(out, "\\*"),
        }
    }
}

impl Encoder for FlagNameAttribute {
    open spec fn wire(v: FlagNameAttributeModel) -> Seq<u8> {
        spec_encode_name_attribute(v)
    }

    fn encode_into(&self, out: &mut Vec<u8>) {
        match self {
            FlagNameAttribute::Noinferiors => put_str(out, "\\Noinferiors"),
            FlagNameAttribute::Noselect => put_str(out, "\\Noselect"),
            FlagNameAttribute::Marked => put_str(out, "\\Marked"),
            FlagNameAttribute::Unmarked => put_str(out, "\\Unmarked"),
            FlagNameAttribute::Extension(a) => {
                let ghost start = out@;
                out.push('\\' as u8);
                a.encode_into(out);
                assert(out@ =~= start + spec_encode_name_attribute(self.deep_view()));
            },
        }
    }
}

/// Appends a list of flags in parentheses.
pub fn encode_flag_list(flags: &[Flag], out: &mut Vec<u8>)
    ensures
        final(out)@ == old(out)@ + spec_encode_flag_list(flags.deep_view()),
{
    let ghost start = out@;
    out.push('(' as u8);
    encode_joined::<Flag>(flags, ' ' as u8, out);
    out.push(')' as u8);
    assert(out@ =~= start + spec_encode_flag_list(flags.deep_view()));
}

} // verus!
