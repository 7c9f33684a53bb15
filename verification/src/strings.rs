//! The string domain: atoms, quoted strings, literals and the types built
//! from them, each with its validation, its grammar rule, its parser and its
//! encoder.

use crate::codec::Encoder;
use crate::error::{
    agrees, error, error_at, failure, failure_at, Category, IMAPResult, ParseError, SpecResult,
};
use crate::lex::{
    byte, crlf, dquote, kw, lemma_span_bounds, put, put_str, run_length, skip, span, spec_byte,
    spec_crlf, spec_dquote, spec_tag, spec_tag_no_case, spec_take_while, spec_take_while1, tag,
    tag_no_case, take, take_while, take_while1, CharClass,
};
use crate::list::Rule;
use crate::number::{encode_number, number, spec_digits, spec_number};
use base64::engine::general_purpose::STANDARD;
use base64::Engine;
use vstd::prelude::*;
use vstd::slice::*;
use vstd::string::*;

verus! {

/// The largest literal that the codec accepts, in bytes.
pub const MAX_LITERAL_LEN: u32 = 268_435_456;

/// Why bytes were refused as the content of a validated type.
#[derive(Debug, Clone, Copy, PartialEq, Eq, Structural)]
pub enum ValidationError {
    /// The type holds at least one byte and none was given.
    Empty,
    /// The byte `found` at `position` is outside the type's character class.
    ByteNotAllowed { found: u8, position: usize },
    /// More bytes than the type can hold.
    TooLong,
}

/// The outcome of checking `s` as a run of bytes of `class`, which must not be empty
/// when `nonempty` is set: the first offending byte is reported.
pub open spec fn spec_validate(s: Seq<u8>, class: CharClass, nonempty: bool) -> Result<
    (),
    ValidationError,
> {
    let n = span(s, class);
    if nonempty && s.len() == 0 {
        Err(ValidationError::Empty)
    } else if n < s.len() {
        Err(ValidationError::ByteNotAllowed { found: s[n as int], position: n as usize })
    } else {
        Ok(())
    }
}

/// Checks `bytes` as a run of bytes of `class`.
pub fn validate(bytes: &[u8], class: CharClass, nonempty: bool) -> (r: Result<(), ValidationError>)
    ensures
        r == spec_validate(bytes@, class, nonempty),
        r is Ok ==> class.all(bytes@) && (nonempty ==> bytes@.len() >= 1),
{
    let n = run_length(bytes, class);
    proof {
        lemma_span_bounds(bytes@, class);
    }
    if nonempty && bytes.len() == 0 {
        Err(ValidationError::Empty)
    } else if n < bytes.len() {
        Err(ValidationError::ByteNotAllowed { found: bytes[n], position: n })
    } else {
        Ok(())
    }
}

/// A sequence of bytes is an atom: one or more `ATOM-CHAR`.
pub open spec fn is_atom(s: Seq<u8>) -> bool {
    s.len() >= 1 && CharClass::Atom.all(s)
}

/// A sequence of bytes is an unquoted astring: one or more `ASTRING-CHAR`.
pub open spec fn is_atom_ext(s: Seq<u8>) -> bool {
    s.len() >= 1 && CharClass::AString.all(s)
}

/// A sequence of bytes is a tag: one or more `ASTRING-CHAR` except `+`.
pub open spec fn is_tag(s: Seq<u8>) -> bool {
    s.len() >= 1 && CharClass::Tag.all(s)
}

/// A sequence of bytes is a text: one or more `TEXT-CHAR`.
pub open spec fn is_text(s: Seq<u8>) -> bool {
    s.len() >= 1 && CharClass::Text.all(s)
}

/// A sequence of bytes can stand between double quotes: any number of
/// `TEXT-CHAR`.
pub open spec fn is_quoted(s: Seq<u8>) -> bool {
    CharClass::Text.all(s)
}

/// `atom = 1*ATOM-CHAR`
#[derive(Debug, PartialEq, Eq, Hash)]
pub struct Atom {
    inner: Vec<u8>,
}

/// `1*ASTRING-CHAR`: the unquoted form of an astring.
#[derive(Debug, PartialEq, Eq, Hash)]
pub struct AtomExt {
    inner: Vec<u8>,
}

/// `tag = 1*<any ASTRING-CHAR except "+">`
#[derive(Debug, PartialEq, Eq, Hash)]
pub struct Tag {
    inner: Vec<u8>,
}

/// `text = 1*TEXT-CHAR`
#[derive(Debug, PartialEq, Eq, Hash)]
pub struct Text {
    inner: Vec<u8>,
}

/// The content of a quoted string, without the quotes and the escapes.
#[derive(Debug, PartialEq, Eq, Hash)]
pub struct Quoted {
    inner: Vec<u8>,
}

/// One character of a quoted string, without its escape.
#[derive(Debug, Clone, Copy, PartialEq, Eq, Hash)]
pub struct QuotedChar {
    inner: u8,
}

/// Whether the receiver of a literal must invite its payload.
#[derive(Debug, Clone, Copy, PartialEq, Eq, Hash, Structural)]
pub enum LiteralMode {
    /// `{N}`: the sender waits for a continuation request.
    Sync,
    /// `{N+}`: the sender goes on without waiting.
    NonSync,
}

/// `literal = "{" number ["+"] "}" CRLF *CHAR8`: bytes framed by their count.
#[derive(Debug, PartialEq, Eq, Hash)]
pub struct Literal {
    data: Vec<u8>,
    mode: LiteralMode,
}

/// A literal as a mathematical value.
pub struct LiteralModel {
    pub data: Seq<u8>,
    pub mode: LiteralMode,
}

/// `string = quoted / literal`
#[derive(Debug, Clone, PartialEq, Eq, Hash)]
pub enum IString {
    Literal(Literal),
    Quoted(Quoted),
}

/// A string as a mathematical value.
pub enum IStringModel {
    Literal(LiteralModel),
    Quoted(Seq<u8>),
}

/// `nstring = string / nil`
#[derive(Debug, Clone, PartialEq, Eq, Hash)]
pub struct NString(pub Option<IString>);

/// `astring = 1*ASTRING-CHAR / string`
#[derive(Debug, Clone, PartialEq, Eq, Hash)]
pub enum AString {
    Atom(AtomExt),
    String(IString),
}

/// An astring as a mathematical value.
pub enum AStringModel {
    Atom(Seq<u8>),
    String(IStringModel),
}

/// `charset = atom / quoted`
#[derive(Debug, Clone, PartialEq, Eq, Hash)]
pub enum Charset {
    Atom(Atom),
    Quoted(Quoted),
}

/// A charset as a mathematical value.
pub enum CharsetModel {
    Atom(Seq<u8>),
    Quoted(Seq<u8>),
}

impl DeepView for Atom {
    type V = Seq<u8>;

    closed spec fn deep_view(&self) -> Seq<u8> {
        self.inner@
    }
}

impl DeepView for AtomExt {
    type V = Seq<u8>;

    closed spec fn deep_view(&self) -> Seq<u8> {
        self.inner@
    }
}

impl DeepView for Tag {
    type V = Seq<u8>;

    closed spec fn deep_view(&self) -> Seq<u8> {
        self.inner@
    }
}

impl DeepView for Text {
    type V = Seq<u8>;

    closed spec fn deep_view(&self) -> Seq<u8> {
        self.inner@
    }
}

impl DeepView for Quoted {
    type V = Seq<u8>;

    closed spec fn deep_view(&self) -> Seq<u8> {
        self.inner@
    }
}

impl DeepView for QuotedChar {
    type V = u8;

    closed spec fn deep_view(&self) -> u8 {
        self.inner
    }
}

impl DeepView for LiteralMode {
    type V = LiteralMode;

    open spec fn deep_view(&self) -> LiteralMode {
        *self
    }
}

impl DeepView for Literal {
    type V = LiteralModel;

    closed spec fn deep_view(&self) -> LiteralModel {
        LiteralModel { data: self.data@, mode: self.mode }
    }
}

impl DeepView for IString {
    type V = IStringModel;

    open spec fn deep_view(&self) -> IStringModel {
        match self {
            IString::Literal(l) => IStringModel::Literal(l.deep_view()),
            IString::Quoted(q) => IStringModel::Quoted(q.deep_view()),
        }
    }
}

impl DeepView for NString {
    type V = Option<IStringModel>;

    open spec fn deep_view(&self) -> Option<IStringModel> {
        self.0.deep_view()
    }
}

impl DeepView for AString {
    type V = AStringModel;

    open spec fn deep_view(&self) -> AStringModel {
        match self {
            AString::Atom(a) => AStringModel::Atom(a.deep_view()),
            AString::String(s) => AStringModel::String(s.deep_view()),
        }
    }
}

impl DeepView for Charset {
    type V = CharsetModel;

    open spec fn deep_view(&self) -> CharsetModel {
        match self {
            Charset::Atom(a) => CharsetModel::Atom(a.deep_view()),
            Charset::Quoted(q) => CharsetModel::Quoted(q.deep_view()),
        }
    }
}

impl Clone for Atom {
    fn clone(&self) -> (r: Self)
        ensures
            r.deep_view() == self.deep_view(),
    {
        proof {
            use_type_invariant(self);
        }
        Atom { inner: slice_to_vec(self.inner.as_slice()) }
    }
}

impl Clone for AtomExt {
    fn clone(&self) -> (r: Self)
        ensures
            r.deep_view() == self.deep_view(),
    {
        proof {
            use_type_invariant(self);
        }
        AtomExt { inner: slice_to_vec(self.inner.as_slice()) }
    }
}

impl Clone for Tag {
    fn clone(&self) -> (r: Self)
        ensures
            r.deep_view() == self.deep_view(),
    {
        proof {
            use_type_invariant(self);
        }
        Tag { inner: slice_to_vec(self.inner.as_slice()) }
    }
}

impl Clone for Text {
    fn clone(&self) -> (r: Self)
        ensures
            r.deep_view() == self.deep_view(),
    {
        proof {
            use_type_invariant(self);
        }
        Text { inner: slice_to_vec(self.inner.as_slice()) }
    }
}

impl Clone for Quoted {
    fn clone(&self) -> (r: Self)
        ensures
            r.deep_view() == self.deep_view(),
    {
        proof {
            use_type_invariant(self);
        }
        Quoted { inner: slice_to_vec(self.inner.as_slice()) }
    }
}

impl Clone for Literal {
    fn clone(&self) -> (r: Self)
        ensures
            r.deep_view() == self.deep_view(),
    {
        proof {
            use_type_invariant(self);
        }
        Literal { data: slice_to_vec(self.data.as_slice()), mode: self.mode }
    }
}

impl Atom {
    #[verifier::type_invariant]
    spec fn valid(self) -> bool {
        is_atom(self.inner@)
    }

    /// The atom made of `bytes`, or why they are no atom.
    pub fn try_from(bytes: &[u8]) -> (r: Result<Atom, ValidationError>)
        ensures
            match r {
                Ok(a) => is_atom(bytes@) && a.deep_view() == bytes@,
                Err(e) => spec_validate(bytes@, CharClass::Atom, true) == Err::<(), _>(e),
            },
            r is Ok <==> is_atom(bytes@),
    {
        match validate(bytes, CharClass::Atom, true) {
            Ok(()) => Ok(Atom { inner: slice_to_vec(bytes) }),
            Err(e) => {
                proof {
                    lemma_span_bounds(bytes@, CharClass::Atom);
                }
                Err(e)
            },
        }
    }

    /// The bytes of the atom.
    pub fn as_bytes(&self) -> (r: &[u8])
        ensures
            r@ == self.deep_view(),
            is_atom(r@),
    {
        proof {
            use_type_invariant(self);
        }
        self.inner.as_slice()
    }
}

impl AtomExt {
    #[verifier::type_invariant]
    spec fn valid(self) -> bool {
        is_atom_ext(self.inner@)
    }

    /// The unquoted astring made of `bytes`, or why they are none.
    pub fn try_from(bytes: &[u8]) -> (r: Result<AtomExt, ValidationError>)
        ensures
            match r {
                Ok(a) => is_atom_ext(bytes@) && a.deep_view() == bytes@,
                Err(e) => spec_validate(bytes@, CharClass::AString, true) == Err::<(), _>(e),
            },
            r is Ok <==> is_atom_ext(bytes@),
    {
        match validate(bytes, CharClass::AString, true) {
            Ok(()) => Ok(AtomExt { inner: slice_to_vec(bytes) }),
            Err(e) => {
                proof {
                    lemma_span_bounds(bytes@, CharClass::AString);
                }
                Err(e)
            },
        }
    }

    /// The bytes of the unquoted astring.
    pub fn as_bytes(&self) -> (r: &[u8])
        ensures
            r@ == self.deep_view(),
            is_atom_ext(r@),
    {
        proof {
            use_type_invariant(self);
        }
        self.inner.as_slice()
    }
}

impl Tag {
    #[verifier::type_invariant]
    spec fn valid(self) -> bool {
        is_tag(self.inner@)
    }

    /// The tag made of `bytes`, or why they are no tag.
    pub fn try_from(bytes: &[u8]) -> (r: Result<Tag, ValidationError>)
        ensures
            match r {
                Ok(a) => is_tag(bytes@) && a.deep_view() == bytes@,
                Err(e) => spec_validate(bytes@, CharClass::Tag, true) == Err::<(), _>(e),
            },
            r is Ok <==> is_tag(bytes@),
    {
        match validate(bytes, CharClass::Tag, true) {
            Ok(()) => Ok(Tag { inner: slice_to_vec(bytes) }),
            Err(e) => {
                proof {
                    lemma_span_bounds(bytes@, CharClass::Tag);
                }
                Err(e)
            },
        }
    }

    /// The bytes of the tag.
    pub fn as_bytes(&self) -> (r: &[u8])
        ensures
            r@ == self.deep_view(),
            is_tag(r@),
    {
        proof {
            use_type_invariant(self);
        }
        self.inner.as_slice()
    }
}

/// The text `...`, which stands in for a text that is missing.
pub open spec fn spec_placeholder_text() -> Seq<u8> {
    seq!['.' as u8, '.' as u8, '.' as u8]
}

impl Text {
    #[verifier::type_invariant]
    spec fn valid(self) -> bool {
        is_text(self.inner@)
    }

    /// The text `...`, which stands in for a text that is missing.
    pub fn placeholder() -> (r: Text)
        ensures
            r.deep_view() == spec_placeholder_text(),
    {
        let mut inner: Vec<u8> = Vec::new();
        inner.push('.' as u8);
        inner.push('.' as u8);
        inner.push('.' as u8);
        assert(inner@ =~= spec_placeholder_text());
        Text { inner }
    }

    /// The text made of `bytes`, or why they are no text.
    pub fn try_from(bytes: &[u8]) -> (r: Result<Text, ValidationError>)
        ensures
            match r {
                Ok(a) => is_text(bytes@) && a.deep_view() == bytes@,
                Err(e) => spec_validate(bytes@, CharClass::Text, true) == Err::<(), _>(e),
            },
            r is Ok <==> is_text(bytes@),
    {
        match validate(bytes, CharClass::Text, true) {
            Ok(()) => Ok(Text { inner: slice_to_vec(bytes) }),
            Err(e) => {
                proof {
                    lemma_span_bounds(bytes@, CharClass::Text);
                }
                Err(e)
            },
        }
    }

    /// The bytes of the text.
    pub fn as_bytes(&self) -> (r: &[u8])
        ensures
            r@ == self.deep_view(),
            is_text(r@),
    {
        proof {
            use_type_invariant(self);
        }
        self.inner.as_slice()
    }
}

impl Quoted {
    #[verifier::type_invariant]
    spec fn valid(self) -> bool {
        is_quoted(self.inner@)
    }

    /// The quoted string with the content `bytes`, or why they cannot be
    /// quoted.
    pub fn try_from(bytes: &[u8]) -> (r: Result<Quoted, ValidationError>)
        ensures
            match r {
                Ok(a) => is_quoted(bytes@) && a.deep_view() == bytes@,
                Err(e) => spec_validate(bytes@, CharClass::Text, false) == Err::<(), _>(e),
            },
            r is Ok <==> is_quoted(bytes@),
    {
        match validate(bytes, CharClass::Text, false) {
            Ok(()) => Ok(Quoted { inner: slice_to_vec(bytes) }),
            Err(e) => {
                proof {
                    lemma_span_bounds(bytes@, CharClass::Text);
                }
                Err(e)
            },
        }
    }

    /// The content of the quoted string.
    pub fn as_bytes(&self) -> (r: &[u8])
        ensures
            r@ == self.deep_view(),
            is_quoted(r@),
    {
        proof {
            use_type_invariant(self);
        }
        self.inner.as_slice()
    }
}

impl QuotedChar {
    #[verifier::type_invariant]
    spec fn valid(self) -> bool {
        CharClass::Text.spec_has(self.inner)
    }

    /// The quoted character `b`, unless it is no `TEXT-CHAR`.
    pub fn try_from(b: u8) -> (r: Result<QuotedChar, ValidationError>)
        ensures
            match r {
                Ok(c) => CharClass::Text.spec_has(b) && c.deep_view() == b,
                Err(e) => !CharClass::Text.spec_has(b) && e == (ValidationError::ByteNotAllowed {
                    found: b,
                    position: 0,
                }),
            },
    {
        if CharClass::Text.has(b) {
            Ok(QuotedChar { inner: b })
        } else {
            Err(ValidationError::ByteNotAllowed { found: b, position: 0 })
        }
    }

    /// The character as a byte.
    pub fn get(&self) -> (r: u8)
        ensures
            r == self.deep_view(),
            CharClass::Text.spec_has(r),
    {
        proof {
            use_type_invariant(self);
        }
        self.inner
    }
}

impl Literal {
    #[verifier::type_invariant]
    spec fn valid(self) -> bool {
        self.data@.len() <= MAX_LITERAL_LEN
    }

    /// The literal with the payload `bytes`, unless it is too long.
    pub fn try_from(bytes: &[u8], mode: LiteralMode) -> (r: Result<Literal, ValidationError>)
        ensures
            match r {
                Ok(l) => bytes@.len() <= MAX_LITERAL_LEN && l.deep_view() == (LiteralModel {
                    data: bytes@,
                    mode,
                }),
                Err(e) => bytes@.len() > MAX_LITERAL_LEN && e == ValidationError::TooLong,
            },
    {
        if bytes.len() <= MAX_LITERAL_LEN as usize {
            Ok(Literal { data: slice_to_vec(bytes), mode })
        } else {
            Err(ValidationError::TooLong)
        }
    }

    /// The payload.
    pub fn data(&self) -> (r: &[u8])
        ensures
            r@ == self.deep_view().data,
            r@.len() <= MAX_LITERAL_LEN,
    {
        proof {
            use_type_invariant(self);
        }
        self.data.as_slice()
    }

    /// Whether the payload must be invited.
    pub fn mode(&self) -> (r: LiteralMode)
        ensures
            r == self.deep_view().mode,
    {
        self.mode
    }
}

impl IString {
    /// The string with the content `bytes`: quoted where that is possible,
    /// a synchronizing literal otherwise.
    pub fn try_from(bytes: &[u8]) -> (r: Result<IString, ValidationError>)
        ensures
            match r {
                Ok(s) => s.deep_view() == if is_quoted(bytes@) {
                    IStringModel::Quoted(bytes@)
                } else {
                    IStringModel::Literal(LiteralModel { data: bytes@, mode: LiteralMode::Sync })
                },
                Err(e) => e == ValidationError::TooLong,
            },
            r is Err <==> !is_quoted(bytes@) && bytes@.len() > MAX_LITERAL_LEN,
    {
        match Quoted::try_from(bytes) {
            Ok(q) => Ok(IString::Quoted(q)),
            Err(_) => match Literal::try_from(bytes, LiteralMode::Sync) {
                Ok(l) => Ok(IString::Literal(l)),
                Err(e) => Err(e),
            },
        }
    }
}

impl NString {
    /// The string with the content `bytes`, as an nstring.
    pub fn try_from(bytes: &[u8]) -> (r: Result<NString, ValidationError>)
        ensures
            match r {
                Ok(s) => s.deep_view() == Some(
                    if is_quoted(bytes@) {
                        IStringModel::Quoted(bytes@)
                    } else {
                        IStringModel::Literal(
                            LiteralModel { data: bytes@, mode: LiteralMode::Sync },
                        )
                    },
                ),
                Err(e) => e == ValidationError::TooLong,
            },
            r is Err <==> !is_quoted(bytes@) && bytes@.len() > MAX_LITERAL_LEN,
    {
        match IString::try_from(bytes) {
            Ok(s) => Ok(NString(Some(s))),
            Err(e) => Err(e),
        }
    }
}

impl AString {
    /// The astring that stands for `bytes`: unquoted where that is
    /// possible, else quoted, else a synchronizing literal; none where the
    /// bytes are too many even for a literal.
    pub open spec fn spec_try_from(bytes: Seq<u8>) -> Option<AStringModel> {
        if is_atom_ext(bytes) {
            Some(AStringModel::Atom(bytes))
        } else if is_quoted(bytes) {
            Some(AStringModel::String(IStringModel::Quoted(bytes)))
        } else if bytes.len() <= MAX_LITERAL_LEN {
            Some(
                AStringModel::String(
                    IStringModel::Literal(LiteralModel { data: bytes, mode: LiteralMode::Sync }),
                ),
            )
        } else {
            None
        }
    }

    /// The astring with the content `bytes`: unquoted where that is
    /// possible, else quoted, else a synchronizing literal.
    pub fn try_from(bytes: &[u8]) -> (r: Result<AString, ValidationError>)
        ensures
            match r {
                Ok(s) => Some(s.deep_view()) == AString::spec_try_from(bytes@),
                Err(e) => e == ValidationError::TooLong && AString::spec_try_from(bytes@) is None,
            },
    {
        match AtomExt::try_from(bytes) {
            Ok(a) => Ok(AString::Atom(a)),
            Err(_) => match IString::try_from(bytes) {
                Ok(s) => Ok(AString::String(s)),
                Err(e) => Err(e),
            },
        }
    }
}

} // verus!

verus! {

/// What a successful run of a class says: the run is not empty, lies in the
/// class, and is followed by a byte outside the class.
pub proof fn lemma_take_while1(s: Seq<u8>, class: CharClass)
    ensures
        spec_take_while1(s, class) matches Ok((rest, run)) ==> {
            &&& run.len() >= 1
            &&& class.all(run)
            &&& s == run + rest
            &&& rest.len() >= 1
            &&& !class.spec_has(rest[0])
        },
{
    lemma_span_bounds(s, class);
    let n = span(s, class) as int;
    if 0 < n < s.len() {
        assert(s =~= s.take(n) + s.skip(n));
    }
}

/// `atom = 1*ATOM-CHAR`
pub open spec fn spec_atom(s: Seq<u8>) -> SpecResult<Seq<u8>> {
    spec_take_while1(s, CharClass::Atom)
}

/// `text = 1*TEXT-CHAR`
pub open spec fn spec_text(s: Seq<u8>) -> SpecResult<Seq<u8>> {
    spec_take_while1(s, CharClass::Text)
}

/// `tag = 1*<any ASTRING-CHAR except "+">`
pub open spec fn spec_tag_imap(s: Seq<u8>) -> SpecResult<Seq<u8>> {
    spec_take_while1(s, CharClass::Tag)
}

/// `nil = "NIL"`
pub open spec fn spec_nil(s: Seq<u8>) -> SpecResult<()> {
    spec_tag_no_case(s, kw("NIL"))
}

/// A byte that stands for itself between double quotes.
pub open spec fn is_plain_quoted_char(b: u8) -> bool {
    CharClass::Text.spec_has(b) && b != '"' as u8 && b != '\\' as u8
}

/// `QUOTED-CHAR = <any TEXT-CHAR except quoted-specials> / "\" quoted-specials`:
/// the character, without its escape.
pub open spec fn spec_quoted_char(s: Seq<u8>) -> SpecResult<u8> {
    if s.len() == 0 {
        Err(ParseError::Incomplete)
    } else if is_plain_quoted_char(s[0]) {
        Ok((s.skip(1), s[0]))
    } else if s[0] == '\\' as u8 {
        if s.len() < 2 {
            Err(ParseError::Incomplete)
        } else if s[1] == '"' as u8 || s[1] == '\\' as u8 {
            Ok((s.skip(2), s[1]))
        } else {
            Err(error_at(Category::CharacterClass, s))
        }
    } else {
        Err(error_at(Category::CharacterClass, s))
    }
}

/// The rest of a quoted string after its opening quote: characters up to
/// the closing quote, gathered behind `acc`.
pub open spec fn spec_quoted_body(s: Seq<u8>, acc: Seq<u8>) -> SpecResult<Seq<u8>>
    decreases s.len(),
{
    if s.len() > 0 && s[0] == '"' as u8 {
        Ok((s.skip(1), acc))
    } else {
        match spec_quoted_char(s) {
            Err(e) => Err(e),
            Ok((rest, c)) => if rest.len() < s.len() {
                spec_quoted_body(rest, acc.push(c))
            } else {
                Err(error_at(Category::CharacterClass, s))
            },
        }
    }
}

/// `quoted = DQUOTE *QUOTED-CHAR DQUOTE`: the content, without quotes and
/// escapes.
pub open spec fn spec_quoted(s: Seq<u8>) -> SpecResult<Seq<u8>> {
    match spec_dquote(s) {
        Err(e) => Err(e),
        Ok((rest, _)) => spec_quoted_body(rest, Seq::empty()),
    }
}

/// The optional `+` of a literal header.
pub open spec fn spec_literal_mode(s: Seq<u8>) -> SpecResult<LiteralMode> {
    match spec_byte(s, '+' as u8) {
        Ok((rest, _)) => Ok((rest, LiteralMode::NonSync)),
        Err(ParseError::Error(_)) => Ok((s, LiteralMode::Sync)),
        Err(e) => Err(e),
    }
}

/// `"{" number ["+"] "}" CRLF`: the announced length and the mode. The
/// payload is not touched.
pub open spec fn spec_literal_header(s: Seq<u8>) -> SpecResult<(u32, LiteralMode)> {
    match spec_byte(s, '{' as u8) {
        Err(e) => Err(e),
        Ok((r1, _)) => match spec_number(r1) {
            Err(e) => Err(e),
            Ok((r2, n)) => match spec_literal_mode(r2) {
                Err(e) => Err(e),
                Ok((r3, mode)) => match spec_byte(r3, '}' as u8) {
                    Err(e) => Err(e),
                    Ok((r4, _)) => match spec_crlf(r4, false) {
                        Err(e) => Err(e),
                        Ok((r5, _)) => Ok((r5, (n, mode))),
                    },
                },
            },
        },
    }
}

/// `literal`: the header and then exactly as many bytes as it announces,
/// whatever they are. A length above the limit is refused for good.
pub open spec fn spec_literal(s: Seq<u8>) -> SpecResult<LiteralModel> {
    match spec_literal_header(s) {
        Err(e) => Err(e),
        Ok((rest, (n, mode))) => if n > MAX_LITERAL_LEN {
            Err(failure_at(Category::Limit, s))
        } else if rest.len() < n {
            Err(ParseError::Incomplete)
        } else {
            Ok((rest.skip(n as int), LiteralModel { data: rest.take(n as int), mode }))
        },
    }
}

/// `string = quoted / literal`
#[verifier::opaque]
pub open spec fn spec_string(s: Seq<u8>) -> SpecResult<IStringModel> {
    match spec_quoted(s) {
        Ok((rest, q)) => Ok((rest, IStringModel::Quoted(q))),
        Err(ParseError::Error(_)) => match spec_literal(s) {
            Ok((rest, l)) => Ok((rest, IStringModel::Literal(l))),
            Err(e) => Err(e),
        },
        Err(e) => Err(e),
    }
}

/// `nstring = string / nil`
#[verifier::opaque]
pub open spec fn spec_nstring(s: Seq<u8>) -> SpecResult<Option<IStringModel>> {
    match spec_string(s) {
        Ok((rest, v)) => Ok((rest, Some(v))),
        Err(ParseError::Error(_)) => match spec_nil(s) {
            Ok((rest, _)) => Ok((rest, None)),
            Err(e) => Err(e),
        },
        Err(e) => Err(e),
    }
}

/// `astring = 1*ASTRING-CHAR / string`
pub open spec fn spec_astring(s: Seq<u8>) -> SpecResult<AStringModel> {
    match spec_take_while1(s, CharClass::AString) {
        Ok((rest, a)) => Ok((rest, AStringModel::Atom(a))),
        Err(ParseError::Error(_)) => match spec_string(s) {
            Ok((rest, v)) => Ok((rest, AStringModel::String(v))),
            Err(e) => Err(e),
        },
        Err(e) => Err(e),
    }
}

/// `charset = atom / quoted`
pub open spec fn spec_charset(s: Seq<u8>) -> SpecResult<CharsetModel> {
    match spec_atom(s) {
        Ok((rest, a)) => Ok((rest, CharsetModel::Atom(a))),
        Err(ParseError::Error(_)) => match spec_quoted(s) {
            Ok((rest, q)) => Ok((rest, CharsetModel::Quoted(q))),
            Err(e) => Err(e),
        },
        Err(e) => Err(e),
    }
}

/// Parses an `atom`.
pub fn atom<'a>(input: &'a [u8]) -> (r: IMAPResult<'a, Atom>)
    ensures
        agrees(r, spec_atom(input@)),
{
    let (rest, run) = take_while1(input, CharClass::Atom)?;
    proof {
        lemma_take_while1(input@, CharClass::Atom);
    }
    Ok((rest, Atom { inner: slice_to_vec(run) }))
}

/// Parses a `text`.
pub fn text<'a>(input: &'a [u8]) -> (r: IMAPResult<'a, Text>)
    ensures
        agrees(r, spec_text(input@)),
{
    let (rest, run) = take_while1(input, CharClass::Text)?;
    proof {
        lemma_take_while1(input@, CharClass::Text);
    }
    Ok((rest, Text { inner: slice_to_vec(run) }))
}

/// Parses a `tag`.
pub fn tag_imap<'a>(input: &'a [u8]) -> (r: IMAPResult<'a, Tag>)
    ensures
        agrees(r, spec_tag_imap(input@)),
{
    let (rest, run) = take_while1(input, CharClass::Tag)?;
    proof {
        lemma_take_while1(input@, CharClass::Tag);
    }
    Ok((rest, Tag { inner: slice_to_vec(run) }))
}

/// Parses `nil`.
pub fn nil<'a>(input: &'a [u8]) -> (r: IMAPResult<'a, ()>)
    ensures
        agrees(r, spec_nil(input@)),
{
    tag_no_case(input, "NIL")
}

/// Parses a `QUOTED-CHAR`.
pub fn quoted_char<'a>(input: &'a [u8]) -> (r: IMAPResult<'a, QuotedChar>)
    ensures
        agrees(r, spec_quoted_char(input@)),
{
    if input.len() == 0 {
        return Err(ParseError::Incomplete);
    }
    let b = input[0];
    if CharClass::Text.has(b) && b != '"' as u8 && b != '\\' as u8 {
        Ok((skip(input, 1), QuotedChar { inner: b }))
    } else if b == '\\' as u8 {
        if input.len() < 2 {
            Err(ParseError::Incomplete)
        } else if input[1] == '"' as u8 || input[1] == '\\' as u8 {
            Ok((skip(input, 2), QuotedChar { inner: input[1] }))
        } else {
            Err(error(Category::CharacterClass, input))
        }
    } else {
        Err(error(Category::CharacterClass, input))
    }
}

/// Parses a `quoted` string.
pub fn quoted<'a>(input: &'a [u8]) -> (r: IMAPResult<'a, Quoted>)
    ensures
        agrees(r, spec_quoted(input@)),
{
    let (body, _) = dquote(input)?;
    let mut cur: &[u8] = body;
    let mut acc: Vec<u8> = Vec::new();
    loop
        invariant
            spec_quoted(input@) == spec_quoted_body(cur@, acc@),
            is_quoted(acc@),
        decreases cur@.len(),
    {
        if cur.len() > 0 && cur[0] == '"' as u8 {
            return Ok((skip(cur, 1), Quoted { inner: acc }));
        }
        let (rest, c) = quoted_char(cur)?;
        if rest.len() >= cur.len() {
            return Err(error(Category::CharacterClass, cur));
        }
        acc.push(c.get());
        cur = rest;
    }
}

/// Parses the header of a literal: the announced length and the mode.
pub fn literal_header<'a>(input: &'a [u8]) -> (r: IMAPResult<'a, (u32, LiteralMode)>)
    ensures
        agrees(r, spec_literal_header(input@)),
{
    let (r1, _) = byte(input, '{' as u8)?;
    let (r2, n) = number(r1)?;
    let (r3, mode) = match byte(r2, '+' as u8) {
        Ok((rest, _)) => (rest, LiteralMode::NonSync),
        Err(ParseError::Error(_)) => (r2, LiteralMode::Sync),
        Err(e) => {
            return Err(e);
        },
    };
    let (r4, _) = byte(r3, '}' as u8)?;
    let (r5, _) = crlf(r4, false)?;
    Ok((r5, (n, mode)))
}

/// Parses a `literal`.
pub fn literal<'a>(input: &'a [u8]) -> (r: IMAPResult<'a, Literal>)
    ensures
        agrees(r, spec_literal(input@)),
{
    let (rest, (n, mode)) = literal_header(input)?;
    if n > MAX_LITERAL_LEN {
        return Err(failure(Category::Limit, input));
    }
    if rest.len() < n as usize {
        return Err(ParseError::Incomplete);
    }
    let data = slice_to_vec(take(rest, n as usize));
    Ok((skip(rest, n as usize), Literal { data, mode }))
}

/// Parses a `string`.
pub fn string<'a>(input: &'a [u8]) -> (r: IMAPResult<'a, IString>)
    ensures
        agrees(r, spec_string(input@)),
{
    proof {
        reveal(spec_string);
    }
    match quoted(input) {
        Ok((rest, q)) => Ok((rest, IString::Quoted(q))),
        Err(ParseError::Error(_)) => match literal(input) {
            Ok((rest, l)) => Ok((rest, IString::Literal(l))),
            Err(e) => Err(e),
        },
        Err(e) => Err(e),
    }
}

/// Parses an `nstring`.
pub fn nstring<'a>(input: &'a [u8]) -> (r: IMAPResult<'a, NString>)
    ensures
        agrees(r, spec_nstring(input@)),
{
    proof {
        reveal(spec_nstring);
        reveal(spec_string);
    }
    match string(input) {
        Ok((rest, v)) => Ok((rest, NString(Some(v)))),
        Err(ParseError::Error(_)) => match nil(input) {
            Ok((rest, _)) => Ok((rest, NString(None))),
            Err(e) => Err(e),
        },
        Err(e) => Err(e),
    }
}

/// Parses an `astring`.
pub fn astring<'a>(input: &'a [u8]) -> (r: IMAPResult<'a, AString>)
    ensures
        agrees(r, spec_astring(input@)),
{
    match take_while1(input, CharClass::AString) {
        Ok((rest, run)) => {
            proof {
                lemma_take_while1(input@, CharClass::AString);
            }
            Ok((rest, AString::Atom(AtomExt { inner: slice_to_vec(run) })))
        },
        Err(ParseError::Error(_)) => match string(input) {
            Ok((rest, v)) => Ok((rest, AString::String(v))),
            Err(e) => Err(e),
        },
        Err(e) => Err(e),
    }
}

/// Parses a `charset`.
pub fn charset<'a>(input: &'a [u8]) -> (r: IMAPResult<'a, Charset>)
    ensures
        agrees(r, spec_charset(input@)),
{
    match atom(input) {
        Ok((rest, a)) => Ok((rest, Charset::Atom(a))),
        Err(ParseError::Error(_)) => match quoted(input) {
            Ok((rest, q)) => Ok((rest, Charset::Quoted(q))),
            Err(e) => Err(e),
        },
        Err(e) => Err(e),
    }
}

} // verus!

verus! {

/// A byte as it stands between double quotes: `"` and `\` behind a `\`.
pub open spec fn spec_escape_byte(b: u8) -> Seq<u8> {
    if b == '"' as u8 || b == '\\' as u8 {
        seq!['\\' as u8, b]
    } else {
        seq![b]
    }
}

/// The content of a quoted string with its escapes.
pub open spec fn spec_escape(v: Seq<u8>) -> Seq<u8>
    decreases v.len(),
{
    if v.len() == 0 {
        Seq::empty()
    } else {
        spec_escape(v.drop_last()) + spec_escape_byte(v.last())
    }
}

/// `DQUOTE *QUOTED-CHAR DQUOTE` for the content `v`.
pub open spec fn spec_encode_quoted(v: Seq<u8>) -> Seq<u8> {
    seq!['"' as u8] + spec_escape(v) + seq!['"' as u8]
}

/// A quoted character with its escape, where it needs one.
pub open spec fn spec_encode_quoted_char(c: u8) -> Seq<u8> {
    spec_escape_byte(c)
}

/// The header that announces `len` bytes in the given mode.
pub open spec fn spec_encode_literal_header(len: nat, mode: LiteralMode) -> Seq<u8> {
    seq!['{' as u8] + spec_digits(len) + (match mode {
        LiteralMode::Sync => Seq::<u8>::empty(),
        LiteralMode::NonSync => seq!['+' as u8],
    }) + seq!['}' as u8, '\r' as u8, '\n' as u8]
}

/// A literal: its header, then its payload as it is.
pub open spec fn spec_encode_literal(l: LiteralModel) -> Seq<u8> {
    spec_encode_literal_header(l.data.len(), l.mode) + l.data
}

/// A string in the form its variant names.
pub open spec fn spec_encode_string(v: IStringModel) -> Seq<u8> {
    match v {
        IStringModel::Quoted(q) => spec_encode_quoted(q),
        IStringModel::Literal(l) => spec_encode_literal(l),
    }
}

/// An nstring: `NIL` for none.
pub open spec fn spec_encode_nstring(v: Option<IStringModel>) -> Seq<u8> {
    match v {
        Some(s) => spec_encode_string(s),
        None => kw("NIL"),
    }
}

/// An astring: the bytes of its unquoted form, or the string.
pub open spec fn spec_encode_astring(v: AStringModel) -> Seq<u8> {
    match v {
        AStringModel::Atom(a) => a,
        AStringModel::String(s) => spec_encode_string(s),
    }
}

/// A charset: the atom as it is, or the quoted string.
pub open spec fn spec_encode_charset(v: CharsetModel) -> Seq<u8> {
    match v {
        CharsetModel::Atom(a) => a,
        CharsetModel::Quoted(q) => spec_encode_quoted(q),
    }
}

/// Appends `v` with the escapes that a quoted string needs.
pub fn put_escaped(out: &mut Vec<u8>, v: &[u8])
    ensures
        final(out)@ == old(out)@ + spec_escape(v@),
{
    let ghost start = out@;
    let mut i: usize = 0;
    while i < v.len()
        invariant
            i <= v.len(),
            out@ == start + spec_escape(v@.take(i as int)),
        decreases v.len() - i,
    {
        let b = v[i];
        proof {
            let t = v@.take(i + 1);
            assert(t.drop_last() =~= v@.take(i as int));
            assert(t.last() == b);
        }
        if b == '"' as u8 || b == '\\' as u8 {
            out.push('\\' as u8);
        }
        out.push(b);
        assert(out@ =~= start + spec_escape(v@.take(i + 1)));
        i += 1;
    }
    assert(v@.take(i as int) =~= v@);
}

impl Encoder for Atom {
    open spec fn wire(v: Seq<u8>) -> Seq<u8> {
        v
    }

    fn encode_into(&self, out: &mut Vec<u8>) {
        put(out, self.as_bytes());
    }
}

impl Encoder for AtomExt {
    open spec fn wire(v: Seq<u8>) -> Seq<u8> {
        v
    }

    fn encode_into(&self, out: &mut Vec<u8>) {
        put(out, self.as_bytes());
    }
}

impl Encoder for Tag {
    open spec fn wire(v: Seq<u8>) -> Seq<u8> {
        v
    }

    fn encode_into(&self, out: &mut Vec<u8>) {
        put(out, self.as_bytes());
    }
}

impl Encoder for Text {
    open spec fn wire(v: Seq<u8>) -> Seq<u8> {
        v
    }

    fn encode_into(&self, out: &mut Vec<u8>) {
        put(out, self.as_bytes());
    }
}

impl Encoder for Quoted {
    open spec fn wire(v: Seq<u8>) -> Seq<u8> {
        spec_encode_quoted(v)
    }

    fn encode_into(&self, out: &mut Vec<u8>) {
        let ghost start = out@;
        out.push('"' as u8);
        put_escaped(out, self.as_bytes());
        out.push('"' as u8);
        assert(out@ =~= start + spec_encode_quoted(self.deep_view()));
    }
}

impl Encoder for QuotedChar {
    open spec fn wire(v: u8) -> Seq<u8> {
        spec_encode_quoted_char(v)
    }

    fn encode_into(&self, out: &mut Vec<u8>) {
        let ghost start = out@;
        let b = self.get();
        if b == '"' as u8 || b == '\\' as u8 {
            out.push('\\' as u8);
        }
        out.push(b);
        assert(out@ =~= start + spec_encode_quoted_char(self.deep_view()));
    }
}

impl Encoder for Literal {
    open spec fn wire(v: LiteralModel) -> Seq<u8> {
        spec_encode_literal(v)
    }

    fn encode_into(&self, out: &mut Vec<u8>) {
        let ghost start = out@;
        let data = self.data();
        out.push('{' as u8);
        encode_number(data.len() as u64, out);
        match self.mode() {
            LiteralMode::Sync => {},
            LiteralMode::NonSync => {
                out.push('+' as u8);
            },
        }
        out.push('}' as u8);
        out.push('\r' as u8);
        out.push('\n' as u8);
        put(out, data);
        assert(out@ =~= start + spec_encode_literal(self.deep_view()));
    }
}

impl Encoder for IString {
    open spec fn wire(v: IStringModel) -> Seq<u8> {
        spec_encode_string(v)
    }

    fn encode_into(&self, out: &mut Vec<u8>) {
        match self {
            IString::Quoted(q) => q.encode_into(out),
            IString::Literal(l) => l.encode_into(out),
        }
    }
}

impl Encoder for NString {
    open spec fn wire(v: Option<IStringModel>) -> Seq<u8> {
        spec_encode_nstring(v)
    }

    fn encode_into(&self, out: &mut Vec<u8>) {
        match &self.0 {
            Some(s) => s.encode_into(out),
            None => put_str(out, "NIL"),
        }
    }
}

impl Encoder for AString {
    open spec fn wire(v: AStringModel) -> Seq<u8> {
        spec_encode_astring(v)
    }

    fn encode_into(&self, out: &mut Vec<u8>) {
        match self {
            AString::Atom(a) => a.encode_into(out),
            AString::String(s) => s.encode_into(out),
        }
    }
}

impl Encoder for Charset {
    open spec fn wire(v: CharsetModel) -> Seq<u8> {
        spec_encode_charset(v)
    }

    fn encode_into(&self, out: &mut Vec<u8>) {
        match self {
            Charset::Atom(a) => a.encode_into(out),
            Charset::Quoted(q) => q.encode_into(out),
        }
    }
}

} // verus!

verus! {

/// A vector that holds at least one element.
#[derive(Debug, PartialEq, Eq, Hash)]
pub struct NonEmptyVec<T> {
    items: Vec<T>,
}

impl<T> NonEmptyVec<T> {
    #[verifier::type_invariant]
    spec fn nonempty(self) -> bool {
        self.items@.len() >= 1
    }

    /// The elements, in order.
    pub closed spec fn spec_items(&self) -> Seq<T> {
        self.items@
    }

    /// The vector `items`, unless it is empty.
    pub fn new(items: Vec<T>) -> (r: Option<NonEmptyVec<T>>)
        ensures
            items@.len() == 0 <==> r is None,
            r matches Some(v) ==> v.spec_items() == items@,
    {
        if items.len() == 0 {
            None
        } else {
            Some(NonEmptyVec { items })
        }
    }

    /// The vector `items`, which is known not to be empty.
    pub fn unvalidated(items: Vec<T>) -> (r: NonEmptyVec<T>)
        requires
            items@.len() >= 1,
        ensures
            r.spec_items() == items@,
    {
        NonEmptyVec { items }
    }

    /// The vector that holds `item` alone.
    pub fn from(item: T) -> (r: NonEmptyVec<T>)
        ensures
            r.spec_items() == seq![item],
    {
        let mut items: Vec<T> = Vec::new();
        items.push(item);
        assert(items@ =~= seq![item]);
        NonEmptyVec { items }
    }

    /// The elements, in order; there is at least one.
    pub fn as_slice(&self) -> (r: &[T])
        ensures
            r@ == self.spec_items(),
            r@.len() >= 1,
    {
        proof {
            use_type_invariant(self);
        }
        self.items.as_slice()
    }

    /// The elements as a plain vector.
    pub fn into_inner(self) -> (r: Vec<T>)
        ensures
            r@ == self.spec_items(),
            r@.len() >= 1,
    {
        proof {
            use_type_invariant(&self);
        }
        self.items
    }

    /// An element of the vector is smaller than the vector, for the sake of
    /// recursive definitions over nested values.
    pub proof fn lemma_items_decrease(self, i: int)
        requires
            0 <= i < self.spec_items().len(),
        ensures
            decreases_to!(self => self.spec_items()[i]),
    {
        broadcast use vstd::std_specs::vec::axiom_vec_index_decreases;

    }
}

impl<T: Clone> Clone for NonEmptyVec<T> {
    fn clone(&self) -> (r: Self)
        ensures
            r.spec_items().len() == self.spec_items().len(),
    {
        proof {
            use_type_invariant(self);
        }
        NonEmptyVec { items: self.items.clone() }
    }
}

impl<T: DeepView> DeepView for NonEmptyVec<T> {
    type V = Seq<T::V>;

    open spec fn deep_view(&self) -> Seq<T::V> {
        Seq::new(self.spec_items().len(), |i: int| self.spec_items()[i].deep_view())
    }
}

/// The bytes that `input` stands for in base64 with the standard alphabet
/// and canonical padding, where it stands for any.
pub uninterp spec fn base64_decoded(input: Seq<u8>) -> Option<Seq<u8>>;

/// The text that stands for `data` in base64 with the standard alphabet and
/// padding.
pub uninterp spec fn base64_encoded(data: Seq<u8>) -> Seq<u8>;

/// Calls `decode` of the `base64` crate's `STANDARD` engine. The result is
/// named, not described: it is whatever that engine decodes `input` to, and
/// `None` where the engine refuses `input`.
#[verifier::external_body]
pub(crate) fn decode_base64(input: &[u8]) -> (r: Option<Vec<u8>>)
    ensures
        match r {
            Some(data) => base64_decoded(input@) == Some(data@),
            None => base64_decoded(input@) is None,
        },
{
    match STANDARD.decode(input) {
        Ok(data) => Some(data),
        Err(_) => None,
    }
}

/// A byte of base64 text: a byte of the alphabet, or the padding byte.
pub open spec fn is_base64_text_byte(b: u8) -> bool {
    CharClass::Base64.spec_has(b) || b == '=' as u8
}

/// Calls `encode` of the `base64` crate's `STANDARD` engine. The result is
/// named, not described: it is whatever that engine encodes `data` to. Two
/// things are taken from the engine's documentation: its output is made of
/// the standard alphabet and the padding byte, and its `decode` gives the
/// data back. The engine panics only where the length of the text does not
/// fit in `usize`; a slice holds at most `isize::MAX` bytes, and four thirds
/// of that fit.
#[verifier::external_body]
pub(crate) fn encode_base64(data: &[u8]) -> (r: Vec<u8>)
    ensures
        r@ == base64_encoded(data@),
        forall|i: int| 0 <= i < r@.len() ==> is_base64_text_byte(#[trigger] r@[i]),
        base64_decoded(r@) == Some(data@),
{
    STANDARD.encode(data).into_bytes()
}

/// One or two `=` at the end of base64 text, or none.
pub open spec fn spec_base64_padding(s: Seq<u8>) -> SpecResult<()> {
    match spec_tag(s, kw("==")) {
        Ok((rest, _)) => Ok((rest, ())),
        Err(ParseError::Error(_)) => match spec_tag(s, kw("=")) {
            Ok((rest, _)) => Ok((rest, ())),
            Err(ParseError::Error(_)) => Ok((s, ())),
            Err(e) => Err(e),
        },
        Err(e) => Err(e),
    }
}

/// The decoded bytes of `text`, which `s` began with, or the encoding
/// error.
pub open spec fn spec_base64_decode(s: Seq<u8>, text: Seq<u8>, rest: Seq<u8>) -> SpecResult<
    Seq<u8>,
> {
    match base64_decoded(text) {
        Some(data) => Ok((rest, data)),
        None => Err(error_at(Category::Encoding, s)),
    }
}

/// `base64`: a run of the base64 alphabet, then up to two `=`; the value is
/// what the text decodes to.
pub open spec fn spec_base64(s: Seq<u8>) -> SpecResult<Seq<u8>> {
    match spec_take_while(s, CharClass::Base64) {
        Err(e) => Err(e),
        Ok((r1, _)) => match spec_base64_padding(r1) {
            Err(e) => Err(e),
            Ok((r2, _)) => spec_base64_decode(s, s.take(s.len() - r2.len()), r2),
        },
    }
}

/// Gives the result of the rule `base64` on `input`, once the end of the
/// base64 text and its decoding are known.
pub fn base64_decode<'a>(input: &'a [u8], rest: &'a [u8], decoded: Option<Vec<u8>>) -> (r:
    IMAPResult<'a, Vec<u8>>)
    ensures
        match r {
            Ok((left, data)) => decoded is Some && left@ == rest@ && data == decoded->0,
            Err(e) => decoded is None && e == error_at(Category::Encoding, input@),
        },
{
    match decoded {
        Some(data) => Ok((rest, data)),
        None => Err(error(Category::Encoding, input)),
    }
}

/// Parses `base64`.
pub fn base64<'a>(input: &'a [u8]) -> (r: IMAPResult<'a, Vec<u8>>)
    ensures
        match r {
            Ok((rest, data)) => spec_base64(input@) == Ok::<_, ParseError>((rest@, data@)),
            Err(e) => spec_base64(input@) == Err::<(Seq<u8>, Seq<u8>), _>(e),
        },
{
    let (r1, _) = take_while(input, CharClass::Base64)?;
    let r2 = match tag(r1, "==") {
        Ok((rest, _)) => rest,
        Err(ParseError::Error(_)) => match tag(r1, "=") {
            Ok((rest, _)) => rest,
            Err(ParseError::Error(_)) => r1,
            Err(e) => {
                return Err(e);
            },
        },
        Err(e) => {
            return Err(e);
        },
    };
    proof {
        lemma_span_bounds(input@, CharClass::Base64);
    }
    let text = take(input, input.len() - r2.len());
    base64_decode(input, r2, decode_base64(text))
}

} // verus!

verus! {

/// The rule `atom`.
pub struct AtomRule;

/// The rule `string`.
pub struct StringRule;

/// The rule `nstring`.
pub struct NStringRule;

/// The rule `astring`.
pub struct AStringRule;

/// The rule `charset`.
pub struct CharsetRule;

impl Rule for AtomRule {
    type Out = Atom;

    open spec fn rule(s: Seq<u8>) -> SpecResult<Seq<u8>> {
        spec_atom(s)
    }

    fn parse<'a>(input: &'a [u8]) -> (r: IMAPResult<'a, Atom>) {
        atom(input)
    }
}

impl Rule for StringRule {
    type Out = IString;

    open spec fn rule(s: Seq<u8>) -> SpecResult<IStringModel> {
        spec_string(s)
    }

    fn parse<'a>(input: &'a [u8]) -> (r: IMAPResult<'a, IString>) {
        string(input)
    }
}

impl Rule for NStringRule {
    type Out = NString;

    open spec fn rule(s: Seq<u8>) -> SpecResult<Option<IStringModel>> {
        spec_nstring(s)
    }

    fn parse<'a>(input: &'a [u8]) -> (r: IMAPResult<'a, NString>) {
        nstring(input)
    }
}

impl Rule for AStringRule {
    type Out = AString;

    open spec fn rule(s: Seq<u8>) -> SpecResult<AStringModel> {
        spec_astring(s)
    }

    fn parse<'a>(input: &'a [u8]) -> (r: IMAPResult<'a, AString>) {
        astring(input)
    }
}

impl Rule for CharsetRule {
    type Out = Charset;

    open spec fn rule(s: Seq<u8>) -> SpecResult<CharsetModel> {
        spec_charset(s)
    }

    fn parse<'a>(input: &'a [u8]) -> (r: IMAPResult<'a, Charset>) {
        charset(input)
    }
}

} // verus!
