//! Primitive lexers: fixed tokens, runs of a character class, separators and
//! numbers. Each consumes a prefix of its input, or says why it cannot.

use crate::error::{agrees, error, error_at, Category, IMAPResult, ParseError, SpecResult};
use vstd::prelude::*;
use vstd::slice::*;
use vstd::string::*;

verus! {

/// The classes of bytes that the grammar draws its tokens from.
#[derive(Debug, Clone, Copy, PartialEq, Eq, Structural)]
pub enum CharClass {
    /// `DIGIT`
    Digit,
    /// `ATOM-CHAR`: any `CHAR` except atom-specials.
    Atom,
    /// `ASTRING-CHAR`: `ATOM-CHAR` or `]`.
    AString,
    /// `ASTRING-CHAR` except `+`, as used in tags.
    Tag,
    /// `TEXT-CHAR`: any `CHAR` except CR and LF.
    Text,
    /// Any byte but `]`, CR and LF: what may stand inside brackets.
    Bracketed,
    /// `list-char`: `ATOM-CHAR`, a list wildcard or `]`.
    List,
    /// The alphabet of base64 without padding.
    Base64,
}

/// `CHAR`: a 7-bit byte other than NUL.
pub open spec fn is_char(b: u8) -> bool {
    0x01 <= b <= 0x7f
}

/// `CTL`: a control byte.
pub open spec fn is_ctl(b: u8) -> bool {
    b <= 0x1f || b == 0x7f
}

/// `atom-specials = "(" / ")" / "{" / SP / CTL / list-wildcards / quoted-specials / resp-specials`
pub open spec fn is_atom_special(b: u8) -> bool {
    ||| b == '(' as u8
    ||| b == ')' as u8
    ||| b == '{' as u8
    ||| b == ' ' as u8
    ||| is_ctl(b)
    ||| b == '%' as u8
    ||| b == '*' as u8
    ||| b == '"' as u8
    ||| b == '\\' as u8
    ||| b == ']' as u8
}

/// The upper- or lower-case letters and the digits.
pub open spec fn is_alphanumeric(b: u8) -> bool {
    ||| 'A' as u8 <= b <= 'Z' as u8
    ||| 'a' as u8 <= b <= 'z' as u8
    ||| '0' as u8 <= b <= '9' as u8
}

impl CharClass {
    /// Membership of a byte in the class.
    pub open spec fn spec_has(self, b: u8) -> bool {
        match self {
            CharClass::Digit => '0' as u8 <= b <= '9' as u8,
            CharClass::Atom => is_char(b) && !is_atom_special(b),
            CharClass::AString => is_char(b) && (!is_atom_special(b) || b == ']' as u8),
            CharClass::Tag => is_char(b) && (!is_atom_special(b) || b == ']' as u8) && b != '+' as u8,
            CharClass::Text => is_char(b) && b != '\r' as u8 && b != '\n' as u8,
            CharClass::Bracketed => b != '\r' as u8 && b != '\n' as u8 && b != ']' as u8,
            CharClass::List => is_char(b) && (!is_atom_special(b) || b == '%' as u8 || b == '*' as u8
                || b == ']' as u8),
            CharClass::Base64 => is_alphanumeric(b) || b == '+' as u8 || b == '/' as u8,
        }
    }

    /// Every byte of `s` is in the class.
    pub open spec fn all(self, s: Seq<u8>) -> bool {
        forall|i: int| 0 <= i < s.len() ==> self.spec_has(#[trigger] s[i])
    }

    /// Membership of a byte in the class.
    pub fn has(&self, b: u8) -> (r: bool)
        ensures
            r == self.spec_has(b),
    {
        let ch = 0x01 <= b && b <= 0x7f;
        let ctl = b <= 0x1f || b == 0x7f;
        let special = b == '(' as u8 || b == ')' as u8 || b == '{' as u8 || b == ' ' as u8 || ctl
            || b == '%' as u8 || b == '*' as u8 || b == '"' as u8 || b == '\\' as u8 || b
            == ']' as u8;
        match self {
            CharClass::Digit => '0' as u8 <= b && b <= '9' as u8,
            CharClass::Atom => ch && !special,
            CharClass::AString => ch && (!special || b == ']' as u8),
            CharClass::Tag => ch && (!special || b == ']' as u8) && b != '+' as u8,
            CharClass::Text => ch && b != '\r' as u8 && b != '\n' as u8,
            CharClass::Bracketed => b != '\r' as u8 && b != '\n' as u8 && b != ']' as u8,
            CharClass::List => ch && (!special || b == '%' as u8 || b == '*' as u8 || b
                == ']' as u8),
            CharClass::Base64 => ('A' as u8 <= b && b <= 'Z' as u8) || ('a' as u8 <= b && b
                <= 'z' as u8) || ('0' as u8 <= b && b <= '9' as u8) || b == '+' as u8 || b
                == '/' as u8,
        }
    }

    /// Whether every byte of `bytes` is in the class.
    pub fn holds_all(&self, bytes: &[u8]) -> (r: bool)
        ensures
            r == self.all(bytes@),
    {
        let mut i: usize = 0;
        while i < bytes.len()
            invariant
                i <= bytes.len(),
                forall|j: int| 0 <= j < i ==> self.spec_has(#[trigger] bytes@[j]),
            decreases bytes.len() - i,
        {
            if !self.has(bytes[i]) {
                return false;
            }
            i += 1;
        }
        true
    }
}

/// The input without its first `n` bytes.
pub fn skip<'a>(input: &'a [u8], n: usize) -> (r: &'a [u8])
    requires
        n <= input@.len(),
    ensures
        r@ == input@.skip(n as int),
{
    slice_subrange(input, n, input.len())
}

/// The first `n` bytes of the input.
pub fn take<'a>(input: &'a [u8], n: usize) -> (r: &'a [u8])
    requires
        n <= input@.len(),
    ensures
        r@ == input@.take(n as int),
{
    slice_subrange(input, 0, n)
}

/// A byte with an upper-case ASCII letter replaced by its lower-case form.
pub open spec fn spec_lower(b: u8) -> u8 {
    if 'A' as u8 <= b <= 'Z' as u8 {
        (b + 32) as u8
    } else {
        b
    }
}

/// A byte with an upper-case ASCII letter replaced by its lower-case form.
pub fn lower(b: u8) -> (r: u8)
    ensures
        r == spec_lower(b),
{
    if 'A' as u8 <= b && b <= 'Z' as u8 {
        b + 32
    } else {
        b
    }
}

/// Equality of two byte sequences when the case of ASCII letters is ignored.
#[verifier::opaque]
pub open spec fn eq_ignore_case(a: Seq<u8>, b: Seq<u8>) -> bool {
    &&& a.len() == b.len()
    &&& forall|i: int| 0 <= i < a.len() ==> spec_lower(#[trigger] a[i]) == spec_lower(b[i])
}

/// Whether two byte strings are equal when the case of ASCII letters is
/// ignored.
pub fn bytes_eq_ignore_case(a: &[u8], b: &[u8]) -> (r: bool)
    ensures
        r == eq_ignore_case(a@, b@),
{
    reveal(eq_ignore_case);
    if a.len() != b.len() {
        return false;
    }
    let mut i: usize = 0;
    while i < a.len()
        invariant
            i <= a.len(),
            a.len() == b.len(),
            forall|j: int| 0 <= j < i ==> spec_lower(#[trigger] a@[j]) == spec_lower(b@[j]),
        decreases a.len() - i,
    {
        if lower(a[i]) != lower(b[i]) {
            proof {
                reveal(eq_ignore_case);
            }
            return false;
        }
        i += 1;
    }
    true
}

/// Whether two byte strings are equal.
pub fn bytes_eq(a: &[u8], b: &[u8]) -> (r: bool)
    ensures
        r == (a@ == b@),
{
    if a.len() != b.len() {
        return false;
    }
    let mut i: usize = 0;
    while i < a.len()
        invariant
            i <= a.len(),
            a.len() == b.len(),
            forall|j: int| 0 <= j < i ==> a@[j] == b@[j],
        decreases a.len() - i,
    {
        if a[i] != b[i] {
            assert(a@[i as int] != b@[i as int]);
            return false;
        }
        i += 1;
    }
    assert(a@ =~= b@);
    true
}

/// The bytes of a keyword of the grammar.
pub open spec fn kw(word: &str) -> Seq<u8> {
    word.spec_bytes()
}

/// A fixed token `t`: it matches when the input begins with `t`, is
/// incomplete when the input is a proper prefix of `t`, and fails otherwise.
pub open spec fn spec_tag(s: Seq<u8>, t: Seq<u8>) -> SpecResult<()> {
    if s.len() >= t.len() {
        if s.take(t.len() as int) == t {
            Ok((s.skip(t.len() as int), ()))
        } else {
            Err(error_at(Category::CharacterClass, s))
        }
    } else {
        if s == t.take(s.len() as int) {
            Err(ParseError::Incomplete)
        } else {
            Err(error_at(Category::CharacterClass, s))
        }
    }
}

/// A fixed token `t` in any mix of upper and lower case.
pub open spec fn spec_tag_no_case(s: Seq<u8>, t: Seq<u8>) -> SpecResult<()> {
    if s.len() >= t.len() {
        if eq_ignore_case(s.take(t.len() as int), t) {
            Ok((s.skip(t.len() as int), ()))
        } else {
            Err(error_at(Category::CharacterClass, s))
        }
    } else {
        if eq_ignore_case(s, t.take(s.len() as int)) {
            Err(ParseError::Incomplete)
        } else {
            Err(error_at(Category::CharacterClass, s))
        }
    }
}

/// Parses the fixed token `word`.
pub fn tag<'a>(input: &'a [u8], word: &str) -> (r: IMAPResult<'a, ()>)
    ensures
        agrees(r, spec_tag(input@, kw(word))),
{
    let t = word.as_bytes();
    let n = if input.len() < t.len() {
        input.len()
    } else {
        t.len()
    };
    if !bytes_eq(take(input, n), take(t, n)) {
        proof {
            if input@.len() >= t@.len() {
                assert(t@.take(n as int) =~= t@);
            } else {
                assert(input@.take(n as int) =~= input@);
            }
        }
        return Err(error(Category::CharacterClass, input));
    }
    if input.len() < t.len() {
        assert(input@.take(n as int) =~= input@);
        Err(ParseError::Incomplete)
    } else {
        assert(t@.take(n as int) =~= t@);
        Ok((skip(input, n), ()))
    }
}

/// Parses the fixed token `word` in any mix of upper and lower case.
pub fn tag_no_case<'a>(input: &'a [u8], word: &str) -> (r: IMAPResult<'a, ()>)
    ensures
        agrees(r, spec_tag_no_case(input@, kw(word))),
{
    reveal(eq_ignore_case);
    let t = word.as_bytes();
    let n = if input.len() < t.len() {
        input.len()
    } else {
        t.len()
    };
    if !bytes_eq_ignore_case(take(input, n), take(t, n)) {
        proof {
            if input@.len() >= t@.len() {
                assert(t@.take(n as int) =~= t@);
            } else {
                assert(input@.take(n as int) =~= input@);
            }
        }
        return Err(error(Category::CharacterClass, input));
    }
    if input.len() < t.len() {
        assert(input@.take(n as int) =~= input@);
        Err(ParseError::Incomplete)
    } else {
        assert(t@.take(n as int) =~= t@);
        Ok((skip(input, n), ()))
    }
}

/// A single byte `b`.
pub open spec fn spec_byte(s: Seq<u8>, b: u8) -> SpecResult<()> {
    if s.len() == 0 {
        Err(ParseError::Incomplete)
    } else if s[0] == b {
        Ok((s.skip(1), ()))
    } else {
        Err(error_at(Category::CharacterClass, s))
    }
}

/// Parses the single byte `b`.
pub fn byte<'a>(input: &'a [u8], b: u8) -> (r: IMAPResult<'a, ()>)
    ensures
        agrees(r, spec_byte(input@, b)),
{
    if input.len() == 0 {
        Err(ParseError::Incomplete)
    } else if input[0] == b {
        Ok((skip(input, 1), ()))
    } else {
        Err(error(Category::CharacterClass, input))
    }
}

/// `SP`
pub open spec fn spec_sp(s: Seq<u8>) -> SpecResult<()> {
    spec_byte(s, ' ' as u8)
}

/// Parses `SP`.
pub fn sp<'a>(input: &'a [u8]) -> (r: IMAPResult<'a, ()>)
    ensures
        agrees(r, spec_sp(input@)),
{
    byte(input, ' ' as u8)
}

/// `DQUOTE`
pub open spec fn spec_dquote(s: Seq<u8>) -> SpecResult<()> {
    spec_byte(s, '"' as u8)
}

/// Parses `DQUOTE`.
pub fn dquote<'a>(input: &'a [u8]) -> (r: IMAPResult<'a, ()>)
    ensures
        agrees(r, spec_dquote(input@)),
{
    byte(input, '"' as u8)
}

/// The number of leading bytes of `s` that are in `class`.
pub open spec fn span(s: Seq<u8>, class: CharClass) -> nat
    decreases s.len(),
{
    if s.len() > 0 && class.spec_has(s[0]) {
        1 + span(s.skip(1), class)
    } else {
        0
    }
}

/// The span of a sequence is the one index up to which every byte is in
/// the class and at which the sequence ends or leaves the class.
pub proof fn lemma_span(s: Seq<u8>, class: CharClass, n: int)
    requires
        0 <= n <= s.len(),
        forall|i: int| 0 <= i < n ==> class.spec_has(#[trigger] s[i]),
        n == s.len() || !class.spec_has(s[n]),
    ensures
        span(s, class) == n,
    decreases s.len(),
{
    if n > 0 {
        let t = s.skip(1);
        assert forall|i: int| 0 <= i < n - 1 implies class.spec_has(#[trigger] t[i]) by {
            assert(t[i] == s[i + 1]);
        }
        lemma_span(t, class, n - 1);
    }
}

/// What the span of a sequence says about its bytes.
pub proof fn lemma_span_bounds(s: Seq<u8>, class: CharClass)
    ensures
        span(s, class) <= s.len(),
        forall|i: int| 0 <= i < span(s, class) ==> class.spec_has(#[trigger] s[i]),
        span(s, class) < s.len() ==> !class.spec_has(s[span(s, class) as int]),
    decreases s.len(),
{
    if s.len() > 0 && class.spec_has(s[0]) {
        let t = s.skip(1);
        lemma_span_bounds(t, class);
        assert forall|i: int| 0 <= i < span(s, class) implies class.spec_has(#[trigger] s[i]) by {
            if i > 0 {
                assert(s[i] == t[i - 1]);
            }
        }
        if span(s, class) < s.len() {
            assert(s[span(s, class) as int] == t[span(t, class) as int]);
        }
    }
}

/// The longest run of bytes of `class`, which may be empty; incomplete when
/// the run reaches the end of the input.
pub open spec fn spec_take_while(s: Seq<u8>, class: CharClass) -> SpecResult<Seq<u8>> {
    let n = span(s, class) as int;
    if n == s.len() {
        Err(ParseError::Incomplete)
    } else {
        Ok((s.skip(n), s.take(n)))
    }
}

/// The longest run of bytes of `class`, which must not be empty; incomplete
/// when the run reaches the end of the input.
pub open spec fn spec_take_while1(s: Seq<u8>, class: CharClass) -> SpecResult<Seq<u8>> {
    let n = span(s, class) as int;
    if n == s.len() {
        Err(ParseError::Incomplete)
    } else if n == 0 {
        Err(error_at(Category::CharacterClass, s))
    } else {
        Ok((s.skip(n), s.take(n)))
    }
}

/// The length of the longest run of bytes of `class` that the input begins
/// with.
pub fn run_length(input: &[u8], class: CharClass) -> (n: usize)
    ensures
        n == span(input@, class),
        n <= input@.len(),
{
    let mut i: usize = 0;
    while i < input.len() && class.has(input[i])
        invariant
            i <= input.len(),
            forall|j: int| 0 <= j < i ==> class.spec_has(#[trigger] input@[j]),
        decreases input.len() - i,
    {
        i += 1;
    }
    proof {
        lemma_span(input@, class, i as int);
    }
    i
}

/// Parses the longest run of bytes of `class`, which may be empty.
pub fn take_while<'a>(input: &'a [u8], class: CharClass) -> (r: Result<
    (&'a [u8], &'a [u8]),
    ParseError,
>)
    ensures
        match r {
            Ok((rest, run)) => spec_take_while(input@, class) == Ok::<_, ParseError>(
                (rest@, run@),
            ),
            Err(e) => spec_take_while(input@, class) == Err::<(Seq<u8>, Seq<u8>), _>(e),
        },
{
    let n = run_length(input, class);
    if n == input.len() {
        Err(ParseError::Incomplete)
    } else {
        Ok((skip(input, n), take(input, n)))
    }
}

/// Parses the longest run of bytes of `class`, which must not be empty.
pub fn take_while1<'a>(input: &'a [u8], class: CharClass) -> (r: Result<
    (&'a [u8], &'a [u8]),
    ParseError,
>)
    ensures
        match r {
            Ok((rest, run)) => spec_take_while1(input@, class) == Ok::<_, ParseError>(
                (rest@, run@),
            ),
            Err(e) => spec_take_while1(input@, class) == Err::<(Seq<u8>, Seq<u8>), _>(e),
        },
{
    let n = run_length(input, class);
    if n == input.len() {
        Err(ParseError::Incomplete)
    } else if n == 0 {
        Err(error(Category::CharacterClass, input))
    } else {
        Ok((skip(input, n), take(input, n)))
    }
}

} // verus!

verus! {

/// The tolerances for known deviations from the grammar. With all of them
/// off the parsers accept the grammar and nothing else.
#[derive(Debug, Clone, Copy, PartialEq, Eq, Structural)]
pub struct Quirks {
    /// Accept a bare LF where the grammar asks for CRLF at the end of a line.
    pub crlf_relaxed: bool,
    /// Accept a response code that no text follows, and supply `"..."`.
    pub missing_text: bool,
}

impl Quirks {
    /// No tolerance at all.
    pub fn strict() -> (q: Quirks)
        ensures
            q == (Quirks { crlf_relaxed: false, missing_text: false }),
    {
        Quirks { crlf_relaxed: false, missing_text: false }
    }
}

/// `CRLF`; with `relaxed`, an optional CR and then LF.
pub open spec fn spec_crlf(s: Seq<u8>, relaxed: bool) -> SpecResult<()> {
    match spec_byte(s, '\r' as u8) {
        Ok((rest, _)) => spec_byte(rest, '\n' as u8),
        Err(ParseError::Error(e)) => if relaxed {
            spec_byte(s, '\n' as u8)
        } else {
            Err(ParseError::Error(e))
        },
        Err(e) => Err(e),
    }
}

/// Parses `CRLF`; with `relaxed`, an optional CR and then LF.
pub fn crlf<'a>(input: &'a [u8], relaxed: bool) -> (r: IMAPResult<'a, ()>)
    ensures
        agrees(r, spec_crlf(input@, relaxed)),
{
    match byte(input, '\r' as u8) {
        Ok((rest, _)) => byte(rest, '\n' as u8),
        Err(ParseError::Error(e)) => if relaxed {
            byte(input, '\n' as u8)
        } else {
            Err(ParseError::Error(e))
        },
        Err(e) => Err(e),
    }
}

/// Appends the byte `b`.
pub fn put_byte(out: &mut Vec<u8>, b: u8)
    ensures
        final(out)@ == old(out)@ + seq![b],
{
    let ghost start = out@;
    out.push(b);
    assert(out@ =~= start + seq![b]);
}

/// Appends `bytes`.
pub fn put(out: &mut Vec<u8>, bytes: &[u8])
    ensures
        final(out)@ == old(out)@ + bytes@,
{
    out.extend_from_slice(bytes);
}

/// Appends the keyword `word`.
pub fn put_str(out: &mut Vec<u8>, word: &str)
    ensures
        final(out)@ == old(out)@ + kw(word),
{
    out.extend_from_slice(word.as_bytes());
}

} // verus!

verus! {

/// Whether a line ends at the front of `s`: with `CRLF`, or with a bare LF
/// where that is tolerated.
pub open spec fn spec_at_line_end(s: Seq<u8>, relaxed: bool) -> bool {
    if relaxed {
        s.len() >= 1 && s[0] == '\n' as u8
    } else {
        s.len() >= 2 && s[0] == '\r' as u8 && s[1] == '\n' as u8
    }
}

/// The index at which the first line of `s` ends, if `s` holds the end of
/// a line.
pub open spec fn spec_first_line_end(s: Seq<u8>, relaxed: bool) -> Option<nat>
    decreases s.len(),
{
    if s.len() == 0 {
        None
    } else if spec_at_line_end(s, relaxed) {
        Some(0)
    } else {
        match spec_first_line_end(s.skip(1), relaxed) {
            Some(i) => Some(i + 1),
            None => None,
        }
    }
}

/// The first line of a sequence ends at the one index at which a line ends
/// and before which none does.
pub proof fn lemma_first_line_end(s: Seq<u8>, relaxed: bool, n: int)
    requires
        0 <= n <= s.len(),
        forall|i: int| 0 <= i < n ==> !spec_at_line_end(#[trigger] s.skip(i), relaxed),
    ensures
        n < s.len() && spec_at_line_end(s.skip(n), relaxed) ==> spec_first_line_end(s, relaxed)
            == Some(n as nat),
        n == s.len() ==> spec_first_line_end(s, relaxed) is None,
    decreases n,
{
    if n > 0 {
        assert(!spec_at_line_end(s.skip(0), relaxed));
        assert(s.skip(0) =~= s);
        let t = s.skip(1);
        assert forall|i: int| 0 <= i < n - 1 implies !spec_at_line_end(
            #[trigger] t.skip(i),
            relaxed,
        ) by {
            assert(t.skip(i) =~= s.skip(i + 1));
        }
        assert(t.skip(n - 1) =~= s.skip(n));
        lemma_first_line_end(t, relaxed, n - 1);
    } else {
        assert(s.skip(0) =~= s);
    }
}

/// The index at which the first line of the input ends, if the input holds
/// the end of a line.
pub fn first_line_end(input: &[u8], relaxed: bool) -> (r: Option<usize>)
    ensures
        match r {
            Some(i) => spec_first_line_end(input@, relaxed) == Some(i as nat) && i < input@.len(),
            None => spec_first_line_end(input@, relaxed) is None,
        },
{
    let mut i: usize = 0;
    while i < input.len()
        invariant
            i <= input.len(),
            forall|j: int| 0 <= j < i ==> !spec_at_line_end(#[trigger] input@.skip(j), relaxed),
        decreases input.len() - i,
    {
        let here = if relaxed {
            input[i] == '\n' as u8
        } else {
            input[i] == '\r' as u8 && i + 1 < input.len() && input[i + 1] == '\n' as u8
        };
        proof {
            let t = input@.skip(i as int);
            assert(t[0] == input@[i as int]);
            if i + 1 < input.len() {
                assert(t[1] == input@[i + 1]);
            }
        }
        if here {
            proof {
                lemma_first_line_end(input@, relaxed, i as int);
            }
            return Some(i);
        }
        i += 1;
    }
    proof {
        lemma_first_line_end(input@, relaxed, i as int);
    }
    None
}

} // verus!

verus! {

/// Where the first line of a sequence ends, what ends the line lies within
/// the sequence.
pub proof fn lemma_line_end_fits(s: Seq<u8>, relaxed: bool)
    ensures
        spec_first_line_end(s, relaxed) matches Some(i) ==> i + (if relaxed {
            1nat
        } else {
            2nat
        }) <= s.len() && spec_at_line_end(s.skip(i as int), relaxed),
    decreases s.len(),
{
    if s.len() > 0 && !spec_at_line_end(s, relaxed) {
        let t = s.skip(1);
        lemma_line_end_fits(t, relaxed);
        match spec_first_line_end(t, relaxed) {
            Some(i) => {
                assert(t.skip(i as int) =~= s.skip(i as int + 1));
            },
            None => {},
        }
    } else if s.len() > 0 {
        assert(s.skip(0) =~= s);
    }
}

} // verus!
