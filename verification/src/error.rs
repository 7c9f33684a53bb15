//! Parse results and the ways in which a streaming parser fails.

use vstd::prelude::*;

verus! {

/// Why an input was judged malformed.
#[derive(Debug, Clone, Copy, PartialEq, Eq, Structural)]
pub enum Category {
    /// A byte outside the class the grammar asks for at this place.
    CharacterClass,
    /// A payload or message whose length contradicts what was announced.
    Length,
    /// A number outside its domain.
    Overflow,
    /// Nesting deeper than the recursion budget allows.
    Budget,
    /// Text that is not a valid transfer encoding.
    Encoding,
    /// A literal that announces more bytes than the codec accepts.
    Limit,
}

/// What makes an input malformed: the category, and how many bytes of the
/// input were still unread where the offending rule began.
#[derive(Debug, Clone, Copy, PartialEq, Eq, Structural)]
pub struct Malformed {
    pub category: Category,
    pub remaining: usize,
}

/// The ways a rule can fail on a prefix of a stream.
#[derive(Debug, Clone, Copy, PartialEq, Eq, Structural)]
pub enum ParseError {
    /// The input ended before the rule could decide.
    Incomplete,
    /// The rule does not match here; a surrounding choice, option or
    /// repetition may go on with something else.
    Error(Malformed),
    /// The rule does not match and nothing else may be tried.
    Failure(Malformed),
}

/// What a grammar rule yields on a sequence of bytes: the unread rest and
/// the value, or the reason for failing.
pub type SpecResult<T> = Result<(Seq<u8>, T), ParseError>;

/// What a parser returns: the unread rest of its input and the value.
pub type IMAPResult<'a, T> = Result<(&'a [u8], T), ParseError>;

/// The recoverable error of the given category for a rule that began on `s`.
pub open spec fn error_at(category: Category, s: Seq<u8>) -> ParseError {
    ParseError::Error(Malformed { category, remaining: s.len() as usize })
}

/// The unrecoverable error of the given category for a rule that began on `s`.
pub open spec fn failure_at(category: Category, s: Seq<u8>) -> ParseError {
    ParseError::Failure(Malformed { category, remaining: s.len() as usize })
}

/// A parser's result `r` is the grammar's result `s`: the same rest and the
/// same value, or the same error.
pub open spec fn agrees<T: DeepView>(r: IMAPResult<T>, s: SpecResult<T::V>) -> bool {
    match r {
        Ok((rest, value)) => s == Ok::<(Seq<u8>, T::V), ParseError>((rest@, value.deep_view())),
        Err(e) => s == Err::<(Seq<u8>, T::V), ParseError>(e),
    }
}

/// Ordered choice: what `first` yields, unless it fails recoverably; then
/// what `second` yields.
pub open spec fn spec_or<T>(first: SpecResult<T>, second: SpecResult<T>) -> SpecResult<T> {
    match first {
        Err(ParseError::Error(_)) => second,
        r => r,
    }
}

impl ParseError {
    /// True for the two errors that mean a malformed input.
    pub open spec fn is_malformed(self) -> bool {
        self != ParseError::Incomplete
    }

    /// The offset of the offending rule in an input of `len` bytes.
    pub open spec fn spec_offset(self, len: nat) -> nat {
        match self {
            ParseError::Incomplete => len,
            ParseError::Error(m) | ParseError::Failure(m) => if m.remaining <= len {
                (len - m.remaining) as nat
            } else {
                0
            },
        }
    }

    /// The offset of the offending rule in an input of `len` bytes; the
    /// length itself when the input was merely incomplete.
    pub fn offset(&self, len: usize) -> (r: usize)
        ensures
            r == self.spec_offset(len as nat),
    {
        match self {
            ParseError::Incomplete => len,
            ParseError::Error(m) | ParseError::Failure(m) => if m.remaining <= len {
                len - m.remaining
            } else {
                0
            },
        }
    }

    /// The category, where the input is malformed.
    pub fn category(&self) -> (r: Option<Category>)
        ensures
            r == match *self {
                ParseError::Incomplete => None::<Category>,
                ParseError::Error(m) | ParseError::Failure(m) => Some(m.category),
            },
    {
        match self {
            ParseError::Incomplete => None,
            ParseError::Error(m) | ParseError::Failure(m) => Some(m.category),
        }
    }
}

/// The recoverable error of the given category for a rule that began on
/// `input`.
pub fn error(category: Category, input: &[u8]) -> (e: ParseError)
    ensures
        e == error_at(category, input@),
{
    ParseError::Error(Malformed { category, remaining: input.len() })
}

/// The unrecoverable error of the given category for a rule that began on
/// `input`.
pub fn failure(category: Category, input: &[u8]) -> (e: ParseError)
    ensures
        e == failure_at(category, input@),
{
    ParseError::Failure(Malformed { category, remaining: input.len() })
}

} // verus!
