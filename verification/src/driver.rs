//! The driver that a transport feeds with bytes as they arrive. It frames
//! messages by their lines and by the literals that the lines announce,
//! says how many more bytes a message needs, and hands out each message
//! once it is whole.

use crate::error::{Category, Malformed, ParseError};
use crate::lex::{first_line_end, skip, spec_first_line_end, take, CharClass, Quirks};
use crate::number::{decimal_value, spec_decimal};
use crate::response::{
    greeting, response, spec_greeting, spec_response, Greeting, GreetingModel, Response,
    ResponseModel,
};
use crate::strings::{LiteralMode, MAX_LITERAL_LEN};
use vstd::prelude::*;
use vstd::slice::*;

verus! {

/// How many of the last bytes of `s` are in `class`.
pub open spec fn spec_trailing(s: Seq<u8>, class: CharClass) -> nat
    decreases s.len(),
{
    if s.len() > 0 && class.spec_has(s.last()) {
        1 + spec_trailing(s.drop_last(), class)
    } else {
        0
    }
}

/// The trailing run of a class begins at the one index from which on every
/// byte is in the class and before which the sequence begins or a byte
/// outside the class stands.
pub proof fn lemma_trailing(s: Seq<u8>, class: CharClass, from: int)
    requires
        0 <= from <= s.len(),
        forall|i: int| from <= i < s.len() ==> class.spec_has(#[trigger] s[i]),
        from == 0 || !class.spec_has(s[from - 1]),
    ensures
        spec_trailing(s, class) == s.len() - from,
    decreases s.len() - from,
{
    if from < s.len() {
        let t = s.drop_last();
        assert(class.spec_has(s[s.len() - 1]));
        assert forall|i: int| from <= i < t.len() implies class.spec_has(#[trigger] t[i]) by {
            assert(t[i] == s[i]);
        }
        if from > 0 {
            assert(t[from - 1] == s[from - 1]);
        }
        lemma_trailing(t, class, from);
    }
}

/// How many of the last bytes of `bytes` are in `class`.
pub fn trailing(bytes: &[u8], class: CharClass) -> (n: usize)
    ensures
        n == spec_trailing(bytes@, class),
        n <= bytes@.len(),
{
    let mut from: usize = bytes.len();
    while from > 0 && class.has(bytes[from - 1])
        invariant
            from <= bytes.len(),
            forall|i: int| from <= i < bytes@.len() ==> class.spec_has(#[trigger] bytes@[i]),
        decreases from,
    {
        from -= 1;
    }
    proof {
        lemma_trailing(bytes@, class, from as int);
    }
    bytes.len() - from
}

/// What a line announces at its end.
#[derive(Debug, Clone, Copy, PartialEq, Eq, Structural)]
pub enum Announcement {
    /// A literal of so many bytes, in the given mode.
    Literal(u32, LiteralMode),
    /// A literal that is longer than the codec accepts.
    TooLarge,
}

/// The digits of a literal header that `body` ends with, where `body` is
/// the line without the closing brace and the plus sign: none where `body`
/// does not end with an opening brace and one or more digits.
pub open spec fn spec_announced_digits(body: Seq<u8>) -> Option<Seq<u8>> {
    let d = spec_trailing(body, CharClass::Digit);
    if d >= 1 && body.len() > d && body[body.len() - d - 1] == '{' as u8 {
        Some(body.skip(body.len() - d))
    } else {
        None
    }
}

/// What the line `line` announces at its end: a literal where the line
/// ends with `"{" 1*DIGIT ["+"] "}"`.
pub open spec fn spec_announcement(line: Seq<u8>) -> Option<Announcement> {
    if line.len() == 0 || line.last() != '}' as u8 {
        None
    } else {
        let inner = line.drop_last();
        let plus = inner.len() > 0 && inner.last() == '+' as u8;
        let body = if plus {
            inner.drop_last()
        } else {
            inner
        };
        match spec_announced_digits(body) {
            None => None,
            Some(digits) => if spec_decimal(digits) <= MAX_LITERAL_LEN {
                Some(
                    Announcement::Literal(
                        spec_decimal(digits) as u32,
                        if plus {
                            LiteralMode::NonSync
                        } else {
                            LiteralMode::Sync
                        },
                    ),
                )
            } else {
                Some(Announcement::TooLarge)
            },
        }
    }
}

/// What the line `line` announces at its end.
pub fn announcement(line: &[u8]) -> (r: Option<Announcement>)
    ensures
        r == spec_announcement(line@),
{
    if line.len() == 0 || line[line.len() - 1] != '}' as u8 {
        return None;
    }
    let inner = take(line, line.len() - 1);
    let plus = inner.len() > 0 && inner[inner.len() - 1] == '+' as u8;
    let body = if plus {
        take(inner, inner.len() - 1)
    } else {
        inner
    };
    proof {
        assert(inner@ =~= line@.drop_last());
        if plus {
            assert(body@ =~= inner@.drop_last());
        }
    }
    let d = trailing(body, CharClass::Digit);
    if d >= 1 && body.len() > d && body[body.len() - d - 1] == '{' as u8 {
        let digits = skip(body, body.len() - d);
        proof {
            assert forall|i: int| 0 <= i < digits@.len() implies CharClass::Digit.spec_has(
                #[trigger] digits@[i],
            ) by {
                lemma_trailing_bounds(body@, CharClass::Digit);
                assert(digits@[i] == body@[body@.len() - d + i]);
            }
        }
        match decimal_value(digits, MAX_LITERAL_LEN as u64) {
            Some(n) => Some(
                Announcement::Literal(
                    n as u32,
                    if plus {
                        LiteralMode::NonSync
                    } else {
                        LiteralMode::Sync
                    },
                ),
            ),
            None => Some(Announcement::TooLarge),
        }
    } else {
        None
    }
}

/// What the trailing run of a sequence says about its bytes.
pub proof fn lemma_trailing_bounds(s: Seq<u8>, class: CharClass)
    ensures
        spec_trailing(s, class) <= s.len(),
        forall|i: int|
            s.len() - spec_trailing(s, class) <= i < s.len() ==> class.spec_has(#[trigger] s[i]),
    decreases s.len(),
{
    if s.len() > 0 && class.spec_has(s.last()) {
        let t = s.drop_last();
        lemma_trailing_bounds(t, class);
        assert forall|i: int| s.len() - spec_trailing(s, class) <= i < s.len() implies class.spec_has(
            #[trigger] s[i],
        ) by {
            if i < t.len() {
                assert(s[i] == t[i]);
            }
        }
    }
}

/// How far a buffer goes towards one whole message.
#[derive(Debug, Clone, Copy, PartialEq, Eq, Structural)]
pub enum Frame {
    /// The first so many bytes are one message.
    Complete(usize),
    /// The line that the buffer ends in is not finished.
    NeedLine,
    /// A literal was announced, and so many bytes of it are missing. The
    /// announced length and the mode are given, and whether none of its
    /// bytes has arrived so far.
    NeedLiteral { missing: usize, announced: u32, mode: LiteralMode, fresh: bool },
    /// The line that ends before this offset announces a literal that is
    /// longer than the codec accepts.
    TooLarge(usize),
}

/// The length of what ends a line: one byte for a bare LF, two for CRLF.
pub open spec fn spec_line_end_len(relaxed: bool) -> nat {
    if relaxed {
        1
    } else {
        2
    }
}

/// The part of a line that can hold an announcement. A literal is announced
/// before CRLF only: where lines end with a bare LF, a line that announces
/// one still has its CR.
pub open spec fn spec_announcing_part(line: Seq<u8>, relaxed: bool) -> Option<Seq<u8>> {
    if !relaxed {
        Some(line)
    } else if line.len() > 0 && line.last() == '\r' as u8 {
        Some(line.drop_last())
    } else {
        None
    }
}

/// What the line `line` announces, given how lines end.
pub open spec fn spec_line_announcement(line: Seq<u8>, relaxed: bool) -> Option<Announcement> {
    match spec_announcing_part(line, relaxed) {
        Some(part) => spec_announcement(part),
        None => None,
    }
}

/// How far the buffer `buf` goes towards one whole message, when the
/// bytes before `pos` are lines that announce literals and the literals that
/// they announce.
pub open spec fn spec_frame_at(buf: Seq<u8>, pos: nat, relaxed: bool) -> Frame
    decreases buf.len() - pos,
{
    if pos > buf.len() {
        Frame::NeedLine
    } else {
        match spec_first_line_end(buf.skip(pos as int), relaxed) {
            None => Frame::NeedLine,
            Some(i) => {
                let end = pos + i + spec_line_end_len(relaxed);
                match spec_line_announcement(
                    buf.subrange(pos as int, (pos + i) as int),
                    relaxed,
                ) {
                    None => Frame::Complete(end as usize),
                    Some(Announcement::TooLarge) => Frame::TooLarge(end as usize),
                    Some(Announcement::Literal(n, mode)) => if end > buf.len() {
                        Frame::NeedLine
                    } else if buf.len() - end < n {
                        Frame::NeedLiteral {
                            missing: (n - (buf.len() - end)) as usize,
                            announced: n,
                            mode,
                            fresh: buf.len() == end,
                        }
                    } else {
                        spec_frame_at(buf, (end + n) as nat, relaxed)
                    },
                }
            },
        }
    }
}

/// How far the buffer `buf` goes towards one whole message: a message ends
/// with the first line that announces no literal; a line that announces a
/// literal is followed by as many bytes as it announces, whatever they are,
/// and then by a further line.
pub open spec fn spec_frame(buf: Seq<u8>, relaxed: bool) -> Frame {
    spec_frame_at(buf, 0, relaxed)
}

/// What the line `line` announces, given how lines end.
pub fn line_announcement(line: &[u8], relaxed: bool) -> (r: Option<Announcement>)
    ensures
        r == spec_line_announcement(line@, relaxed),
{
    if !relaxed {
        announcement(line)
    } else if line.len() > 0 && line[line.len() - 1] == '\r' as u8 {
        let part = take(line, line.len() - 1);
        assert(part@ =~= line@.drop_last());
        announcement(part)
    } else {
        None
    }
}

/// How far the buffer goes towards one whole message.
pub fn frame(buffer: &[u8], relaxed: bool) -> (r: Frame)
    ensures
        r == spec_frame(buffer@, relaxed),
        r matches Frame::Complete(n) ==> 1 <= n <= buffer@.len(),
{
    let mut pos: usize = 0;
    loop
        invariant
            pos <= buffer.len(),
            spec_frame(buffer@, relaxed) == spec_frame_at(buffer@, pos as nat, relaxed),
        decreases buffer.len() - pos,
    {
        let cur = skip(buffer, pos);
        let i = match first_line_end(cur, relaxed) {
            None => {
                return Frame::NeedLine;
            },
            Some(i) => i,
        };
        let end_len: usize = if relaxed {
            1
        } else {
            2
        };
        proof {
            crate::lex::lemma_line_end_fits(cur@, relaxed);
        }
        let end = i + end_len;
        assert(cur@.take(i as int) =~= buffer@.subrange(pos as int, pos + i));
        match line_announcement(take(cur, i), relaxed) {
            None => {
                return Frame::Complete(end + pos);
            },
            Some(Announcement::TooLarge) => {
                return Frame::TooLarge(end + pos);
            },
            Some(Announcement::Literal(n, mode)) => {
                let have = cur.len() - end;
                if have < n as usize {
                    return Frame::NeedLiteral {
                        missing: n as usize - have,
                        announced: n,
                        mode,
                        fresh: have == 0,
                    };
                }
                pos = pos + end + n as usize;
            },
        }
    }
}

} // verus!

verus! {

/// What the transport should wait for.
#[derive(Debug, Clone, Copy, PartialEq, Eq, Structural)]
pub enum Hint {
    /// The end of the current line.
    UntilCrlf,
    /// Exactly so many bytes of a literal.
    Exactly(usize),
}

/// Why a stream was given up, and at which offset of the buffered bytes.
#[derive(Debug, Clone, Copy, PartialEq, Eq, Structural)]
pub struct Reason {
    pub category: Category,
    pub offset: usize,
}

/// A message of a server.
#[derive(Debug, PartialEq, Eq)]
pub enum Value {
    Greeting(Greeting),
    Response(Response),
}

/// A message as a mathematical value.
pub enum ValueModel {
    Greeting(GreetingModel),
    Response(ResponseModel),
}

impl DeepView for Value {
    type V = ValueModel;

    open spec fn deep_view(&self) -> ValueModel {
        match self {
            Value::Greeting(g) => ValueModel::Greeting(g.deep_view()),
            Value::Response(r) => ValueModel::Response(r.deep_view()),
        }
    }
}

/// What a feed led to.
#[derive(Debug, PartialEq, Eq)]
pub enum FeedOutcome {
    /// A whole message.
    Ready(Value),
    /// No whole message yet.
    NeedMoreBytes(Hint),
    /// The peer has announced a synchronizing literal of so many bytes and
    /// waits to be invited to send it.
    LiteralAck(u32),
    /// The stream is malformed. The driver is of no further use.
    Malformed(Reason),
}

/// The outcome of a feed as a mathematical value.
pub enum FeedOutcomeModel {
    Ready(ValueModel),
    NeedMoreBytes(Hint),
    LiteralAck(u32),
    Malformed(Reason),
}

impl DeepView for FeedOutcome {
    type V = FeedOutcomeModel;

    open spec fn deep_view(&self) -> FeedOutcomeModel {
        match self {
            FeedOutcome::Ready(v) => FeedOutcomeModel::Ready(v.deep_view()),
            FeedOutcome::NeedMoreBytes(h) => FeedOutcomeModel::NeedMoreBytes(*h),
            FeedOutcome::LiteralAck(n) => FeedOutcomeModel::LiteralAck(*n),
            FeedOutcome::Malformed(r) => FeedOutcomeModel::Malformed(*r),
        }
    }
}

/// How a driver is set up.
#[derive(Debug, Clone, Copy, PartialEq, Eq, Structural)]
pub struct Config {
    /// The deviations from the grammar that are tolerated.
    pub quirks: Quirks,
    /// Whether the transport invites synchronizing literals, as a server
    /// does: the driver then reports each of them when its header has
    /// arrived and none of its bytes.
    pub acknowledge_literals: bool,
}

/// The states of a driver.
#[derive(Debug, Clone, Copy, PartialEq, Eq, Structural)]
pub enum State {
    /// Nothing is buffered.
    Idle,
    /// The buffered bytes end in a line that is not finished.
    AwaitingLine,
    /// A literal was announced, and so many of its bytes are missing.
    AwaitingLiteral(usize),
    /// A whole message is buffered and waits to be taken.
    Ready,
    /// The stream was found malformed.
    Poisoned,
}

/// A driver as a mathematical value.
pub struct DriverModel {
    /// The bytes that were fed and not yet handed out as messages.
    pub buffer: Seq<u8>,
    pub config: Config,
    /// Whether the greeting was handed out.
    pub greeted: bool,
    /// Why the stream was given up, if it was.
    pub poisoned: Option<Reason>,
}

/// The driver of one connection.
pub struct Driver {
    buffer: Vec<u8>,
    config: Config,
    greeted: bool,
    poisoned: Option<Reason>,
}

impl View for Driver {
    type V = DriverModel;

    closed spec fn view(&self) -> DriverModel {
        DriverModel {
            buffer: self.buffer@,
            config: self.config,
            greeted: self.greeted,
            poisoned: self.poisoned,
        }
    }
}

/// What the grammar yields on one frame: a greeting on the first, a
/// response on every other.
pub open spec fn spec_message(msg: Seq<u8>, greeted: bool, quirks: Quirks) -> Result<
    (Seq<u8>, ValueModel),
    ParseError,
> {
    if greeted {
        match spec_response(msg, quirks) {
            Err(e) => Err(e),
            Ok((rest, r)) => Ok((rest, ValueModel::Response(r))),
        }
    } else {
        match spec_greeting(msg, quirks) {
            Err(e) => Err(e),
            Ok((rest, g)) => Ok((rest, ValueModel::Greeting(g))),
        }
    }
}

/// The driver `d` given up for the reason `r`.
pub open spec fn spec_poison(d: DriverModel, r: Reason) -> (DriverModel, FeedOutcomeModel) {
    (DriverModel { poisoned: Some(r), ..d }, FeedOutcomeModel::Malformed(r))
}

/// What a frame of `n` bytes leads to: the message, if the grammar reads
/// the frame as one message and nothing else; the end of the stream
/// otherwise. A frame that the grammar finds too short or too long has the
/// category of length.
pub open spec fn spec_deliver(d: DriverModel, n: nat) -> (DriverModel, FeedOutcomeModel) {
    match spec_message(d.buffer.take(n as int), d.greeted, d.config.quirks) {
        Ok((rest, v)) => if rest.len() == 0 {
            (
                DriverModel { buffer: d.buffer.skip(n as int), greeted: true, ..d },
                FeedOutcomeModel::Ready(v),
            )
        } else {
            spec_poison(
                d,
                Reason {
                    category: Category::Length,
                    offset: if rest.len() <= n {
                        (n - rest.len()) as usize
                    } else {
                        0
                    },
                },
            )
        },
        Err(ParseError::Incomplete) => spec_poison(
            d,
            Reason { category: Category::Length, offset: n as usize },
        ),
        Err(ParseError::Error(m)) | Err(ParseError::Failure(m)) => spec_poison(
            d,
            Reason {
                category: m.category,
                offset: ParseError::Error(m).spec_offset(n) as usize,
            },
        ),
    }
}

/// What the buffered bytes of a driver lead to.
pub open spec fn spec_poll(d: DriverModel) -> (DriverModel, FeedOutcomeModel) {
    match d.poisoned {
        Some(r) => (d, FeedOutcomeModel::Malformed(r)),
        None => match spec_frame(d.buffer, d.config.quirks.crlf_relaxed) {
            Frame::NeedLine => (d, FeedOutcomeModel::NeedMoreBytes(Hint::UntilCrlf)),
            Frame::NeedLiteral { missing, announced, mode, fresh } => (
                d,
                if d.config.acknowledge_literals && mode == LiteralMode::Sync && fresh {
                    FeedOutcomeModel::LiteralAck(announced)
                } else {
                    FeedOutcomeModel::NeedMoreBytes(Hint::Exactly(missing))
                },
            ),
            Frame::TooLarge(offset) => spec_poison(
                d,
                Reason { category: Category::Limit, offset },
            ),
            Frame::Complete(n) => spec_deliver(d, n as nat),
        },
    }
}

/// What feeding `bytes` to a driver leads to: the bytes are put behind the
/// buffered ones, unless the stream was given up before.
pub open spec fn spec_feed(d: DriverModel, bytes: Seq<u8>) -> (DriverModel, FeedOutcomeModel) {
    match d.poisoned {
        Some(r) => (d, FeedOutcomeModel::Malformed(r)),
        None => spec_poll(DriverModel { buffer: d.buffer + bytes, ..d }),
    }
}

/// The state that a driver is in.
pub open spec fn spec_state(d: DriverModel) -> State {
    if d.poisoned is Some {
        State::Poisoned
    } else if d.buffer.len() == 0 {
        State::Idle
    } else {
        match spec_frame(d.buffer, d.config.quirks.crlf_relaxed) {
            Frame::NeedLine => State::AwaitingLine,
            Frame::NeedLiteral { missing, .. } => State::AwaitingLiteral(missing),
            _ => State::Ready,
        }
    }
}

/// Parses one frame: a greeting before the greeting was handed out, a
/// response after it. Only how many bytes were left is reported of the
/// rest.
pub fn message(msg: &[u8], greeted: bool, quirks: Quirks) -> (r: Result<(usize, Value), ParseError>)
    ensures
        match r {
            Ok((left, v)) => spec_message(msg@, greeted, quirks) matches Ok((rest, model))
                && rest.len() == left && model == v.deep_view(),
            Err(e) => spec_message(msg@, greeted, quirks) == Err::<(Seq<u8>, ValueModel), _>(e),
        },
{
    if greeted {
        match response(msg, quirks) {
            Err(e) => Err(e),
            Ok((rest, r)) => Ok((rest.len(), Value::Response(r))),
        }
    } else {
        match greeting(msg, quirks) {
            Err(e) => Err(e),
            Ok((rest, g)) => Ok((rest.len(), Value::Greeting(g))),
        }
    }
}

impl Driver {
    /// A driver that has seen nothing yet: it expects the greeting.
    pub fn new(config: Config) -> (r: Driver)
        ensures
            r@ == (DriverModel { buffer: Seq::empty(), config, greeted: false, poisoned: None }),
    {
        Driver { buffer: Vec::new(), config, greeted: false, poisoned: None }
    }

    /// A driver for a stream whose greeting was dealt with elsewhere: it
    /// expects responses.
    pub fn after_greeting(config: Config) -> (r: Driver)
        ensures
            r@ == (DriverModel { buffer: Seq::empty(), config, greeted: true, poisoned: None }),
    {
        Driver { buffer: Vec::new(), config, greeted: true, poisoned: None }
    }

    /// Gives the stream up for the reason `reason`.
    fn poison(&mut self, reason: Reason) -> (r: FeedOutcome)
        ensures
            (final(self)@, r.deep_view()) == spec_poison(old(self)@, reason),
    {
        self.poisoned = Some(reason);
        FeedOutcome::Malformed(reason)
    }

    /// Hands out the message that the first `n` buffered bytes are, or gives
    /// the stream up.
    fn deliver(&mut self, n: usize) -> (r: FeedOutcome)
        requires
            n <= old(self)@.buffer.len(),
        ensures
            (final(self)@, r.deep_view()) == spec_deliver(old(self)@, n as nat),
    {
        let parsed = message(take(self.buffer.as_slice(), n), self.greeted, self.config.quirks);
        match parsed {
            Ok((left, v)) => {
                if left == 0 {
                    let rest = slice_to_vec(skip(self.buffer.as_slice(), n));
                    self.buffer = rest;
                    self.greeted = true;
                    FeedOutcome::Ready(v)
                } else {
                    let offset = if left <= n {
                        n - left
                    } else {
                        0
                    };
                    self.poison(Reason { category: Category::Length, offset })
                }
            },
            Err(ParseError::Incomplete) => self.poison(Reason { category: Category::Length, offset: n }),
            Err(ParseError::Error(m)) => {
                let offset = ParseError::Error(m).offset(n);
                self.poison(Reason { category: m.category, offset })
            },
            Err(ParseError::Failure(m)) => {
                let offset = ParseError::Failure(m).offset(n);
                self.poison(Reason { category: m.category, offset })
            },
        }
    }

    /// Says what the buffered bytes lead to, without new bytes: the next
    /// message, if a whole one is buffered.
    pub fn poll(&mut self) -> (r: FeedOutcome)
        ensures
            (final(self)@, r.deep_view()) == spec_poll(old(self)@),
    {
        match self.poisoned {
            Some(reason) => {
                return FeedOutcome::Malformed(reason);
            },
            None => {},
        }
        match frame(self.buffer.as_slice(), self.config.quirks.crlf_relaxed) {
            Frame::NeedLine => FeedOutcome::NeedMoreBytes(Hint::UntilCrlf),
            Frame::NeedLiteral { missing, announced, mode, fresh } => {
                let sync = match mode {
                    LiteralMode::Sync => true,
                    LiteralMode::NonSync => false,
                };
                if self.config.acknowledge_literals && sync && fresh {
                    FeedOutcome::LiteralAck(announced)
                } else {
                    FeedOutcome::NeedMoreBytes(Hint::Exactly(missing))
                }
            },
            Frame::TooLarge(offset) => self.poison(Reason { category: Category::Limit, offset }),
            Frame::Complete(n) => self.deliver(n),
        }
    }

    /// Takes the bytes that arrived and says what they lead to.
    pub fn feed(&mut self, bytes: &[u8]) -> (r: FeedOutcome)
        ensures
            (final(self)@, r.deep_view()) == spec_feed(old(self)@, bytes@),
    {
        match self.poisoned {
            Some(reason) => {
                return FeedOutcome::Malformed(reason);
            },
            None => {},
        }
        crate::lex::put(&mut self.buffer, bytes);
        self.poll()
    }

    /// The state that the driver is in.
    pub fn state(&self) -> (r: State)
        ensures
            r == spec_state(self@),
    {
        if self.poisoned.is_some() {
            State::Poisoned
        } else if self.buffer.len() == 0 {
            State::Idle
        } else {
            match frame(self.buffer.as_slice(), self.config.quirks.crlf_relaxed) {
                Frame::NeedLine => State::AwaitingLine,
                Frame::NeedLiteral { missing, .. } => State::AwaitingLiteral(missing),
                _ => State::Ready,
            }
        }
    }

    /// How many bytes are buffered.
    pub fn buffered(&self) -> (r: usize)
        ensures
            r == self@.buffer.len(),
    {
        self.buffer.len()
    }
}

} // verus!
