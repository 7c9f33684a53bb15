use imap_codec::codec::Encoder;
use imap_codec::driver::{
    announcement, frame, Announcement, Config, Driver, FeedOutcome, Frame, Hint, State, Value,
};
use imap_codec::error::Category;
use imap_codec::fetch::FetchAttributeValue;
use imap_codec::fragment::{encode_fragments, fragments, Fragment};
use imap_codec::lex::Quirks;
use imap_codec::number::NzNumber;
use imap_codec::response::{response, Code, Data, Greeting, GreetingKind, Response, Status};
use imap_codec::strings::{IString, LiteralMode, NString, NonEmptyVec, Text};

fn config() -> Config {
    Config { quirks: Quirks::strict(), acknowledge_literals: false }
}

fn ready(outcome: FeedOutcome) -> Value {
    match outcome {
        FeedOutcome::Ready(v) => v,
        other => panic!("{:?}", other),
    }
}

#[test]
fn a_literal_header_asks_for_its_bytes() {
    let mut driver = Driver::new(config());
    assert_eq!(driver.state(), State::Idle);
    assert_eq!(driver.feed(b"A1 LOGIN {5}\r\n"), FeedOutcome::NeedMoreBytes(Hint::Exactly(5)));
    assert_eq!(driver.state(), State::AwaitingLiteral(5));
    assert_eq!(driver.feed(b"al"), FeedOutcome::NeedMoreBytes(Hint::Exactly(3)));
    assert_eq!(driver.state(), State::AwaitingLiteral(3));
    assert_eq!(driver.feed(b"ice"), FeedOutcome::NeedMoreBytes(Hint::UntilCrlf));
    assert_eq!(driver.state(), State::AwaitingLine);
}

#[test]
fn a_server_acknowledges_synchronizing_literals() {
    let server = Config { quirks: Quirks::strict(), acknowledge_literals: true };
    let mut driver = Driver::after_greeting(server);
    assert_eq!(driver.feed(b"A1 LOGIN {5}\r\n"), FeedOutcome::LiteralAck(5));
    assert_eq!(driver.feed(b"a"), FeedOutcome::NeedMoreBytes(Hint::Exactly(4)));

    let mut driver = Driver::after_greeting(server);
    assert_eq!(driver.feed(b"A1 LOGIN {5+}\r\n"), FeedOutcome::NeedMoreBytes(Hint::Exactly(5)));
}

#[test]
fn greeting_then_responses() {
    let mut driver = Driver::new(config());
    assert_eq!(driver.feed(b"* OK [UNSEEN 12"), FeedOutcome::NeedMoreBytes(Hint::UntilCrlf));
    let v = ready(driver.feed(b"345] ...\r\n* 42 EXISTS\r\nA1 OK"));
    assert_eq!(
        v,
        Value::Greeting(Greeting {
            kind: GreetingKind::Okay,
            code: Some(Code::Unseen(NzNumber::new(12345).unwrap())),
            text: Text::try_from(b"...").unwrap(),
        })
    );
    assert_eq!(driver.state(), State::Ready);
    assert_eq!(ready(driver.poll()), Value::Response(Response::Data(Data::Exists(42))));
    assert_eq!(driver.state(), State::AwaitingLine);
    assert_eq!(driver.poll(), FeedOutcome::NeedMoreBytes(Hint::UntilCrlf));
    let v = ready(driver.feed(b" done\r\n"));
    assert_eq!(
        v,
        Value::Response(Response::Status(Status::Okay {
            tag: Some(imap_codec::strings::Tag::try_from(b"A1").unwrap()),
            code: None,
            text: Text::try_from(b"done").unwrap(),
        }))
    );
    assert_eq!(driver.state(), State::Idle);
    assert_eq!(driver.buffered(), 0);
}

#[test]
fn the_first_message_must_be_a_greeting() {
    let mut driver = Driver::new(config());
    match driver.feed(b"* 42 EXISTS\r\n") {
        FeedOutcome::Malformed(_) => {}
        other => panic!("{:?}", other),
    }
    let mut driver = Driver::after_greeting(config());
    assert_eq!(ready(driver.feed(b"* 42 EXISTS\r\n")), Value::Response(Response::Data(Data::Exists(42))));
}

#[test]
fn malformed_is_final() {
    let mut driver = Driver::after_greeting(config());
    let first = driver.feed(b"* 42 EXITS\r\n");
    let reason = match first {
        FeedOutcome::Malformed(r) => r,
        other => panic!("{:?}", other),
    };
    assert_eq!(reason.category, Category::CharacterClass);
    assert_eq!(driver.state(), State::Poisoned);
    let buffered = driver.buffered();
    for more in [b"".as_ref(), b"* 42 EXISTS\r\n", b"\r\n", b"A1 OK done\r\n"] {
        assert_eq!(driver.feed(more), FeedOutcome::Malformed(reason));
        assert_eq!(driver.poll(), FeedOutcome::Malformed(reason));
        assert_eq!(driver.state(), State::Poisoned);
        assert_eq!(driver.buffered(), buffered);
    }
}

#[test]
fn malformed_says_where() {
    let mut driver = Driver::after_greeting(config());
    match driver.feed(b"* 42 EXITS\r\n") {
        FeedOutcome::Malformed(r) => assert!(r.offset <= 12),
        other => panic!("{:?}", other),
    }
    let mut driver = Driver::after_greeting(config());
    match driver.feed(b"* 4294967296 EXISTS\r\n") {
        FeedOutcome::Malformed(r) => assert_eq!(r.offset, 2),
        other => panic!("{:?}", other),
    }
}

#[test]
fn literals_beyond_the_limit_are_refused() {
    let mut driver = Driver::after_greeting(config());
    match driver.feed(b"* 1 FETCH (RFC822 {268435457}\r\n") {
        FeedOutcome::Malformed(r) => {
            assert_eq!(r.category, Category::Limit);
            assert_eq!(r.offset, 31);
        }
        other => panic!("{:?}", other),
    }
    let mut driver = Driver::after_greeting(config());
    assert_eq!(
        driver.feed(b"* 1 FETCH (RFC822 {268435456}\r\n"),
        FeedOutcome::NeedMoreBytes(Hint::Exactly(268435456))
    );
    let mut driver = Driver::after_greeting(config());
    match driver.feed(b"* 1 FETCH (RFC822 {99999999999999999999999}\r\n") {
        FeedOutcome::Malformed(r) => assert_eq!(r.category, Category::Limit),
        other => panic!("{:?}", other),
    }
}

#[test]
fn a_frame_that_the_grammar_cuts_short_has_the_wrong_length() {
    let mut driver = Driver::after_greeting(config());
    // The text ends with what looks like a literal header: the frame goes on,
    // the grammar does not.
    match driver.feed(b"* OK see {2}\r\nab\r\n") {
        FeedOutcome::Malformed(r) => {
            assert_eq!(r.category, Category::Length);
            assert_eq!(r.offset, 14);
        }
        other => panic!("{:?}", other),
    }
}

fn fetch_with_literal() -> Response {
    Response::Data(Data::Fetch {
        seq: NzNumber::new(1).unwrap(),
        items: NonEmptyVec::new(vec![
            FetchAttributeValue::Rfc822(NString(Some(IString::try_from(b"a\r\n\x00b").unwrap()))),
            FetchAttributeValue::Uid(NzNumber::new(7).unwrap()),
        ])
        .unwrap(),
    })
}

#[test]
fn literals_are_taken_by_their_length() {
    let message = fetch_with_literal();
    let bytes = message.encode();
    assert_eq!(bytes, b"* 1 FETCH (RFC822 {5}\r\na\r\n\x00b UID 7)\r\n");
    let (rest, parsed) = response(&bytes, Quirks::strict()).unwrap();
    assert!(rest.is_empty());
    assert_eq!(parsed, message);

    let (rest, lit) = imap_codec::strings::literal(b"{5}\r\n\r\n\x00\r\nxyz").unwrap();
    assert_eq!(rest, b"xyz");
    assert_eq!(lit.data(), b"\r\n\x00\r\n");
    assert_eq!(lit.mode(), LiteralMode::Sync);
    let (rest, lit) = imap_codec::strings::literal(b"{0+}\r\nxyz").unwrap();
    assert_eq!(rest, b"xyz");
    assert_eq!(lit.data(), b"");
    assert_eq!(lit.mode(), LiteralMode::NonSync);
    assert_eq!(
        imap_codec::strings::literal(b"{5}\r\nabcd").unwrap_err(),
        imap_codec::error::ParseError::Incomplete
    );
    let err = imap_codec::strings::literal(b"{268435457}\r\n").unwrap_err();
    assert_eq!(err.category(), Some(Category::Limit));
    assert!(matches!(err, imap_codec::error::ParseError::Failure(_)));
}

#[test]
fn feeding_in_pieces_is_feeding_at_once() {
    let greeting = Greeting {
        kind: GreetingKind::PreAuth,
        code: Some(Code::Alert),
        text: Text::try_from(b"hello").unwrap(),
    };
    let messages: Vec<(bool, Vec<u8>)> = vec![
        (false, greeting.encode()),
        (true, fetch_with_literal().encode()),
        (true, b"* LIST (\\Noselect) \"/\" bbb\r\n".to_vec()),
        (true, b"A1 OK [ALERT] hello\r\n".to_vec()),
        (true, b"+ aGVsbG8=\r\n".to_vec()),
    ];
    for (greeted, bytes) in messages {
        let fresh = || if greeted { Driver::after_greeting(config()) } else { Driver::new(config()) };
        let mut whole = fresh();
        let expected = ready(whole.feed(&bytes));
        assert_eq!(whole.state(), State::Idle);
        for cut in 0..=bytes.len() {
            let mut driver = fresh();
            let first = driver.feed(&bytes[..cut]);
            if cut < bytes.len() {
                assert!(
                    matches!(first, FeedOutcome::NeedMoreBytes(_)),
                    "{:?} at {}",
                    first,
                    cut
                );
                assert_eq!(ready(driver.feed(&bytes[cut..])), expected);
            } else {
                assert_eq!(ready(first), expected);
            }
            assert_eq!(driver.state(), State::Idle);
        }
        // byte by byte
        let mut driver = fresh();
        for (i, b) in bytes.iter().enumerate() {
            let outcome = driver.feed(&[*b]);
            if i + 1 < bytes.len() {
                assert!(matches!(outcome, FeedOutcome::NeedMoreBytes(_)));
            } else {
                assert_eq!(ready(outcome), expected);
            }
        }
    }
}

#[test]
fn relaxed_lines_in_the_driver() {
    let relaxed = Config {
        quirks: Quirks { crlf_relaxed: true, missing_text: false },
        acknowledge_literals: false,
    };
    let mut driver = Driver::after_greeting(relaxed);
    assert_eq!(ready(driver.feed(b"* 3 EXISTS\n* 4 EXISTS\r\n")), Value::Response(Response::Data(Data::Exists(3))));
    assert_eq!(ready(driver.poll()), Value::Response(Response::Data(Data::Exists(4))));
    let mut driver = Driver::after_greeting(relaxed);
    assert_eq!(driver.feed(b"* 1 FETCH (RFC822 {3}\r\n"), FeedOutcome::NeedMoreBytes(Hint::Exactly(3)));
    let mut strict = Driver::after_greeting(config());
    assert_eq!(strict.feed(b"* 3 EXISTS\n"), FeedOutcome::NeedMoreBytes(Hint::UntilCrlf));
}

#[test]
fn frames() {
    assert_eq!(frame(b"", false), Frame::NeedLine);
    assert_eq!(frame(b"abc\r", false), Frame::NeedLine);
    assert_eq!(frame(b"abc\r\n", false), Frame::Complete(5));
    assert_eq!(frame(b"abc\r\ndef", false), Frame::Complete(5));
    assert_eq!(frame(b"abc\ndef", true), Frame::Complete(4));
    assert_eq!(frame(b"a {3}\r\nxyz b {1+}\r\n\nc\r\nrest", false), Frame::Complete(23));
    assert_eq!(
        frame(b"a {3}\r\nxy", false),
        Frame::NeedLiteral { missing: 1, announced: 3, mode: LiteralMode::Sync, fresh: false }
    );
    assert_eq!(
        frame(b"a {3+}\r\n", false),
        Frame::NeedLiteral { missing: 3, announced: 3, mode: LiteralMode::NonSync, fresh: true }
    );
    assert_eq!(frame(b"a {0}\r\n", false), Frame::NeedLine);
    assert_eq!(frame(b"a {0}\r\nb\r\n", false), Frame::Complete(10));
    assert_eq!(frame(b"a {999999999}\r\n", false), Frame::TooLarge(15));
}

#[test]
fn announcements() {
    assert_eq!(announcement(b"A1 LOGIN {5}"), Some(Announcement::Literal(5, LiteralMode::Sync)));
    assert_eq!(announcement(b"{05+}"), Some(Announcement::Literal(5, LiteralMode::NonSync)));
    assert_eq!(announcement(b"{268435456}"), Some(Announcement::Literal(268435456, LiteralMode::Sync)));
    assert_eq!(announcement(b"{268435457}"), Some(Announcement::TooLarge));
    for line in [b"".as_ref(), b"}", b"{}", b"{+}", b"5}", b"{5", b"{5} ", b"{a5}", b"{5++}", b"{-5}"] {
        assert_eq!(announcement(line), None, "{:?}", line);
    }
}

#[test]
fn fragments_of_a_message() {
    let message = fetch_with_literal();
    let got = encode_fragments(&message);
    assert_eq!(
        got,
        vec![
            Fragment::Line { data: b"* 1 FETCH (RFC822 {5}\r\n".to_vec() },
            Fragment::Literal { data: b"a\r\n\x00b".to_vec(), mode: LiteralMode::Sync },
            Fragment::Line { data: b" UID 7)\r\n".to_vec() },
        ]
    );
    let joined: Vec<u8> = got
        .iter()
        .flat_map(|f| match f {
            Fragment::Line { data } => data.clone(),
            Fragment::Literal { data, .. } => data.clone(),
        })
        .collect();
    assert_eq!(joined, message.encode());

    assert_eq!(
        fragments(b"A1 OK done\r\n"),
        vec![Fragment::Line { data: b"A1 OK done\r\n".to_vec() }]
    );
    assert_eq!(fragments(b""), vec![]);
    assert_eq!(
        fragments(b"a {2+}\r\n\r\n b"),
        vec![
            Fragment::Line { data: b"a {2+}\r\n".to_vec() },
            Fragment::Literal { data: b"\r\n".to_vec(), mode: LiteralMode::NonSync },
            Fragment::Line { data: b" b".to_vec() },
        ]
    );
    assert_eq!(
        fragments(b"a {5}\r\nxy"),
        vec![
            Fragment::Line { data: b"a {5}\r\n".to_vec() },
            Fragment::Line { data: b"xy".to_vec() },
        ]
    );
}
