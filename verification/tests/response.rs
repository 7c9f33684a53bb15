use imap_codec::codec::Encoder;
use imap_codec::error::{Category, ParseError};
use imap_codec::flag::FlagNameAttribute;
use imap_codec::lex::Quirks;
use imap_codec::mailbox::Mailbox;
use imap_codec::number::NzNumber;
use imap_codec::response::{
    base64_line, continue_req, greeting, resp_text, resp_text_code, response, Capability, Code,
    CommandContinuationRequest, ContinueError, Data, Greeting, GreetingKind, Response, Status,
};
use imap_codec::strings::{Charset, NonEmptyVec, QuotedChar, Tag, Text};

fn strict() -> Quirks {
    Quirks::strict()
}

fn text(t: &str) -> Text {
    Text::try_from(t.as_bytes()).unwrap()
}

fn nz(n: u32) -> NzNumber {
    NzNumber::new(n).unwrap()
}

fn tag(t: &str) -> Option<Tag> {
    Some(Tag::try_from(t.as_bytes()).unwrap())
}

fn greeting_ok(code: Option<Code>, t: &str) -> Greeting {
    Greeting { kind: GreetingKind::Okay, code, text: text(t) }
}

fn status_ok(tag: Option<Tag>, code: Option<Code>, t: &str) -> Status {
    Status::Okay { tag, code, text: text(t) }
}

fn status_no(tag: Option<Tag>, code: Option<Code>, t: &str) -> Status {
    Status::No { tag, code, text: text(t) }
}

fn status_bad(tag: Option<Tag>, code: Option<Code>, t: &str) -> Status {
    Status::Bad { tag, code, text: text(t) }
}

fn kat_inverse_greeting(tests: &[(&[u8], &[u8], Greeting)]) {
    for (test_input, expected_remainder, expected_object) in tests.iter() {
        let (got_remainder, got_object) = greeting(test_input, strict()).unwrap();
        assert_eq!(*expected_object, got_object);
        assert_eq!(*expected_remainder, got_remainder);

        let got_output = got_object.encode();
        let (got_remainder, got_object_again) = greeting(&got_output, strict()).unwrap();
        assert_eq!(got_object, got_object_again);
        assert!(got_remainder.is_empty());
    }
}

fn kat_inverse_response(tests: &[(&[u8], &[u8], Response)]) {
    for (test_input, expected_remainder, expected_object) in tests.iter() {
        let (got_remainder, got_object) = response(test_input, strict()).unwrap();
        assert_eq!(*expected_object, got_object);
        assert_eq!(*expected_remainder, got_remainder);

        let got_output = got_object.encode();
        let (got_remainder, got_object_again) = response(&got_output, strict()).unwrap();
        assert_eq!(got_object, got_object_again);
        assert!(got_remainder.is_empty());
    }
}

#[test]
fn test_kat_inverse_greeting() {
    kat_inverse_greeting(&[
        (
            b"* OK [badcharset] ...\r\n".as_slice(),
            b"".as_slice(),
            greeting_ok(Some(Code::BadCharset { allowed: vec![] }), "..."),
        ),
        (
            b"* OK [UnSEEN 12345] ...\r\naaa".as_slice(),
            b"aaa".as_slice(),
            greeting_ok(Some(Code::Unseen(nz(12345))), "..."),
        ),
        (
            b"* OK [unseen 12345]  \r\n ".as_slice(),
            b" ".as_slice(),
            greeting_ok(Some(Code::Unseen(nz(12345))), " "),
        ),
        (
            b"* PREAUTH [ALERT] hello\r\n".as_ref(),
            b"".as_ref(),
            Greeting { kind: GreetingKind::PreAuth, code: Some(Code::Alert), text: text("hello") },
        ),
    ]);
}

#[test]
fn test_kat_inverse_response_data() {
    kat_inverse_response(&[
        (
            b"* CAPABILITY IMAP4REV1\r\n".as_ref(),
            b"".as_ref(),
            Response::Data(Data::Capability(NonEmptyVec::from(Capability::Imap4Rev1))),
        ),
        (
            b"* LIST (\\Noselect) \"/\" bbb\r\n",
            b"",
            Response::Data(Data::List {
                items: vec![FlagNameAttribute::Noselect],
                delimiter: Some(QuotedChar::try_from(b'/').unwrap()),
                mailbox: Mailbox::try_from(b"bbb").unwrap(),
            }),
        ),
        (
            b"* SEARCH 1 2 3 42\r\n",
            b"",
            Response::Data(Data::Search(vec![nz(1), nz(2), nz(3), nz(42)])),
        ),
        (b"* 42 EXISTS\r\n", b"", Response::Data(Data::Exists(42))),
        (
            b"* 12345 RECENT\r\n",
            b"",
            Response::Data(Data::Recent(12345)),
        ),
        (
            b"* 123 EXPUNGE\r\n",
            b"",
            Response::Data(Data::Expunge(nz(123))),
        ),
    ]);
}

#[test]
fn test_kat_inverse_response_status() {
    kat_inverse_response(&[
        // tagged; Ok, No, Bad
        (
            b"A1 OK [ALERT] hello\r\n".as_ref(),
            b"".as_ref(),
            Response::Status(status_ok(tag("A1"), Some(Code::Alert), "hello")),
        ),
        (
            b"A1 NO [ALERT] hello\r\n",
            b"".as_ref(),
            Response::Status(status_no(tag("A1"), Some(Code::Alert), "hello")),
        ),
        (
            b"A1 BAD [ALERT] hello\r\n",
            b"".as_ref(),
            Response::Status(status_bad(tag("A1"), Some(Code::Alert), "hello")),
        ),
        (
            b"A1 OK hello\r\n",
            b"".as_ref(),
            Response::Status(status_ok(tag("A1"), None, "hello")),
        ),
        (
            b"A1 NO hello\r\n",
            b"".as_ref(),
            Response::Status(status_no(tag("A1"), None, "hello")),
        ),
        (
            b"A1 BAD hello\r\n",
            b"".as_ref(),
            Response::Status(status_bad(tag("A1"), None, "hello")),
        ),
        // untagged; Ok, No, Bad
        (
            b"* OK [ALERT] hello\r\n",
            b"".as_ref(),
            Response::Status(status_ok(None, Some(Code::Alert), "hello")),
        ),
        (
            b"* NO [ALERT] hello\r\n",
            b"".as_ref(),
            Response::Status(status_no(None, Some(Code::Alert), "hello")),
        ),
        (
            b"* BAD [ALERT] hello\r\n",
            b"".as_ref(),
            Response::Status(status_bad(None, Some(Code::Alert), "hello")),
        ),
        (
            b"* OK hello\r\n",
            b"".as_ref(),
            Response::Status(status_ok(None, None, "hello")),
        ),
        (
            b"* NO hello\r\n",
            b"".as_ref(),
            Response::Status(status_no(None, None, "hello")),
        ),
        (
            b"* BAD hello\r\n",
            b"".as_ref(),
            Response::Status(status_bad(None, None, "hello")),
        ),
        // bye
        (
            b"* BYE [ALERT] hello\r\n",
            b"".as_ref(),
            Response::Status(Status::Bye { code: Some(Code::Alert), text: text("hello") }),
        ),
    ]);
}

#[test]
fn test_parse_response_negative() {
    let tests: [&[u8]; 0] = [];

    for test in tests {
        assert!(response(test, strict()).is_err());
    }
}

#[test]
fn test_parse_resp_text_quirk() {
    {
        let quirks = strict();
        assert!(resp_text(b"[IMAP4rev1]\r\n", quirks).is_err());
        assert!(resp_text(b"[IMAP4rev1]\r\n", quirks).is_err());
        assert!(resp_text(b"[IMAP4rev1] \r\n", quirks).is_err());
        assert!(resp_text(b"[IMAP4rev1]  \r\n", quirks).is_ok());
    }

    {
        let quirks = Quirks { crlf_relaxed: false, missing_text: true };
        assert!(resp_text(b"[IMAP4rev1]\r\n", quirks).is_ok());
        assert!(resp_text(b"[IMAP4rev1] \r\n", quirks).is_err());
        assert!(resp_text(b"[IMAP4rev1]  \r\n", quirks).is_ok());
    }
}

#[test]
fn the_missing_text_is_three_dots() {
    let quirks = Quirks { crlf_relaxed: false, missing_text: true };
    let (rest, (code, t)) = resp_text(b"[IMAP4rev1]\r\n", quirks).unwrap();
    assert_eq!(rest, b"\r\n");
    assert_eq!(code, Some(Code::Other(b"IMAP4rev1".to_vec())));
    assert_eq!(t.as_bytes(), b"...");
    assert_eq!(Text::placeholder(), text("..."));

    let (rest, g) = greeting(b"* OK [ALERT]\r\n", quirks).unwrap();
    assert_eq!(rest, b"");
    assert_eq!(g, Greeting { kind: GreetingKind::Okay, code: Some(Code::Alert), text: text("...") });
    assert!(greeting(b"* OK [ALERT]\r\n", strict()).is_err());

    let relaxed = Quirks { crlf_relaxed: true, missing_text: true };
    let (rest, g) = greeting(b"* OK [ALERT]\n", relaxed).unwrap();
    assert_eq!(rest, b"");
    assert_eq!(g.text.as_bytes(), b"...");
    assert!(greeting(b"* OK [ALERT]\n", quirks).is_err());
}

#[test]
fn greeting_scenarios() {
    let (rest, g) = greeting(b"* OK [UNSEEN 12345] ...\r\n", strict()).unwrap();
    assert_eq!(rest, b"");
    assert_eq!(g.kind, GreetingKind::Okay);
    assert_eq!(g.code, Some(Code::Unseen(nz(12345))));
    assert_eq!(g.text.as_bytes(), b"...");
    assert_eq!(g.encode(), b"* OK [UNSEEN 12345] ...\r\n");

    let (_, g) = greeting(b"* PREAUTH [ALERT] hello\r\n", strict()).unwrap();
    assert_eq!(g.kind, GreetingKind::PreAuth);
    assert_eq!(g.code, Some(Code::Alert));
    assert_eq!(g.text.as_bytes(), b"hello");

    let (_, g) = greeting(b"* bye go away\r\n", strict()).unwrap();
    assert_eq!(g.kind, GreetingKind::Bye);
    assert_eq!(g.code, None);
    assert_eq!(g.encode(), b"* BYE go away\r\n");
}

#[test]
fn greeting_is_incomplete_until_the_line_ends() {
    let whole = b"* OK [UNSEEN 12345] ...\r\n";
    for cut in 0..whole.len() {
        assert_eq!(greeting(&whole[..cut], strict()).unwrap_err(), ParseError::Incomplete, "{}", cut);
    }
    assert!(greeting(whole, strict()).is_ok());
}

#[test]
fn greeting_rejects_what_is_no_greeting() {
    for input in [
        b"+ OK hello\r\n".as_ref(),
        b"* NO hello\r\n",
        b"*  OK hello\r\n",
        b"* OK\r\n",
        b"* OK \r\n",
        b"* OK hello\n",
        b"A1 OK hello\r\n",
    ] {
        let err = greeting(input, strict()).unwrap_err();
        assert!(err != ParseError::Incomplete, "{:?}", input);
    }
    // A known keyword with a value outside its domain is no known code.
    let (_, g) = greeting(b"* OK [UNSEEN 0] hello\r\n", strict()).unwrap();
    assert_eq!(g.code, Some(Code::Other(b"UNSEEN 0".to_vec())));
}

#[test]
fn relaxed_line_ends() {
    let relaxed = Quirks { crlf_relaxed: true, missing_text: false };
    let (rest, g) = greeting(b"* OK hello\nrest", relaxed).unwrap();
    assert_eq!(rest, b"rest");
    assert_eq!(g.text.as_bytes(), b"hello");
    let (rest, _) = greeting(b"* OK hello\r\nrest", relaxed).unwrap();
    assert_eq!(rest, b"rest");
    let (rest, r) = response(b"* 3 EXISTS\n", relaxed).unwrap();
    assert_eq!(rest, b"");
    assert_eq!(r, Response::Data(Data::Exists(3)));
}

#[test]
fn response_codes() {
    let cases: Vec<(&[u8], Code, &[u8])> = vec![
        (b"ALERT]", Code::Alert, b"ALERT"),
        (b"alert]", Code::Alert, b"ALERT"),
        (b"BADCHARSET]", Code::BadCharset { allowed: vec![] }, b"BADCHARSET"),
        (
            b"BADCHARSET (utf-8 \"iso 8859\")]",
            Code::BadCharset {
                allowed: vec![
                    Charset::Atom(imap_codec::strings::Atom::try_from(b"utf-8").unwrap()),
                    Charset::Quoted(imap_codec::strings::Quoted::try_from(b"iso 8859").unwrap()),
                ],
            },
            b"BADCHARSET (utf-8 \"iso 8859\")",
        ),
        (b"PARSE]", Code::Parse, b"PARSE"),
        (b"READ-ONLY]", Code::ReadOnly, b"READ-ONLY"),
        (b"READ-WRITE]", Code::ReadWrite, b"READ-WRITE"),
        (b"TRYCREATE]", Code::TryCreate, b"TRYCREATE"),
        (b"UIDNEXT 7]", Code::UidNext(nz(7)), b"UIDNEXT 7"),
        (b"UIDVALIDITY 4294967295]", Code::UidValidity(nz(u32::MAX)), b"UIDVALIDITY 4294967295"),
        (b"UNSEEN 1]", Code::Unseen(nz(1)), b"UNSEEN 1"),
        (b"COMPRESSIONACTIVE]", Code::CompressionActive, b"COMPRESSIONACTIVE"),
        (b"OVERQUOTA]", Code::OverQuota, b"OVERQUOTA"),
        (b"TOOBIG]", Code::TooBig, b"TOOBIG"),
        (
            b"PERMANENTFLAGS (\\Seen \\* custom)]",
            Code::PermanentFlags(vec![
                imap_codec::flag::FlagPerm::Flag(imap_codec::flag::Flag::System(
                    imap_codec::flag::SystemFlag::Seen,
                )),
                imap_codec::flag::FlagPerm::Asterisk,
                imap_codec::flag::FlagPerm::Flag(imap_codec::flag::Flag::Keyword(
                    imap_codec::strings::Atom::try_from(b"custom").unwrap(),
                )),
            ]),
            b"PERMANENTFLAGS (\\SEEN \\* custom)",
        ),
        (b"PERMANENTFLAGS ()]", Code::PermanentFlags(vec![]), b"PERMANENTFLAGS ()"),
    ];
    for (input, expected, encoded) in cases {
        let (rest, code) = resp_text_code(input).unwrap();
        assert_eq!(rest, b"]", "{:?}", input);
        assert_eq!(code, expected);
        assert_eq!(code.encode(), encoded);
    }
}

#[test]
fn capability_code() {
    let (rest, code) = resp_text_code(b"CAPABILITY IMAP4rev1 AUTH=PLAIN auth=xoauth2 X-FOO LITERAL+]").unwrap();
    assert_eq!(rest, b"]");
    let caps = match &code {
        Code::Capability(caps) => caps.as_slice().to_vec(),
        other => panic!("{:?}", other),
    };
    assert_eq!(
        caps,
        vec![
            Capability::Imap4Rev1,
            Capability::Auth(imap_codec::auth::AuthMechanism::Plain),
            Capability::Auth(imap_codec::auth::AuthMechanism::XOAuth2),
            Capability::Other(imap_codec::strings::Atom::try_from(b"X-FOO").unwrap()),
            Capability::LiteralPlus,
        ]
    );
    assert_eq!(code.encode(), b"CAPABILITY IMAP4REV1 AUTH=PLAIN AUTH=XOAUTH2 X-FOO LITERAL+");
}

#[test]
fn unknown_codes_are_kept_verbatim() {
    let (rest, (code, t)) = resp_text(b"[IMAP4rev1 \x00\xff x] text\r\n", strict()).unwrap();
    assert_eq!(rest, b"\r\n");
    assert_eq!(code, Some(Code::Other(b"IMAP4rev1 \x00\xff x".to_vec())));
    assert_eq!(t.as_bytes(), b"text");

    let (_, (code, _)) = resp_text(b"[ALERTS] text\r\n", strict()).unwrap();
    assert_eq!(code, Some(Code::Other(b"ALERTS".to_vec())));

    let (_, (code, _)) = resp_text(b"[] text\r\n", strict()).unwrap();
    assert_eq!(code, Some(Code::Other(vec![])));

    assert!(resp_text(b"[ALERT\r\n", strict()).is_err());
    assert_eq!(resp_text(b"[ALERT", strict()).unwrap_err(), ParseError::Incomplete);
    assert_eq!(resp_text(b"", strict()).unwrap_err(), ParseError::Incomplete);
}

#[test]
fn text_without_code() {
    let (rest, (code, t)) = resp_text(b"hello [ALERT] world\r\n", strict()).unwrap();
    assert_eq!(rest, b"\r\n");
    assert_eq!(code, None);
    assert_eq!(t.as_bytes(), b"hello [ALERT] world");
}

#[test]
fn continuation_requests() {
    let (rest, c) = continue_req(b"+ aGVsbG8=\r\n", strict()).unwrap();
    assert_eq!(rest, b"");
    assert_eq!(c, CommandContinuationRequest::Base64(b"hello".to_vec()));
    assert_eq!(c.encode(), b"+ aGVsbG8=\r\n");

    let (rest, c) = continue_req(b"+ [READ-WRITE] hello world\r\nx", strict()).unwrap();
    assert_eq!(rest, b"x");
    assert_eq!(
        c,
        CommandContinuationRequest::Basic { code: Some(Code::ReadWrite), text: text("hello world") }
    );
    assert_eq!(c.encode(), b"+ [READ-WRITE] hello world\r\n");

    let (_, c) = continue_req(b"+ Ready for literal\r\n", strict()).unwrap();
    assert_eq!(c, CommandContinuationRequest::Basic { code: None, text: text("Ready for literal") });

    // A line that is valid base64 is taken as base64, not as text.
    let (_, c) = continue_req(b"+ idle\r\n", strict()).unwrap();
    assert!(matches!(c, CommandContinuationRequest::Base64(_)));

    assert_eq!(continue_req(b"+ aGVsbG8=", strict()).unwrap_err(), ParseError::Incomplete);
    assert_eq!(continue_req(b"+", strict()).unwrap_err(), ParseError::Incomplete);
    assert!(continue_req(b"* OK\r\n", strict()).is_err());
    assert!(matches!(continue_req(b"+ \r\n", strict()), Ok((_, CommandContinuationRequest::Base64(d))) if d.is_empty()));
}

#[test]
fn continuation_with_relaxed_line_end() {
    let relaxed = Quirks { crlf_relaxed: true, missing_text: false };
    let (rest, c) = continue_req(b"+ aGVsbG8=\n", relaxed).unwrap();
    assert_eq!(rest, b"");
    assert_eq!(c, CommandContinuationRequest::Base64(b"hello".to_vec()));
    let (rest, c) = continue_req(b"+ aGVsbG8=\r\n", relaxed).unwrap();
    assert_eq!(rest, b"");
    assert_eq!(c, CommandContinuationRequest::Base64(b"hello".to_vec()));
}

#[test]
fn status_responses_are_encoded_in_upper_case() {
    let (_, r) = response(b"a1 ok [alert] Done\r\n", strict()).unwrap();
    assert_eq!(r, Response::Status(status_ok(tag("a1"), Some(Code::Alert), "Done")));
    assert_eq!(r.encode(), b"a1 OK [ALERT] Done\r\n");
    let (_, r) = response(b"* bye see you\r\n", strict()).unwrap();
    assert_eq!(r.encode(), b"* BYE see you\r\n");
}

#[test]
fn response_rejects_numbers_out_of_range() {
    let err = response(b"* 4294967296 EXISTS\r\n", strict()).unwrap_err();
    assert!(err != ParseError::Incomplete);
    let err = imap_codec::number::number(b"4294967296 ").unwrap_err();
    assert_eq!(err.category(), Some(Category::Overflow));
    let err = imap_codec::number::nz_number(b"0 ").unwrap_err();
    assert_eq!(err.category(), Some(Category::Overflow));
    let err = imap_codec::number::nz_number(b"012 ").unwrap_err();
    assert_eq!(err.category(), Some(Category::Overflow));
    assert_eq!(imap_codec::number::number(b"0012 ").unwrap().1, 12);
    assert_eq!(imap_codec::number::number(b"4294967295 ").unwrap().1, u32::MAX);
    assert_eq!(imap_codec::number::number64(b"18446744073709551615 ").unwrap().1, u64::MAX);
    assert!(imap_codec::number::number64(b"18446744073709551616 ").is_err());
}

#[test]
fn continuation_requests_must_not_be_ambiguous() {
    assert_eq!(
        CommandContinuationRequest::basic(None, text("idle")),
        Err(ContinueError::Ambiguity)
    );
    assert_eq!(
        CommandContinuationRequest::basic(None, text("[not a code")),
        Err(ContinueError::Ambiguity)
    );
    let c = CommandContinuationRequest::basic(None, text("Ready for literal")).unwrap();
    assert_eq!(c, CommandContinuationRequest::Basic { code: None, text: text("Ready for literal") });
    let c = CommandContinuationRequest::basic(Some(Code::Alert), text("idle")).unwrap();
    let written = c.encode();
    let (rest, again) = continue_req(&written, strict()).unwrap();
    assert!(rest.is_empty());
    assert_eq!(again, c);

    assert_eq!(CommandContinuationRequest::base64(vec![1, 2, 3]), CommandContinuationRequest::Base64(vec![1, 2, 3]));
    for data in [b"".as_ref(), b"a", b"ab", b"abc", b"\x00\xff\r\n"] {
        for quirks in [strict(), Quirks { crlf_relaxed: true, missing_text: true }] {
            let line = base64_line(data, quirks);
            let (rest, c) = continue_req(&line, quirks).unwrap();
            assert!(rest.is_empty());
            assert_eq!(c, CommandContinuationRequest::Base64(data.to_vec()));
            assert_eq!(c.encode(), line);
        }
    }
    assert_eq!(base64_line(b"hello", strict()), b"+ aGVsbG8=\r\n");
}
