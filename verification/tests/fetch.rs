use imap_codec::codec::Encoder;
use imap_codec::datetime::{date_time, Date, DateTime, Month, Time, Zone};
use imap_codec::envelope::{envelope, Address, Envelope};
use imap_codec::fetch::{
    msg_att_item, FetchAttribute, FetchAttributeValue, Macro, MacroOrFetchAttributes,
};
use imap_codec::lex::Quirks;
use imap_codec::number::NzNumber;
use imap_codec::response::{response, Data, Response};
use imap_codec::section::{section, Part, Section};
use imap_codec::strings::{AString, IString, Literal, LiteralMode, NString, NonEmptyVec};

fn canonical(line: &[u8]) -> Response {
    let (rest, first) = response(line, Quirks::strict()).unwrap();
    assert!(rest.is_empty());
    let written = first.encode();
    assert_eq!(written, line);
    let (rest, second) = response(&written, Quirks::strict()).unwrap();
    assert!(rest.is_empty());
    assert_eq!(first, second);
    first
}

fn quoted(s: &str) -> NString {
    NString(Some(IString::try_from(s.as_bytes()).unwrap()))
}

fn part(numbers: &[u32]) -> Part {
    Part(NonEmptyVec::new(numbers.iter().map(|n| NzNumber::new(*n).unwrap()).collect()).unwrap())
}

fn names(list: &[&str]) -> NonEmptyVec<AString> {
    NonEmptyVec::new(list.iter().map(|n| AString::try_from(n.as_bytes()).unwrap()).collect())
        .unwrap()
}

fn item_of(message: Response) -> FetchAttributeValue {
    match message {
        Response::Data(Data::Fetch { items, .. }) => {
            let mut items = items.into_inner();
            assert_eq!(items.len(), 1);
            items.remove(0)
        },
        other => panic!("no fetch: {:?}", other),
    }
}

#[test]
fn an_internal_date_is_read_back() {
    let item = item_of(canonical(b"* 2 FETCH (INTERNALDATE \"01-Jul-2003 10:11:12 +0200\")\r\n"));
    let expected = DateTime::new(
        Date { day: 1, month: Month::Jul, year: 2003 },
        Time { hour: 10, minute: 11, second: 12 },
        Zone { east: true, hours: 2, minutes: 0 },
    )
    .unwrap();
    assert_eq!(item, FetchAttributeValue::InternalDate(expected));
}

#[test]
fn a_day_of_one_digit_stands_behind_a_space() {
    let (rest, d) = date_time(b"\" 7-Dec-1999 23:59:59 -1130\"x").unwrap();
    assert_eq!(rest, b"x");
    assert_eq!(d.date().day, 7);
    assert!(d.date().month == Month::Dec);
    assert_eq!(d.date().year, 1999);
    assert_eq!(d.time().second, 59);
    assert!(!d.zone().east);
    assert_eq!(d.zone().hours, 11);
    assert_eq!(d.zone().minutes, 30);
    assert_eq!(d.encode(), b"\"07-Dec-1999 23:59:59 -1130\"");
}

#[test]
fn dates_out_of_range_are_no_dates() {
    assert!(DateTime::new(
        Date { day: 0, month: Month::Jan, year: 2000 },
        Time { hour: 0, minute: 0, second: 0 },
        Zone { east: true, hours: 0, minutes: 0 },
    )
    .is_none());
    assert!(DateTime::new(
        Date { day: 1, month: Month::Jan, year: 2000 },
        Time { hour: 24, minute: 0, second: 0 },
        Zone { east: true, hours: 0, minutes: 0 },
    )
    .is_none());
    assert!(date_time(b"\"32-Jan-2000 00:00:00 +0000\" ").is_err());
    assert!(date_time(b"\"01-Foo-2000 00:00:00 +0000\" ").is_err());
}

#[test]
fn every_month_is_read_back() {
    let months = [
        (Month::Jan, "Jan"),
        (Month::Feb, "Feb"),
        (Month::Mar, "Mar"),
        (Month::Apr, "Apr"),
        (Month::May, "May"),
        (Month::Jun, "Jun"),
        (Month::Jul, "Jul"),
        (Month::Aug, "Aug"),
        (Month::Sep, "Sep"),
        (Month::Oct, "Oct"),
        (Month::Nov, "Nov"),
        (Month::Dec, "Dec"),
    ];
    for (month, name) in months {
        let wire = format!("\"15-{}-2020 01:02:03 +0000\"", name);
        let d = DateTime::new(
            Date { day: 15, month, year: 2020 },
            Time { hour: 1, minute: 2, second: 3 },
            Zone { east: true, hours: 0, minutes: 0 },
        )
        .unwrap();
        assert_eq!(d.encode(), wire.as_bytes());
        let follow = format!("{})", wire);
        let (rest, parsed) = date_time(follow.as_bytes()).unwrap();
        assert_eq!(rest, b")");
        assert_eq!(parsed, d);
        let lower = follow.to_lowercase();
        let (_, parsed) = date_time(lower.as_bytes()).unwrap();
        assert_eq!(parsed, d);
    }
}

#[test]
fn an_envelope_is_read_back() {
    let item = item_of(canonical(
        b"* 1 FETCH (ENVELOPE (\"date\" \"subject\" ((\"A\" NIL \"a\" \"example.org\")(NIL NIL \"b\" \"example.org\")) NIL NIL ((NIL NIL \"c\" \"d\")) NIL NIL NIL \"<id@example.org>\"))\r\n",
    ));
    let address = |name: NString, mailbox: &str, host: &str| Address {
        name,
        adl: NString(None),
        mailbox: quoted(mailbox),
        host: quoted(host),
    };
    let expected = Envelope {
        date: quoted("date"),
        subject: quoted("subject"),
        from: vec![
            address(quoted("A"), "a", "example.org"),
            address(NString(None), "b", "example.org"),
        ],
        sender: vec![],
        reply_to: vec![],
        to: vec![address(NString(None), "c", "d")],
        cc: vec![],
        bcc: vec![],
        in_reply_to: NString(None),
        message_id: quoted("<id@example.org>"),
    };
    assert_eq!(item, FetchAttributeValue::Envelope(expected));
}

#[test]
fn an_empty_envelope() {
    let (rest, e) = envelope(b"(NIL NIL NIL NIL NIL NIL NIL NIL NIL NIL) ").unwrap();
    assert_eq!(rest, b" ");
    assert!(e.from.is_empty() && e.bcc.is_empty());
    assert_eq!(e.date, NString(None));
    assert_eq!(e.encode(), b"(NIL NIL NIL NIL NIL NIL NIL NIL NIL NIL)");
    assert!(envelope(b"(NIL NIL NIL NIL NIL NIL NIL NIL NIL) ").is_err());
    assert!(envelope(b"(NIL NIL () NIL NIL NIL NIL NIL NIL NIL) ").is_err());
}

#[test]
fn sections_are_read_back() {
    let cases: Vec<(&[u8], Option<Section>)> = vec![
        (b"[]", None),
        (b"[1]", Some(Section::Part(part(&[1])))),
        (b"[1.2.3]", Some(Section::Part(part(&[1, 2, 3])))),
        (b"[HEADER]", Some(Section::Header(None))),
        (b"[4.HEADER]", Some(Section::Header(Some(part(&[4]))))),
        (b"[TEXT]", Some(Section::Text(None))),
        (b"[4.5.TEXT]", Some(Section::Text(Some(part(&[4, 5]))))),
        (b"[1.MIME]", Some(Section::Mime(part(&[1])))),
        (
            b"[HEADER.FIELDS (From To)]",
            Some(Section::HeaderFields(None, names(&["From", "To"]))),
        ),
        (
            b"[2.HEADER.FIELDS.NOT (\"a b\")]",
            Some(Section::HeaderFieldsNot(Some(part(&[2])), names(&["a b"]))),
        ),
    ];
    for (wire, expected) in cases {
        let mut input = wire.to_vec();
        input.push(b' ');
        let (rest, parsed) = section(&input).unwrap();
        assert_eq!(rest, b" ");
        assert_eq!(parsed, expected);
        let mut out = Vec::new();
        imap_codec::section::encode_opt_section(&parsed, &mut out);
        assert_eq!(out, wire);
    }
}

#[test]
fn sections_that_are_none() {
    assert!(section(b"[MIME] ").is_err());
    assert!(section(b"[0] ").is_err());
    assert!(section(b"[1.] ").is_err());
    assert!(section(b"[HEADER.FIELDS ()] ").is_err());
    assert!(section(b"[HEADER.FIELDS] ").is_err());
    assert!(section(b"[1.2").is_err());
}

#[test]
fn the_text_of_a_section_is_read_back() {
    let item = item_of(canonical(b"* 3 FETCH (BODY[] \"x\")\r\n"));
    assert_eq!(
        item,
        FetchAttributeValue::BodyExt { section: None, origin: None, data: quoted("x") }
    );
    let item = item_of(canonical(b"* 3 FETCH (BODY[1.2.HEADER]<0> NIL)\r\n"));
    assert_eq!(
        item,
        FetchAttributeValue::BodyExt {
            section: Some(Section::Header(Some(part(&[1, 2])))),
            origin: Some(0),
            data: NString(None),
        }
    );
    let item = item_of(canonical(b"* 3 FETCH (BODY[HEADER.FIELDS (From)]<42> {3}\r\nabc)\r\n"));
    assert_eq!(
        item,
        FetchAttributeValue::BodyExt {
            section: Some(Section::HeaderFields(None, names(&["From"]))),
            origin: Some(42),
            data: NString(Some(IString::Literal(
                Literal::try_from(b"abc", LiteralMode::Sync).unwrap(),
            ))),
        }
    );
}

#[test]
fn body_structures_are_read_back_as_items() {
    canonical(b"* 4 FETCH (BODY (\"TEXT\" \"PLAIN\" NIL NIL NIL \"7BIT\" 1 2))\r\n");
    canonical(
        b"* 5 FETCH (BODYSTRUCTURE ((\"TEXT\" \"PLAIN\" (\"CHARSET\" \"utf-8\") NIL NIL \"7BIT\" 1 2 NIL NIL NIL NIL)(\"IMAGE\" \"PNG\" NIL \"<id>\" \"a picture\" \"BASE64\" 10 \"md5\" (\"inline\" (\"filename\" \"p.png\")) (\"en\" \"de\") \"loc\" 1 \"x\" (2 NIL)) \"MIXED\" (\"boundary\" \"b\") NIL NIL))\r\n",
    );
    canonical(
        b"* 6 FETCH (BODY (\"MESSAGE\" \"RFC822\" NIL NIL NIL \"7BIT\" 100 (NIL NIL NIL NIL NIL NIL NIL NIL NIL NIL) (\"AUDIO\" \"X\" NIL NIL NIL \"8BIT\" 3) 9))\r\n",
    );
    canonical(b"* 7 FETCH (BODY (\"MESSAGE\" \"PARTIAL\" NIL NIL NIL \"7BIT\" 100))\r\n");
}

#[test]
fn several_items_in_one_fetch() {
    let message = canonical(
        b"* 8 FETCH (FLAGS (\\SEEN) UID 7 RFC822.SIZE 44827 INTERNALDATE \"17-Jul-1996 02:44:25 -0700\" BODY[TEXT] \"t\")\r\n",
    );
    match message {
        Response::Data(Data::Fetch { seq, items }) => {
            assert_eq!(seq.get(), 8);
            let items = items.into_inner();
            assert_eq!(items.len(), 5);
            assert_eq!(items[1], FetchAttributeValue::Uid(NzNumber::new(7).unwrap()));
            assert_eq!(items[2], FetchAttributeValue::Rfc822Size(44827));
        },
        other => panic!("no fetch: {:?}", other),
    }
}

#[test]
fn items_are_told_apart_by_their_keywords() {
    let (rest, item) = msg_att_item(b"rfc822.header NIL)").unwrap();
    assert_eq!(rest, b")");
    assert_eq!(item, FetchAttributeValue::Rfc822Header(NString(None)));
    let (_, item) = msg_att_item(b"RFC822.TEXT NIL)").unwrap();
    assert_eq!(item, FetchAttributeValue::Rfc822Text(NString(None)));
    let (_, item) = msg_att_item(b"RFC822 NIL)").unwrap();
    assert_eq!(item, FetchAttributeValue::Rfc822(NString(None)));
    assert!(msg_att_item(b"UID 0)").is_err());
    assert!(msg_att_item(b"RFC822.PEEK NIL)").is_err());
}

#[test]
fn macros_expand_to_their_attributes() {
    assert_eq!(
        Macro::Fast.expand(),
        vec![FetchAttribute::Flags, FetchAttribute::InternalDate, FetchAttribute::Rfc822Size]
    );
    assert_eq!(
        Macro::All.expand(),
        vec![
            FetchAttribute::Flags,
            FetchAttribute::InternalDate,
            FetchAttribute::Rfc822Size,
            FetchAttribute::Envelope,
        ]
    );
    assert_eq!(
        Macro::Full.expand(),
        vec![
            FetchAttribute::Flags,
            FetchAttribute::InternalDate,
            FetchAttribute::Rfc822Size,
            FetchAttribute::Envelope,
            FetchAttribute::Body,
        ]
    );
    assert_eq!(MacroOrFetchAttributes::from(Macro::All), MacroOrFetchAttributes::Macro(Macro::All));
    assert_eq!(
        MacroOrFetchAttributes::from(vec![FetchAttribute::Uid]),
        MacroOrFetchAttributes::FetchAttributes(vec![FetchAttribute::Uid])
    );
}
