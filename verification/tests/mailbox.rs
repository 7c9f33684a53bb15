use imap_codec::codec::Encoder;
use imap_codec::error::ParseError;
use imap_codec::flag::{flag_list, mbx_list_flags, Flag, FlagNameAttribute, SystemFlag};
use imap_codec::lex::Quirks;
use imap_codec::mailbox::{list_mailbox, mailbox, mailbox_data, mailbox_list, ListMailbox, Mailbox};
use imap_codec::number::NzNumber;
use imap_codec::quota::{QuotaGet, Resource};
use imap_codec::response::{response, CapabilityEnable, Data, Response};
use imap_codec::status::StatusDataItem;
use imap_codec::strings::{AString, Atom, IString, NonEmptyVec};

#[test]
fn test_mailbox() {
    assert!(mailbox(b"\"iNbOx\"").is_ok());
    assert!(mailbox(b"{3}\r\naaa\r\n").is_ok());
    assert!(mailbox(b"inbox ").is_ok());
    assert!(mailbox(b"inbox.sent ").is_ok());
    assert!(mailbox(b"aaa").is_err());
}

#[test]
fn inbox_in_any_case_is_the_inbox() {
    for name in [
        b"inbox ".as_ref(),
        b"INBOX ",
        b"iNbOx ",
        b"\"iNbOx\"",
        b"\"INBOX\"",
        b"{5}\r\nInBoX",
        b"{5+}\r\ninbox",
    ] {
        let (_, m) = mailbox(name).unwrap();
        assert_eq!(m, Mailbox::Inbox, "{:?}", name);
        assert_eq!(m.encode(), b"INBOX");
    }
    for name in [b"inbox.sent ".as_ref(), b"inbo ", b"\"inbox \"", b"xinbox ", b"{6}\r\ninbox\x00"] {
        let (_, m) = mailbox(name).unwrap();
        assert!(matches!(m, Mailbox::Other(_)), "{:?}", name);
    }
    assert_eq!(Mailbox::try_from(b"InBox").unwrap(), Mailbox::Inbox);
    assert_eq!(
        Mailbox::try_from(b"Sent").unwrap(),
        Mailbox::Other(AString::try_from(b"Sent").unwrap())
    );
}

#[test]
fn other_mailboxes_keep_their_form() {
    let (rest, m) = mailbox(b"{3}\r\na\r\n)").unwrap();
    assert_eq!(rest, b")");
    assert_eq!(m.encode(), b"{3}\r\na\r\n");
    let (_, m) = mailbox(b"\"a b\" ").unwrap();
    assert_eq!(m.encode(), b"\"a b\"");
    let (_, m) = mailbox(b"a]b ").unwrap();
    assert_eq!(m.encode(), b"a]b");
}

#[test]
fn list_mailbox_takes_wildcards() {
    let (rest, m) = list_mailbox(b"a%b*] ").unwrap();
    assert_eq!(rest, b" ");
    assert!(matches!(&m, ListMailbox::Token(t) if t.as_bytes() == b"a%b*]"));
    assert_eq!(m.encode(), b"a%b*]");
    let (_, m) = list_mailbox(b"\"a b\"").unwrap();
    assert_eq!(m, ListMailbox::String(IString::try_from(b"a b").unwrap()));
    assert_eq!(list_mailbox(b"abc").unwrap_err(), ParseError::Incomplete);
}

#[test]
fn mailbox_list_scenario() {
    let (rest, (flags, delimiter, m)) = mailbox_list(b"(\\Noselect) \"/\" bbb\r\n").unwrap();
    assert_eq!(rest, b"\r\n");
    assert_eq!(flags, Some(vec![FlagNameAttribute::Noselect]));
    assert_eq!(delimiter.map(|d| d.get()), Some(b'/'));
    assert_eq!(m, Mailbox::try_from(b"bbb").unwrap());

    let (_, (flags, delimiter, m)) = mailbox_list(b"() NIL inbox\r\n").unwrap();
    assert_eq!(flags, None);
    assert!(delimiter.is_none());
    assert_eq!(m, Mailbox::Inbox);

    let (_, (_, delimiter, _)) = mailbox_list(b"() \"\\\\\" x\r\n").unwrap();
    assert_eq!(delimiter.map(|d| d.get()), Some(b'\\'));
}

#[test]
fn at_most_one_selectability_attribute() {
    let (_, flags) = mbx_list_flags(b"\\Noinferiors \\Marked \\X-Foo)").unwrap();
    assert_eq!(
        flags,
        vec![
            FlagNameAttribute::Noinferiors,
            FlagNameAttribute::Marked,
            FlagNameAttribute::Extension(Atom::try_from(b"X-Foo").unwrap()),
        ]
    );
    assert!(mbx_list_flags(b"\\Marked \\Unmarked)").is_err());
    assert!(mbx_list_flags(b"\\Noselect \\Noinferiors \\noselect)").is_err());
    assert!(mbx_list_flags(b"\\Noinferiors \\Noinferiors)").is_ok());
}

#[test]
fn flag_lists() {
    let (rest, flags) = flag_list(b"(\\Answered \\flagged \\DELETED \\Seen \\Draft \\Foo bar) ").unwrap();
    assert_eq!(rest, b" ");
    assert_eq!(
        flags,
        vec![
            Flag::System(SystemFlag::Answered),
            Flag::System(SystemFlag::Flagged),
            Flag::System(SystemFlag::Deleted),
            Flag::System(SystemFlag::Seen),
            Flag::System(SystemFlag::Draft),
            Flag::Extension(Atom::try_from(b"Foo").unwrap()),
            Flag::Keyword(Atom::try_from(b"bar").unwrap()),
        ]
    );
    let mut out = Vec::new();
    imap_codec::flag::encode_flag_list(&flags, &mut out);
    assert_eq!(out, b"(\\ANSWERED \\FLAGGED \\DELETED \\SEEN \\DRAFT \\Foo bar)");
    assert_eq!(flag_list(b"()").unwrap().1, vec![]);
    assert!(flag_list(b"(\\*)").is_err());
}

#[test]
fn mailbox_data_variants() {
    let nz = |n: u32| NzNumber::new(n).unwrap();
    let cases: Vec<(&[u8], Data, &[u8])> = vec![
        (b"FLAGS (\\Seen)\r\n", Data::Flags(vec![Flag::System(SystemFlag::Seen)]), b"* FLAGS (\\SEEN)\r\n"),
        (
            b"lsub () NIL inbox\r\n",
            Data::Lsub { items: vec![], delimiter: None, mailbox: Mailbox::Inbox },
            b"* LSUB () NIL INBOX\r\n",
        ),
        (b"SEARCH\r\n", Data::Search(vec![]), b"* SEARCH\r\n"),
        (b"SEARCH 1 2\r\n", Data::Search(vec![nz(1), nz(2)]), b"* SEARCH 1 2\r\n"),
        (
            b"STATUS blurdybloop (MESSAGES 231 UIDNEXT 44292 RECENT 0 UIDVALIDITY 1 UNSEEN 3)\r\n",
            Data::Status {
                mailbox: Mailbox::try_from(b"blurdybloop").unwrap(),
                items: vec![
                    StatusDataItem::Messages(231),
                    StatusDataItem::UidNext(nz(44292)),
                    StatusDataItem::Recent(0),
                    StatusDataItem::UidValidity(nz(1)),
                    StatusDataItem::Unseen(3),
                ],
            },
            b"* STATUS blurdybloop (MESSAGES 231 UIDNEXT 44292 RECENT 0 UIDVALIDITY 1 UNSEEN 3)\r\n",
        ),
        (
            b"STATUS inbox ()\r\n",
            Data::Status { mailbox: Mailbox::Inbox, items: vec![] },
            b"* STATUS INBOX ()\r\n",
        ),
        (b"0 EXISTS\r\n", Data::Exists(0), b"* 0 EXISTS\r\n"),
        (b"5 recent\r\n", Data::Recent(5), b"* 5 RECENT\r\n"),
        (
            b"QUOTA \"\" (STORAGE 10 512 x-res 18446744073709551615 0)\r\n",
            Data::Quota {
                root: AString::try_from(b"").unwrap(),
                quotas: NonEmptyVec::new(vec![
                    QuotaGet { resource: Resource::Storage, usage: 10, limit: 512 },
                    QuotaGet {
                        resource: Resource::Other(Atom::try_from(b"x-res").unwrap()),
                        usage: u64::MAX,
                        limit: 0,
                    },
                ])
                .unwrap(),
            },
            b"* QUOTA \"\" (STORAGE 10 512 x-res 18446744073709551615 0)\r\n",
        ),
        (
            b"QUOTAROOT INBOX \"\" user\r\n",
            Data::QuotaRoot {
                mailbox: Mailbox::Inbox,
                roots: vec![AString::try_from(b"").unwrap(), AString::try_from(b"user").unwrap()],
            },
            b"* QUOTAROOT INBOX \"\" user\r\n",
        ),
    ];
    for (input, expected, encoded) in cases {
        let (rest, data) = mailbox_data(input).unwrap();
        assert_eq!(rest, b"\r\n", "{:?}", input);
        assert_eq!(data, expected);
        assert_eq!(
            String::from_utf8_lossy(&data.encode()),
            String::from_utf8_lossy(encoded)
        );
        let (_, again) = response(encoded, Quirks::strict()).unwrap();
        assert_eq!(again, Response::Data(data));
    }
}

#[test]
fn enabled_capabilities() {
    let (rest, r) = response(b"* ENABLED UTF8=ACCEPT condstore\r\n", Quirks::strict()).unwrap();
    assert_eq!(rest, b"");
    assert_eq!(
        r,
        Response::Data(Data::Enabled {
            capabilities: vec![
                CapabilityEnable::Utf8Accept,
                CapabilityEnable::Other(Atom::try_from(b"condstore").unwrap()),
            ]
        })
    );
    assert_eq!(r.encode(), b"* ENABLED UTF8=ACCEPT condstore\r\n");
    let (_, r) = response(b"* ENABLED\r\n", Quirks::strict()).unwrap();
    assert_eq!(r, Response::Data(Data::Enabled { capabilities: vec![] }));
}
