use imap_codec::body::{
    body, body_ext_1part, body_ext_mpart, body_extension, media_basic, media_message, media_text,
    BasicFields, Body, BodyExtension, BodyStructure, Disposition, Language, Location,
    SinglePartExtensionData, SpecificFields,
};
use imap_codec::codec::Encoder;
use imap_codec::error::{Category, ParseError};
use imap_codec::strings::{IString, NString, NonEmptyVec};

fn known_answer_test_encode(test: (BodyStructure, &[u8])) {
    let (object, expected) = test;
    assert_eq!(
        String::from_utf8_lossy(expected),
        String::from_utf8_lossy(&object.encode())
    );
}

fn basic_fields() -> BasicFields {
    BasicFields {
        parameter_list: vec![],
        id: NString(None),
        description: NString::try_from(b"description").unwrap(),
        content_transfer_encoding: IString::try_from(b"cte").unwrap(),
        size: 123,
    }
}

#[test]
fn test_encode_body_structure() {
    let tests = [
        (
            BodyStructure::Single {
                body: Body {
                    basic: basic_fields(),
                    specific: SpecificFields::Basic {
                        type_: IString::try_from(b"application").unwrap(),
                        subtype: IString::try_from(b"voodoo").unwrap(),
                    },
                },
                extension_data: None,
            },
            b"(\"application\" \"voodoo\" NIL NIL \"description\" \"cte\" 123)".as_ref(),
        ),
        (
            BodyStructure::Single {
                body: Body {
                    basic: basic_fields(),
                    specific: SpecificFields::Text {
                        subtype: IString::try_from(b"plain").unwrap(),
                        number_of_lines: 14,
                    },
                },
                extension_data: None,
            },
            b"(\"TEXT\" \"plain\" NIL NIL \"description\" \"cte\" 123 14)",
        ),
        (
            BodyStructure::Single {
                body: Body {
                    basic: basic_fields(),
                    specific: SpecificFields::Text {
                        subtype: IString::try_from(b"plain").unwrap(),
                        number_of_lines: 14,
                    },
                },
                extension_data: Some(SinglePartExtensionData {
                    md5: NString::try_from(b"AABB").unwrap(),
                    tail: Some(Disposition {
                        disposition: None,
                        tail: Some(Language {
                            language: vec![],
                            tail: Some(Location {
                                location: NString(None),
                                extensions: vec![BodyExtension::List(NonEmptyVec::from(
                                    BodyExtension::Number(1337),
                                ))],
                            }),
                        }),
                    }),
                }),
            },
            b"(\"TEXT\" \"plain\" NIL NIL \"description\" \"cte\" 123 14 \"AABB\" NIL NIL NIL (1337))",
        ),
    ];

    for test in tests {
        known_answer_test_encode(test);
    }
}

#[test]
fn test_media_basic() {
    media_basic(b"\"application\" \"xxx\"").unwrap();
    media_basic(b"\"unknown\" \"test\"").unwrap();
    media_basic(b"\"x\" \"xxx\"").unwrap();
}

#[test]
fn test_media_message() {
    media_message(b"\"message\" \"rfc822\"").unwrap();
}

#[test]
fn test_media_text() {
    media_text(b"\"text\" \"html\"").unwrap();
}

#[test]
fn test_body_ext_1part() {
    for test in [
        b"nil|xxx".as_ref(),
        b"\"md5\"|xxx".as_ref(),
        b"\"md5\" nil|xxx".as_ref(),
        b"\"md5\" (\"dsp\" nil)|xxx".as_ref(),
        b"\"md5\" (\"dsp\" (\"key\" \"value\")) nil|xxx".as_ref(),
        b"\"md5\" (\"dsp\" (\"key\" \"value\")) \"swedish\"|xxx".as_ref(),
        b"\"md5\" (\"dsp\" (\"key\" \"value\")) (\"german\" \"russian\")|xxx".as_ref(),
        b"\"md5\" (\"dsp\" (\"key\" \"value\")) (\"german\" \"russian\") nil|xxx".as_ref(),
        b"\"md5\" (\"dsp\" (\"key\" \"value\")) (\"german\" \"russian\") \"loc\"|xxx".as_ref(),
        b"\"md5\" (\"dsp\" (\"key\" \"value\")) (\"german\" \"russian\") \"loc\" (1 \"2\" (nil 4))|xxx".as_ref(),
    ]
    .iter()
    {
        let (rem, out) = body_ext_1part(test).unwrap();
        println!("{:?}", out);
        assert_eq!(rem, b"|xxx");
    }
}

#[test]
fn test_body_rec() {
    let _ = body(str::repeat("(", 1_000_000).as_bytes(), 8);
}

#[test]
fn test_body_ext_mpart() {
    for test in [
        b"nil|xxx".as_ref(),
        b"(\"key\" \"value\")|xxx".as_ref(),
        b"(\"key\" \"value\") nil|xxx".as_ref(),
        b"(\"key\" \"value\") (\"dsp\" nil)|xxx".as_ref(),
        b"(\"key\" \"value\") (\"dsp\" (\"key\" \"value\")) nil|xxx".as_ref(),
        b"(\"key\" \"value\") (\"dsp\" (\"key\" \"value\")) \"swedish\"|xxx".as_ref(),
        b"(\"key\" \"value\") (\"dsp\" (\"key\" \"value\")) (\"german\" \"russian\")|xxx".as_ref(),
        b"(\"key\" \"value\") (\"dsp\" (\"key\" \"value\")) (\"german\" \"russian\") nil|xxx".as_ref(),
        b"(\"key\" \"value\") (\"dsp\" (\"key\" \"value\")) (\"german\" \"russian\") \"loc\"|xxx".as_ref(),
        b"(\"key\" \"value\") (\"dsp\" (\"key\" \"value\")) (\"german\" \"russian\") \"loc\" (1 \"2\" (nil 4))|xxx".as_ref(),
    ]
        .iter()
    {
        let (rem, out) = body_ext_mpart(test).unwrap();
        println!("{:?}", out);
        assert_eq!(rem, b"|xxx");
    }
}

#[test]
fn a_million_parentheses_exhaust_the_budget() {
    let input = str::repeat("(", 1_000_000);
    let err = body(input.as_bytes(), 8).unwrap_err();
    assert!(matches!(err, ParseError::Failure(_)));
    assert_eq!(err.category(), Some(Category::Budget));
}

#[test]
fn seventeen_parentheses_exhaust_the_budget() {
    for n in [8usize, 9, 16, 17, 100] {
        let input = str::repeat("(", n);
        let err = body(input.as_bytes(), 8).unwrap_err();
        assert!(matches!(err, ParseError::Failure(_)), "{}", n);
        assert_eq!(err.category(), Some(Category::Budget), "{}", n);
    }
    assert_eq!(body(b"((", 8).unwrap_err(), ParseError::Incomplete);
    assert_eq!(body(b"", 8).unwrap_err(), ParseError::Incomplete);
    let err = body(b"(", 0).unwrap_err();
    assert_eq!(err.category(), Some(Category::Budget));
}

#[test]
fn the_budget_error_says_where() {
    let input = str::repeat("(", 20);
    let err = body(input.as_bytes(), 8).unwrap_err();
    assert!(err.offset(input.len()) <= 8);
}

#[test]
fn body_structure_roundtrip() {
    for text in [
        b"(\"application\" \"voodoo\" NIL NIL \"description\" \"cte\" 123)".as_ref(),
        b"(\"TEXT\" \"plain\" (\"charset\" \"utf-8\") NIL NIL \"7bit\" 10 2)",
        b"(\"TEXT\" \"plain\" NIL NIL \"description\" \"cte\" 123 14 \"AABB\" NIL NIL NIL (1337))",
        b"((\"TEXT\" \"plain\" NIL NIL NIL \"7bit\" 1 1)(\"TEXT\" \"html\" NIL NIL NIL \"7bit\" 2 2) \"alternative\")",
        b"((\"TEXT\" \"plain\" NIL NIL NIL \"7bit\" 1 1) \"mixed\" (\"boundary\" \"x\") (\"inline\" NIL) (\"en\" \"de\") \"loc\" 1 NIL (2 \"3\"))",
    ] {
        let mut input = text.to_vec();
        input.push(b' ');
        let (rest, parsed) = body(&input, 8).unwrap();
        assert_eq!(rest, b" ");
        assert_eq!(
            String::from_utf8_lossy(&parsed.encode()),
            String::from_utf8_lossy(text)
        );
    }
}

#[test]
fn message_bodies_nest() {
    let inner = b"(\"TEXT\" \"plain\" NIL NIL NIL \"7bit\" 1 1)";
    let envelope = b"(NIL \"subject\" NIL NIL NIL NIL NIL NIL NIL \"<id@host>\")";
    let mut text = Vec::new();
    text.extend_from_slice(b"(\"MESSAGE\" \"RFC822\" NIL NIL NIL \"7bit\" 42 ");
    text.extend_from_slice(envelope);
    text.push(b' ');
    text.extend_from_slice(inner);
    text.extend_from_slice(b" 7)");
    let mut input = text.clone();
    input.push(b'\r');
    let (rest, parsed) = body(&input, 8).unwrap();
    assert_eq!(rest, b"\r");
    match &parsed {
        BodyStructure::Single { body, extension_data } => {
            assert!(extension_data.is_none());
            assert_eq!(body.basic.size, 42);
            match &body.specific {
                SpecificFields::Message { number_of_lines, body_structure, .. } => {
                    assert_eq!(*number_of_lines, 7);
                    assert_eq!(body_structure.encode(), inner);
                }
                other => panic!("{:?}", other),
            }
        }
        other => panic!("{:?}", other),
    }
    assert_eq!(parsed.encode(), text);
    let err = body(&input, 4).unwrap_err();
    assert_eq!(err.category(), Some(Category::Budget));
}

#[test]
fn body_extensions_nest_within_their_budget() {
    let (rest, ext) = body_extension(b"(1 (2 (3))) ", 8).unwrap();
    assert_eq!(rest, b" ");
    assert_eq!(ext.encode(), b"(1 (2 (3)))");
    let deep = format!("{}1{} ", str::repeat("(", 8), str::repeat(")", 8));
    let err = body_extension(deep.as_bytes(), 8).unwrap_err();
    assert_eq!(err.category(), Some(Category::Budget));
    let ok = format!("{}1{} ", str::repeat("(", 7), str::repeat(")", 7));
    assert!(body_extension(ok.as_bytes(), 8).is_ok());
}
