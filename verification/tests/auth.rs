use imap_codec::auth::{auth_type, authenticate_data, AuthMechanism};
use imap_codec::codec::Encoder;
use imap_codec::error::{Category, ParseError};

fn known_answer_test_encode(test: (AuthMechanism, &[u8])) {
    let (object, expected) = test;
    assert_eq!(expected, object.encode().as_slice());
}

fn known_answer_test_parse(test: (&[u8], &[u8], AuthMechanism)) {
    let (input, expected_remainder, expected_object) = test;
    let (got_remainder, got_object) = auth_type(input).unwrap();
    assert_eq!(expected_object, got_object);
    assert_eq!(expected_remainder, got_remainder);
}

#[test]
fn test_encode_auth_mechanism() {
    let tests = [
        (AuthMechanism::Plain, b"PLAIN".as_ref()),
        (AuthMechanism::Login, b"LOGIN"),
        (AuthMechanism::try_from(b"PLAINX").unwrap(), b"PLAINX"),
        (AuthMechanism::try_from(b"LOGINX").unwrap(), b"LOGINX"),
        (AuthMechanism::try_from(b"XOAUTH2X").unwrap(), b"XOAUTH2X"),
    ];

    for test in tests {
        known_answer_test_encode(test);
    }
}

#[test]
fn test_parse_auth_type() {
    let tests = [
        (b"plain ".as_ref(), b" ".as_ref(), AuthMechanism::Plain),
        (b"pLaiN ", b" ", AuthMechanism::Plain),
        (b"lOgiN ", b" ", AuthMechanism::Login),
        (b"login ", b" ", AuthMechanism::Login),
        (b"loginX ", b" ", AuthMechanism::try_from(b"loginX").unwrap()),
        (
            b"loginX ",
            b" ",
            AuthMechanism::try_from(b"loginX".as_ref()).unwrap(),
        ),
        (b"Xplain ", b" ", AuthMechanism::try_from(b"Xplain").unwrap()),
        (
            b"Xplain ",
            b" ",
            AuthMechanism::try_from(b"Xplain".as_ref()).unwrap(),
        ),
        (b"xoauth2 ".as_ref(), b" ".as_ref(), AuthMechanism::XOAuth2),
        (b"xOauTh2 ", b" ", AuthMechanism::XOAuth2),
    ];

    for test in tests {
        known_answer_test_parse(test);
    }
}

#[test]
fn auth_mechanism_names_are_canonical() {
    assert_eq!(AuthMechanism::try_from(b"plain").unwrap(), AuthMechanism::Plain);
    assert_eq!(AuthMechanism::try_from(b"oauthbearer").unwrap(), AuthMechanism::OAuthBearer);
    assert_eq!(AuthMechanism::OAuthBearer.encode(), b"OAUTHBEARER");
    assert_eq!(AuthMechanism::XOAuth2.encode(), b"XOAUTH2");
    assert!(AuthMechanism::try_from(b"").is_err());
    assert!(AuthMechanism::try_from(b"a b").is_err());
}

#[test]
fn auth_type_needs_a_byte_behind_the_atom() {
    assert_eq!(auth_type(b"plain").unwrap_err(), ParseError::Incomplete);
    assert_eq!(auth_type(b"").unwrap_err(), ParseError::Incomplete);
    assert_eq!(auth_type(b" x").unwrap_err().category(), Some(Category::CharacterClass));
}

#[test]
fn authenticate_data_decodes_base64() {
    let (rest, data) = authenticate_data(b"aGVsbG8=\r\nxyz", false).unwrap();
    assert_eq!(rest, b"xyz");
    assert_eq!(data.0.declassify().as_slice(), b"hello");
    assert_eq!(data.encode(), b"aGVsbG8=\r\n");

    let (rest, data) = authenticate_data(b"\r\n", false).unwrap();
    assert_eq!(rest, b"");
    assert_eq!(data.0.declassify().as_slice(), b"");
}

#[test]
fn authenticate_data_rejects_bad_padding() {
    let err = authenticate_data(b"aGVsbG8\r\n", false).err().unwrap();
    assert_eq!(err.category(), Some(Category::Encoding));
    assert_eq!(authenticate_data(b"aGVsbG8=", false).err(), Some(ParseError::Incomplete));
    assert_eq!(authenticate_data(b"aGVsbG8=\r", false).err(), Some(ParseError::Incomplete));
}

#[test]
fn authenticate_data_with_relaxed_line_end() {
    let (rest, data) = authenticate_data(b"aGVsbG8=\n", true).unwrap();
    assert_eq!(rest, b"");
    assert_eq!(data.0.declassify().as_slice(), b"hello");
    assert!(authenticate_data(b"aGVsbG8=\n", false).is_err());
}
