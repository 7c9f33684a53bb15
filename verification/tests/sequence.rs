use imap_codec::codec::Encoder;
use imap_codec::sequence::{sequence_set, sequence_set_of, SeqNo, Sequence, ToSequence};

#[test]
fn test_sequence_serialize() {
    let tests = [
        (b"1".as_ref(), Sequence::Single(SeqNo::Value(1))),
        (b"*".as_ref(), Sequence::Single(SeqNo::Largest)),
        (
            b"1:*".as_ref(),
            Sequence::Range(SeqNo::Value(1), SeqNo::Largest),
        ),
    ];

    for (expected, test) in tests.iter() {
        let got = test.encode();
        assert_eq!(*expected, got);
    }
}

#[test]
fn test_to_sequence() {
    let tests = [
        ("1", vec![Sequence::Single(SeqNo::Value(1))]),
        (
            "1,2,3",
            vec![
                Sequence::Single(SeqNo::Value(1)),
                Sequence::Single(SeqNo::Value(2)),
                Sequence::Single(SeqNo::Value(3)),
            ],
        ),
        ("*", vec![Sequence::Single(SeqNo::Largest)]),
        (
            "1:2",
            vec![Sequence::Range(SeqNo::Value(1), SeqNo::Value(2))],
        ),
        (
            "1:2,3",
            vec![
                Sequence::Range(SeqNo::Value(1), SeqNo::Value(2)),
                Sequence::Single(SeqNo::Value(3)),
            ],
        ),
        (
            "1:2,3,*",
            vec![
                Sequence::Range(SeqNo::Value(1), SeqNo::Value(2)),
                Sequence::Single(SeqNo::Value(3)),
                Sequence::Single(SeqNo::Largest),
            ],
        ),
    ];

    for (test, expected) in tests.iter() {
        let got = test.to_sequence().unwrap();
        assert_eq!(*expected, got);
    }
}

#[test]
fn to_sequence_of_values() {
    let one = Sequence::Range(SeqNo::Largest, SeqNo::Value(4));
    assert_eq!(one.to_sequence(), Ok(vec![one]));
    let list = vec![one, Sequence::Single(SeqNo::Value(9))];
    assert_eq!(list.clone().to_sequence(), Ok(list));
}

#[test]
fn to_sequence_rejects_what_is_no_sequence_set() {
    for text in ["", "0", "01", "1,", "1:", ",1", "1 2", "a", "1:2:3", "4294967296", "1|"] {
        assert_eq!(text.to_sequence(), Err(()), "{:?}", text);
    }
    assert_eq!(sequence_set_of(b"1,\x00"), Err(()));
}

#[test]
fn ranges_keep_the_order_of_their_ends() {
    let set = "5:1,*:3".to_sequence().unwrap();
    assert_eq!(
        set,
        vec![
            Sequence::Range(SeqNo::Value(5), SeqNo::Value(1)),
            Sequence::Range(SeqNo::Largest, SeqNo::Value(3)),
        ]
    );
    assert_eq!(set[0].encode(), b"5:1");
    assert_eq!(set[1].encode(), b"*:3");
}

#[test]
fn sequence_set_is_a_streaming_parser() {
    assert!(sequence_set(b"1,2").is_err());
    let (rest, set) = sequence_set(b"1,2 ").unwrap();
    assert_eq!(rest, b" ");
    assert_eq!(set.len(), 2);
    let (rest, set) = sequence_set(b"4294967295:*,x").unwrap();
    assert_eq!(rest, b",x");
    assert_eq!(set, vec![Sequence::Range(SeqNo::Value(u32::MAX), SeqNo::Largest)]);
}

#[test]
fn sequence_set_roundtrip() {
    for text in ["1", "*", "1:*", "3,2,1", "10:20,*:1,4294967295"] {
        let set = text.to_sequence().unwrap();
        let mut out = Vec::new();
        imap_codec::sequence::encode_sequence_set(&set, &mut out);
        assert_eq!(out, text.as_bytes());
        assert_eq!(sequence_set_of(&out), Ok(set));
    }
}
