use chill::error::{ChillError, RevisionParseErrorKind};
use chill::revision::RevisionId;

const DIGEST: &str = "1234567890abcdeffedcba0987654321";
const OTHER_DIGEST: &str = "1234567890abcdeffedcba0987654322";

fn revision_fault(text: &str) -> RevisionParseErrorKind {
    match RevisionId::parse(text) {
        Err(ChillError::RevisionParse { kind }) => kind,
        other => panic!("expected a revision error, got {:?}", other),
    }
}

#[test]
fn revision_parse_reads_number_and_digest() {
    let revision = RevisionId::parse("42-1234567890abcdeffedcba0987654321").unwrap();
    assert_eq!(42, revision.sequence());
    assert_eq!(DIGEST, revision.digest());
}

#[test]
fn revision_parse_splits_at_the_first_dash() {
    let kind = revision_fault("1-1234567890abcdef-edcba0987654321");
    assert!(matches!(kind, RevisionParseErrorKind::DigestNotAllHex));
}

#[test]
fn revision_round_trip() {
    let revision = RevisionId::new(17, DIGEST).unwrap();
    let text = revision.format();
    assert_eq!("17-1234567890abcdeffedcba0987654321", text);
    assert_eq!(revision, RevisionId::parse(&text).unwrap());
}

#[test]
fn revision_round_trip_at_the_ends_of_the_range() {
    for sequence in [1, 9, 10, 99, 100, 1234567890123456789, u64::MAX] {
        let revision = RevisionId::new(sequence, DIGEST).unwrap();
        let again = RevisionId::parse(&revision.format()).unwrap();
        assert_eq!(sequence, again.sequence());
        assert_eq!(DIGEST, again.digest());
    }
    assert_eq!(
        "18446744073709551615-1234567890abcdeffedcba0987654321",
        RevisionId::new(u64::MAX, DIGEST).unwrap().format()
    );
}

#[test]
fn revision_keeps_the_case_of_the_digest() {
    let upper = "1234567890ABCDEFFEDCBA0987654321";
    let revision = RevisionId::parse("3-1234567890ABCDEFFEDCBA0987654321").unwrap();
    assert_eq!(upper, revision.digest());
    assert_eq!("3-1234567890ABCDEFFEDCBA0987654321", revision.format());
    assert_ne!(revision, RevisionId::new(3, DIGEST).unwrap());
}

#[test]
fn revision_parse_rejects_zero() {
    assert!(matches!(revision_fault("0-abc"), RevisionParseErrorKind::ZeroSequenceNumber));
    assert!(matches!(
        revision_fault("0-1234567890abcdeffedcba0987654321"),
        RevisionParseErrorKind::ZeroSequenceNumber
    ));
    assert!(matches!(revision_fault("000-abc"), RevisionParseErrorKind::ZeroSequenceNumber));
}

#[test]
fn revision_parse_rejects_non_hex_digest() {
    assert!(RevisionId::parse("1-xyz").is_err());
    assert!(matches!(revision_fault("1-xyz"), RevisionParseErrorKind::DigestNotAllHex));
    assert!(matches!(
        revision_fault("1-1234567890abcdeffedcba098765432g"),
        RevisionParseErrorKind::DigestNotAllHex
    ));
}

#[test]
fn revision_parse_rejects_missing_dash() {
    assert!(matches!(revision_fault("nodash"), RevisionParseErrorKind::TooFewParts));
    assert!(matches!(revision_fault(""), RevisionParseErrorKind::TooFewParts));
    assert!(matches!(revision_fault("12"), RevisionParseErrorKind::TooFewParts));
}

#[test]
fn revision_parse_rejects_bad_number() {
    assert!(matches!(revision_fault("-abc"), RevisionParseErrorKind::NumberParse(_)));
    assert!(matches!(revision_fault("x1-abc"), RevisionParseErrorKind::NumberParse(_)));
    assert!(matches!(revision_fault("1 -abc"), RevisionParseErrorKind::NumberParse(_)));
    assert!(matches!(
        revision_fault("18446744073709551616-1234567890abcdeffedcba0987654321"),
        RevisionParseErrorKind::NumberParse(_)
    ));
}

#[test]
fn revision_parse_reads_the_number_as_std_does() {
    let signed = RevisionId::parse("+7-1234567890abcdeffedcba0987654321").unwrap();
    assert_eq!(7, signed.sequence());
    let padded = RevisionId::parse("007-1234567890abcdeffedcba0987654321").unwrap();
    assert_eq!(7, padded.sequence());
    assert_eq!("7-1234567890abcdeffedcba0987654321", padded.format());
}

#[test]
fn revision_parse_rejects_digest_of_wrong_length() {
    assert!(matches!(revision_fault("1-abc"), RevisionParseErrorKind::DigestParse(_)));
    assert!(matches!(revision_fault("1-"), RevisionParseErrorKind::DigestParse(_)));
    assert!(matches!(
        revision_fault("1-1234567890abcdeffedcba098765432"),
        RevisionParseErrorKind::DigestParse(_)
    ));
    assert!(matches!(
        revision_fault("1-1234567890abcdeffedcba09876543210"),
        RevisionParseErrorKind::DigestParse(_)
    ));
    assert!(matches!(
        revision_fault("1-1234567890abcdeffedcba09876543211234"),
        RevisionParseErrorKind::DigestParse(_)
    ));
}

#[test]
fn revision_new_checks_as_parse_does() {
    assert!(matches!(
        RevisionId::new(0, DIGEST),
        Err(ChillError::RevisionParse { kind: RevisionParseErrorKind::ZeroSequenceNumber })
    ));
    assert!(matches!(
        RevisionId::new(1, "12345678-90ab-cdef-fedc-ba0987654321"),
        Err(ChillError::RevisionParse { kind: RevisionParseErrorKind::DigestNotAllHex })
    ));
    assert!(matches!(
        RevisionId::new(1, "abc"),
        Err(ChillError::RevisionParse { kind: RevisionParseErrorKind::DigestParse(_) })
    ));
    assert!(RevisionId::new(1, DIGEST).is_ok());
}

#[test]
fn revision_order_goes_by_number_first() {
    let low = RevisionId::new(2, OTHER_DIGEST).unwrap();
    let high = RevisionId::new(10, DIGEST).unwrap();
    assert!(low < high);
    assert!(!(high < low));
    assert!(high > low);
    assert!(low.is_before(&high));
    assert!(!high.is_before(&low));
    assert_eq!(std::cmp::Ordering::Less, low.cmp(&high));
}

#[test]
fn revision_order_goes_by_digest_second() {
    let first = RevisionId::new(5, DIGEST).unwrap();
    let second = RevisionId::new(5, OTHER_DIGEST).unwrap();
    assert!(first < second);
    assert!(!(second < first));
    assert_eq!(DIGEST < OTHER_DIGEST, first < second);
    let upper = RevisionId::new(5, "ABCDEF7890abcdeffedcba0987654321").unwrap();
    let lower = RevisionId::new(5, "abcdef7890abcdeffedcba0987654321").unwrap();
    assert!(upper < lower);
    assert_eq!(std::cmp::Ordering::Less, upper.cmp(&lower));
    assert_eq!(Some(std::cmp::Ordering::Greater), lower.partial_cmp(&upper));
}

#[test]
fn revision_order_is_total_on_examples() {
    let a = RevisionId::new(1, DIGEST).unwrap();
    let b = RevisionId::new(1, OTHER_DIGEST).unwrap();
    let c = RevisionId::new(2, DIGEST).unwrap();
    assert!(a < b && b < c && a < c);
    assert!(!(a < a));
    assert!(a == a.clone());
    assert!(a.is_same(&a.clone()));
    assert!(!a.is_same(&b));
    assert_eq!(Some(std::cmp::Ordering::Equal), a.partial_cmp(&a.clone()));
}

#[test]
fn revision_errors_show_their_cause() {
    let text = revision_fault("x-abc").to_string();
    assert!(text.starts_with("The number part is invalid: "), "{}", text);
    assert!(text.contains("invalid digit"), "{}", text);
    let text = revision_fault("1-abc").to_string();
    assert!(text.starts_with("The digest part is invalid: "), "{}", text);
    assert!(text.contains("invalid length"), "{}", text);
    assert_eq!("The number part is zero", revision_fault("0-abc").to_string());
    assert_eq!(
        "Too few parts, missing number part and/or digest part",
        revision_fault("nodash").to_string()
    );
    assert_eq!(
        "Digest part contains one or more non-hexadecimal characters",
        revision_fault("1-xyz").to_string()
    );
    let whole = RevisionId::parse("0-abc").unwrap_err();
    assert_eq!("The revision is badly formatted: The number part is zero", whole.to_string());
    assert!(whole.cause().is_none());
    let caused = RevisionId::parse("1-abc").unwrap_err();
    assert!(caused.cause().is_some());
    assert_eq!(
        format!("The revision is badly formatted: The digest part is invalid: {}", caused.cause().unwrap().to_string()),
        caused.to_string()
    );
}

#[test]
fn revision_digest_length_is_exact() {
    for length in 0..=70 {
        for digit in ["a", "F", "0", "9"] {
            let digest = digit.repeat(length);
            let got = RevisionId::new(1, &digest);
            if length == 32 {
                assert_eq!(digest, got.unwrap().digest());
            } else {
                assert!(
                    matches!(
                        got,
                        Err(ChillError::RevisionParse {
                            kind: RevisionParseErrorKind::DigestParse(_)
                        })
                    ),
                    "{}",
                    length
                );
            }
        }
    }
}

#[test]
fn revision_digest_forms_with_other_characters_are_not_hex() {
    for digest in [
        "12345678-90ab-cdef-fedc-ba0987654321",
        "{12345678-90ab-cdef-fedc-ba0987654321}",
        "urn:uuid:12345678-90ab-cdef-fedc-ba0987654321",
        "1234567890abcdeffedcba098765432\u{e9}",
        "1234567890abcdeffedcba098765432 ",
        "\u{ff11}234567890abcdeffedcba0987654321",
    ] {
        assert!(
            matches!(
                RevisionId::new(1, digest),
                Err(ChillError::RevisionParse { kind: RevisionParseErrorKind::DigestNotAllHex })
            ),
            "{}",
            digest
        );
    }
}

#[test]
fn revision_number_is_read_as_described() {
    let accepted: [(&str, u64); 8] = [
        ("1", 1),
        ("+1", 1),
        ("01", 1),
        ("+0001", 1),
        ("10", 10),
        ("4294967296", 4294967296),
        ("18446744073709551615", u64::MAX),
        ("00018446744073709551615", u64::MAX),
    ];
    for (number, sequence) in accepted {
        let text = format!("{}-{}", number, DIGEST);
        assert_eq!(sequence, RevisionId::parse(&text).unwrap().sequence(), "{}", number);
    }
    for number in [
        "", "+", "-1", "--1", "++1", "+-1", "1+", " 1", "1 ", "1_0", "1.0", "1e3", "0x10", "a",
        "\u{661}", "\u{ff11}", "18446744073709551616", "99999999999999999999999", "+ 1",
    ] {
        let text = format!("{}-{}", number, DIGEST);
        let got = RevisionId::parse(&text);
        assert!(
            matches!(
                got,
                Err(ChillError::RevisionParse { kind: RevisionParseErrorKind::NumberParse(_) })
            ) || number.starts_with('-'),
            "{}",
            number
        );
        assert!(got.is_err(), "{}", number);
    }
    for number in ["0", "+0", "00", "+000"] {
        let text = format!("{}-{}", number, DIGEST);
        assert!(
            matches!(
                RevisionId::parse(&text),
                Err(ChillError::RevisionParse {
                    kind: RevisionParseErrorKind::ZeroSequenceNumber
                })
            ),
            "{}",
            number
        );
    }
}
