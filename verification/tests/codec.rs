use connectbox::error::{DecodeError, LeaseField};
use connectbox::models::{
    bool_from_int, deserialize_lease_time, Ipv4Addr, PortForwardProtocol,
};
use connectbox::text::{
    chars_of, decimal_string, find_sep, occurs_at_index, parse_number, push_decimal, same_text,
    same_text_ignoring_case,
};

#[test]
fn lease_time_is_summed_in_seconds() {
    let secs = deserialize_lease_time("1:02:03:04").unwrap();
    assert_eq!(secs, 1 * 86400 + 2 * 3600 + 3 * 60 + 4);
    assert_eq!(secs, 93784);
}

#[test]
fn lease_time_of_zero() {
    assert_eq!(deserialize_lease_time("0:0:0:0").unwrap(), 0);
    assert_eq!(deserialize_lease_time("00:00:00:59").unwrap(), 59);
}

#[test]
fn lease_time_takes_a_plus_sign() {
    assert_eq!(deserialize_lease_time("+1:0:0:0").unwrap(), 86400);
}

#[test]
fn lease_time_does_not_overflow() {
    let max = u32::MAX as u64;
    let secs = deserialize_lease_time("4294967295:4294967295:4294967295:4294967295").unwrap();
    assert_eq!(secs, max * 86400 + max * 3600 + max * 60 + max);
    assert_eq!(secs, 386_809_049_554_995u64);
}

#[test]
fn lease_time_ignores_what_follows_the_seconds() {
    assert_eq!(deserialize_lease_time("0:0:1:1:rest").unwrap(), 61);
    assert_eq!(deserialize_lease_time("0:0:1:1:").unwrap(), 61);
}

#[test]
fn lease_time_names_the_missing_part() {
    assert!(matches!(
        deserialize_lease_time("1"),
        Err(DecodeError::MissingLeaseField(LeaseField::Hours))
    ));
    assert!(matches!(
        deserialize_lease_time("1:2"),
        Err(DecodeError::MissingLeaseField(LeaseField::Mins))
    ));
    assert!(matches!(
        deserialize_lease_time("1:2:3"),
        Err(DecodeError::MissingLeaseField(LeaseField::Secs))
    ));
}

#[test]
fn lease_time_names_the_part_that_is_no_number() {
    match deserialize_lease_time("") {
        Err(DecodeError::InvalidLeaseField(LeaseField::Days, raw)) => assert_eq!(raw, ""),
        other => panic!("{:?}", other),
    }
    match deserialize_lease_time("1:x2:3:4") {
        Err(DecodeError::InvalidLeaseField(LeaseField::Hours, raw)) => assert_eq!(raw, "x2"),
        other => panic!("{:?}", other),
    }
    match deserialize_lease_time("1:2: 3:4") {
        Err(DecodeError::InvalidLeaseField(LeaseField::Mins, raw)) => assert_eq!(raw, " 3"),
        other => panic!("{:?}", other),
    }
    match deserialize_lease_time("1:2:3:-4") {
        Err(DecodeError::InvalidLeaseField(LeaseField::Secs, raw)) => assert_eq!(raw, "-4"),
        other => panic!("{:?}", other),
    }
    match deserialize_lease_time("1:2:3:") {
        Err(DecodeError::InvalidLeaseField(LeaseField::Secs, raw)) => assert_eq!(raw, ""),
        other => panic!("{:?}", other),
    }
    match deserialize_lease_time("1::3:4") {
        Err(DecodeError::InvalidLeaseField(LeaseField::Hours, raw)) => assert_eq!(raw, ""),
        other => panic!("{:?}", other),
    }
}

#[test]
fn lease_time_refuses_a_part_beyond_32_bits() {
    match deserialize_lease_time("4294967296:0:0:0") {
        Err(DecodeError::InvalidLeaseField(LeaseField::Days, raw)) => {
            assert_eq!(raw, "4294967296")
        }
        other => panic!("{:?}", other),
    }
}

#[test]
fn lease_time_reports_the_first_fault() {
    assert!(matches!(
        deserialize_lease_time("a:b"),
        Err(DecodeError::InvalidLeaseField(LeaseField::Days, _))
    ));
    assert!(matches!(
        deserialize_lease_time("1:b"),
        Err(DecodeError::InvalidLeaseField(LeaseField::Hours, _))
    ));
}

#[test]
fn lease_time_agrees_with_the_integer_parser_of_std() {
    for part in ["0", "7", "007", "+7", "", "+", "-7", "7 ", " 7", "7_0", "4294967295", "4294967296", "٣"] {
        let text = format!("{part}:0:0:0");
        let expected: Option<u32> = part.parse().ok();
        match (deserialize_lease_time(&text), expected) {
            (Ok(secs), Some(days)) => assert_eq!(secs, days as u64 * 86400),
            (Err(DecodeError::InvalidLeaseField(LeaseField::Days, raw)), None) => {
                assert_eq!(raw, part)
            }
            (got, want) => panic!("{:?}: {:?} against {:?}", part, got, want),
        }
    }
}

#[test]
fn flags_are_zero_or_one() {
    assert!(matches!(bool_from_int(0), Ok(false)));
    assert!(matches!(bool_from_int(1), Ok(true)));
    for value in 2..=255u8 {
        assert!(matches!(bool_from_int(value), Err(DecodeError::InvalidBool(v)) if v == value));
    }
}

#[test]
fn protocols_are_one_two_three() {
    assert!(matches!(PortForwardProtocol::from_id(1), Ok(PortForwardProtocol::Tcp)));
    assert!(matches!(PortForwardProtocol::from_id(2), Ok(PortForwardProtocol::Udp)));
    assert!(matches!(PortForwardProtocol::from_id(3), Ok(PortForwardProtocol::Both)));
    assert!(matches!(PortForwardProtocol::from_id(0), Err(DecodeError::InvalidProtocol(0))));
    for value in 4..=255u8 {
        assert!(matches!(
            PortForwardProtocol::from_id(value),
            Err(DecodeError::InvalidProtocol(v)) if v == value
        ));
    }
}

#[test]
fn protocols_encode_as_they_decode() {
    for protocol in [PortForwardProtocol::Tcp, PortForwardProtocol::Udp, PortForwardProtocol::Both] {
        assert_eq!(PortForwardProtocol::from_id(protocol.id()).unwrap(), protocol);
        assert_eq!(protocol.id_str(), protocol.id().to_string());
    }
    assert_eq!(PortForwardProtocol::Tcp.id_str(), "1");
    assert_eq!(PortForwardProtocol::Udp.id_str(), "2");
    assert_eq!(PortForwardProtocol::Both.id_str(), "3");
}

#[test]
fn protocols_go_by_name() {
    assert_eq!(PortForwardProtocol::new("tcp"), Some(PortForwardProtocol::Tcp));
    assert_eq!(PortForwardProtocol::new("UDP"), Some(PortForwardProtocol::Udp));
    assert_eq!(PortForwardProtocol::new("Both"), Some(PortForwardProtocol::Both));
    assert_eq!(PortForwardProtocol::new("icmp"), None);
    assert_eq!(PortForwardProtocol::new(""), None);
    assert_eq!(PortForwardProtocol::new("tcp "), None);
    for protocol in [PortForwardProtocol::Tcp, PortForwardProtocol::Udp, PortForwardProtocol::Both] {
        assert_eq!(PortForwardProtocol::new(protocol.name()), Some(protocol));
    }
    assert_eq!(PortForwardProtocol::Both.name(), "both");
}

#[test]
fn decode_errors_say_what_was_sent() {
    assert_eq!(
        DecodeError::InvalidBool(5).message(),
        "invalid value: integer `5`, expected zero or one"
    );
    assert_eq!(DecodeError::InvalidProtocol(40).message(), "protocol 40 not in range 1..=3");
    assert_eq!(
        DecodeError::MissingLeaseField(LeaseField::Days).message(),
        "no days field in lease time"
    );
    assert_eq!(
        DecodeError::MissingLeaseField(LeaseField::Hours).message(),
        "no hours field in lease time"
    );
    assert_eq!(
        DecodeError::InvalidLeaseField(LeaseField::Mins, "x".to_string()).message(),
        "invalid mins field in lease time: x"
    );
    assert_eq!(
        DecodeError::InvalidLeaseField(LeaseField::Secs, String::new()).message(),
        "invalid secs field in lease time: "
    );
}

#[test]
fn addresses_are_written_in_dotted_decimal() {
    assert_eq!(Ipv4Addr::new(192, 168, 0, 180).to_string(), "192.168.0.180");
    assert_eq!(Ipv4Addr::new(0, 0, 0, 0).to_string(), "0.0.0.0");
    assert_eq!(Ipv4Addr::new(255, 255, 255, 255).to_string(), "255.255.255.255");
    assert_eq!(Ipv4Addr::new(10, 0, 200, 9).octets(), [10, 0, 200, 9]);
    assert_eq!(Ipv4Addr::new(1, 2, 3, 4), Ipv4Addr { a: 1, b: 2, c: 3, d: 4 });
}

#[test]
fn numbers_are_written_in_decimal() {
    assert_eq!(decimal_string(0), "0");
    assert_eq!(decimal_string(9), "9");
    assert_eq!(decimal_string(10), "10");
    assert_eq!(decimal_string(123), "123");
    assert_eq!(decimal_string(u64::MAX), "18446744073709551615");
    for n in [1u64, 99, 100, 101, 65535, 4294967295] {
        assert_eq!(decimal_string(n), n.to_string());
    }
    let mut text = "n=".to_string();
    push_decimal(&mut text, 407);
    assert_eq!(text, "n=407");
}

#[test]
fn numbers_are_read_within_their_bound() {
    let text = chars_of("123");
    assert_eq!(parse_number(&text, 1000), Some(123));
    assert_eq!(parse_number(&text, 123), Some(123));
    assert_eq!(parse_number(&text, 122), None);
    assert_eq!(parse_number(&text[1..], 122), Some(23));
    assert_eq!(parse_number(&text[3..], 122), None);
    assert_eq!(parse_number(&chars_of("x123"), 1000), None);
    assert_eq!(parse_number(&chars_of("123y"), 1000), None);
    assert_eq!(parse_number(&chars_of("+"), 1000), None);
    assert_eq!(parse_number(&chars_of("++1"), 1000), None);
    assert_eq!(parse_number(&chars_of("+0"), 0), Some(0));
    let zeros = chars_of("0000000000000000000000000000000000012");
    assert_eq!(parse_number(&zeros, 12), Some(12));
    let long = chars_of("99999999999999999999999999999999999999");
    assert_eq!(parse_number(&long, u32::MAX), None);
    assert_eq!(parse_number(&chars_of("4294967295"), u32::MAX), Some(u32::MAX));
    assert_eq!(parse_number(&chars_of("4294967296"), u32::MAX), None);
}

#[test]
fn separators_are_found_from_a_place_on() {
    let text = chars_of("a;b;;c");
    assert_eq!(find_sep(&text, ';', 0), 1);
    assert_eq!(find_sep(&text, ';', 1), 1);
    assert_eq!(find_sep(&text, ';', 2), 3);
    assert_eq!(find_sep(&text, ';', 4), 4);
    assert_eq!(find_sep(&text, ';', 5), 6);
    assert_eq!(find_sep(&text, ';', 6), 6);
    assert_eq!(find_sep(&text, ';', 60), 6);
    assert_eq!(find_sep(&text, '*', 0), 6);
}

#[test]
fn texts_are_found_in_texts() {
    let hay = chars_of("successful;SID=1");
    assert!(occurs_at_index(&hay, &chars_of("successful"), 0));
    assert!(occurs_at_index(&hay, &chars_of("SID="), 11));
    assert!(!occurs_at_index(&hay, &chars_of("SID="), 10));
    assert!(!occurs_at_index(&hay, &chars_of("SID=12"), 11));
    assert!(occurs_at_index(&hay, &chars_of(""), 16));
    assert!(!occurs_at_index(&hay, &chars_of(""), 17));
}

#[test]
fn texts_compare_by_their_characters() {
    assert!(same_text("abc", "abc"));
    assert!(!same_text("abc", "abd"));
    assert!(!same_text("abc", "ab"));
    assert!(same_text("", ""));
    assert!(same_text_ignoring_case("Enable", "eNABLE"));
    assert!(!same_text_ignoring_case("enable", "enable "));
    assert!(!same_text_ignoring_case("[", "{"));
    assert!(!same_text_ignoring_case("@", "`"));
    assert_eq!(chars_of("aß→"), vec!['a', 'ß', '→']);
}

#[test]
fn numbers_read_back_as_written() {
    for n in [0u32, 1, 9, 10, 99, 100, 65535, 65536, 4294967294, u32::MAX] {
        let text = chars_of(&decimal_string(n as u64));
        assert_eq!(parse_number(&text, u32::MAX), Some(n));
        if n > 0 {
            assert_eq!(parse_number(&text, n - 1), None);
        }
    }
}
