use papertrail_archive::event::{format_ipv4, parse_ipv4, parse_octet, Event, Ipv4, SchemaFault};
use papertrail_archive::text::{chars_of, decimal_string, parse_unsigned, split_chars};

fn record(values: [&str; 10]) -> Vec<String> {
    values.iter().map(|v| v.to_string()).collect()
}

#[test]
fn numbers_are_decimal_or_hexadecimal() {
    assert_eq!(parse_unsigned("0", u128::MAX), Some(0));
    assert_eq!(parse_unsigned("007", u128::MAX), Some(7));
    assert_eq!(parse_unsigned("+15", u128::MAX), Some(15));
    assert_eq!(parse_unsigned("0x1f", u128::MAX), Some(31));
    assert_eq!(parse_unsigned("0xFF", u128::MAX), Some(255));
    assert_eq!(parse_unsigned("0x+a", u128::MAX), Some(10));
    assert_eq!(
        parse_unsigned("340282366920938463463374607431768211455", u128::MAX),
        Some(u128::MAX)
    );
    assert_eq!(parse_unsigned("0xffffffffffffffffffffffffffffffff", u128::MAX), Some(u128::MAX));
}

#[test]
fn numbers_are_refused() {
    assert_eq!(parse_unsigned("", u128::MAX), None);
    assert_eq!(parse_unsigned("+", u128::MAX), None);
    assert_eq!(parse_unsigned("-1", u128::MAX), None);
    assert_eq!(parse_unsigned("12a", u128::MAX), None);
    assert_eq!(parse_unsigned(" 12", u128::MAX), None);
    assert_eq!(parse_unsigned("12 ", u128::MAX), None);
    assert_eq!(parse_unsigned("1_000", u128::MAX), None);
    assert_eq!(parse_unsigned("0x", u128::MAX), None);
    assert_eq!(parse_unsigned("0X1f", u128::MAX), None);
    assert_eq!(parse_unsigned("0x1g", u128::MAX), None);
    assert_eq!(parse_unsigned("++1", u128::MAX), None);
    assert_eq!(parse_unsigned("١٢", u128::MAX), None);
    assert_eq!(parse_unsigned("340282366920938463463374607431768211456", u128::MAX), None);
    assert_eq!(parse_unsigned("0x100000000000000000000000000000000", u128::MAX), None);
    assert_eq!(parse_unsigned("4294967296", 4294967295), None);
    assert_eq!(parse_unsigned("4294967295", 4294967295), Some(4294967295));
}

#[test]
fn numbers_agree_with_the_standard_parser() {
    for text in ["0", "1", "+1", "0042", "99999", "abc", "", "+", "-0", "1e3", "18446744073709551616"] {
        assert_eq!(parse_unsigned(text, u128::MAX), text.parse::<u128>().ok(), "{}", text);
        assert_eq!(
            parse_unsigned(text, u32::MAX as u128),
            text.parse::<u32>().ok().map(u128::from),
            "{}",
            text
        );
    }
}

#[test]
fn decimal_text_has_no_leading_zeros() {
    assert_eq!(decimal_string(0), "0");
    assert_eq!(decimal_string(9), "9");
    assert_eq!(decimal_string(10), "10");
    assert_eq!(decimal_string(1234567890), "1234567890");
    assert_eq!(decimal_string(u128::MAX), "340282366920938463463374607431768211455");
}

#[test]
fn characters_are_taken_one_by_one() {
    assert_eq!(chars_of("a.b"), vec!['a', '.', 'b']);
    assert_eq!(chars_of("héllo"), vec!['h', 'é', 'l', 'l', 'o']);
    assert!(chars_of("").is_empty());
}

#[test]
fn split_keeps_empty_pieces() {
    let pieces = |s: &str| -> Vec<String> {
        split_chars(&chars_of(s), '.').iter().map(|p| p.iter().collect()).collect()
    };
    assert_eq!(pieces("1.2.3.4"), vec!["1", "2", "3", "4"]);
    assert_eq!(pieces(""), vec![""]);
    assert_eq!(pieces("."), vec!["", ""]);
    assert_eq!(pieces("a..b."), vec!["a", "", "b", ""]);
    assert_eq!(pieces("abc"), vec!["abc"]);
}

#[test]
fn octets_are_one_to_three_digits() {
    assert_eq!(parse_octet(&chars_of("0")), Some(0));
    assert_eq!(parse_octet(&chars_of("9")), Some(9));
    assert_eq!(parse_octet(&chars_of("10")), Some(10));
    assert_eq!(parse_octet(&chars_of("255")), Some(255));
    assert_eq!(parse_octet(&chars_of("256")), None);
    assert_eq!(parse_octet(&chars_of("00")), None);
    assert_eq!(parse_octet(&chars_of("01")), None);
    assert_eq!(parse_octet(&chars_of("0001")), None);
    assert_eq!(parse_octet(&chars_of("")), None);
    assert_eq!(parse_octet(&chars_of("+1")), None);
    assert_eq!(parse_octet(&chars_of("1a")), None);
    assert_eq!(parse_octet(&chars_of("a")), None);
}

#[test]
fn addresses_are_dotted_quads() {
    assert_eq!(parse_ipv4("10.0.0.1"), Some(Ipv4(10, 0, 0, 1)));
    assert_eq!(parse_ipv4("255.255.255.255"), Some(Ipv4(255, 255, 255, 255)));
    assert_eq!(parse_ipv4("0.0.0.0"), Some(Ipv4(0, 0, 0, 0)));
    for bad in [
        "", "1.2.3", "1.2.3.4.5", "1.2.3.", ".1.2.3", "1..2.3", "256.1.1.1", "1.2.3.04",
        "1.2.3.4 ", " 1.2.3.4", "a.b.c.d", "1.2.3.-4", "+1.2.3.4", "0x1.2.3.4", "1,2,3,4",
        "1.2.3.4\n", "::1", "１.2.3.4",
    ] {
        assert_eq!(parse_ipv4(bad), None, "{:?}", bad);
    }
}

#[test]
fn addresses_with_a_zero_in_front_are_refused() {
    assert_eq!(parse_ipv4("127.0.0.1"), Some(Ipv4(127, 0, 0, 1)));
    assert_eq!(parse_ipv4("8.8.8.8"), Some(Ipv4(8, 8, 8, 8)));
    assert_eq!(parse_ipv4("192.168.001.1"), None);
    assert_eq!(parse_ipv4("08.8.8.8"), None);
    assert_eq!(parse_ipv4("300.1.1.1"), None);
}

#[test]
fn address_text_parses_back() {
    for ip in [Ipv4(0, 0, 0, 0), Ipv4(1, 20, 255, 100), Ipv4(192, 168, 1, 20)] {
        assert_eq!(parse_ipv4(&format_ipv4(ip)), Some(ip));
    }
    assert_eq!(format_ipv4(Ipv4(10, 0, 200, 9)), "10.0.200.9");
}

#[test]
fn record_of_ten_fields_is_an_event() {
    let fields = record([
        "0x10", "2024-01-01T00:00:00Z", "2024-01-01T00:00:01Z", "+42", "host-a", "10.0.0.1",
        "user", "info", "sshd", "hello, world",
    ]);
    let event = Event::from_fields(&fields).unwrap();
    assert_eq!(event.id, 16);
    assert_eq!(event.generated_at, "2024-01-01T00:00:00Z");
    assert_eq!(event.received_at, "2024-01-01T00:00:01Z");
    assert_eq!(event.source_id, 42);
    assert_eq!(event.source_name, "host-a");
    assert_eq!(event.source_ip, Ipv4(10, 0, 0, 1));
    assert_eq!(event.facility_name, "user");
    assert_eq!(event.severity_name, "info");
    assert_eq!(event.program, "sshd");
    assert_eq!(event.message, "hello, world");
    assert_eq!(
        event.to_fields(),
        vec![
            "16", "2024-01-01T00:00:00Z", "2024-01-01T00:00:01Z", "42", "host-a", "10.0.0.1",
            "user", "info", "sshd", "hello, world",
        ]
    );
}

#[test]
fn each_fault_is_told_apart() {
    let good = ["1", "a", "b", "2", "c", "1.2.3.4", "d", "e", "f", "g"];
    assert!(Event::from_fields(&record(good)).is_ok());

    let nine: Vec<String> = good[..9].iter().map(|v| v.to_string()).collect();
    assert_eq!(Event::from_fields(&nine).unwrap_err(), SchemaFault::FieldCount);
    let mut eleven = record(good);
    eleven.push(String::from("extra"));
    assert_eq!(Event::from_fields(&eleven).unwrap_err(), SchemaFault::FieldCount);
    assert_eq!(Event::from_fields(&Vec::new()).unwrap_err(), SchemaFault::FieldCount);

    let mut bad_id = good;
    bad_id[0] = "twelve";
    assert_eq!(Event::from_fields(&record(bad_id)).unwrap_err(), SchemaFault::BadId);

    let mut bad_source = good;
    bad_source[3] = "4294967296";
    assert_eq!(Event::from_fields(&record(bad_source)).unwrap_err(), SchemaFault::BadSourceId);

    let mut bad_ip = good;
    bad_ip[5] = "1.2.3";
    assert_eq!(Event::from_fields(&record(bad_ip)).unwrap_err(), SchemaFault::BadSourceIp);

    // The first rule broken is the one reported.
    let mut two = good;
    two[0] = "";
    two[5] = "nowhere";
    assert_eq!(Event::from_fields(&record(two)).unwrap_err(), SchemaFault::BadId);
}

#[test]
fn header_names_the_ten_fields_in_order() {
    assert_eq!(
        Event::header(),
        vec![
            "id", "generated_at", "received_at", "source_id", "source_name", "source_ip",
            "facility_name", "severity_name", "program", "message",
        ]
    );
}
