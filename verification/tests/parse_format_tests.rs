use subnet_calc::ip::{format_ipv4, format_u64, parse_ipv4, Ipv4};

fn chars(s: &str) -> Vec<char> {
    s.chars().collect()
}

fn text(v: &[char]) -> String {
    v.iter().collect()
}

#[test]
fn parses_plain_address() {
    let r = parse_ipv4(&chars("192.168.1.10"));
    assert_eq!(r, Some(Ipv4 { o0: 192, o1: 168, o2: 1, o3: 10 }));
}

#[test]
fn parses_boundary_octets() {
    assert_eq!(parse_ipv4(&chars("0.0.0.0")), Some(Ipv4 { o0: 0, o1: 0, o2: 0, o3: 0 }));
    assert_eq!(
        parse_ipv4(&chars("255.255.255.255")),
        Some(Ipv4 { o0: 255, o1: 255, o2: 255, o3: 255 })
    );
}

#[test]
fn rejects_missing_octet() {
    assert_eq!(parse_ipv4(&chars("192.168.1")), None);
}

#[test]
fn rejects_extra_octet() {
    assert_eq!(parse_ipv4(&chars("1.2.3.4.5")), None);
}

#[test]
fn rejects_empty_text_and_empty_components() {
    assert_eq!(parse_ipv4(&chars("")), None);
    assert_eq!(parse_ipv4(&chars("1..2.3")), None);
    assert_eq!(parse_ipv4(&chars(".1.2.3")), None);
    assert_eq!(parse_ipv4(&chars("1.2.3.")), None);
    assert_eq!(parse_ipv4(&chars("...")), None);
}

#[test]
fn rejects_value_over_255() {
    assert_eq!(parse_ipv4(&chars("256.1.1.1")), None);
    assert_eq!(parse_ipv4(&chars("1.1.1.999")), None);
}

#[test]
fn rejects_leading_zeros() {
    assert_eq!(parse_ipv4(&chars("192.168.01.1")), None);
    assert_eq!(parse_ipv4(&chars("00.1.2.3")), None);
}

#[test]
fn rejects_stray_characters() {
    assert_eq!(parse_ipv4(&chars("a.b.c.d")), None);
    assert_eq!(parse_ipv4(&chars("1.2.3.4 ")), None);
    assert_eq!(parse_ipv4(&chars(" 1.2.3.4")), None);
    assert_eq!(parse_ipv4(&chars("1.2.3.4x")), None);
    assert_eq!(parse_ipv4(&chars("-1.2.3.4")), None);
}

#[test]
fn rejects_overlong_components() {
    assert_eq!(parse_ipv4(&chars("0001.2.3.4")), None);
    assert_eq!(parse_ipv4(&chars("1.2.3.12345")), None);
}

#[test]
fn formats_addresses_in_dotted_decimal() {
    assert_eq!(text(&format_ipv4(&Ipv4 { o0: 192, o1: 168, o2: 1, o3: 0 })), "192.168.1.0");
    assert_eq!(text(&format_ipv4(&Ipv4 { o0: 0, o1: 0, o2: 0, o3: 0 })), "0.0.0.0");
    assert_eq!(
        text(&format_ipv4(&Ipv4 { o0: 255, o1: 255, o2: 255, o3: 255 })),
        "255.255.255.255"
    );
}

#[test]
fn formats_counts_in_decimal() {
    assert_eq!(text(&format_u64(0)), "0");
    assert_eq!(text(&format_u64(7)), "7");
    assert_eq!(text(&format_u64(256)), "256");
    assert_eq!(text(&format_u64(4_294_967_296)), "4294967296");
}

#[test]
fn parse_and_format_round_trip() {
    let a = parse_ipv4(&chars("10.0.200.31")).unwrap();
    assert_eq!(text(&format_ipv4(&a)), "10.0.200.31");
}
