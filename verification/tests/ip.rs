use leroyjenkins::ip_addr::IpAddr;

fn parse(s: &str) -> Result<IpAddr, leroyjenkins::ip_parse::IpParseError> {
    IpAddr::parse_ascii(s.as_bytes())
}

#[test]
fn v4_basic() {
    assert_eq!(parse("1.2.3.4"), Ok(IpAddr::V4(0x01020304)));
    assert_eq!(parse("10.0.0.1"), Ok(IpAddr::V4(0x0A000001)));
    assert_eq!(parse("0.0.0.0"), Ok(IpAddr::V4(0)));
    assert_eq!(parse("255.255.255.255"), Ok(IpAddr::V4(0xFFFFFFFF)));
    assert_eq!(parse("192.0.2.1"), Ok(IpAddr::V4(0xC0000201)));
}

#[test]
fn v4_rejects_malformed_text() {
    assert!(parse("").is_err());
    assert!(parse("1.2.3").is_err());
    assert!(parse("1.2.3.4.5").is_err());
    assert!(parse("256.1.1.1").is_err());
    assert!(parse("01.2.3.4").is_err());
    assert!(parse("1.2.3.04").is_err());
    assert!(parse("1.2.3.4 ").is_err());
    assert!(parse(" 1.2.3.4").is_err());
    assert!(parse("1..2.3").is_err());
    assert!(parse("a.b.c.d").is_err());
    assert!(parse("1.2.3.1000").is_err());
    assert!(parse("not an ip").is_err());
}

#[test]
fn v6_basic() {
    assert_eq!(parse("::"), Ok(IpAddr::V6(0)));
    assert_eq!(parse("::1"), Ok(IpAddr::V6(1)));
    assert_eq!(
        parse("2001:db8::1"),
        Ok(IpAddr::V6(0x2001_0db8_0000_0000_0000_0000_0000_0001))
    );
    assert_eq!(
        parse("1:2:3:4:5:6:7:8"),
        Ok(IpAddr::V6(0x0001_0002_0003_0004_0005_0006_0007_0008))
    );
    assert_eq!(
        parse("fe80::"),
        Ok(IpAddr::V6(0xfe80_0000_0000_0000_0000_0000_0000_0000))
    );
    assert_eq!(
        parse("FFFF::abcd"),
        Ok(IpAddr::V6(0xffff_0000_0000_0000_0000_0000_0000_abcd))
    );
    assert_eq!(
        parse("1:2:3:4:5:6:7::"),
        Ok(IpAddr::V6(0x0001_0002_0003_0004_0005_0006_0007_0000))
    );
}

#[test]
fn v6_embedded_v4() {
    assert_eq!(
        parse("::ffff:1.2.3.4"),
        Ok(IpAddr::V6(0x0000_0000_0000_0000_0000_ffff_0102_0304))
    );
    assert_eq!(parse("::1.2.3.4"), Ok(IpAddr::V6(0x0102_0304)));
    assert_eq!(
        parse("1:2:3:4:5:6:1.2.3.4"),
        Ok(IpAddr::V6(0x0001_0002_0003_0004_0005_0006_0102_0304))
    );
}

#[test]
fn v6_rejects_malformed_text() {
    assert!(parse(":").is_err());
    assert!(parse(":::").is_err());
    assert!(parse("1::2::3").is_err());
    assert!(parse(":1:2:3:4:5:6:7").is_err());
    assert!(parse("1:2:3:4:5:6:7").is_err());
    assert!(parse("1:2:3:4:5:6:7:8:9").is_err());
    assert!(parse("1:2:3:4:5:6:7:8::").is_err());
    assert!(parse("::1:2:3:4:5:6:7:8").is_err());
    assert!(parse("12345::").is_err());
    assert!(parse("g::1").is_err());
    assert!(parse("2001:db8::1%eth0").is_err());
    assert!(parse("1.2.3.4::").is_err());
    assert!(parse("::ffff:1.2.3.256").is_err());
}

#[test]
fn octets_are_network_order() {
    let v4 = IpAddr::V4(0x01020304);
    assert_eq!(v4.octets(), vec![1, 2, 3, 4]);
    let v6 = IpAddr::V6(0x2001_0db8_0000_0000_0000_0000_0000_0001);
    assert_eq!(
        v6.octets(),
        vec![0x20, 0x01, 0x0d, 0xb8, 0, 0, 0, 0, 0, 0, 0, 0, 0, 0, 0, 1]
    );
}

#[test]
fn families() {
    assert!(IpAddr::V4(1).is_ipv4());
    assert!(!IpAddr::V6(1).is_ipv4());
}
