use url_record::host::host_option_eq;
use url_record::{classify, Host, ParseErrorKind};

fn kind(text: &str, special: bool) -> ParseErrorKind {
    let e = classify(text, special).unwrap_err();
    assert_eq!(e.input, text);
    e.kind
}

#[test]
fn bracketed_text_is_an_ipv6_address() {
    let mut one = [0u8; 16];
    one[15] = 1;
    assert_eq!(classify("[::1]", true).unwrap(), Host::Ipv6(one));
    assert_eq!(classify("[::1]", false).unwrap(), Host::Ipv6(one));
    let mut mapped = [0u8; 16];
    mapped[10] = 0xff;
    mapped[11] = 0xff;
    mapped[12] = 1;
    mapped[13] = 2;
    mapped[14] = 3;
    mapped[15] = 4;
    assert_eq!(classify("[::ffff:1.2.3.4]", true).unwrap(), Host::Ipv6(mapped));
    assert_eq!(classify("[0:0:0:0:0:ffff:102:304]", true).unwrap(), Host::Ipv6(mapped));
}

#[test]
fn malformed_ipv6_addresses() {
    assert_eq!(kind("[::1", true), ParseErrorKind::InvalidIpv6Address);
    assert_eq!(kind("[::1", false), ParseErrorKind::InvalidIpv6Address);
    assert_eq!(kind("[", false), ParseErrorKind::InvalidIpv6Address);
    assert_eq!(kind("[::g]", true), ParseErrorKind::InvalidIpv6Address);
    assert_eq!(kind("[1::2::3]", false), ParseErrorKind::InvalidIpv6Address);
    assert_eq!(kind("[1:2:3]", true), ParseErrorKind::InvalidIpv6Address);
}

#[test]
fn numbers_are_ipv4_addresses_under_special_schemes() {
    assert_eq!(classify("1.2.3.4", true).unwrap(), Host::Ipv4([1, 2, 3, 4]));
    assert_eq!(classify("0x7f.1", true).unwrap(), Host::Ipv4([127, 0, 0, 1]));
    assert_eq!(classify("017.0.0.1", true).unwrap(), Host::Ipv4([15, 0, 0, 1]));
    assert_eq!(classify("16909060", true).unwrap(), Host::Ipv4([1, 2, 3, 4]));
    assert_eq!(kind("1.2.3.4.5", true), ParseErrorKind::InvalidIpv4Address);
    assert_eq!(kind("256.1.1.1", true), ParseErrorKind::InvalidIpv4Address);
}

#[test]
fn domains_are_normalized() {
    assert_eq!(classify("EXAMPLE.com", true).unwrap(), Host::Domain("example.com".to_string()));
    assert_eq!(classify("\u{e9}.com", true).unwrap(), Host::Domain("xn--9ca.com".to_string()));
    assert_eq!(classify("%41.com", true).unwrap(), Host::Domain("a.com".to_string()));
}

#[test]
fn domain_errors() {
    assert_eq!(kind("", true), ParseErrorKind::EmptyHost);
    assert_eq!(kind("a b", true), ParseErrorKind::InvalidDomainCharacter);
    assert_eq!(kind("a#b", true), ParseErrorKind::InvalidDomainCharacter);
    assert_eq!(kind("a%b", true), ParseErrorKind::InvalidDomainCharacter);
    assert_eq!(kind("a/b", true), ParseErrorKind::InvalidDomainCharacter);
    assert_eq!(kind("a:b", true), ParseErrorKind::InvalidDomainCharacter);
    assert_eq!(kind("a?b", true), ParseErrorKind::InvalidDomainCharacter);
    assert_eq!(kind("a@b", true), ParseErrorKind::InvalidDomainCharacter);
    assert_eq!(kind("a\\b", true), ParseErrorKind::InvalidDomainCharacter);
    assert_eq!(kind("a]b", true), ParseErrorKind::InvalidDomainCharacter);
    assert_eq!(kind("a\u{1}b", true), ParseErrorKind::InvalidDomainCharacter);
    assert_eq!(kind("xn--a", true), ParseErrorKind::IdnaError);
}

#[test]
fn hosts_of_other_schemes_are_opaque() {
    assert_eq!(classify("EXAMPLE.com", false).unwrap(), Host::Opaque("EXAMPLE.com".to_string()));
    assert_eq!(classify("1.2.3.4", false).unwrap(), Host::Opaque("1.2.3.4".to_string()));
    assert_eq!(classify("", false).unwrap(), Host::Opaque(String::new()));
    assert_eq!(classify("a%b", false).unwrap(), Host::Opaque("a%b".to_string()));
    assert_eq!(classify("a\u{7f}\u{e9}", false).unwrap(), Host::Opaque("a%7F%C3%A9".to_string()));
}

#[test]
fn forbidden_characters_in_opaque_hosts() {
    for text in vec!["a b", "a#b", "a/b", "a:b", "a<b", "a>b", "a?b", "a@b", "a[b", "a\\b", "a]b", "a^b", "a|b", "a\tb", "a\nb", "a\rb", "a\0b"] {
        assert_eq!(kind(text, false), ParseErrorKind::InvalidDomainCharacter);
    }
}

#[test]
fn host_equality() {
    assert!(Host::Domain("a".to_string()) == Host::Domain("a".to_string()));
    assert!(Host::Domain("a".to_string()) != Host::Domain("b".to_string()));
    assert!(Host::Domain("a".to_string()) != Host::Opaque("a".to_string()));
    assert!(Host::Ipv4([1, 2, 3, 4]) == Host::Ipv4([1, 2, 3, 4]));
    assert!(Host::Ipv4([1, 2, 3, 4]) != Host::Ipv4([1, 2, 3, 5]));
    assert!(Host::Ipv6([0; 16]) == Host::Ipv6([0; 16]));
    assert!(Host::Ipv6([0; 16]) != Host::Ipv6([1; 16]));
    assert!(Host::Ipv4([0; 4]) != Host::Ipv6([0; 16]));
    assert!(host_option_eq(&None, &None));
    assert!(!host_option_eq(&None, &Some(Host::Ipv4([0; 4]))));
    assert!(host_option_eq(&Some(Host::Ipv4([0; 4])), &Some(Host::Ipv4([0; 4]))));
}

#[test]
fn new_host_is_a_domain() {
    let h = Host::new("example.com".to_string());
    assert_eq!(h, Host::Domain("example.com".to_string()));
    assert_eq!(h.domain(), Some("example.com"));
    assert_eq!(Host::Ipv4([1, 2, 3, 4]).domain(), None);
    assert_eq!(Host::Opaque("x".to_string()).domain(), None);
    assert_eq!(h.clone(), h);
}

#[test]
fn host_hash() {
    let a = Host::Domain("a".to_string());
    assert_eq!(a.hash_code(), Host::new("a".to_string()).hash_code());
    assert_ne!(a.hash_code(), Host::Opaque("a".to_string()).hash_code());
    assert_ne!(a.hash_code(), Host::Domain("b".to_string()).hash_code());
    assert_eq!(Host::Ipv4([1, 2, 3, 4]).hash_code(), Host::Ipv4([1, 2, 3, 4]).hash_code());
    assert_ne!(Host::Ipv4([0; 4]).hash_code(), Host::Ipv6([0; 16]).hash_code());
}

#[test]
fn numbers_are_no_addresses_under_other_schemes() {
    assert_eq!(classify("1.2.3.4.5", false).unwrap(), Host::Opaque("1.2.3.4.5".to_string()));
    assert_eq!(classify("0x7f.1", false).unwrap(), Host::Opaque("0x7f.1".to_string()));
}
