use std::collections::hash_map::DefaultHasher;
use std::hash::{Hash, Hasher};
use url_record::record::{dotted_text, host_agrees, is_valid_scheme, is_well_formed, parts_eq, serialize};
use url_record::scheme::{default_port, is_special};
use url_record::{Host, ParseErrorKind, UrlError, UrlParts, UrlRecord};

fn sample() -> UrlParts {
    UrlParts {
        serialization: "http://u:p@h:81/a?q#f".to_string(),
        scheme: "http".to_string(),
        has_authority: true,
        username: "u".to_string(),
        password: Some("p".to_string()),
        host: Some(Host::Domain("h".to_string())),
        host_str: Some("h".to_string()),
        port: Some(81),
        path: "/a".to_string(),
        query: Some("q".to_string()),
        fragment: Some("f".to_string()),
        cannot_be_a_base: false,
    }
}

fn opaque() -> UrlParts {
    UrlParts {
        serialization: "mailto:a@b.com".to_string(),
        scheme: "mailto".to_string(),
        has_authority: false,
        username: String::new(),
        password: None,
        host: None,
        host_str: None,
        port: None,
        path: "a@b.com".to_string(),
        query: None,
        fragment: None,
        cannot_be_a_base: true,
    }
}

fn refused(parts: UrlParts) {
    let text = parts.serialization.clone();
    let e = UrlRecord::from_parts(parts).unwrap_err();
    assert_eq!(e.kind, ParseErrorKind::UrlError);
    assert_eq!(e.input, text);
    assert_eq!(e.message(), "malformed URL");
}

#[test]
fn serialization_of_all_components() {
    assert_eq!(serialize(&sample()), "http://u:p@h:81/a?q#f");
}

#[test]
fn serialization_without_an_authority() {
    assert_eq!(serialize(&opaque()), "mailto:a@b.com");
}

#[test]
fn serialization_of_the_port() {
    for (port, text) in vec![(0u16, "0"), (7, "7"), (10, "10"), (81, "81"), (8080, "8080"), (65535, "65535"), (10000, "10000")] {
        let mut parts = sample();
        parts.port = Some(port);
        assert_eq!(serialize(&parts), format!("http://u:p@h:{}/a?q#f", text));
    }
    let mut parts = sample();
    parts.port = None;
    assert_eq!(serialize(&parts), "http://u:p@h/a?q#f");
}

#[test]
fn serialization_of_the_credentials() {
    let mut parts = sample();
    parts.password = None;
    assert_eq!(serialize(&parts), "http://u@h:81/a?q#f");
    parts.username = String::new();
    assert_eq!(serialize(&parts), "http://h:81/a?q#f");
    parts.password = Some("p".to_string());
    assert_eq!(serialize(&parts), "http://:p@h:81/a?q#f");
    parts.password = Some(String::new());
    assert_eq!(serialize(&parts), "http://:@h:81/a?q#f");
}

#[test]
fn serialization_of_query_and_fragment() {
    let mut parts = sample();
    parts.query = Some(String::new());
    parts.fragment = None;
    assert_eq!(serialize(&parts), "http://u:p@h:81/a?");
    parts.query = None;
    parts.fragment = Some(String::new());
    assert_eq!(serialize(&parts), "http://u:p@h:81/a#");
}

#[test]
fn serialization_guards_a_path_that_begins_with_two_slashes() {
    let mut parts = opaque();
    parts.scheme = "web+demo".to_string();
    parts.path = "//not-a-host/".to_string();
    parts.cannot_be_a_base = false;
    assert_eq!(serialize(&parts), "web+demo:/.//not-a-host/");
    parts.path = "/one".to_string();
    assert_eq!(serialize(&parts), "web+demo:/one");
    parts.has_authority = true;
    parts.path = "//x".to_string();
    assert_eq!(serialize(&parts), "web+demo:////x");
}

#[test]
fn well_formed_parts_make_a_record() {
    assert!(is_well_formed(&sample()));
    let u = UrlRecord::from_parts(sample()).unwrap();
    assert_eq!(u.as_str(), "http://u:p@h:81/a?q#f");
    assert_eq!(u.port(), Some(81));
    assert!(u == UrlRecord::parse("http://u:p@h:81/a?q#f").unwrap());
    let m = UrlRecord::from_parts(opaque()).unwrap();
    assert!(m.cannot_be_a_base());
    assert!(m == UrlRecord::parse("mailto:a@b.com").unwrap());
}

#[test]
fn scheme_must_be_lower_case() {
    let mut parts = sample();
    parts.scheme = "HTTP".to_string();
    parts.serialization = "HTTP://u:p@h:81/a?q#f".to_string();
    refused(parts);
    let mut parts = sample();
    parts.scheme = String::new();
    parts.serialization = "://u:p@h:81/a?q#f".to_string();
    refused(parts);
    let mut parts = sample();
    parts.scheme = "1http".to_string();
    parts.serialization = "1http://u:p@h:81/a?q#f".to_string();
    refused(parts);
}

#[test]
fn valid_schemes() {
    assert!(is_valid_scheme("http"));
    assert!(is_valid_scheme("web+demo"));
    assert!(is_valid_scheme("a1.b-c"));
    assert!(!is_valid_scheme(""));
    assert!(!is_valid_scheme("Http"));
    assert!(!is_valid_scheme("htTp"));
    assert!(!is_valid_scheme("+a"));
    assert!(!is_valid_scheme("a:b"));
    assert!(!is_valid_scheme("a b"));
}

#[test]
fn default_port_is_never_stored() {
    let mut parts = sample();
    parts.port = Some(80);
    parts.serialization = "http://u:p@h:80/a?q#f".to_string();
    refused(parts);
}

#[test]
fn no_credentials_or_port_without_a_host() {
    let mut parts = sample();
    parts.scheme = "file".to_string();
    parts.host = None;
    parts.host_str = None;
    parts.serialization = "file://u:p@:81/a?q#f".to_string();
    refused(parts);
    let mut parts = sample();
    parts.scheme = "file".to_string();
    parts.host = None;
    parts.host_str = None;
    parts.username = String::new();
    parts.password = None;
    parts.serialization = "file://:81/a?q#f".to_string();
    refused(parts);
    let mut parts = sample();
    parts.scheme = "file".to_string();
    parts.host = None;
    parts.host_str = None;
    parts.username = String::new();
    parts.password = None;
    parts.port = None;
    parts.serialization = "file:///a?q#f".to_string();
    assert!(UrlRecord::from_parts(parts).is_ok());
}

#[test]
fn host_must_agree_with_its_text_and_scheme() {
    let mut parts = sample();
    parts.host_str = Some("other".to_string());
    parts.serialization = "http://u:p@other:81/a?q#f".to_string();
    refused(parts);
    let mut parts = sample();
    parts.host = Some(Host::Opaque("h".to_string()));
    refused(parts);
    let mut parts = sample();
    parts.scheme = "foo".to_string();
    parts.serialization = "foo://u:p@h:81/a?q#f".to_string();
    refused(parts);
    let mut parts = sample();
    parts.scheme = "foo".to_string();
    parts.host = Some(Host::Opaque("h".to_string()));
    parts.serialization = "foo://u:p@h:81/a?q#f".to_string();
    assert!(UrlRecord::from_parts(parts).is_ok());
    let mut parts = sample();
    parts.host_str = None;
    refused(parts);
    let mut parts = sample();
    parts.has_authority = false;
    parts.serialization = "http:/a?q#f".to_string();
    refused(parts);
}

#[test]
fn address_must_be_written_in_its_canonical_form() {
    let mut parts = sample();
    parts.host = Some(Host::Ipv4([10, 0, 0, 255]));
    parts.host_str = Some("10.0.0.255".to_string());
    parts.serialization = "http://u:p@10.0.0.255:81/a?q#f".to_string();
    assert!(UrlRecord::from_parts(parts).is_ok());
    let mut parts = sample();
    parts.host = Some(Host::Ipv4([10, 0, 0, 255]));
    parts.host_str = Some("10.0.0.0xff".to_string());
    parts.serialization = "http://u:p@10.0.0.0xff:81/a?q#f".to_string();
    refused(parts);
    let mut one = [0u8; 16];
    one[15] = 1;
    let mut parts = sample();
    parts.host = Some(Host::Ipv6(one));
    parts.host_str = Some("[::1]".to_string());
    parts.serialization = "http://u:p@[::1]:81/a?q#f".to_string();
    assert!(UrlRecord::from_parts(parts).is_ok());
    let mut parts = sample();
    parts.host = Some(Host::Ipv6(one));
    parts.host_str = Some("[0:0:0:0:0:0:0:1]".to_string());
    parts.serialization = "http://u:p@[0:0:0:0:0:0:0:1]:81/a?q#f".to_string();
    refused(parts);
}

#[test]
fn components_hold_no_mark_that_ends_them() {
    let mut parts = sample();
    parts.username = "u:v".to_string();
    parts.serialization = "http://u:v:p@h:81/a?q#f".to_string();
    refused(parts);
    let mut parts = sample();
    parts.password = Some("p@q".to_string());
    parts.serialization = "http://u:p@q@h:81/a?q#f".to_string();
    refused(parts);
    let mut parts = sample();
    parts.host = Some(Host::Domain("h:1".to_string()));
    parts.host_str = Some("h:1".to_string());
    parts.serialization = "http://u:p@h:1:81/a?q#f".to_string();
    refused(parts);
    let mut parts = sample();
    parts.host = Some(Host::Domain(String::new()));
    parts.host_str = Some(String::new());
    parts.serialization = "http://u:p@:81/a?q#f".to_string();
    refused(parts);
    let mut parts = sample();
    parts.path = "/a?b".to_string();
    parts.serialization = "http://u:p@h:81/a?b?q#f".to_string();
    refused(parts);
    let mut parts = sample();
    parts.query = Some("q#r".to_string());
    parts.serialization = "http://u:p@h:81/a?q#r#f".to_string();
    refused(parts);
    let mut parts = sample();
    parts.fragment = Some("f#g?h".to_string());
    parts.serialization = "http://u:p@h:81/a?q#f#g?h".to_string();
    assert!(UrlRecord::from_parts(parts).is_ok());
}

#[test]
fn path_must_be_in_normal_form() {
    let mut parts = sample();
    parts.path = "/a/../b".to_string();
    parts.serialization = "http://u:p@h:81/a/../b?q#f".to_string();
    refused(parts);
    let mut parts = sample();
    parts.path = "/./b".to_string();
    parts.serialization = "http://u:p@h:81/./b?q#f".to_string();
    refused(parts);
    let mut parts = sample();
    parts.path = "a".to_string();
    parts.serialization = "http://u:p@h:81a?q#f".to_string();
    refused(parts);
    let mut parts = sample();
    parts.path = String::new();
    parts.serialization = "http://u:p@h:81?q#f".to_string();
    assert!(is_well_formed(&parts));
    refused(parts);
    let mut parts = sample();
    parts.scheme = "foo".to_string();
    parts.host = Some(Host::Opaque("h".to_string()));
    parts.path = String::new();
    parts.serialization = "foo://u:p@h:81?q#f".to_string();
    assert!(UrlRecord::from_parts(parts).is_ok());
    let mut parts = opaque();
    parts.path = "a/../b".to_string();
    parts.serialization = "mailto:a/../b".to_string();
    assert!(UrlRecord::from_parts(parts).is_ok());
}

#[test]
fn components_must_be_percent_encoded() {
    let mut parts = sample();
    parts.path = "/a b".to_string();
    parts.serialization = "http://u:p@h:81/a b?q#f".to_string();
    assert!(!is_well_formed(&parts));
    refused(parts);
    let mut parts = sample();
    parts.path = "/a\u{e9}".to_string();
    parts.serialization = "http://u:p@h:81/a\u{e9}?q#f".to_string();
    assert!(!is_well_formed(&parts));
    refused(parts);
    let mut parts = sample();
    parts.username = "u;v".to_string();
    parts.serialization = "http://u;v:p@h:81/a?q#f".to_string();
    assert!(!is_well_formed(&parts));
    refused(parts);
    let mut parts = sample();
    parts.query = Some("a'b".to_string());
    parts.serialization = "http://u:p@h:81/a?a'b#f".to_string();
    assert!(!is_well_formed(&parts));
    refused(parts);
    let mut parts = sample();
    parts.fragment = Some("a`b".to_string());
    parts.serialization = "http://u:p@h:81/a?q#a`b".to_string();
    assert!(!is_well_formed(&parts));
    refused(parts);
    let mut parts = sample();
    parts.path = "/a%20b/%zz/{}".to_string();
    parts.serialization = "http://u:p@h:81/a%20b/%zz/{}?q#f".to_string();
    assert!(!is_well_formed(&parts));
    let mut parts = sample();
    parts.path = "/a%20b/%zz/~!$&'()*+,;=:@[]^|\\".to_string();
    parts.query = Some("a{b}`c".to_string());
    parts.serialization = "http://u:p@h:81/a%20b/%zz/~!$&'()*+,;=:@[]^|\\?a{b}`c#f".to_string();
    assert!(is_well_formed(&parts));
    let mut parts = opaque();
    parts.path = "a b".to_string();
    parts.serialization = "mailto:a b".to_string();
    assert!(UrlRecord::from_parts(parts).is_ok());
    let mut parts = opaque();
    parts.scheme = "foo".to_string();
    parts.path = "/a b".to_string();
    parts.cannot_be_a_base = false;
    parts.serialization = "foo:/a b".to_string();
    assert!(!is_well_formed(&parts));
    refused(parts);
}

#[test]
fn components_must_be_what_the_parser_reports() {
    let mut parts = sample();
    parts.host = Some(Host::Domain("H".to_string()));
    parts.host_str = Some("H".to_string());
    parts.serialization = "http://u:p@H:81/a?q#f".to_string();
    refused(parts);
    let mut parts = sample();
    parts.path = "/%2e/a".to_string();
    parts.serialization = "http://u:p@h:81/%2e/a?q#f".to_string();
    assert!(!is_well_formed(&parts));
    refused(parts);
    let mut parts = sample();
    parts.path = "/a/%2E%2e".to_string();
    parts.serialization = "http://u:p@h:81/a/%2E%2e?q#f".to_string();
    assert!(!is_well_formed(&parts));
    refused(parts);
}

#[test]
fn host_agreement_on_given_values() {
    let h = Host::Domain("example.com".to_string());
    assert!(host_agrees(&h, "example.com", &Ok(Host::Domain("example.com".to_string()))));
    assert!(!host_agrees(&h, "example.com", &Ok(Host::Opaque("example.com".to_string()))));
    assert!(!host_agrees(&h, "example.com", &Ok(Host::Domain("example.org".to_string()))));
    assert!(!host_agrees(&h, "EXAMPLE.com", &Ok(Host::Domain("example.com".to_string()))));
    assert!(!host_agrees(&h, "example.com", &Err(UrlError::new(ParseErrorKind::IdnaError, "example.com"))));
    let a = Host::Ipv4([1, 2, 3, 4]);
    assert!(host_agrees(&a, "1.2.3.4", &Ok(Host::Ipv4([1, 2, 3, 4]))));
    assert!(!host_agrees(&a, "0x1.2.3.4", &Ok(Host::Ipv4([1, 2, 3, 4]))));
    assert!(!host_agrees(&a, "1.2.3.4", &Ok(Host::Ipv4([1, 2, 3, 5]))));
    let b = Host::Ipv6([0; 16]);
    assert!(host_agrees(&b, "[::]", &Ok(Host::Ipv6([0; 16]))));
    assert!(!host_agrees(&b, "[::]", &Ok(Host::Ipv6([1; 16]))));
}

#[test]
fn cannot_be_a_base_is_derived() {
    let mut parts = opaque();
    parts.cannot_be_a_base = false;
    refused(parts);
    let mut parts = sample();
    parts.cannot_be_a_base = true;
    refused(parts);
}

#[test]
fn serialization_must_be_canonical() {
    let mut parts = sample();
    parts.serialization = "http://u:p@h:81/a?q".to_string();
    refused(parts);
    let mut parts = sample();
    parts.serialization = "http://u:p@h:081/a?q#f".to_string();
    refused(parts);
}

#[test]
fn dotted_addresses() {
    assert_eq!(dotted_text(&[0, 0, 0, 0]), "0.0.0.0");
    assert_eq!(dotted_text(&[127, 0, 0, 1]), "127.0.0.1");
    assert_eq!(dotted_text(&[255, 254, 100, 9]), "255.254.100.9");
}

#[test]
fn special_schemes_and_default_ports() {
    for scheme in vec!["http", "https", "ws", "wss", "ftp", "file"] {
        assert!(is_special(scheme));
    }
    for scheme in vec!["", "mailto", "data", "HTTP", "httpx", "foo"] {
        assert!(!is_special(scheme));
        assert_eq!(default_port(scheme), None);
    }
    assert_eq!(default_port("http"), Some(80));
    assert_eq!(default_port("ws"), Some(80));
    assert_eq!(default_port("https"), Some(443));
    assert_eq!(default_port("wss"), Some(443));
    assert_eq!(default_port("ftp"), Some(21));
    assert_eq!(default_port("file"), None);
}

#[test]
fn hash_is_that_of_the_serialization() {
    let a = UrlRecord::parse("HTTP://A:80/x/../y").unwrap();
    let b = UrlRecord::parse("http://a/y").unwrap();
    let c = UrlRecord::parse("http://a/z").unwrap();
    assert_eq!(a.hash_code(), b.hash_code());
    assert_ne!(a.hash_code(), c.hash_code());
    let mut hasher = DefaultHasher::new();
    url::Url::parse("http://a/y").unwrap().hash(&mut hasher);
    assert_eq!(b.hash_code(), hasher.finish());
}

#[test]
fn clones_are_equal() {
    let u = UrlRecord::parse("http://u:p@h:81/a?q#f").unwrap();
    let v = u.clone();
    assert!(u == v);
    assert_eq!(v.host(), Some(Host::Domain("h".to_string())));
    assert_eq!(v.fragment(), Some("f"));
    let parts = sample();
    assert_eq!(serialize(&parts.clone()), serialize(&parts));
    assert!(parts_eq(&parts.clone(), &parts));
    assert!(parts_eq(u.parts(), &parts));
    assert!(!parts_eq(&opaque(), &parts));
}
