use url_record::path::{append_reference, segments_of};
use url_record::{ParseErrorKind, UrlRecord};

fn parse(input: &str) -> UrlRecord {
    UrlRecord::parse(input).unwrap()
}

#[test]
fn join_resolves_dot_segments() {
    let joined = parse("http://a/b/c/d").join("../../e").unwrap();
    assert_eq!(joined.to_string(), "http://a/e");
}

#[test]
fn join_replaces_the_last_segment() {
    assert_eq!(
        parse("https://example.net/a/b.html").join("c.png").unwrap().as_str(),
        "https://example.net/a/c.png"
    );
    assert_eq!(
        parse("https://example.net/a/b/").join("c.png").unwrap().as_str(),
        "https://example.net/a/b/c.png"
    );
}

#[test]
fn join_with_other_prefixes() {
    assert_eq!(parse("https://alice.com/a").join("//eve.com/b").unwrap().as_str(), "https://eve.com/b");
    assert_eq!(parse("https://alice.com/a").join("/v1/meta").unwrap().as_str(), "https://alice.com/v1/meta");
    assert_eq!(parse("https://alice.com/a").join("http://eve.com/b").unwrap().as_str(), "http://eve.com/b");
    assert_eq!(parse("http://a/b?q#f").join("?r").unwrap().as_str(), "http://a/b?r");
    assert_eq!(parse("http://a/b?q#f").join("#g").unwrap().as_str(), "http://a/b?q#g");
    assert_eq!(parse("http://a/b/c").join("../../../x").unwrap().as_str(), "http://a/x");
}

#[test]
fn join_errors() {
    let e = parse("mailto:a@b.com").join("x").unwrap_err();
    assert_eq!(e.kind, ParseErrorKind::RelativeUrlWithCannotBeABaseBase);
    assert_eq!(e.input, "x");
    let e = parse("http://a/b").join("//").unwrap_err();
    assert_eq!(e.kind, ParseErrorKind::EmptyHost);
    let e = parse("http://a/b").join("//h:x/").unwrap_err();
    assert_eq!(e.kind, ParseErrorKind::InvalidPort);
}

#[test]
fn join_on_a_cannot_be_a_base_url_takes_an_absolute_input() {
    assert_eq!(parse("mailto:a@b.com").join("http://h/").unwrap().as_str(), "http://h/");
    assert_eq!(parse("mailto:a@b.com").join("#f").unwrap().as_str(), "mailto:a@b.com#f");
}

#[test]
fn division_appends_a_segment() {
    assert_eq!(parse("http://a/b/c").div("d").unwrap().as_str(), "http://a/b/c/d");
    assert_eq!(parse("http://a/b/").div("d").unwrap().as_str(), "http://a/b/d");
    assert_eq!(parse("http://a").div("d").unwrap().as_str(), "http://a/d");
    assert_eq!(parse("http://a/b/c").join("d").unwrap().as_str(), "http://a/b/d");
    assert_eq!(parse("http://a/b/c?q#f").div("d/e").unwrap().as_str(), "http://a/b/c/d/e");
}

#[test]
fn division_on_a_cannot_be_a_base_url_is_a_join() {
    let e = parse("mailto:a@b.com").div("d").unwrap_err();
    assert_eq!(e.kind, ParseErrorKind::RelativeUrlWithCannotBeABaseBase);
}

#[test]
fn reference_for_division() {
    assert_eq!(append_reference("/b/c", "d"), "c/d");
    assert_eq!(append_reference("/b/", "d"), "d");
    assert_eq!(append_reference("/", "d"), "d");
    assert_eq!(append_reference("", "d"), "d");
    assert_eq!(append_reference("a@b.com", "d"), "d");
    assert_eq!(append_reference("/x", ""), "x/");
}

#[test]
fn segments() {
    assert_eq!(segments_of("/a/b"), Some(vec!["a".to_string(), "b".to_string()]));
    assert_eq!(segments_of("/a/"), Some(vec!["a".to_string(), "".to_string()]));
    assert_eq!(segments_of("/"), Some(vec!["".to_string()]));
    assert_eq!(segments_of("//"), Some(vec!["".to_string(), "".to_string()]));
    assert_eq!(segments_of(""), None);
    assert_eq!(segments_of("a/b"), None);
}

#[test]
fn path_segments_agree_with_the_parser() {
    for input in vec!["http://a/b/c", "http://a/", "http://a", "http://a//x//", "mailto:x", "foo:/a/b", "file:///C:/x"] {
        let ours = parse(input).path_segments();
        let theirs = url::Url::parse(input)
            .unwrap()
            .path_segments()
            .map(|s| s.map(|x| x.to_string()).collect::<Vec<String>>());
        assert_eq!(ours, theirs);
    }
}

#[test]
fn make_relative_across_hosts_is_none() {
    assert_eq!(parse("http://a/x").make_relative(&parse("http://b/x")), None);
}

#[test]
fn make_relative_needs_the_same_scheme_and_port() {
    assert_eq!(parse("http://a/x").make_relative(&parse("https://a/x")), None);
    assert_eq!(parse("http://a/x").make_relative(&parse("http://a:81/x")), None);
    assert_eq!(parse("mailto:a@b").make_relative(&parse("mailto:a@b")), None);
}

#[test]
fn make_relative_forms() {
    let rel = |a: &str, b: &str| parse(a).make_relative(&parse(b));
    assert_eq!(rel("https://example.net/a/b.html", "https://example.net/a/c.png"), Some("c.png".to_string()));
    assert_eq!(rel("https://example.net/a/b/", "https://example.net/a/b/c.png"), Some("c.png".to_string()));
    assert_eq!(rel("https://example.net/a/b/", "https://example.net/a/d/c.png"), Some("../d/c.png".to_string()));
    assert_eq!(rel("https://example.net/a/b.html?c=d", "https://example.net/a/b.html?e=f"), Some("?e=f".to_string()));
    assert_eq!(rel("http://a/b/c/d?q#f", "http://a/b/x/y?r#g"), Some("../x/y?r#g".to_string()));
    assert_eq!(rel("http://u:p@a/x", "http://a/y"), Some("y".to_string()));
}

#[test]
fn make_relative_is_undone_by_join() {
    let base = parse("http://a/b/c/d?q#f");
    let target = parse("http://a/b/x/y?r#g");
    let relative = base.make_relative(&target).unwrap();
    assert!(base.join(relative.as_str()).unwrap() == target);
}

#[test]
fn with_fragment_replaces_the_fragment() {
    let u = parse("http://a/b/c?x#old");
    assert_eq!(u.with_fragment(Some("new")).unwrap().as_str(), "http://a/b/c?x#new");
    assert_eq!(u.with_fragment(Some("a b\tc")).unwrap().fragment(), Some("a%20bc"));
    assert_eq!(u.with_fragment(Some("")).unwrap().as_str(), "http://a/b/c?x#");
    let bare = u.with_fragment(None).unwrap();
    assert_eq!(bare.as_str(), "http://a/b/c?x");
    assert_eq!(bare.fragment(), None);
    assert_eq!(u.as_str(), "http://a/b/c?x#old");
}

#[test]
fn removing_the_fragment_strips_an_opaque_path() {
    assert_eq!(parse("data:a b  #f").with_fragment(None).unwrap().as_str(), "data:a b");
}

#[test]
fn host_of_a_cannot_be_a_base_url_cannot_be_set() {
    let u = parse("mailto:a@b.com");
    assert!(u.cannot_be_a_base());
    let e = u.with_host(Some("example.com")).unwrap_err();
    assert_eq!(e.kind, ParseErrorKind::SetHostOnCannotBeABaseUrl);
    assert_eq!(e.input, "example.com");
    assert_eq!(e.message(), "a cannot-be-a-base URL doesn\u{2019}t have a host to set");
    assert_eq!(u.with_host(None).unwrap_err().kind, ParseErrorKind::SetHostOnCannotBeABaseUrl);
}

#[test]
fn with_host_replaces_the_host() {
    let u = parse("http://a/b/c?x#old");
    let v = u.with_host(Some("EX.org")).unwrap();
    assert_eq!(v.as_str(), "http://ex.org/b/c?x#old");
    assert_eq!(v.domain(), Some("ex.org"));
    assert_eq!(u.with_host(Some("[::1]")).unwrap().as_str(), "http://[::1]/b/c?x#old");
    assert_eq!(u.with_host(Some("x y")).unwrap_err().kind, ParseErrorKind::InvalidDomainCharacter);
    assert_eq!(u.with_host(Some("")).unwrap_err().kind, ParseErrorKind::EmptyHost);
    assert_eq!(u.with_host(None).unwrap_err().kind, ParseErrorKind::EmptyHost);
    assert_eq!(u.with_host(Some(":x")).unwrap_err().kind, ParseErrorKind::InvalidDomainCharacter);
}

#[test]
fn with_host_gives_the_record_of_the_changed_text() {
    let v = parse("web+demo:/.//x/y").with_host(Some("h2")).unwrap();
    assert_eq!(v.as_str(), "web+demo://h2//x/y");
    assert_eq!(v.path(), "//x/y");
    assert!(v == parse("web+demo://h2//x/y"));
    assert!(parse(v.as_str()) == v);
}

#[test]
fn host_that_the_parser_drops_is_refused() {
    let e = parse("file:///C:/x/y").with_host(Some("example.org")).unwrap_err();
    assert_eq!(e.kind, ParseErrorKind::UrlError);
    assert_eq!(e.input, "example.org");
}

#[test]
fn host_before_an_empty_path_cannot_be_removed() {
    for text in vec!["foo://h?q", "foo://h#f", "foo://h?q#f", "foo://h", "foo://u:p@h:1?q"] {
        let u = parse(text);
        assert_eq!(u.path(), "");
        let e = u.with_host(None).unwrap_err();
        assert_eq!(e.kind, ParseErrorKind::UrlError);
        assert_eq!(e.input, "");
    }
}

#[test]
fn removing_a_host_never_makes_another_host() {
    let e = parse("foo://h//x").with_host(None).unwrap_err();
    assert_eq!(e.kind, ParseErrorKind::UrlError);
    let v = parse("foo://u:p@h:1/x/y?q#f").with_host(None).unwrap();
    assert_eq!(v.as_str(), "foo:/x/y?q#f");
    assert_eq!(v.host(), None);
    assert_eq!(v.path(), "/x/y");
    assert_eq!(v.query(), Some("q"));
    assert_eq!(v.fragment(), Some("f"));
    let w = parse("file://h/x").with_host(None).unwrap();
    assert_eq!(w.as_str(), "file:///x");
    assert_eq!(w.host(), None);
}

#[test]
fn division_by_a_text_behind_a_segment_with_a_colon() {
    let u = parse("http://a/b/c:d").div("e").unwrap();
    assert_eq!(u.as_str(), "http://a/b/c:d/e");
    assert_eq!(u.scheme(), "http");
    assert_eq!(u.host_str(), Some("a"));
    assert_eq!(append_reference("/b/c:d", "e"), "./c:d/e");
    assert_eq!(parse("http://a/b/").div("c:d").unwrap().as_str(), "http://a/b/c:d");
    assert_eq!(parse("http://u:p@a:81/b/x").div("mailto:y").unwrap().as_str(), "http://u:p@a:81/b/x/mailto:y");
    assert_eq!(append_reference("/b/", "c:d"), "./c:d");
    assert_eq!(append_reference("/b/", "cd"), "cd");
}

#[test]
fn division_never_leaves_the_place() {
    assert_eq!(
        parse("http://a/b/").div("http://eve.com/x").unwrap().as_str(),
        "http://a/b/http://eve.com/x"
    );
    assert_eq!(parse("http://a/b/").div("//a:82/x").unwrap().as_str(), "http://a/b///a:82/x");
    for other in vec!["//eve.com/x", "\\\\eve.com", "//u@a/x"] {
        let e = parse("http://a/b/").div(other).unwrap_err();
        assert_eq!(e.kind, ParseErrorKind::UrlError);
        assert_eq!(e.input, other);
    }
    assert_eq!(parse("http://a/b/").div("//a/x").unwrap().as_str(), "http://a/x");
    let u = parse("https://u:p@h:81/x/y");
    let v = u.div("z").unwrap();
    assert_eq!(v.scheme(), u.scheme());
    assert_eq!(v.username(), u.username());
    assert_eq!(v.password(), u.password());
    assert_eq!(v.host(), u.host());
    assert_eq!(v.port(), u.port());
    assert_eq!(v.path(), "/x/y/z");
}

#[test]
fn removing_the_host_of_another_scheme() {
    let v = parse("foo://h/p").with_host(None).unwrap();
    assert_eq!(v.as_str(), "foo:/p");
    assert_eq!(v.host(), None);
    assert!(!v.has_authority());
    assert!(v == parse("foo:/p"));
}

#[test]
fn equality_is_by_serialization() {
    assert!(parse("HTTP://A:80/x/../y") == parse("http://a/y"));
    assert!(parse("http://a/b").join("c").unwrap() == parse("http://a/c"));
    assert!(parse("http://a/c#f").with_fragment(None).unwrap() == parse("http://a/c"));
    assert!(parse("http://a/y") != parse("http://a/y/"));
    let u = parse("http://a/y");
    assert!(u.clone() == u);
}

#[test]
fn host_that_is_too_long_is_refused() {
    let long = "a".repeat(0x10_0001);
    let e = parse("http://h/").with_host(Some(long.as_str())).unwrap_err();
    assert_eq!(e.kind, ParseErrorKind::UrlError);
    assert_eq!(e.message(), "malformed URL");
}
