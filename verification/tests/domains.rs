use philomena::domains::{
    contains_name, get, relativize, relativize_careful, relativize_parsed, strip_origin,
};

fn registry(names: &[&str]) -> Vec<String> {
    names.iter().map(|n| n.to_string()).collect()
}

#[test]
fn unset_value_gives_no_registry() {
    assert_eq!(get(None), None);
}

#[test]
fn value_is_split_on_commas_and_nothing_else() {
    assert_eq!(get(Some("example.com")), Some(registry(&["example.com"])));
    assert_eq!(
        get(Some("example.com,example.org")),
        Some(registry(&["example.com", "example.org"]))
    );
    assert_eq!(get(Some("")), Some(registry(&[""])));
    assert_eq!(get(Some("a,,b,")), Some(registry(&["a", "", "b"])));
    assert_eq!(get(Some(" a , B ")), Some(registry(&[" a ", " B "])));
    assert_eq!(get(Some("é.example,日本.example")), Some(registry(&["é.example", "日本.example"])));
}

#[test]
fn a_name_given_twice_is_held_once() {
    assert_eq!(get(Some("b.com,a.com,b.com,a.com")), Some(registry(&["b.com", "a.com"])));
}

#[test]
fn membership_is_letter_for_letter() {
    let domains = registry(&["example.com", "example.org"]);
    assert!(contains_name(&domains, "example.org"));
    assert!(!contains_name(&domains, "Example.org"));
    assert!(!contains_name(&domains, "example.or"));
    assert!(!contains_name(&Vec::new(), "example.org"));
}

#[test]
fn strip_origin_takes_http_and_https_off() {
    assert_eq!(strip_origin("example.com", "https://example.com/some/path"), "/some/path");
    assert_eq!(strip_origin("example.com", "http://example.com/some/path"), "/some/path");
    assert_eq!(strip_origin("example.com", "https://example.com"), "");
    assert_eq!(strip_origin("example.com", "HTTPS://example.com/x"), "HTTPS://example.com/x");
    assert_eq!(strip_origin("example.com", "ftp://example.com/x"), "ftp://example.com/x");
    assert_eq!(strip_origin("example.com", "https://example.org/x"), "https://example.org/x");
    assert_eq!(strip_origin("example.com", "see https://example.com/x"), "see https://example.com/x");
    assert_eq!(strip_origin("exa.ple", "https://exaXple/x"), "https://exaXple/x");
    assert_eq!(strip_origin("é.example", "https://é.example/ü"), "/ü");
}

#[test]
fn first_party_link_loses_exactly_its_origin() {
    let domains = registry(&["example.com"]);
    assert_eq!(
        relativize(&domains, "https://example.com/some/path"),
        Some("/some/path".to_string())
    );
    assert_eq!(
        relativize_careful(
            &domains,
            "https://example.com/some/path?parameter=aaaaaa&other_parameter=bbbbbb#id12345"
        ),
        "/some/path?parameter=aaaaaa&other_parameter=bbbbbb#id12345"
    );
    assert_eq!(relativize_careful(&domains, "http://example.com:8080/x"), ":8080/x");
}

#[test]
fn other_hosts_are_left_alone() {
    let domains = registry(&["example.com"]);
    for url in [
        "https://example.org/some/path",
        "https://example.com.evil.example/some/path",
        "https://sub.example.com/some/path",
        "https://notexample.com/",
    ] {
        assert_eq!(relativize(&domains, url), Some(url.to_string()));
        assert_eq!(relativize_careful(&domains, url), url);
    }
    assert_eq!(
        relativize_careful(&Vec::new(), "https://example.com/some/path"),
        "https://example.com/some/path"
    );
}

#[test]
fn first_party_link_that_does_not_start_with_its_origin_is_left_alone() {
    let domains = registry(&["example.com"]);
    for url in ["https://user@example.com/x", "ftp://example.com/x", "example.com"] {
        assert_eq!(relativize(&domains, url), Some(url.to_string()));
    }
}

#[test]
fn relative_link_is_left_alone() {
    let domains = registry(&["example.com"]);
    for url in ["/some/path", "/", "/some/path?q=1", "//example.com/x"] {
        assert_eq!(relativize_careful(&domains, url), url);
    }
    assert_eq!(relativize(&domains, "/some/path"), Some("/some/path".to_string()));
}

#[test]
fn link_that_does_not_parse_is_handed_on() {
    let domains = registry(&["example.com"]);
    for url in ["", "https://exa mple.com/", "https://example.com/a b", "?q=1"] {
        assert_eq!(relativize(&domains, url), None);
        assert_eq!(relativize_careful(&domains, url), url);
    }
}

#[test]
fn relativize_parsed_goes_by_the_outcome_of_parsing() {
    let domains = registry(&["example.com"]);
    let url = "https://example.com/x";
    assert_eq!(relativize_parsed(&domains, url, None), None);
    assert_eq!(relativize_parsed(&domains, url, Some(None)), Some(url.to_string()));
    assert_eq!(
        relativize_parsed(&domains, url, Some(Some("example.com".to_string()))),
        Some("/x".to_string())
    );
    assert_eq!(
        relativize_parsed(&domains, url, Some(Some("example.org".to_string()))),
        Some(url.to_string())
    );
}

#[test]
fn strip_origin_agrees_with_the_pattern_it_stands_for() {
    let hosts = ["example.com", "", "a.b", "[::1]", "exa+mple.com", "é.example", "x(y)", "a|b", "$^", "h"];
    let urls = [
        "https://example.com/some/path",
        "http://example.com",
        "https://example.comhttps://example.com",
        "http://a.b/",
        "http://aXb/",
        "https://[::1]:80/",
        "https://exa+mple.com/?q",
        "https://exaample.com/",
        "https://é.example/é",
        "https://x(y)/",
        "https://a|b",
        "https://a",
        "https://b",
        "https://$^$^",
        "https://",
        "http://",
        "http:/",
        "https:///x",
        "httpss://example.com/",
        "Http://example.com/",
        " https://example.com/",
        "\nhttps://example.com/",
        "https://h\nttps://h",
        "",
    ];
    for host in hosts {
        let pattern = regex::Regex::new(&format!(r#"^http(s)?://({})"#, regex::escape(host))).unwrap();
        for url in urls {
            assert_eq!(strip_origin(host, url), pattern.replace(url, ""), "{:?} {:?}", host, url);
        }
    }
}

#[test]
fn odd_links_are_handed_on_or_left_alone() {
    let domains = registry(&["example.com", "[::1]", ""]);
    for url in [
        "http://[::1]:80/x",
        "https://[::1]/x",
        "http://user@/",
        "http://]@[/",
        "http://[@[::1]/",
        "http://a[::1]/",
        "http://@example.com/",
        "http://example.com:80:80/",
        "http://%65xample.com/",
        "*",
        "/",
        ":",
        "@",
        "http://",
        "https://?",
        "\u{0}",
        "http://é.example/",
    ] {
        let link = relativize_careful(&domains, url);
        assert!(link == url || url.ends_with(&link), "{:?} {:?}", url, link);
    }
    assert_eq!(relativize_careful(&domains, "https://[::1]/x"), "/x");
    assert_eq!(relativize_careful(&domains, "http://@example.com/"), "http://@example.com/");
}

#[test]
fn host_is_matched_as_a_whole_never_as_the_start_of_a_longer_name() {
    let domains = registry(&["example.com", "a"]);
    for url in [
        "https://example.com.evil@example.com/x",
        "http://ab@a/x",
        "http://a-b@a/x",
    ] {
        assert_eq!(relativize(&domains, url), Some(url.to_string()), "{}", url);
    }
    for (url, host) in [
        ("https://example.comhttps://example.com/x", "example.com"),
        ("http://ahttp://a/", "a"),
        ("http://a.b/", "a"),
    ] {
        assert_eq!(
            relativize_parsed(&domains, url, Some(Some(host.to_string()))),
            Some(url.to_string()),
            "{}",
            url
        );
    }
    for (url, rest) in [
        ("http://a", ""),
        ("http://a/", "/"),
        ("http://a?q", "?q"),
        ("http://a#f", "#f"),
        ("http://a:80/x", ":80/x"),
    ] {
        assert_eq!(relativize_careful(&domains, url), rest, "{}", url);
    }
}

#[test]
fn second_pass_changes_nothing() {
    let domains = registry(&["example.com", "a", "[::1]"]);
    for url in [
        "https://example.com/some/path",
        "https://example.com/https://example.com/x",
        "https://example.com?next=https://example.com/",
        "http://a:80/x",
        "http://a",
        "https://[::1]/x",
        "https://example.org/x",
        "http://ab@a/x",
        "/some/path",
        "not a link",
        "",
    ] {
        let once = relativize_careful(&domains, url);
        assert_eq!(relativize_careful(&domains, &once), once, "{}", url);
    }
}
