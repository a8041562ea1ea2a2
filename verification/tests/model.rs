use site_checker::model::{clamp_interval, normalize_url, openable_url};

#[test]
fn adds_https_scheme_when_missing() {
    assert_eq!(normalize_url("example.com").unwrap(), "https://example.com");
}

#[test]
fn preserves_an_explicit_scheme() {
    assert_eq!(normalize_url("http://example.com").unwrap(), "http://example.com");
    assert_eq!(
        normalize_url("https://api.foo.dev/health").unwrap(),
        "https://api.foo.dev/health"
    );
}

#[test]
fn trims_surrounding_whitespace() {
    assert_eq!(normalize_url("  example.com  ").unwrap(), "https://example.com");
}

#[test]
fn rejects_empty_input() {
    assert!(normalize_url("   ").is_err());
}

#[test]
fn rejects_unparseable_input() {
    assert!(normalize_url("http://").is_err());
    assert!(normalize_url("not a url at all").is_err());
}

#[test]
fn rejects_non_http_schemes() {
    assert!(normalize_url("ftp://example.com").is_err());
    assert!(normalize_url("file:///etc/hosts").is_err());
}

#[test]
fn adds_a_scheme_when_the_query_contains_a_url() {
    assert_eq!(
        normalize_url("example.com?next=http://x.dev").unwrap(),
        "https://example.com?next=http://x.dev"
    );
}

#[test]
fn lowercases_an_uppercase_scheme() {
    assert_eq!(normalize_url("HTTPS://example.com").unwrap(), "https://example.com");
    assert_eq!(
        normalize_url("HtTp://example.com/health").unwrap(),
        "http://example.com/health"
    );
}

#[test]
fn lowercases_only_the_scheme() {
    assert_eq!(
        normalize_url("HTTP://Example.COM/Path?Q=1").unwrap(),
        "http://Example.COM/Path?Q=1"
    );
    assert_eq!(normalize_url("https://EXAMPLE.com").unwrap(), "https://EXAMPLE.com");
}

#[test]
fn an_uppercase_scheme_in_a_query_is_left_alone() {
    assert_eq!(
        normalize_url("example.com?next=HTTP://x.dev").unwrap(),
        "https://example.com?next=HTTP://x.dev"
    );
}

#[test]
fn rejects_a_non_http_scheme_regardless_of_case() {
    assert!(normalize_url("FTP://example.com").is_err());
}

#[test]
fn normalize_url_error_messages_name_the_problem() {
    assert_eq!(normalize_url(" \t ").unwrap_err(), "Enter a URL");
    assert_eq!(normalize_url("http://").unwrap_err(), "Not a valid URL");
    assert_eq!(
        normalize_url("ftp://example.com").unwrap_err(),
        "Only http and https URLs are supported"
    );
}

#[test]
fn a_normalized_url_starts_with_its_web_scheme() {
    for input in ["example.com", "HtTpS://x.dev", "http://y.dev/p", "example.com?next=HTTP://x.dev"] {
        let u = normalize_url(input).unwrap();
        assert!(u.starts_with("http://") || u.starts_with("https://"), "{u}");
    }
}

#[test]
fn normalizing_a_normalized_url_changes_nothing() {
    for input in ["example.com", "HTTP://Example.COM/Path?Q=1", "  https://a.b/c  "] {
        let once = normalize_url(input).unwrap();
        assert_eq!(normalize_url(&once).unwrap(), once);
        assert_eq!(openable_url(&once).unwrap(), once);
    }
}

#[test]
fn openable_url_returns_an_http_or_https_address_byte_identical() {
    assert_eq!(openable_url("https://example.com").unwrap(), "https://example.com");
    assert_eq!(
        openable_url("http://example.com/health?q=A").unwrap(),
        "http://example.com/health?q=A"
    );
}

#[test]
fn openable_url_accepts_an_uppercase_scheme_without_touching_it() {
    assert_eq!(openable_url("HTTPS://example.com").unwrap(), "HTTPS://example.com");
}

#[test]
fn openable_url_refuses_every_other_scheme() {
    assert!(openable_url("ftp://example.com").is_err());
    assert!(openable_url("file:///etc/hosts").is_err());
    assert!(openable_url("javascript:alert(1)").is_err());
}

#[test]
fn openable_url_refuses_a_scheme_less_address_rather_than_repairing_it() {
    assert!(openable_url("example.com").is_err());
}

#[test]
fn openable_url_refuses_an_empty_or_hostless_address() {
    assert!(openable_url("").is_err());
    assert!(openable_url("   ").is_err());
    assert!(openable_url("https://").is_err());
}

#[test]
fn openable_url_messages_quote_what_was_refused() {
    assert_eq!(
        openable_url("").unwrap_err(),
        "This site has no address, so there is nothing to open."
    );
    assert_eq!(
        openable_url(" example.com ").unwrap_err(),
        "\"example.com\" is not a complete web address, so it cannot be opened. Edit the site to give it an http:// or https:// address."
    );
    assert_eq!(
        openable_url("ftp://example.com").unwrap_err(),
        "Only http and https addresses can be opened, and this one uses \"ftp\". Nothing was opened."
    );
}

#[test]
fn openable_url_keeps_surrounding_whitespace_it_accepts() {
    assert_eq!(openable_url(" https://example.com ").unwrap(), " https://example.com ");
}

#[test]
fn clamps_intervals_below_the_floor() {
    assert_eq!(clamp_interval(0), 10);
    assert_eq!(clamp_interval(9), 10);
}

#[test]
fn leaves_intervals_at_or_above_the_floor_alone() {
    assert_eq!(clamp_interval(10), 10);
    assert_eq!(clamp_interval(60), 60);
    assert_eq!(clamp_interval(3600), 3600);
}
