use kyvyrn::url::{normalize_base_url, normalize_url};

#[test]
fn bare_host_gets_https() {
    assert_eq!(normalize_url("example.com".to_string()), Ok("https://example.com".to_string()));
}

#[test]
fn white_space_around_the_address_is_dropped() {
    assert_eq!(
        normalize_url("  example.com\t\n".to_string()),
        Ok("https://example.com".to_string())
    );
    assert_eq!(
        normalize_url("\u{a0}http://a.b \u{3000}".to_string()),
        Ok("http://a.b".to_string())
    );
}

#[test]
fn scheme_is_kept() {
    assert_eq!(normalize_url("http://a.b/c".to_string()), Ok("http://a.b/c".to_string()));
    assert_eq!(normalize_url("https://a.b/c/".to_string()), Ok("https://a.b/c/".to_string()));
}

#[test]
fn other_schemes_and_capitals_count_as_no_scheme() {
    assert_eq!(normalize_url("ftp://a.b".to_string()), Ok("https://ftp://a.b".to_string()));
    assert_eq!(normalize_url("HTTP://a.b".to_string()), Ok("https://HTTP://a.b".to_string()));
}

#[test]
fn empty_address_is_the_scheme_alone() {
    assert_eq!(normalize_url("".to_string()), Ok("https://".to_string()));
    assert_eq!(normalize_url("   ".to_string()), Ok("https://".to_string()));
}

#[test]
fn inner_white_space_stays() {
    assert_eq!(normalize_url(" a b ".to_string()), Ok("https://a b".to_string()));
}

#[test]
fn normalizing_twice_changes_nothing_more() {
    for input in ["example.com", " http://x ", "https://y/", "a b"] {
        let once = normalize_url(input.to_string()).unwrap();
        assert_eq!(normalize_url(once.clone()), Ok(once));
    }
}

#[test]
fn base_url_loses_trailing_slashes() {
    assert_eq!(normalize_base_url("example.com/"), "https://example.com");
    assert_eq!(normalize_base_url("example.com///"), "https://example.com");
    assert_eq!(normalize_base_url("http://x/"), "http://x");
    assert_eq!(normalize_base_url("https://x/a/b"), "https://x/a/b");
}

#[test]
fn base_url_is_not_trimmed_of_white_space() {
    assert_eq!(normalize_base_url(" example.com/ "), "https:// example.com/ ");
}

#[test]
fn base_url_of_slashes_alone() {
    assert_eq!(normalize_base_url("///"), "https://");
    assert_eq!(normalize_base_url("https://"), "https://https:");
}
