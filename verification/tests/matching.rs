use browsercookie::{Attribute, CookieRecord, FilterPair, Pattern};

fn cookie(domain: Option<&str>, path: Option<&str>) -> CookieRecord {
    CookieRecord {
        name: "sid".to_string(),
        value: "0123".to_string(),
        domain: domain.map(|d| d.to_string()),
        path: path.map(|p| p.to_string()),
        expiry: None,
        secure: None,
        host_only: None,
    }
}

fn filter(pattern: &str, attribute: Attribute) -> FilterPair {
    FilterPair { pattern: Pattern::new(pattern).unwrap(), attribute }
}

#[test]
fn pattern_is_searched_anywhere_in_the_text() {
    let record = cookie(Some("www.example.org"), Some("/a/b"));
    assert!(browsercookie::matcher::matches(&record, &filter("example", Attribute::Domain)));
    assert!(browsercookie::matcher::matches(&record, &filter("org$", Attribute::Domain)));
    assert!(!browsercookie::matcher::matches(&record, &filter("^example", Attribute::Domain)));
    assert!(!browsercookie::matcher::matches(&record, &filter("^example\\.org$", Attribute::Domain)));
    assert!(browsercookie::matcher::matches(&record, &filter("^www\\.example\\.org$", Attribute::Domain)));
}

#[test]
fn attribute_selects_the_text() {
    let record = cookie(Some("host"), Some("/path"));
    assert!(browsercookie::matcher::matches(&record, &filter("^sid$", Attribute::Name)));
    assert!(!browsercookie::matcher::matches(&record, &filter("^sid$", Attribute::Value)));
    assert!(browsercookie::matcher::matches(&record, &filter("^0123$", Attribute::Value)));
    assert!(!browsercookie::matcher::matches(&record, &filter("^0123$", Attribute::Name)));
    assert!(browsercookie::matcher::matches(&record, &filter("^host$", Attribute::Domain)));
    assert!(!browsercookie::matcher::matches(&record, &filter("^host$", Attribute::Path)));
    assert!(browsercookie::matcher::matches(&record, &filter("^/path$", Attribute::Path)));
    assert!(!browsercookie::matcher::matches(&record, &filter("^/path$", Attribute::Domain)));
}

#[test]
fn missing_text_is_the_empty_text() {
    let record = cookie(None, None);
    assert!(browsercookie::matcher::matches(&record, &filter("^$", Attribute::Domain)));
    assert!(browsercookie::matcher::matches(&record, &filter("^$", Attribute::Path)));
    assert!(browsercookie::matcher::matches(&record, &filter("", Attribute::Domain)));
    assert!(browsercookie::matcher::matches(&record, &filter(".*", Attribute::Path)));
    assert!(!browsercookie::matcher::matches(&record, &filter(".", Attribute::Domain)));
    assert!(!browsercookie::matcher::matches(&record, &filter("a", Attribute::Path)));
}

#[test]
fn record_text_is_the_selected_field() {
    let record = cookie(Some("host"), None);
    assert_eq!(record.text(Attribute::Name), "sid");
    assert_eq!(record.text(Attribute::Value), "0123");
    assert_eq!(record.text(Attribute::Domain), "host");
    assert_eq!(record.text(Attribute::Path), "");
}

#[test]
fn pattern_that_does_not_compile_is_refused() {
    assert!(Pattern::new("foo(bar").is_none());
    assert!(Pattern::new("[").is_none());
    assert!(Pattern::new(r"\w{1000}").is_none());
    assert!(Pattern::new("foo(bar)").is_some());
    assert!(Pattern::new("").is_some());
    assert!(Pattern::new(".*").is_some());
}

#[test]
fn pattern_keeps_its_source() {
    assert_eq!(Pattern::new(r"httpbin\.org|somehost").unwrap().as_str(), r"httpbin\.org|somehost");
    assert_eq!(Pattern::match_all().as_str(), ".*");
    assert_eq!(Pattern::new("a+").unwrap().clone().as_str(), "a+");
}

#[test]
fn pattern_is_match_follows_the_regular_expression() {
    let pattern = Pattern::new(r"^\d{3}-\d{4}$").unwrap();
    assert!(pattern.is_match("555-1234"));
    assert!(!pattern.is_match("555-12345"));
    assert!(!pattern.is_match("pattern"));
    // Neither the pattern nor the text is handed back as the answer.
    let literal = Pattern::new("true").unwrap();
    assert!(!literal.is_match("false"));
    assert!(literal.is_match("untrue"));
}

#[test]
fn match_all_is_found_in_every_text() {
    for text in ["", "\n", "\n\n", "a", "\u{1F36A}", " \t"] {
        assert!(Pattern::match_all().is_match(text));
        assert!(Pattern::new(".*").unwrap().is_match(text));
        // The same answer as the regular expression gives when spelt otherwise.
        assert!(Pattern::new("(?:.*)").unwrap().is_match(text));
    }
}
