use browsercookie::reader::{read, ColumnValue, RawStore};
use browsercookie::{
    Attribute, Browser, BrowsercookieError, CookieFinder, CookieRecord, Pattern, StoreLocation,
    StoreRead,
};

fn text(s: &str) -> ColumnValue {
    ColumnValue::Text(s.to_string())
}

fn columns() -> Vec<String> {
    vec!["name".to_string(), "value".to_string(), "domain".to_string(), "path".to_string()]
}

fn location(path: &str) -> StoreLocation {
    StoreLocation { path: path.to_string(), browser: Browser::Firefox }
}

/// Two stores of one profile: the session store with one cookie, and the
/// cookie database with two.
fn fixture() -> Vec<StoreRead> {
    let session = RawStore {
        columns: columns(),
        rows: vec![vec![text("name"), text("value"), text("httpbin.org"), text("/")]],
    };
    let database = RawStore {
        columns: columns(),
        rows: vec![
            vec![text("somename"), text("somevalue"), text("somehost"), text("/")],
            vec![text("othername"), text("othervalue"), text("otherhost"), text("/")],
        ],
    };
    vec![
        read(location("profile/sessionstore-backups/recovery.jsonlz4"), Some(&session)),
        read(location("profile/cookies.sqlite"), Some(&database)),
    ]
}

fn record(name: &str, value: &str, domain: Option<&str>) -> CookieRecord {
    CookieRecord {
        name: name.to_string(),
        value: value.to_string(),
        domain: domain.map(|d| d.to_string()),
        path: Some("/".to_string()),
        expiry: None,
        secure: None,
        host_only: None,
    }
}

fn store(path: &str, records: Vec<CookieRecord>) -> StoreRead {
    StoreRead { location: location(path), outcome: Ok(records) }
}

#[test]
fn test_firefox() {
    let domain_regex = Pattern::new(r"httpbin\.org|somehost").unwrap();
    let cookies = CookieFinder::builder()
        .with_regexp(domain_regex, Attribute::Domain)
        .with_browser(Browser::Firefox)
        .build()
        .find(&fixture())
        .unwrap();
    assert_eq!(cookies.iter().count(), 2);
    let recovery_cookie = cookies.get("name").unwrap();
    assert_eq!(recovery_cookie.value(), "value");
    assert_eq!(recovery_cookie.domain(), Some("httpbin.org"));
    assert_eq!(recovery_cookie.path(), Some("/"));

    let sqlite_cookie = cookies.get("somename").unwrap();

    assert_eq!(sqlite_cookie.value(), "somevalue");
    assert_eq!(sqlite_cookie.path(), Some("/"));
    assert_eq!(sqlite_cookie.domain(), Some("somehost"));
}

#[test]
fn test_would_find_all_cookies_with_no_builder_withs() {
    let cookies = CookieFinder::builder().build().find(&fixture()).unwrap();
    assert_eq!(cookies.iter().count(), 3);
    let recovery_cookie = cookies.get("name").unwrap();
    assert_eq!(recovery_cookie.value(), "value");
    assert_eq!(recovery_cookie.domain(), Some("httpbin.org"));
    assert_eq!(recovery_cookie.path(), Some("/"));

    let sqlite_cookie = cookies.get("somename").unwrap();

    assert_eq!(sqlite_cookie.value(), "somevalue");
    assert_eq!(sqlite_cookie.path(), Some("/"));
    assert_eq!(sqlite_cookie.domain(), Some("somehost"));

    let other_sqlite_cookie = cookies.get("othername").unwrap();

    assert_eq!(other_sqlite_cookie.value(), "othervalue");
    assert_eq!(other_sqlite_cookie.path(), Some("/"));
    assert_eq!(other_sqlite_cookie.domain(), Some("otherhost"));
}

#[test]
fn filtered_extraction_leaves_the_other_host_out() {
    let domain_regex = Pattern::new(r"httpbin\.org|somehost").unwrap();
    let cookies = CookieFinder::builder()
        .with_regexp(domain_regex, Attribute::Domain)
        .build()
        .find(&fixture())
        .unwrap();
    assert!(cookies.get("othername").is_none());
}

#[test]
fn default_filter_keeps_every_name() {
    let names = ["", "\n", "a b", "\u{e9}t\u{e9}", ".*", "\n\n", "x=y;z"];
    let records = names.iter().map(|n| record(n, "v", None)).collect();
    let cookies =
        CookieFinder::builder().build().find(&vec![store("cookies.sqlite", records)]).unwrap();
    assert_eq!(cookies.iter().count(), names.len());
    for name in names {
        assert_eq!(cookies.get(name).unwrap().value(), "v");
    }
}

#[test]
fn build_without_browser_takes_every_supported_browser() {
    let finder = CookieFinder::builder().build();
    assert_eq!(finder.browsers(), &Browser::all());
    assert!(finder.browsers().contains(&Browser::Firefox));
}

#[test]
fn build_without_filter_takes_the_default_filter() {
    let finder = CookieFinder::builder().build();
    assert_eq!(finder.filters().len(), 1);
    assert_eq!(finder.filters()[0].pattern.as_str(), ".*");
    assert_eq!(finder.filters()[0].attribute, Attribute::Name);
    assert_eq!(finder.master_path(), &None);
}

#[test]
fn build_keeps_what_was_added() {
    let finder = CookieFinder::builder()
        .with_regexp(Pattern::new("a").unwrap(), Attribute::Value)
        .with_regexp(Pattern::new("b").unwrap(), Attribute::Path)
        .with_browser(Browser::Firefox)
        .with_browser(Browser::Firefox)
        .with_master_path("first")
        .with_master_path("/tmp/cookies.sqlite")
        .build();
    assert_eq!(finder.filters().len(), 2);
    assert_eq!(finder.filters()[0].pattern.as_str(), "a");
    assert_eq!(finder.filters()[0].attribute, Attribute::Value);
    assert_eq!(finder.filters()[1].pattern.as_str(), "b");
    assert_eq!(finder.filters()[1].attribute, Attribute::Path);
    assert_eq!(finder.browsers(), &vec![Browser::Firefox]);
    assert_eq!(finder.master_path(), &Some("/tmp/cookies.sqlite".to_string()));
}

#[test]
fn later_store_wins_a_name() {
    let reads = vec![
        store("one", vec![record("dup", "first", None), record("solo", "kept", None)]),
        store("two", vec![record("dup", "second", None)]),
    ];
    let cookies = CookieFinder::builder().build().find(&reads).unwrap();
    assert_eq!(cookies.iter().count(), 2);
    assert_eq!(cookies.get("dup").unwrap().value(), "second");
    assert_eq!(cookies.get("solo").unwrap().value(), "kept");

    let swapped = vec![
        store("two", vec![record("dup", "second", None)]),
        store("one", vec![record("dup", "first", None), record("solo", "kept", None)]),
    ];
    let cookies = CookieFinder::builder().build().find(&swapped).unwrap();
    assert_eq!(cookies.get("dup").unwrap().value(), "first");
}

#[test]
fn later_record_wins_within_a_store() {
    let reads = vec![store("one", vec![record("dup", "first", None), record("dup", "second", None)])];
    let cookies = CookieFinder::builder().build().find(&reads).unwrap();
    assert_eq!(cookies.iter().count(), 1);
    assert_eq!(cookies.get("dup").unwrap().value(), "second");
}

#[test]
fn later_filter_wins_a_name() {
    // The first filter keeps the record of the second store, the second
    // filter that of the first: filters are gone through outermost.
    let reads = vec![
        store("one", vec![record("dup", "first", Some("late.example"))]),
        store("two", vec![record("dup", "second", Some("early.example"))]),
    ];
    let cookies = CookieFinder::builder()
        .with_regexp(Pattern::new("^early").unwrap(), Attribute::Domain)
        .with_regexp(Pattern::new("^late").unwrap(), Attribute::Domain)
        .build()
        .find(&reads)
        .unwrap();
    assert_eq!(cookies.iter().count(), 1);
    assert_eq!(cookies.get("dup").unwrap().value(), "first");
}

#[test]
fn a_record_passes_if_any_filter_takes_it() {
    let reads = vec![store(
        "one",
        vec![
            record("a", "1", Some("x.example")),
            record("b", "2", Some("y.example")),
            record("c", "3", Some("z.example")),
        ],
    )];
    let cookies = CookieFinder::builder()
        .with_regexp(Pattern::new("^x").unwrap(), Attribute::Domain)
        .with_regexp(Pattern::new("^3$").unwrap(), Attribute::Value)
        .build()
        .find(&reads)
        .unwrap();
    assert_eq!(cookies.iter().count(), 2);
    assert!(cookies.get("a").is_some());
    assert!(cookies.get("b").is_none());
    assert!(cookies.get("c").is_some());
}

#[test]
fn nothing_read_gives_an_empty_jar() {
    let cookies = CookieFinder::builder().build().find(&Vec::new()).unwrap();
    assert_eq!(cookies.iter().count(), 0);
}

#[test]
fn unavailable_store_counts_as_empty() {
    let reads = vec![
        read(location("missing"), None),
        store("present", vec![record("a", "1", None)]),
        StoreRead { location: location("gone"), outcome: Err(BrowsercookieError::StoreUnavailable) },
    ];
    assert_eq!(reads[0].outcome, Err(BrowsercookieError::StoreUnavailable));
    let cookies = CookieFinder::builder().build().find(&reads).unwrap();
    assert_eq!(cookies.iter().count(), 1);
    assert_eq!(cookies.get("a").unwrap().value(), "1");
}

#[test]
fn malformed_store_fails_the_extraction() {
    let odd = RawStore {
        columns: vec!["id".to_string(), "payload".to_string()],
        rows: vec![vec![ColumnValue::Integer(1), text("x")]],
    };
    let reads = vec![
        store("good", vec![record("a", "1", None)]),
        read(location("odd"), Some(&odd)),
        store("also good", vec![record("b", "2", None)]),
    ];
    assert_eq!(reads[1].outcome, Err(BrowsercookieError::FormatError));
    let found = CookieFinder::builder().build().find(&reads);
    assert_eq!(found.err(), Some(BrowsercookieError::FormatError));
}

#[test]
fn jar_shows_what_a_cookie_can_hold() {
    let full = CookieRecord {
        name: "session".to_string(),
        value: "abc".to_string(),
        domain: Some(".example.org".to_string()),
        path: None,
        expiry: Some(1_700_000_000),
        secure: Some(true),
        host_only: Some(false),
    };
    let far = CookieRecord {
        name: "far".to_string(),
        value: "".to_string(),
        domain: None,
        path: Some("/deep".to_string()),
        expiry: Some(i64::MAX),
        secure: Some(false),
        host_only: None,
    };
    let cookies = CookieFinder::builder()
        .build()
        .find(&vec![store("one", vec![full, far])])
        .unwrap();

    let shown = cookies.get("session").unwrap();
    assert_eq!(shown.value(), "abc");
    assert_eq!(shown.domain(), Some("example.org"));
    assert_eq!(shown.path(), None);
    assert_eq!(shown.secure(), Some(true));
    assert_eq!(shown.expires_datetime().map(|at| at.unix_timestamp()), Some(1_700_000_000));

    let shown = cookies.get("far").unwrap();
    assert_eq!(shown.value(), "");
    assert_eq!(shown.domain(), None);
    assert_eq!(shown.path(), Some("/deep"));
    assert_eq!(shown.secure(), Some(false));
    assert_eq!(shown.expires_datetime(), None);
}

#[test]
fn lookup_hands_out_the_cookie_or_no_match() {
    let full = CookieRecord {
        name: "session".to_string(),
        value: "abc".to_string(),
        domain: Some(".example.org".to_string()),
        path: Some("/".to_string()),
        expiry: Some(-5),
        secure: Some(true),
        host_only: Some(true),
    };
    let cookies =
        CookieFinder::builder().build().find(&vec![store("one", vec![full])]).unwrap();
    assert_eq!(
        browsercookie::jar::lookup(&cookies, "session"),
        Ok(CookieRecord {
            name: "session".to_string(),
            value: "abc".to_string(),
            domain: Some("example.org".to_string()),
            path: Some("/".to_string()),
            expiry: Some(-5),
            secure: Some(true),
            host_only: None,
        })
    );
    assert_eq!(browsercookie::jar::lookup(&cookies, "other"), Err(BrowsercookieError::NoMatch));
    assert_eq!(browsercookie::jar::lookup(&cookies, ""), Err(BrowsercookieError::NoMatch));
}

#[test]
fn header_of_an_empty_jar_is_empty() {
    let cookies = CookieFinder::builder().build().find(&Vec::new()).unwrap();
    assert_eq!(browsercookie::to_header(&cookies, &Pattern::match_all()), "");
}

#[test]
fn header_shows_the_cookies_of_the_domain() {
    let cookies = CookieFinder::builder().build().find(&fixture()).unwrap();
    let only = Pattern::new(r"^httpbin\.org$").unwrap();
    assert_eq!(browsercookie::to_header(&cookies, &only), "name=value");
    let none = Pattern::new("nowhere").unwrap();
    assert_eq!(browsercookie::to_header(&cookies, &none), "");

    let two = Pattern::new("host$").unwrap();
    let header = browsercookie::to_header(&cookies, &two);
    assert!(
        header == "somename=somevalue; othername=othervalue"
            || header == "othername=othervalue; somename=somevalue"
    );

    let all = browsercookie::to_header(&cookies, &Pattern::match_all());
    let mut pairs: Vec<&str> = all.split("; ").collect();
    pairs.sort();
    assert_eq!(pairs, vec!["name=value", "othername=othervalue", "somename=somevalue"]);
}

#[test]
fn header_looks_at_the_domain_without_its_leading_dot() {
    let reads = vec![store("one", vec![record("a", "1", Some(".example.org")), record("b", "2", None)])];
    let cookies = CookieFinder::builder().build().find(&reads).unwrap();
    assert_eq!(browsercookie::to_header(&cookies, &Pattern::new(r"^\.").unwrap()), "");
    assert_eq!(browsercookie::to_header(&cookies, &Pattern::new("^example").unwrap()), "a=1");
    assert_eq!(browsercookie::to_header(&cookies, &Pattern::new("^$").unwrap()), "b=2");
}

#[test]
fn jar_keeps_an_expiry_up_to_the_end_of_the_year_9999() {
    let at = |name: &str, seconds: i64| CookieRecord {
        name: name.to_string(),
        value: "v".to_string(),
        domain: None,
        path: None,
        expiry: Some(seconds),
        secure: None,
        host_only: None,
    };
    let records = vec![
        at("epoch", 0),
        at("last", 253_402_300_799),
        at("beyond", 253_402_300_800),
        at("least", i64::MIN),
    ];
    let cookies = CookieFinder::builder().build().find(&vec![store("one", records)]).unwrap();
    let expiry = |name: &str| browsercookie::jar::lookup(&cookies, name).unwrap().expiry;
    assert_eq!(expiry("epoch"), Some(0));
    assert_eq!(expiry("last"), Some(253_402_300_799));
    assert_eq!(expiry("beyond"), None);
    assert_eq!(expiry("least"), None);
}

#[test]
fn record_clone_is_equal() {
    let full = CookieRecord {
        name: "n".to_string(),
        value: "v".to_string(),
        domain: Some("d".to_string()),
        path: None,
        expiry: Some(9),
        secure: Some(false),
        host_only: Some(true),
    };
    assert_eq!(full.clone(), full);
}

#[test]
fn store_of_a_browser_that_is_not_asked_for_is_left_out() {
    // With one supported browser every store is asked for; the reads of a
    // configuration are still gone through browser by browser.
    let reads = vec![store("one", vec![record("a", "1", None)])];
    let finder = CookieFinder::builder().with_browser(Browser::Firefox).build();
    assert_eq!(finder.browsers().len(), 1);
    assert_eq!(finder.find(&reads).unwrap().iter().count(), 1);
}
