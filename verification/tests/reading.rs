use browsercookie::reader::{read, read_store, ColumnValue, RawStore};
use browsercookie::{locate, Browser, BrowsercookieError, CookieRecord, StoreLocation};

fn text(s: &str) -> ColumnValue {
    ColumnValue::Text(s.to_string())
}

fn names(columns: &[&str]) -> Vec<String> {
    columns.iter().map(|c| c.to_string()).collect()
}

fn plain(name: &str, value: &str, domain: Option<&str>, path: Option<&str>) -> CookieRecord {
    CookieRecord {
        name: name.to_string(),
        value: value.to_string(),
        domain: domain.map(|d| d.to_string()),
        path: path.map(|p| p.to_string()),
        expiry: None,
        secure: None,
        host_only: None,
    }
}

#[test]
fn rows_become_records_in_order() {
    let store = RawStore {
        columns: names(&["name", "value", "domain", "path"]),
        rows: vec![
            vec![text("a"), text("1"), text("x.org"), text("/")],
            vec![text("b"), text("2"), ColumnValue::Null, text("/b")],
            vec![text("c"), text(""), text(".y.org"), ColumnValue::Null],
        ],
    };
    assert_eq!(
        read_store(&store),
        Ok(vec![
            plain("a", "1", Some("x.org"), Some("/")),
            plain("b", "2", None, Some("/b")),
            plain("c", "", Some(".y.org"), None),
        ])
    );
}

#[test]
fn columns_are_found_by_name_wherever_they_stand() {
    let store = RawStore {
        columns: names(&[
            "id", "secure", "path", "host_only", "value", "expiry", "name", "domain", "name",
        ]),
        rows: vec![vec![
            ColumnValue::Integer(7),
            ColumnValue::Integer(1),
            text("/p"),
            ColumnValue::Integer(0),
            text("v"),
            ColumnValue::Integer(1_700_000_000),
            text("n"),
            text("d"),
            text("second name column"),
        ]],
    };
    assert_eq!(
        read_store(&store),
        Ok(vec![CookieRecord {
            name: "n".to_string(),
            value: "v".to_string(),
            domain: Some("d".to_string()),
            path: Some("/p".to_string()),
            expiry: Some(1_700_000_000),
            secure: Some(true),
            host_only: Some(false),
        }])
    );
}

#[test]
fn flags_and_expiry_are_read_where_present() {
    let store = RawStore {
        columns: names(&["name", "value", "domain", "path", "expiry", "secure", "host_only"]),
        rows: vec![
            vec![
                text("a"),
                text("1"),
                text("d"),
                text("/"),
                ColumnValue::Integer(-1),
                ColumnValue::Integer(0),
                ColumnValue::Integer(-3),
            ],
            vec![
                text("b"),
                text("2"),
                text("d"),
                text("/"),
                ColumnValue::Null,
                ColumnValue::Null,
                ColumnValue::Null,
            ],
            vec![
                text("c"),
                text("3"),
                text("d"),
                text("/"),
                ColumnValue::Integer(i64::MAX),
                ColumnValue::Integer(2),
                ColumnValue::Integer(1),
            ],
        ],
    };
    let records = read_store(&store).unwrap();
    assert_eq!(records.len(), 3);
    assert_eq!((records[0].expiry, records[0].secure, records[0].host_only), (Some(-1), Some(false), Some(true)));
    assert_eq!((records[1].expiry, records[1].secure, records[1].host_only), (None, None, None));
    assert_eq!((records[2].expiry, records[2].secure, records[2].host_only), (Some(i64::MAX), Some(true), Some(true)));
}

#[test]
fn row_with_a_cell_of_the_wrong_kind_is_skipped() {
    let good = |name: &str| vec![
        text(name),
        text("v"),
        text("d"),
        text("/"),
        ColumnValue::Integer(1),
        ColumnValue::Integer(1),
        ColumnValue::Integer(1),
    ];
    let mut rows = vec![good("first")];
    // One bad cell in each column in turn.
    let bad: [(usize, ColumnValue); 9] = [
        (0, ColumnValue::Null),
        (0, ColumnValue::Integer(3)),
        (1, ColumnValue::Null),
        (1, ColumnValue::Other),
        (2, ColumnValue::Integer(0)),
        (3, ColumnValue::Other),
        (4, text("soon")),
        (5, text("yes")),
        (6, ColumnValue::Other),
    ];
    for (at, cell) in bad {
        let mut row = good("bad");
        row[at] = cell;
        rows.push(row);
    }
    rows.push(good("last"));
    let store = RawStore {
        columns: names(&["name", "value", "domain", "path", "expiry", "secure", "host_only"]),
        rows,
    };
    let records = read_store(&store).unwrap();
    let read_names: Vec<&str> = records.iter().map(|r| r.name.as_str()).collect();
    assert_eq!(read_names, vec!["first", "last"]);
}

#[test]
fn row_of_the_wrong_width_is_skipped() {
    let store = RawStore {
        columns: names(&["name", "value", "domain", "path"]),
        rows: vec![
            vec![text("short"), text("v"), text("d")],
            vec![],
            vec![text("long"), text("v"), text("d"), text("/"), text("more")],
            vec![text("right"), text("v"), text("d"), text("/")],
        ],
    };
    assert_eq!(read_store(&store), Ok(vec![plain("right", "v", Some("d"), Some("/"))]));
}

#[test]
fn table_without_a_needed_column_is_a_format_error() {
    for missing in ["name", "value", "domain", "path"] {
        let columns: Vec<String> = ["name", "value", "domain", "path", "expiry"]
            .iter()
            .filter(|c| **c != missing)
            .map(|c| c.to_string())
            .collect();
        let store = RawStore { columns, rows: vec![] };
        assert_eq!(read_store(&store), Err(BrowsercookieError::FormatError));
    }
    let store = RawStore { columns: vec![], rows: vec![vec![]] };
    assert_eq!(read_store(&store), Err(BrowsercookieError::FormatError));
    let store = RawStore { columns: names(&["Name", "value", "domain", "path"]), rows: vec![] };
    assert_eq!(read_store(&store), Err(BrowsercookieError::FormatError));
}

#[test]
fn empty_cookie_table_reads_as_no_records() {
    let store = RawStore { columns: names(&["path", "domain", "value", "name"]), rows: vec![] };
    assert_eq!(read_store(&store), Ok(vec![]));
}

#[test]
fn read_tags_the_outcome_with_the_location() {
    let location =
        || StoreLocation { path: "p/cookies.sqlite".to_string(), browser: Browser::Firefox };
    let store = RawStore {
        columns: names(&["name", "value", "domain", "path"]),
        rows: vec![vec![text("a"), text("1"), text("d"), text("/")]],
    };
    let done = read(location(), Some(&store));
    assert_eq!(done.location, location());
    assert_eq!(done.outcome, Ok(vec![plain("a", "1", Some("d"), Some("/"))]));

    let done = read(location(), None);
    assert_eq!(done.location, location());
    assert_eq!(done.outcome, Err(BrowsercookieError::StoreUnavailable));

    let odd = RawStore { columns: names(&["key"]), rows: vec![] };
    let done = read(location(), Some(&odd));
    assert_eq!(done.outcome, Err(BrowsercookieError::FormatError));
}

#[test]
fn master_path_stands_in_for_discovery() {
    let discovered = vec!["a/cookies.sqlite".to_string(), "b/cookies.sqlite".to_string()];
    let located = locate(Browser::Firefox, &Some("/tmp/one.sqlite".to_string()), &discovered);
    assert_eq!(
        located,
        vec![StoreLocation { path: "/tmp/one.sqlite".to_string(), browser: Browser::Firefox }]
    );
    let located = locate(Browser::Firefox, &Some("/tmp/one.sqlite".to_string()), &vec![]);
    assert_eq!(located.len(), 1);
}

#[test]
fn every_discovered_profile_is_located() {
    let discovered = vec!["a/cookies.sqlite".to_string(), "b/cookies.sqlite".to_string()];
    let located = locate(Browser::Firefox, &None, &discovered);
    assert_eq!(
        located,
        vec![
            StoreLocation { path: "a/cookies.sqlite".to_string(), browser: Browser::Firefox },
            StoreLocation { path: "b/cookies.sqlite".to_string(), browser: Browser::Firefox },
        ]
    );
}

#[test]
fn browser_without_profiles_has_no_location() {
    assert_eq!(locate(Browser::Firefox, &None, &vec![]), vec![]);
}
