use vstd::prelude::*;
use crate::errors::BrowsercookieError;
use crate::record::{texts_view, Browser, CookieRecord, RecordView, StoreLocation};

verus! {

/// The column that holds a cookie's name.
pub const NAME_COLUMN: &'static str = "name";

/// The column that holds a cookie's value.
pub const VALUE_COLUMN: &'static str = "value";

/// The column that holds a cookie's domain.
pub const DOMAIN_COLUMN: &'static str = "domain";

/// The column that holds a cookie's path.
pub const PATH_COLUMN: &'static str = "path";

/// The column that holds a cookie's expiry, in seconds since the Unix
/// epoch. A store need not have it.
pub const EXPIRY_COLUMN: &'static str = "expiry";

/// The column that holds a cookie's secure flag. A store need not have it.
pub const SECURE_COLUMN: &'static str = "secure";

/// The column that holds a cookie's host-only flag. A store need not have
/// it.
pub const HOST_ONLY_COLUMN: &'static str = "host_only";

/// One cell of a row, as the store holds it.
#[derive(Debug, PartialEq, Eq)]
pub enum ColumnValue {
    Null,
    Integer(i64),
    Text(String),
    /// A value of any other kind.
    Other,
}

/// One cell of a row, as a mathematical value.
pub enum CellView {
    Null,
    Integer(i64),
    Text(Seq<char>),
    Other,
}

impl View for ColumnValue {
    type V = CellView;

    open spec fn view(&self) -> CellView {
        match self {
            ColumnValue::Null => CellView::Null,
            ColumnValue::Integer(number) => CellView::Integer(*number),
            ColumnValue::Text(text) => CellView::Text(text@),
            ColumnValue::Other => CellView::Other,
        }
    }
}

/// The cookie table of a store that was opened: the names of its columns,
/// and its rows, each with one cell for each column.
#[derive(Debug, PartialEq, Eq)]
pub struct RawStore {
    pub columns: Vec<String>,
    pub rows: Vec<Vec<ColumnValue>>,
}

/// A cookie table as a mathematical value.
pub struct RawStoreView {
    pub columns: Seq<Seq<char>>,
    pub rows: Seq<Seq<CellView>>,
}

/// The cells of a row, as mathematical values.
pub open spec fn cells_view(row: Seq<ColumnValue>) -> Seq<CellView> {
    row.map_values(|cell: ColumnValue| cell@)
}

/// The rows of a table, as mathematical values.
pub open spec fn rows_view(rows: Seq<Vec<ColumnValue>>) -> Seq<Seq<CellView>> {
    rows.map_values(|row: Vec<ColumnValue>| cells_view(row@))
}

impl View for RawStore {
    type V = RawStoreView;

    open spec fn view(&self) -> RawStoreView {
        RawStoreView { columns: texts_view(self.columns@), rows: rows_view(self.rows@) }
    }
}

/// The records of a sequence of cookies, as mathematical values.
pub open spec fn records_view(records: Seq<CookieRecord>) -> Seq<RecordView> {
    records.map_values(|record: CookieRecord| record@)
}

/// What came of reading the store at one location.
#[derive(Debug)]
pub struct StoreRead {
    pub location: StoreLocation,
    pub outcome: Result<Vec<CookieRecord>, BrowsercookieError>,
}

/// What came of reading one store, as a mathematical value: whose store it
/// was, and its records or the failure.
pub struct StoreReadView {
    pub browser: Browser,
    pub outcome: Result<Seq<RecordView>, BrowsercookieError>,
}

impl View for StoreRead {
    type V = StoreReadView;

    open spec fn view(&self) -> StoreReadView {
        StoreReadView {
            browser: self.location.browser,
            outcome: match self.outcome {
                Ok(records) => Ok(records_view(records@)),
                Err(e) => Err(e),
            },
        }
    }
}

/// The reads of a sequence of stores, as mathematical values.
pub open spec fn reads_view(reads: Seq<StoreRead>) -> Seq<StoreReadView> {
    reads.map_values(|read: StoreRead| read@)
}

/// The place of the first column named `wanted`, if there is one.
pub open spec fn position(columns: Seq<Seq<char>>, wanted: Seq<char>) -> Option<int>
    decreases columns.len(),
{
    if columns.len() == 0 {
        None
    } else {
        match position(columns.drop_last(), wanted) {
            Some(at) => Some(at),
            None => if columns.last() == wanted {
                Some(columns.len() - 1)
            } else {
                None
            },
        }
    }
}

/// Whether a table with these columns is a cookie table: it has a column
/// for the name, the value, the domain and the path.
pub open spec fn well_shaped(columns: Seq<Seq<char>>) -> bool {
    &&& position(columns, NAME_COLUMN@) is Some
    &&& position(columns, VALUE_COLUMN@) is Some
    &&& position(columns, DOMAIN_COLUMN@) is Some
    &&& position(columns, PATH_COLUMN@) is Some
}

/// The cell of `row` in the first column named `wanted`, if there is such
/// a column.
pub open spec fn cell(columns: Seq<Seq<char>>, row: Seq<CellView>, wanted: Seq<char>) -> Option<
    CellView,
> {
    match position(columns, wanted) {
        Some(at) => Some(row[at]),
        None => None,
    }
}

/// The text of a cell that must hold one. `None`: the cell holds none.
pub open spec fn required_text(cell: Option<CellView>) -> Option<Seq<char>> {
    match cell {
        Some(CellView::Text(text)) => Some(text),
        _ => None,
    }
}

/// The text of a cell that may be empty, or whose column may be missing.
/// `None`: the cell holds something else than a text.
pub open spec fn optional_text(cell: Option<CellView>) -> Option<Option<Seq<char>>> {
    match cell {
        None => Some(None),
        Some(CellView::Null) => Some(None),
        Some(CellView::Text(text)) => Some(Some(text)),
        Some(_) => None,
    }
}

/// The number of a cell that may be empty, or whose column may be missing.
/// `None`: the cell holds something else than a number.
pub open spec fn optional_number(cell: Option<CellView>) -> Option<Option<i64>> {
    match cell {
        None => Some(None),
        Some(CellView::Null) => Some(None),
        Some(CellView::Integer(number)) => Some(Some(number)),
        Some(_) => None,
    }
}

/// The flag of a cell that may be empty, or whose column may be missing:
/// zero is false, any other number true. `None`: the cell holds something
/// else than a number.
pub open spec fn optional_flag(cell: Option<CellView>) -> Option<Option<bool>> {
    match optional_number(cell) {
        Some(Some(number)) => Some(Some(number != 0)),
        Some(None) => Some(None),
        None => None,
    }
}

/// The record that a row holds. `None`: the row has not one cell for each
/// column, or one of its cells holds a value of the wrong kind.
pub open spec fn parsed(columns: Seq<Seq<char>>, row: Seq<CellView>) -> Option<RecordView> {
    if row.len() != columns.len() {
        None
    } else {
        match (
            required_text(cell(columns, row, NAME_COLUMN@)),
            required_text(cell(columns, row, VALUE_COLUMN@)),
            optional_text(cell(columns, row, DOMAIN_COLUMN@)),
            optional_text(cell(columns, row, PATH_COLUMN@)),
            optional_number(cell(columns, row, EXPIRY_COLUMN@)),
            optional_flag(cell(columns, row, SECURE_COLUMN@)),
            optional_flag(cell(columns, row, HOST_ONLY_COLUMN@)),
        ) {
            (
                Some(name),
                Some(value),
                Some(domain),
                Some(path),
                Some(expiry),
                Some(secure),
                Some(host_only),
            ) => Some(RecordView { name, value, domain, path, expiry, secure, host_only }),
            _ => None,
        }
    }
}

/// The records of the rows that hold one, in the order of the rows.
pub open spec fn parsed_rows(columns: Seq<Seq<char>>, rows: Seq<Seq<CellView>>) -> Seq<RecordView>
    decreases rows.len(),
{
    if rows.len() == 0 {
        Seq::empty()
    } else {
        match parsed(columns, rows.last()) {
            Some(record) => parsed_rows(columns, rows.drop_last()).push(record),
            None => parsed_rows(columns, rows.drop_last()),
        }
    }
}

/// What reading a store gives: nothing but the failure where the store
/// could not be opened or is no cookie table, else the records of its rows.
pub open spec fn read_outcome(opened: Option<RawStoreView>) -> Result<
    Seq<RecordView>,
    BrowsercookieError,
> {
    match opened {
        None => Err(BrowsercookieError::StoreUnavailable),
        Some(store) => if well_shaped(store.columns) {
            Ok(parsed_rows(store.columns, store.rows))
        } else {
            Err(BrowsercookieError::FormatError)
        },
    }
}

/// A place that `position` gives lies among the columns, and the column
/// there bears the name.
pub proof fn lemma_position_in_range(columns: Seq<Seq<char>>, wanted: Seq<char>)
    ensures
        position(columns, wanted) matches Some(at) ==> 0 <= at < columns.len() && columns[at]
            == wanted,
    decreases columns.len(),
{
    if columns.len() > 0 {
        lemma_position_in_range(columns.drop_last(), wanted);
    }
}

/// Where no column before `at` bears the name and the one at `at` does,
/// `position` gives `at`.
proof fn lemma_position_found(columns: Seq<Seq<char>>, wanted: Seq<char>, at: int)
    requires
        0 <= at < columns.len(),
        columns[at] == wanted,
        position(columns.take(at), wanted) is None,
    ensures
        position(columns, wanted) == Some(at),
    decreases columns.len(),
{
    if at == columns.len() - 1 {
        assert(columns.drop_last() =~= columns.take(at));
    } else {
        assert(columns.drop_last().take(at) =~= columns.take(at));
        lemma_position_found(columns.drop_last(), wanted, at);
    }
}

/// Finds the first column named `wanted`.
fn find_column(columns: &Vec<String>, wanted: &str) -> (found: Option<usize>)
    ensures
        match found {
            Some(at) => position(texts_view(columns@), wanted@) == Some(at as int) && at
                < columns.len(),
            None => position(texts_view(columns@), wanted@) is None,
        },
{
    let ghost names = texts_view(columns@);
    let wanted_text = wanted.to_owned();
    let mut i: usize = 0;
    while i < columns.len()
        invariant
            i <= columns.len(),
            names == texts_view(columns@),
            wanted_text@ == wanted@,
            position(names.take(i as int), wanted@) is None,
        decreases columns.len() - i,
    {
        if columns[i] == wanted_text {
            proof {
                lemma_position_found(names, wanted@, i as int);
            }
            return Some(i);
        }
        proof {
            assert(names.take(i as int + 1).drop_last() =~= names.take(i as int));
        }
        i = i + 1;
    }
    proof {
        assert(names.take(columns.len() as int) =~= names);
    }
    None
}

/// Where the columns of a cookie table lie.
struct Layout {
    width: usize,
    name: usize,
    value: usize,
    domain: usize,
    path: usize,
    expiry: Option<usize>,
    secure: Option<usize>,
    host_only: Option<usize>,
}

/// A place as a mathematical value.
spec fn place(at: Option<usize>) -> Option<int> {
    match at {
        Some(at) => Some(at as int),
        None => None,
    }
}

impl Layout {
    /// Whether the layout is that of a table with these columns.
    spec fn describes(self, columns: Seq<Seq<char>>) -> bool {
        &&& self.width == columns.len()
        &&& position(columns, NAME_COLUMN@) == Some(self.name as int)
        &&& position(columns, VALUE_COLUMN@) == Some(self.value as int)
        &&& position(columns, DOMAIN_COLUMN@) == Some(self.domain as int)
        &&& position(columns, PATH_COLUMN@) == Some(self.path as int)
        &&& position(columns, EXPIRY_COLUMN@) == place(self.expiry)
        &&& position(columns, SECURE_COLUMN@) == place(self.secure)
        &&& position(columns, HOST_ONLY_COLUMN@) == place(self.host_only)
    }

    /// The layout of a table with these columns, if it is a cookie table.
    fn of(columns: &Vec<String>) -> (layout: Option<Layout>)
        ensures
            layout is Some == well_shaped(texts_view(columns@)),
            layout matches Some(found) ==> found.describes(texts_view(columns@)),
    {
        let name = match find_column(columns, NAME_COLUMN) {
            Some(at) => at,
            None => {
                return None;
            },
        };
        let value = match find_column(columns, VALUE_COLUMN) {
            Some(at) => at,
            None => {
                return None;
            },
        };
        let domain = match find_column(columns, DOMAIN_COLUMN) {
            Some(at) => at,
            None => {
                return None;
            },
        };
        let path = match find_column(columns, PATH_COLUMN) {
            Some(at) => at,
            None => {
                return None;
            },
        };
        Some(
            Layout {
                width: columns.len(),
                name,
                value,
                domain,
                path,
                expiry: find_column(columns, EXPIRY_COLUMN),
                secure: find_column(columns, SECURE_COLUMN),
                host_only: find_column(columns, HOST_ONLY_COLUMN),
            },
        )
    }
}

/// The cell of `row` at `at`, if there is a place.
fn cell_at(row: &Vec<ColumnValue>, at: Option<usize>) -> (found: Option<&ColumnValue>)
    requires
        at matches Some(place) ==> place < row.len(),
    ensures
        match (at, found) {
            (Some(place), Some(value)) => *value == row@[place as int],
            (None, None) => true,
            _ => false,
        },
{
    match at {
        Some(place) => Some(&row[place]),
        None => None,
    }
}

/// The characters of each text of a pair of options.
spec fn nested_text_view(text: Option<Option<String>>) -> Option<Option<Seq<char>>> {
    match text {
        Some(Some(text)) => Some(Some(text@)),
        Some(None) => Some(None),
        None => None,
    }
}

/// The cell as a mathematical value, if there is one.
spec fn cell_view(found: Option<&ColumnValue>) -> Option<CellView> {
    match found {
        Some(value) => Some(value@),
        None => None,
    }
}

/// Reads a text that must be there: see [`required_text`].
fn read_required_text(found: &ColumnValue) -> (text: Option<String>)
    ensures
        crate::record::text_view(text) == required_text(Some(found@)),
{
    match found {
        ColumnValue::Text(text) => Some(text.clone()),
        _ => None,
    }
}

/// Reads a text that may be missing: see [`optional_text`].
fn read_optional_text(found: Option<&ColumnValue>) -> (text: Option<Option<String>>)
    ensures
        nested_text_view(text) == optional_text(cell_view(found)),
{
    match found {
        None => Some(None),
        Some(ColumnValue::Null) => Some(None),
        Some(ColumnValue::Text(text)) => Some(Some(text.clone())),
        Some(_) => None,
    }
}

/// Reads a number that may be missing: see [`optional_number`].
fn read_optional_number(found: Option<&ColumnValue>) -> (number: Option<Option<i64>>)
    ensures
        number == optional_number(cell_view(found)),
{
    match found {
        None => Some(None),
        Some(ColumnValue::Null) => Some(None),
        Some(ColumnValue::Integer(number)) => Some(Some(*number)),
        Some(_) => None,
    }
}

/// Reads a flag that may be missing: see [`optional_flag`].
fn read_optional_flag(found: Option<&ColumnValue>) -> (flag: Option<Option<bool>>)
    ensures
        flag == optional_flag(cell_view(found)),
{
    match read_optional_number(found) {
        Some(Some(number)) => Some(Some(number != 0)),
        Some(None) => Some(None),
        None => None,
    }
}

/// The record as a mathematical value, if there is one.
pub open spec fn record_option_view(record: Option<CookieRecord>) -> Option<RecordView> {
    match record {
        Some(record) => Some(record@),
        None => None,
    }
}

/// Reads the record that a row holds: see [`parsed`].
fn parse_row(layout: &Layout, row: &Vec<ColumnValue>, Ghost(columns): Ghost<Seq<Seq<char>>>) -> (record:
    Option<CookieRecord>)
    requires
        layout.describes(columns),
    ensures
        record_option_view(record) == parsed(columns, cells_view(row@)),
{
    if row.len() != layout.width {
        return None;
    }
    proof {
        lemma_position_in_range(columns, NAME_COLUMN@);
        lemma_position_in_range(columns, VALUE_COLUMN@);
        lemma_position_in_range(columns, DOMAIN_COLUMN@);
        lemma_position_in_range(columns, PATH_COLUMN@);
        lemma_position_in_range(columns, EXPIRY_COLUMN@);
        lemma_position_in_range(columns, SECURE_COLUMN@);
        lemma_position_in_range(columns, HOST_ONLY_COLUMN@);
    }
    let name = match read_required_text(&row[layout.name]) {
        Some(text) => text,
        None => {
            return None;
        },
    };
    let value = match read_required_text(&row[layout.value]) {
        Some(text) => text,
        None => {
            return None;
        },
    };
    let domain = match read_optional_text(Some(&row[layout.domain])) {
        Some(text) => text,
        None => {
            return None;
        },
    };
    let path = match read_optional_text(Some(&row[layout.path])) {
        Some(text) => text,
        None => {
            return None;
        },
    };
    let expiry = match read_optional_number(cell_at(row, layout.expiry)) {
        Some(number) => number,
        None => {
            return None;
        },
    };
    let secure = match read_optional_flag(cell_at(row, layout.secure)) {
        Some(flag) => flag,
        None => {
            return None;
        },
    };
    let host_only = match read_optional_flag(cell_at(row, layout.host_only)) {
        Some(flag) => flag,
        None => {
            return None;
        },
    };
    Some(CookieRecord { name, value, domain, path, expiry, secure, host_only })
}

/// Reads the records of a cookie table.
///
/// A table without a column for the name, the value, the domain or the
/// path is no cookie table: the read fails with `FormatError`. A row that
/// holds no record is passed over, and the rows after it are read.
pub fn read_store(store: &RawStore) -> (records: Result<Vec<CookieRecord>, BrowsercookieError>)
    ensures
        match records {
            Ok(records) => read_outcome(Some(store@)) == Ok::<
                Seq<RecordView>,
                BrowsercookieError,
            >(records_view(records@)),
            Err(e) => read_outcome(Some(store@)) == Err::<Seq<RecordView>, BrowsercookieError>(e),
        },
{
    let layout = match Layout::of(&store.columns) {
        Some(layout) => layout,
        None => {
            return Err(BrowsercookieError::FormatError);
        },
    };
    let ghost columns = texts_view(store.columns@);
    let ghost rows = rows_view(store.rows@);
    let mut records: Vec<CookieRecord> = Vec::new();
    let mut i: usize = 0;
    proof {
        assert(records_view(records@) =~= Seq::<RecordView>::empty());
        assert(rows.take(0) =~= Seq::<Seq<CellView>>::empty());
    }
    while i < store.rows.len()
        invariant
            i <= store.rows.len(),
            columns == texts_view(store.columns@),
            rows == rows_view(store.rows@),
            layout.describes(columns),
            records_view(records@) == parsed_rows(columns, rows.take(i as int)),
        decreases store.rows.len() - i,
    {
        let ghost before = records@;
        let parsed_row = parse_row(&layout, &store.rows[i], Ghost(columns));
        proof {
            assert(rows.take(i as int + 1).drop_last() =~= rows.take(i as int));
            assert(rows.take(i as int + 1).last() == cells_view(store.rows@[i as int]@));
        }
        match parsed_row {
            Some(record) => {
                records.push(record);
                proof {
                    assert(records_view(records@) =~= records_view(before).push(record@));
                }
            },
            None => {},
        }
        i = i + 1;
    }
    proof {
        assert(rows.take(store.rows.len() as int) =~= rows);
    }
    Ok(records)
}

/// What the reader hands back for the store at `location`: `opened` is its
/// cookie table, or `None` where the store is absent, is no store, or could
/// not be opened for reading.
pub fn read(location: StoreLocation, opened: Option<&RawStore>) -> (read: StoreRead)
    ensures
        read.location == location,
        read@.outcome == read_outcome(
            match opened {
                Some(store) => Some(store@),
                None => None,
            },
        ),
{
    let outcome = match opened {
        Some(store) => read_store(store),
        None => Err(BrowsercookieError::StoreUnavailable),
    };
    StoreRead { location, outcome }
}

} // verus!
