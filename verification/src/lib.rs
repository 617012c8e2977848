//! Gathers the cookies that web browsers keep on the local machine into one
//! jar, so that other local tools can reuse a browser session.
//!
//! The crate holds the rules of the extraction: which text of a cookie a
//! filter looks at, where a browser's stores are taken from, how the rows of
//! a store become cookie records, and how the records of several stores are
//! merged by name. Opening files is left to the caller, who hands over what
//! was found in each store.
pub mod errors;
pub mod finder;
pub mod header;
pub mod jar;
pub mod laws;
pub mod locator;
pub mod matcher;
pub mod merge;
pub mod pattern;
pub mod reader;
pub mod record;

pub use errors::BrowsercookieError;
pub use finder::{CookieFinder, CookieFinderBuilder, FinderView};
pub use header::to_header;
pub use locator::locate;
pub use matcher::{FilterPair, FilterView};
pub use pattern::Pattern;
pub use reader::{read, read_store, ColumnValue, RawStore, StoreRead};
pub use record::{Attribute, Browser, CookieRecord, RecordView, StoreLocation};
