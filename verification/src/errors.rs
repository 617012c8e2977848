use vstd::prelude::*;

verus! {

/// The ways in which gathering cookies can fail.
#[derive(Clone, Copy, Debug, PartialEq, Eq, Structural)]
pub enum BrowsercookieError {
    /// The store is absent, is no cookie store at all, or cannot be opened
    /// for reading. Such a store counts as holding no cookies.
    StoreUnavailable,
    /// The store opened, but its table does not have the shape of a cookie
    /// table.
    FormatError,
    /// No cookie of the asked name is in the jar.
    NoMatch,
}

} // verus!
