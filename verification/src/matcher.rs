use vstd::prelude::*;
use crate::pattern::{pattern_accepts, Pattern};
use crate::record::{Attribute, CookieRecord, RecordView};

verus! {

/// A pattern and the text of a cookie in which it is searched.
#[derive(Debug)]
pub struct FilterPair {
    pub pattern: Pattern,
    pub attribute: Attribute,
}

/// A filter pair as a mathematical value.
pub struct FilterView {
    pub pattern: Seq<char>,
    pub attribute: Attribute,
}

impl View for FilterPair {
    type V = FilterView;

    open spec fn view(&self) -> FilterView {
        FilterView { pattern: self.pattern@, attribute: self.attribute }
    }
}

/// Whether `record` passes `filter`: the pattern is found somewhere in the
/// text that the attribute selects.
pub open spec fn record_matches(record: RecordView, filter: FilterView) -> bool {
    pattern_accepts(filter.pattern, record.text(filter.attribute))
}

/// Decides whether `record` passes `filter`.
pub fn matches(record: &CookieRecord, filter: &FilterPair) -> (matched: bool)
    ensures
        matched == record_matches(record@, filter@),
{
    filter.pattern.is_match(record.text(filter.attribute))
}

} // verus!
