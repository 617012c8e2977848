use vstd::prelude::*;
use crate::errors::BrowsercookieError;
use crate::jar::{jar_cookies, jar_new};
use crate::matcher::{FilterPair, FilterView};
use crate::merge::{all_picks, has_format_error, pour, pour_filter, Cookies};
use crate::pattern::{match_all_source, Pattern};
use crate::reader::{reads_view, StoreRead, StoreReadView};
use crate::record::{supported_browsers, text_view, Attribute, Browser, RecordView};

verus! {

/// What is to be gathered, as a mathematical value: the filters in the
/// order in which they were added, the browsers in the order in which they
/// were first added, and the path that stands in for every browser's
/// stores, if one was given.
pub struct FinderView {
    pub filters: Seq<FilterView>,
    pub browsers: Seq<Browser>,
    pub master_path: Option<Seq<char>>,
}

/// The filters of a sequence of filter pairs, as mathematical values.
pub open spec fn filters_view(filters: Seq<FilterPair>) -> Seq<FilterView> {
    filters.map_values(|filter: FilterPair| filter@)
}

/// The filter of a configuration to which none was added: `.*` on the
/// name.
pub open spec fn default_filter() -> FilterView {
    FilterView { pattern: match_all_source(), attribute: Attribute::Name }
}

/// The configuration to which nothing was added yet.
pub open spec fn empty_config() -> FinderView {
    FinderView { filters: Seq::empty(), browsers: Seq::empty(), master_path: None }
}

/// The configuration that `build` makes of the draft `draft`: the default
/// filter where no filter was added, every supported browser where no
/// browser was added.
pub open spec fn built(draft: FinderView) -> FinderView {
    FinderView {
        filters: if draft.filters.len() == 0 {
            seq![default_filter()]
        } else {
            draft.filters
        },
        browsers: if draft.browsers.len() == 0 {
            supported_browsers()
        } else {
            draft.browsers
        },
        master_path: draft.master_path,
    }
}

/// The cookies that a configuration gathers from what was read: every
/// record that passes a filter is put into an empty jar, in the order of
/// [`all_picks`], so that of two records of one name the later one stays.
pub open spec fn gathered(config: FinderView, reads: Seq<StoreReadView>) -> Cookies {
    pour(Map::empty(), all_picks(config.filters, config.browsers, reads))
}

/// Whether `browser` is among `browsers`.
fn holds(browsers: &Vec<Browser>, browser: Browser) -> (held: bool)
    ensures
        held == browsers@.contains(browser),
{
    let mut j: usize = 0;
    while j < browsers.len()
        invariant
            j <= browsers.len(),
            forall|i: int| 0 <= i < j ==> browsers@[i] != browser,
        decreases browsers.len() - j,
    {
        if browsers[j] == browser {
            return true;
        }
        j = j + 1;
    }
    false
}

/// Whether a store of one of `browsers` was found malformed.
fn malformed(browsers: &Vec<Browser>, reads: &Vec<StoreRead>) -> (bad: bool)
    ensures
        bad == has_format_error(browsers@, reads_view(reads@)),
{
    let ghost all = reads_view(reads@);
    let mut k: usize = 0;
    while k < reads.len()
        invariant
            k <= reads.len(),
            all == reads_view(reads@),
            forall|i: int|
                0 <= i < k ==> !(browsers@.contains(#[trigger] all[i].browser) && all[i].outcome
                    == Err::<Seq<RecordView>, BrowsercookieError>(
                    BrowsercookieError::FormatError,
                )),
        decreases reads.len() - k,
    {
        let read = &reads[k];
        assert(all[k as int] == read@);
        match &read.outcome {
            Err(BrowsercookieError::FormatError) => {
                if holds(browsers, read.location.browser) {
                    proof {
                        assert(browsers@.contains(all[k as int].browser));
                        assert(all[k as int].outcome == Err::<Seq<RecordView>, BrowsercookieError>(
                            BrowsercookieError::FormatError,
                        ));
                    }
                    return true;
                }
            },
            _ => {},
        }
        k = k + 1;
    }
    false
}

/// A configuration in the making: filters, browsers and a master path are
/// added one by one, and `build` makes the configuration of them.
#[derive(Debug)]
pub struct CookieFinderBuilder {
    filters: Vec<FilterPair>,
    browsers: Vec<Browser>,
    master_path: Option<String>,
}

impl View for CookieFinderBuilder {
    type V = FinderView;

    closed spec fn view(&self) -> FinderView {
        FinderView {
            filters: filters_view(self.filters@),
            browsers: self.browsers@,
            master_path: text_view(self.master_path),
        }
    }
}

impl CookieFinderBuilder {
    #[verifier::type_invariant]
    spec fn distinct(self) -> bool {
        self.browsers@.no_duplicates()
    }

    /// Adds the filter that searches `regex` in the text that `attribute`
    /// selects, behind the filters added before.
    pub fn with_regexp(self, regex: Pattern, attribute: Attribute) -> (draft: Self)
        ensures
            draft@ == (FinderView {
                filters: self@.filters.push(FilterView { pattern: regex@, attribute }),
                ..self@
            }),
    {
        proof {
            use_type_invariant(&self);
        }
        let CookieFinderBuilder { mut filters, browsers, master_path } = self;
        let ghost before = filters@;
        filters.push(FilterPair { pattern: regex, attribute });
        proof {
            assert(filters_view(filters@) =~= filters_view(before).push(
                FilterView { pattern: regex@, attribute },
            ));
        }
        CookieFinderBuilder { filters, browsers, master_path }
    }

    /// Adds `browser`, behind the browsers added before, unless it is
    /// among them already.
    pub fn with_browser(self, browser: Browser) -> (draft: Self)
        ensures
            draft@ == (FinderView {
                browsers: if self@.browsers.contains(browser) {
                    self@.browsers
                } else {
                    self@.browsers.push(browser)
                },
                ..self@
            }),
    {
        proof {
            use_type_invariant(&self);
        }
        let CookieFinderBuilder { filters, mut browsers, master_path } = self;
        if !holds(&browsers, browser) {
            browsers.push(browser);
        }
        CookieFinderBuilder { filters, browsers, master_path }
    }

    /// Sets the one path that stands in for the stores of every browser,
    /// in place of a path set before.
    pub fn with_master_path(self, master_path: &str) -> (draft: Self)
        ensures
            draft@ == (FinderView { master_path: Some(master_path@), ..self@ }),
    {
        proof {
            use_type_invariant(&self);
        }
        let CookieFinderBuilder { filters, browsers, master_path: _ } = self;
        CookieFinderBuilder { filters, browsers, master_path: Some(master_path.to_owned()) }
    }

    /// Makes the configuration: see [`built`].
    pub fn build(self) -> (finder: CookieFinder)
        ensures
            finder@ == built(self@),
            finder@.filters.len() >= 1,
            finder@.browsers.len() >= 1,
            finder@.browsers.no_duplicates(),
    {
        proof {
            use_type_invariant(&self);
        }
        let CookieFinderBuilder { mut filters, mut browsers, master_path } = self;
        if filters.len() == 0 {
            filters.push(FilterPair { pattern: Pattern::match_all(), attribute: Attribute::Name });
            proof {
                assert(filters_view(filters@) =~= seq![default_filter()]);
            }
        }
        if browsers.len() == 0 {
            browsers = Browser::all();
        }
        CookieFinder { filters, browsers, master_path }
    }
}

impl Default for CookieFinderBuilder {
    fn default() -> (draft: Self)
        ensures
            draft@ == empty_config(),
    {
        let draft = CookieFinderBuilder {
            filters: Vec::new(),
            browsers: Vec::new(),
            master_path: None,
        };
        proof {
            assert(filters_view(draft.filters@) =~= Seq::<FilterView>::empty());
        }
        draft
    }
}

/// What is to be gathered: at least one filter, at least one browser, no
/// browser twice, and perhaps a master path. It does not change once built.
#[derive(Debug)]
pub struct CookieFinder {
    filters: Vec<FilterPair>,
    browsers: Vec<Browser>,
    master_path: Option<String>,
}

impl View for CookieFinder {
    type V = FinderView;

    closed spec fn view(&self) -> FinderView {
        FinderView {
            filters: filters_view(self.filters@),
            browsers: self.browsers@,
            master_path: text_view(self.master_path),
        }
    }
}

impl CookieFinder {
    #[verifier::type_invariant]
    spec fn configured(self) -> bool {
        self.filters@.len() >= 1 && self.browsers@.len() >= 1 && self.browsers@.no_duplicates()
    }

    /// A draft to which nothing was added yet.
    pub fn builder() -> (draft: CookieFinderBuilder)
        ensures
            draft@ == empty_config(),
    {
        CookieFinderBuilder::default()
    }

    /// The filters, in the order in which they are applied.
    pub fn filters(&self) -> (filters: &Vec<FilterPair>)
        ensures
            filters_view(filters@) == self@.filters,
            filters@.len() >= 1,
    {
        proof {
            use_type_invariant(self);
        }
        &self.filters
    }

    /// The browsers, in the order in which their stores are gone through.
    pub fn browsers(&self) -> (browsers: &Vec<Browser>)
        ensures
            browsers@ == self@.browsers,
            browsers@.len() >= 1,
            browsers@.no_duplicates(),
    {
        proof {
            use_type_invariant(self);
        }
        &self.browsers
    }

    /// The path that stands in for the stores of every browser, if one was
    /// set.
    pub fn master_path(&self) -> (master_path: &Option<String>)
        ensures
            text_view(*master_path) == self@.master_path,
    {
        &self.master_path
    }

    /// Gathers the cookies from what was read of the stores.
    ///
    /// Where a store of one of the configuration's browsers was found
    /// malformed, the call fails and hands out no jar. Otherwise the jar
    /// holds [`gathered`]: a store that was unavailable, or that belongs to
    /// another browser, gives nothing.
    pub fn find(&self, reads: &Vec<StoreRead>) -> (found: Result<
        cookie::CookieJar,
        BrowsercookieError,
    >)
        ensures
            match found {
                Ok(jar) => !has_format_error(self@.browsers, reads_view(reads@)) && jar_cookies(jar)
                    == gathered(self@, reads_view(reads@)),
                Err(e) => e == BrowsercookieError::FormatError && has_format_error(
                    self@.browsers,
                    reads_view(reads@),
                ),
            },
    {
        if malformed(&self.browsers, reads) {
            return Err(BrowsercookieError::FormatError);
        }
        let mut jar = jar_new();
        let ghost all = filters_view(self.filters@);
        let ghost rv = reads_view(reads@);
        let ghost each = |filter: FilterView| crate::merge::filter_picks(filter, self.browsers@, rv);
        proof {
            assert(jar_cookies(jar) =~= Map::<Seq<char>, RecordView>::empty());
            assert(all.take(0).map_values(each) =~= Seq::<Seq<RecordView>>::empty());
        }
        let mut i: usize = 0;
        while i < self.filters.len()
            invariant
                i <= self.filters.len(),
                all == filters_view(self.filters@),
                rv == reads_view(reads@),
                each == |filter: FilterView|
                    crate::merge::filter_picks(filter, self.browsers@, rv),
                jar_cookies(jar) == pour(
                    Map::empty(),
                    all.take(i as int).map_values(each).flatten(),
                ),
            decreases self.filters.len() - i,
        {
            let filter = &self.filters[i];
            let ghost done = all.take(i as int).map_values(each);
            proof {
                assert(all.take(i as int + 1).map_values(each) =~= done.push(each(filter@)));
                done.lemma_flatten_push(each(filter@));
                crate::merge::lemma_pour_concat(Map::empty(), done.flatten(), each(filter@));
            }
            pour_filter(&mut jar, filter, &self.browsers, reads);
            i = i + 1;
        }
        proof {
            assert(all.take(self.filters.len() as int) =~= all);
        }
        Ok(jar)
    }
}

} // verus!
