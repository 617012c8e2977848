use vstd::prelude::*;
use crate::errors::BrowsercookieError;
use crate::jar::{jar_add, jar_cookies, shown};
use crate::matcher::{record_matches, FilterPair, FilterView};
use crate::reader::{reads_view, records_view, StoreRead, StoreReadView};
use crate::record::{Browser, CookieRecord, RecordView};

verus! {

/// The cookies of a jar, by name.
pub type Cookies = Map<Seq<char>, RecordView>;

/// The test that `filter` puts to a record.
pub open spec fn passing(filter: FilterView) -> spec_fn(RecordView) -> bool {
    |record: RecordView| record_matches(record, filter)
}

/// The records that one read gives to `browser` under `filter`, in the
/// store's order: those that pass, where the store is the browser's and was
/// read; none otherwise.
pub open spec fn store_picks(filter: FilterView, browser: Browser, read: StoreReadView) -> Seq<
    RecordView,
> {
    match read.outcome {
        Ok(records) => if read.browser == browser {
            records.filter(passing(filter))
        } else {
            Seq::empty()
        },
        Err(_) => Seq::empty(),
    }
}

/// The records that the stores of `browser` give under `filter`, store
/// after store.
pub open spec fn browser_picks(filter: FilterView, browser: Browser, reads: Seq<StoreReadView>) -> Seq<
    RecordView,
> {
    reads.map_values(|read: StoreReadView| store_picks(filter, browser, read)).flatten()
}

/// The records that all of `browsers` give under `filter`, browser after
/// browser.
pub open spec fn filter_picks(
    filter: FilterView,
    browsers: Seq<Browser>,
    reads: Seq<StoreReadView>,
) -> Seq<RecordView> {
    browsers.map_values(|browser: Browser| browser_picks(filter, browser, reads)).flatten()
}

/// Every record that goes into the jar, in the order in which it goes:
/// filter after filter, under each filter browser after browser, for each
/// browser store after store, in each store record after record.
pub open spec fn all_picks(
    filters: Seq<FilterView>,
    browsers: Seq<Browser>,
    reads: Seq<StoreReadView>,
) -> Seq<RecordView> {
    filters.map_values(|filter: FilterView| filter_picks(filter, browsers, reads)).flatten()
}

/// The jar `cookies` after `records` were put into it one after the other,
/// each under its name.
pub open spec fn pour(cookies: Cookies, records: Seq<RecordView>) -> Cookies
    decreases records.len(),
{
    if records.len() == 0 {
        cookies
    } else {
        pour(cookies, records.drop_last()).insert(records.last().name, shown(records.last()))
    }
}

/// Whether a store of one of `browsers` was found malformed.
pub open spec fn has_format_error(browsers: Seq<Browser>, reads: Seq<StoreReadView>) -> bool {
    exists|k: int|
        0 <= k < reads.len() && browsers.contains(#[trigger] reads[k].browser) && reads[k].outcome
            == Err::<Seq<RecordView>, BrowsercookieError>(BrowsercookieError::FormatError)
}

/// Pouring one more record is one more insertion.
pub proof fn lemma_pour_push(cookies: Cookies, records: Seq<RecordView>, record: RecordView)
    ensures
        pour(cookies, records.push(record)) == pour(cookies, records).insert(
            record.name,
            shown(record),
        ),
{
    assert(records.push(record).drop_last() =~= records);
}

/// Pouring two runs of records one after the other is pouring them at once.
pub proof fn lemma_pour_concat(cookies: Cookies, first: Seq<RecordView>, second: Seq<RecordView>)
    ensures
        pour(cookies, first + second) == pour(pour(cookies, first), second),
    decreases second.len(),
{
    if second.len() == 0 {
        assert(first + second =~= first);
    } else {
        lemma_pour_concat(cookies, first, second.drop_last());
        assert((first + second).drop_last() =~= first + second.drop_last());
        assert((first + second).last() == second.last());
    }
}

/// Puts into `jar` the records of one store that pass `filter`.
pub(crate) fn pour_records(
    jar: &mut cookie::CookieJar,
    filter: &FilterPair,
    records: &Vec<CookieRecord>,
)
    ensures
        jar_cookies(*final(jar)) == pour(
            jar_cookies(*old(jar)),
            records_view(records@).filter(passing(filter@)),
        ),
{
    let ghost all = records_view(records@);
    let ghost test = passing(filter@);
    proof {
        reveal(Seq::filter);
        assert(all.take(0).filter(test) =~= Seq::<RecordView>::empty());
    }
    let mut i: usize = 0;
    while i < records.len()
        invariant
            i <= records.len(),
            all == records_view(records@),
            test == passing(filter@),
            jar_cookies(*jar) == pour(jar_cookies(*old(jar)), all.take(i as int).filter(test)),
        decreases records.len() - i,
    {
        let record = &records[i];
        let matched = crate::matcher::matches(record, filter);
        proof {
            reveal(Seq::filter);
            let upto = all.take(i as int + 1);
            assert(upto.drop_last() =~= all.take(i as int));
            assert(upto.last() == record@);
            assert(test(record@) == matched);
            if matched {
                lemma_pour_push(jar_cookies(*old(jar)), all.take(i as int).filter(test), record@);
            }
        }
        if matched {
            jar_add(jar, record);
        }
        i = i + 1;
    }
    proof {
        assert(all.take(records.len() as int) =~= all);
    }
}

/// Puts into `jar` what the stores of `browser` give under `filter`.
pub(crate) fn pour_browser(
    jar: &mut cookie::CookieJar,
    filter: &FilterPair,
    browser: Browser,
    reads: &Vec<StoreRead>,
)
    ensures
        jar_cookies(*final(jar)) == pour(
            jar_cookies(*old(jar)),
            browser_picks(filter@, browser, reads_view(reads@)),
        ),
{
    let ghost all = reads_view(reads@);
    let ghost each = |read: StoreReadView| store_picks(filter@, browser, read);
    proof {
        assert(all.take(0).map_values(each) =~= Seq::<Seq<RecordView>>::empty());
    }
    let mut k: usize = 0;
    while k < reads.len()
        invariant
            k <= reads.len(),
            all == reads_view(reads@),
            each == |read: StoreReadView| store_picks(filter@, browser, read),
            jar_cookies(*jar) == pour(
                jar_cookies(*old(jar)),
                all.take(k as int).map_values(each).flatten(),
            ),
        decreases reads.len() - k,
    {
        let read = &reads[k];
        let ghost before = jar_cookies(*jar);
        let ghost done = all.take(k as int).map_values(each);
        proof {
            assert(all.take(k as int + 1).map_values(each) =~= done.push(each(read@)));
            done.lemma_flatten_push(each(read@));
            lemma_pour_concat(jar_cookies(*old(jar)), done.flatten(), each(read@));
        }
        if read.location.browser == browser {
            match &read.outcome {
                Ok(records) => {
                    pour_records(jar, filter, records);
                },
                Err(_) => {},
            }
        }
        k = k + 1;
    }
    proof {
        assert(all.take(reads.len() as int) =~= all);
    }
}

/// Puts into `jar` what all of `browsers` give under `filter`.
pub(crate) fn pour_filter(
    jar: &mut cookie::CookieJar,
    filter: &FilterPair,
    browsers: &Vec<Browser>,
    reads: &Vec<StoreRead>,
)
    ensures
        jar_cookies(*final(jar)) == pour(
            jar_cookies(*old(jar)),
            filter_picks(filter@, browsers@, reads_view(reads@)),
        ),
{
    let ghost rv = reads_view(reads@);
    let ghost each = |browser: Browser| browser_picks(filter@, browser, rv);
    proof {
        assert(browsers@.take(0).map_values(each) =~= Seq::<Seq<RecordView>>::empty());
    }
    let mut j: usize = 0;
    while j < browsers.len()
        invariant
            j <= browsers.len(),
            rv == reads_view(reads@),
            each == |browser: Browser| browser_picks(filter@, browser, rv),
            jar_cookies(*jar) == pour(
                jar_cookies(*old(jar)),
                browsers@.take(j as int).map_values(each).flatten(),
            ),
        decreases browsers.len() - j,
    {
        let browser = browsers[j];
        let ghost done = browsers@.take(j as int).map_values(each);
        proof {
            assert(browsers@.take(j as int + 1).map_values(each) =~= done.push(each(browser)));
            done.lemma_flatten_push(each(browser));
            lemma_pour_concat(jar_cookies(*old(jar)), done.flatten(), each(browser));
        }
        pour_browser(jar, filter, browser, reads);
        j = j + 1;
    }
    proof {
        assert(browsers@.take(browsers.len() as int) =~= browsers@);
    }
}

} // verus!
