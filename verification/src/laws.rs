//! What holds of the extraction whatever the stores hold.
use vstd::prelude::*;
use crate::errors::BrowsercookieError;
use crate::finder::{built, default_filter, gathered, FinderView};
use crate::jar::shown;
use crate::locator::located;
use crate::matcher::{record_matches, FilterView};
use crate::merge::{
    all_picks,
    browser_picks,
    filter_picks,
    has_format_error,
    passing,
    pour,
    store_picks,
    Cookies,
};
use crate::reader::{
    parsed,
    parsed_rows,
    read_outcome,
    well_shaped,
    CellView,
    RawStoreView,
    StoreReadView,
};
use crate::record::{Browser, LocationView, RecordView};

verus! {

/// A sequence of parts that are all empty flattens to the empty sequence.
proof fn lemma_flatten_of_empties<A>(parts: Seq<Seq<A>>)
    requires
        forall|k: int| 0 <= k < parts.len() ==> (#[trigger] parts[k]).len() == 0,
    ensures
        parts.flatten() =~= Seq::<A>::empty(),
    decreases parts.len(),
{
    if parts.len() > 0 {
        assert(parts.first() == parts[0]);
        assert forall|k: int| 0 <= k < parts.drop_first().len() implies (
        #[trigger] parts.drop_first()[k]).len() == 0 by {
            assert(parts.drop_first()[k] == parts[k + 1]);
        }
        lemma_flatten_of_empties(parts.drop_first());
    }
}

/// What one part holds, the flattened sequence holds.
proof fn lemma_flatten_holds<A>(parts: Seq<Seq<A>>, k: int, item: A)
    requires
        0 <= k < parts.len(),
        parts[k].contains(item),
    ensures
        parts.flatten().contains(item),
    decreases parts.len(),
{
    let rest = parts.drop_first().flatten();
    if k == 0 {
        let at = choose|at: int| 0 <= at < parts[0].len() && parts[0][at] == item;
        assert((parts.first() + rest)[at] == item);
    } else {
        assert(parts.drop_first()[k - 1] == parts[k]);
        lemma_flatten_holds(parts.drop_first(), k - 1, item);
        let at = choose|at: int| 0 <= at < rest.len() && rest[at] == item;
        assert((parts.first() + rest)[parts.first().len() + at] == item);
    }
}

/// A test that every item passes keeps the whole sequence.
proof fn lemma_filter_keeps_all<A>(items: Seq<A>, test: spec_fn(A) -> bool)
    requires
        forall|i: int| 0 <= i < items.len() ==> test(#[trigger] items[i]),
    ensures
        items.filter(test) == items,
    decreases items.len(),
{
    reveal(Seq::filter);
    if items.len() > 0 {
        lemma_filter_keeps_all(items.drop_last(), test);
        assert(items.drop_last().push(items.last()) =~= items);
    }
}

/// What the flattened sequence holds, one of the parts holds.
proof fn lemma_flatten_source<A>(parts: Seq<Seq<A>>, item: A) -> (k: int)
    requires
        parts.flatten().contains(item),
    ensures
        0 <= k < parts.len(),
        parts[k].contains(item),
    decreases parts.len(),
{
    let flat = parts.flatten();
    let at = choose|at: int| 0 <= at < flat.len() && flat[at] == item;
    if at < parts.first().len() {
        assert(parts[0][at] == item);
        0
    } else {
        let rest = parts.drop_first();
        assert(rest.flatten()[at - parts.first().len()] == item);
        let k = lemma_flatten_source(rest, item);
        assert(rest[k] == parts[k + 1]);
        k + 1
    }
}

/// What a filtered sequence holds, the sequence holds, and it passes the
/// test.
proof fn lemma_filter_source<A>(items: Seq<A>, test: spec_fn(A) -> bool, item: A)
    requires
        items.filter(test).contains(item),
    ensures
        items.contains(item),
        test(item),
    decreases items.len(),
{
    reveal(Seq::filter);
    if items.len() > 0 {
        let kept = items.drop_last().filter(test);
        if test(items.last()) && item == items.last() {
            assert(items[items.len() - 1] == item);
        } else {
            if test(items.last()) {
                let at = choose|at: int|
                    0 <= at < kept.push(items.last()).len() && kept.push(items.last())[at] == item;
                assert(kept[at] == item);
            }
            lemma_filter_source(items.drop_last(), test, item);
            let at = choose|at: int|
                0 <= at < items.drop_last().len() && items.drop_last()[at] == item;
            assert(items[at] == item);
        }
    }
}

/// The default filter passes every record, whatever its name.
pub proof fn lemma_default_filter_passes_all(record: RecordView)
    ensures
        record_matches(record, default_filter()),
{
}

/// A configuration that was built without a filter has the default filter
/// alone, and keeps every record of a store.
pub proof fn lemma_no_filter_keeps_all(draft: FinderView, records: Seq<RecordView>)
    requires
        draft.filters.len() == 0,
    ensures
        built(draft).filters == seq![default_filter()],
        records.filter(passing(built(draft).filters[0])) == records,
{
    lemma_filter_keeps_all(records, passing(default_filter()));
}

/// A configuration that was built without a browser has every supported
/// browser.
pub proof fn lemma_no_browser_means_all(draft: FinderView, browser: Browser)
    requires
        draft.browsers.len() == 0,
    ensures
        built(draft).browsers.contains(browser),
{
    assert(browser == Browser::Firefox);
    assert(built(draft).browsers[0] == browser);
}

/// The names in a jar after pouring are those that were in it and those of
/// the records poured.
pub proof fn lemma_pour_names(cookies: Cookies, records: Seq<RecordView>, name: Seq<char>)
    ensures
        pour(cookies, records).dom().contains(name) <==> cookies.dom().contains(name) || exists|
            i: int,
        |
            0 <= i < records.len() && (#[trigger] records[i]).name == name,
    decreases records.len(),
{
    if records.len() > 0 {
        let before = records.drop_last();
        lemma_pour_names(cookies, before, name);
        if exists|i: int| 0 <= i < before.len() && (#[trigger] before[i]).name == name {
            let i = choose|i: int| 0 <= i < before.len() && (#[trigger] before[i]).name == name;
            assert(records[i].name == name);
        }
        if exists|i: int| 0 <= i < records.len() && (#[trigger] records[i]).name == name {
            let i = choose|i: int| 0 <= i < records.len() && (#[trigger] records[i]).name == name;
            if i < before.len() {
                assert(before[i].name == name);
            }
        }
    }
}

/// Merging is last-write-wins by name: of the records poured under one
/// name, the jar shows the one poured last, and no other.
pub proof fn lemma_last_write_wins(cookies: Cookies, records: Seq<RecordView>, last: int)
    requires
        0 <= last < records.len(),
        forall|later: int|
            last < later < records.len() ==> (#[trigger] records[later]).name
                != records[last].name,
    ensures
        pour(cookies, records).dom().contains(records[last].name),
        pour(cookies, records)[records[last].name] == shown(records[last]),
    decreases records.len(),
{
    if last < records.len() - 1 {
        let before = records.drop_last();
        assert(before[last] == records[last]);
        assert forall|later: int| last < later < before.len() implies (
        #[trigger] before[later]).name != before[last].name by {
            assert(before[later] == records[later]);
        }
        lemma_last_write_wins(cookies, before, last);
        assert(records.last() == records[records.len() - 1]);
    }
}

/// Whether the store read at `k` holds a record at `i`.
pub open spec fn holds_at(reads: Seq<StoreReadView>, k: int, i: int) -> bool {
    &&& 0 <= k < reads.len()
    &&& reads[k].outcome is Ok
    &&& 0 <= i < reads[k].outcome->Ok_0.len()
}

/// The record at `i` of the store read at `k`.
pub open spec fn record_at(reads: Seq<StoreReadView>, k: int, i: int) -> RecordView {
    reads[k].outcome->Ok_0[i]
}

/// Whether the record at `i` of the store read at `k` is one that the
/// configuration asks for: it is a record of a store of one of the
/// configuration's browsers, and it passes the filter at `f`.
pub open spec fn asked_for(
    config: FinderView,
    reads: Seq<StoreReadView>,
    f: int,
    k: int,
    i: int,
) -> bool {
    &&& 0 <= f < config.filters.len()
    &&& holds_at(reads, k, i)
    &&& config.browsers.contains(reads[k].browser)
    &&& record_matches(record_at(reads, k, i), config.filters[f])
}

/// What the stores of a browser give under a filter are records of its
/// stores that pass the filter.
proof fn lemma_browser_pick_source(
    filter: FilterView,
    browser: Browser,
    reads: Seq<StoreReadView>,
    record: RecordView,
) -> (at: (int, int))
    requires
        browser_picks(filter, browser, reads).contains(record),
    ensures
        holds_at(reads, at.0, at.1),
        reads[at.0].browser == browser,
        record_at(reads, at.0, at.1) == record,
        record_matches(record, filter),
{
    let k = lemma_flatten_source(
        reads.map_values(|read: StoreReadView| store_picks(filter, browser, read)),
        record,
    );
    assert(store_picks(filter, browser, reads[k]).contains(record));
    let records = reads[k].outcome->Ok_0;
    lemma_filter_source(records, passing(filter), record);
    let i = choose|i: int| 0 <= i < records.len() && records[i] == record;
    (k, i)
}

/// What the browsers give under a filter are records of their stores that
/// pass the filter.
proof fn lemma_filter_pick_source(
    filter: FilterView,
    browsers: Seq<Browser>,
    reads: Seq<StoreReadView>,
    record: RecordView,
) -> (at: (int, int, int))
    requires
        filter_picks(filter, browsers, reads).contains(record),
    ensures
        0 <= at.0 < browsers.len(),
        holds_at(reads, at.1, at.2),
        reads[at.1].browser == browsers[at.0],
        record_at(reads, at.1, at.2) == record,
        record_matches(record, filter),
{
    let b = lemma_flatten_source(
        browsers.map_values(|browser: Browser| browser_picks(filter, browser, reads)),
        record,
    );
    let (k, i) = lemma_browser_pick_source(filter, browsers[b], reads, record);
    (b, k, i)
}

/// A record passes if any filter takes it: a record that the configuration
/// asks for goes into the jar, and the jar shows a cookie of its name.
pub proof fn lemma_passing_record_is_picked(
    config: FinderView,
    reads: Seq<StoreReadView>,
    f: int,
    k: int,
    i: int,
)
    requires
        asked_for(config, reads, f, k, i),
    ensures
        all_picks(config.filters, config.browsers, reads).contains(record_at(reads, k, i)),
        gathered(config, reads).dom().contains(record_at(reads, k, i).name),
{
    let filter = config.filters[f];
    let browser = reads[k].browser;
    let records = reads[k].outcome->Ok_0;
    let record = records[i];
    let b = choose|b: int| 0 <= b < config.browsers.len() && config.browsers[b] == browser;
    broadcast use vstd::seq_lib::group_filter_ensures;

    assert(passing(filter)(record));
    assert(store_picks(filter, browser, reads[k]).contains(record));
    lemma_flatten_holds(
        reads.map_values(|read: StoreReadView| store_picks(filter, browser, read)),
        k,
        record,
    );
    lemma_flatten_holds(
        config.browsers.map_values(|browser: Browser| browser_picks(filter, browser, reads)),
        b,
        record,
    );
    lemma_flatten_holds(
        config.filters.map_values(
            |filter: FilterView| filter_picks(filter, config.browsers, reads),
        ),
        f,
        record,
    );
    let picks = all_picks(config.filters, config.browsers, reads);
    let at = choose|at: int| 0 <= at < picks.len() && picks[at] == record;
    assert(picks[at].name == record.name);
    lemma_pour_names(Map::empty(), picks, record.name);
}

/// Nothing else goes into the jar: every record that goes in is one that
/// the configuration asks for.
pub proof fn lemma_picked_record_was_asked_for(
    config: FinderView,
    reads: Seq<StoreReadView>,
    record: RecordView,
)
    requires
        all_picks(config.filters, config.browsers, reads).contains(record),
    ensures
        exists|f: int, k: int, i: int| #[trigger]
            asked_for(config, reads, f, k, i) && record_at(reads, k, i) == record,
{
    let f = lemma_flatten_source(
        config.filters.map_values(
            |filter: FilterView| filter_picks(filter, config.browsers, reads),
        ),
        record,
    );
    let (b, k, i) = lemma_filter_pick_source(config.filters[f], config.browsers, reads, record);
    assert(asked_for(config, reads, f, k, i));
}

/// The jar shows a cookie of a name exactly where a record of that name
/// is one that the configuration asks for.
pub proof fn lemma_gathered_names(config: FinderView, reads: Seq<StoreReadView>, name: Seq<char>)
    ensures
        gathered(config, reads).dom().contains(name) <==> exists|f: int, k: int, i: int| #[trigger]
            asked_for(config, reads, f, k, i) && record_at(reads, k, i).name == name,
{
    let picks = all_picks(config.filters, config.browsers, reads);
    lemma_pour_names(Map::empty(), picks, name);
    if gathered(config, reads).dom().contains(name) {
        let at = choose|at: int| 0 <= at < picks.len() && (#[trigger] picks[at]).name == name;
        lemma_picked_record_was_asked_for(config, reads, picks[at]);
    }
    if exists|f: int, k: int, i: int| #[trigger]
        asked_for(config, reads, f, k, i) && record_at(reads, k, i).name == name {
        let (f, k, i) = choose|f: int, k: int, i: int| #[trigger]
            asked_for(config, reads, f, k, i) && record_at(reads, k, i).name == name;
        lemma_passing_record_is_picked(config, reads, f, k, i);
    }
}

/// The last record of that name in the sequence, if there is one.
pub open spec fn last_named(records: Seq<RecordView>, name: Seq<char>) -> Option<RecordView>
    decreases records.len(),
{
    if records.len() == 0 {
        None
    } else if records.last().name == name {
        Some(records.last())
    } else {
        last_named(records.drop_last(), name)
    }
}

/// There is no last record of a name exactly where no record bears it.
proof fn lemma_last_named_none(records: Seq<RecordView>, name: Seq<char>)
    ensures
        last_named(records, name) is None <==> forall|i: int|
            0 <= i < records.len() ==> (#[trigger] records[i]).name != name,
    decreases records.len(),
{
    if records.len() > 0 {
        let before = records.drop_last();
        lemma_last_named_none(before, name);
        if last_named(records, name) is None {
            assert forall|i: int| 0 <= i < records.len() implies (#[trigger] records[i]).name
                != name by {
                if i < before.len() {
                    assert(before[i] == records[i]);
                }
            }
        }
        if forall|i: int| 0 <= i < records.len() ==> (#[trigger] records[i]).name != name {
            assert(records[records.len() - 1].name != name);
            assert forall|i: int| 0 <= i < before.len() implies (#[trigger] before[i]).name
                != name by {
                assert(before[i] == records[i]);
            }
        }
    }
}

/// After pouring, the jar shows under a name the last record poured under
/// it, and where there is none, what it showed before.
pub proof fn lemma_pour_shows_last(cookies: Cookies, records: Seq<RecordView>, name: Seq<char>)
    ensures
        match last_named(records, name) {
            Some(record) => pour(cookies, records).dom().contains(name) && pour(
                cookies,
                records,
            )[name] == shown(record),
            None => pour(cookies, records).dom().contains(name) == cookies.dom().contains(name)
                && pour(cookies, records)[name] == cookies[name],
        },
    decreases records.len(),
{
    if records.len() > 0 {
        lemma_pour_shows_last(cookies, records.drop_last(), name);
    }
}

/// The last record of a name in two runs is the last one in the second
/// run, and where that has none, the last one in the first.
proof fn lemma_last_named_concat(
    first: Seq<RecordView>,
    second: Seq<RecordView>,
    name: Seq<char>,
)
    ensures
        last_named(first + second, name) == if last_named(second, name) is Some {
            last_named(second, name)
        } else {
            last_named(first, name)
        },
    decreases second.len(),
{
    if second.len() == 0 {
        assert(first + second =~= first);
    } else {
        assert((first + second).last() == second.last());
        assert((first + second).drop_last() =~= first + second.drop_last());
        lemma_last_named_concat(first, second.drop_last(), name);
    }
}

/// The last record of a name in a flattened sequence is the last one in
/// the last part that has one.
proof fn lemma_last_named_flatten(
    parts: Seq<Seq<RecordView>>,
    p: int,
    name: Seq<char>,
    record: RecordView,
)
    requires
        0 <= p < parts.len(),
        last_named(parts[p], name) == Some(record),
        forall|q: int| p < q < parts.len() ==> last_named(#[trigger] parts[q], name) is None,
    ensures
        last_named(parts.flatten(), name) == Some(record),
    decreases parts.len(),
{
    let before = parts.drop_last();
    assert(before.push(parts.last()) =~= parts);
    before.lemma_flatten_push(parts.last());
    lemma_last_named_concat(before.flatten(), parts.last(), name);
    if p < parts.len() - 1 {
        assert(last_named(parts[parts.len() - 1], name) is None);
        assert(before[p] == parts[p]);
        assert forall|q: int| p < q < before.len() implies last_named(
            #[trigger] before[q],
            name,
        ) is None by {
            assert(before[q] == parts[q]);
        }
        lemma_last_named_flatten(before, p, name, record);
    }
}

/// The last record of a name among those that pass a test is the last one
/// of that name that passes it.
proof fn lemma_last_named_filter(
    records: Seq<RecordView>,
    test: spec_fn(RecordView) -> bool,
    i: int,
    name: Seq<char>,
)
    requires
        0 <= i < records.len(),
        records[i].name == name,
        test(records[i]),
        forall|j: int|
            i < j < records.len() && test(#[trigger] records[j]) ==> records[j].name != name,
    ensures
        last_named(records.filter(test), name) == Some(records[i]),
    decreases records.len(),
{
    reveal(Seq::filter);
    let before = records.drop_last();
    let kept = before.filter(test);
    if i == records.len() - 1 {
        assert(kept.push(records.last()).drop_last() =~= kept);
    } else {
        assert(before[i] == records[i]);
        assert forall|j: int| i < j < before.len() && test(#[trigger] before[j]) implies before[j].name
            != name by {
            assert(before[j] == records[j]);
        }
        lemma_last_named_filter(before, test, i, name);
        if test(records.last()) {
            assert(records[records.len() - 1].name != name);
            assert(kept.push(records.last()).drop_last() =~= kept);
        }
    }
}

/// Whether the record at `i` of the store read at `k`, taken under the
/// filter at `f` for the browser at `b`, is the last of its name to go into
/// the jar. The order is that of [`all_picks`]: no record of that name is
/// asked for under a later filter; under the same filter none passes from a
/// store of a later browser, from a later store of the same browser, or
/// from a later place in the same store.
pub open spec fn comes_last(
    config: FinderView,
    reads: Seq<StoreReadView>,
    f: int,
    b: int,
    k: int,
    i: int,
) -> bool {
    let name = record_at(reads, k, i).name;
    let filter = config.filters[f];
    &&& asked_for(config, reads, f, k, i)
    &&& 0 <= b < config.browsers.len()
    &&& config.browsers[b] == reads[k].browser
    &&& forall|f2: int, k2: int, i2: int|
        f < f2 && #[trigger] asked_for(config, reads, f2, k2, i2) ==> record_at(reads, k2, i2).name
            != name
    &&& forall|b2: int, k2: int, i2: int|
        b < b2 < config.browsers.len() && holds_at(reads, k2, i2) && reads[k2].browser
            == #[trigger] config.browsers[b2] && record_matches(
            #[trigger] record_at(reads, k2, i2),
            filter,
        ) ==> record_at(reads, k2, i2).name != name
    &&& forall|k2: int, i2: int|
        k < k2 && holds_at(reads, k2, i2) && reads[k2].browser == reads[k].browser
            && record_matches(#[trigger] record_at(reads, k2, i2), filter) ==> record_at(
            reads,
            k2,
            i2,
        ).name != name
    &&& forall|i2: int|
        i < i2 && holds_at(reads, k, i2) && record_matches(
            #[trigger] record_at(reads, k, i2),
            filter,
        ) ==> record_at(reads, k, i2).name != name
}

/// Of the records of one name that are asked for, the jar shows the one
/// that comes last in the order of extraction: by filter, then by browser,
/// then by store, then by place in the store.
pub proof fn lemma_last_pick_wins(
    config: FinderView,
    reads: Seq<StoreReadView>,
    f: int,
    b: int,
    k: int,
    i: int,
)
    requires
        comes_last(config, reads, f, b, k, i),
    ensures
        gathered(config, reads).dom().contains(record_at(reads, k, i).name),
        gathered(config, reads)[record_at(reads, k, i).name] == shown(record_at(reads, k, i)),
{
    let record = record_at(reads, k, i);
    let name = record.name;
    let filter = config.filters[f];
    let browser = reads[k].browser;
    let records = reads[k].outcome->Ok_0;

    // In the store.
    assert forall|j: int| i < j < records.len() && passing(filter)(#[trigger] records[j]) implies records[j].name
        != name by {
        assert(records[j] == record_at(reads, k, j));
    }
    lemma_last_named_filter(records, passing(filter), i, name);

    // Among the stores of the browser.
    let by_store = reads.map_values(|read: StoreReadView| store_picks(filter, browser, read));
    assert forall|q: int| k < q < by_store.len() implies last_named(
        #[trigger] by_store[q],
        name,
    ) is None by {
        let picks = by_store[q];
        lemma_last_named_none(picks, name);
        assert forall|t: int| 0 <= t < picks.len() implies (#[trigger] picks[t]).name != name by {
            lemma_filter_source(reads[q].outcome->Ok_0, passing(filter), picks[t]);
            let j = choose|j: int|
                0 <= j < reads[q].outcome->Ok_0.len() && reads[q].outcome->Ok_0[j] == picks[t];
            assert(record_at(reads, q, j) == picks[t]);
        }
    }
    lemma_last_named_flatten(by_store, k, name, record);

    // Among the browsers.
    let by_browser = config.browsers.map_values(
        |browser: Browser| browser_picks(filter, browser, reads),
    );
    assert forall|q: int| b < q < by_browser.len() implies last_named(
        #[trigger] by_browser[q],
        name,
    ) is None by {
        let picks = by_browser[q];
        lemma_last_named_none(picks, name);
        assert forall|t: int| 0 <= t < picks.len() implies (#[trigger] picks[t]).name != name by {
            let (k2, i2) = lemma_browser_pick_source(filter, config.browsers[q], reads, picks[t]);
            assert(record_at(reads, k2, i2) == picks[t]);
        }
    }
    lemma_last_named_flatten(by_browser, b, name, record);

    // Among the filters.
    let by_filter = config.filters.map_values(
        |filter: FilterView| filter_picks(filter, config.browsers, reads),
    );
    assert forall|q: int| f < q < by_filter.len() implies last_named(
        #[trigger] by_filter[q],
        name,
    ) is None by {
        let picks = by_filter[q];
        lemma_last_named_none(picks, name);
        assert forall|t: int| 0 <= t < picks.len() implies (#[trigger] picks[t]).name != name by {
            let (b2, k2, i2) = lemma_filter_pick_source(
                config.filters[q],
                config.browsers,
                reads,
                picks[t],
            );
            assert(asked_for(config, reads, q, k2, i2));
        }
    }
    lemma_last_named_flatten(by_filter, f, name, record);

    lemma_pour_shows_last(
        Map::empty(),
        all_picks(config.filters, config.browsers, reads),
        name,
    );
}

/// A configuration that was built without a filter gathers every record of
/// every store that was read for one of its browsers, whatever its name.
pub proof fn lemma_no_filter_gathers_all(
    draft: FinderView,
    reads: Seq<StoreReadView>,
    k: int,
    i: int,
)
    requires
        draft.filters.len() == 0,
        holds_at(reads, k, i),
        built(draft).browsers.contains(reads[k].browser),
    ensures
        gathered(built(draft), reads).dom().contains(record_at(reads, k, i).name),
{
    assert(asked_for(built(draft), reads, 0, k, i));
    lemma_passing_record_is_picked(built(draft), reads, 0, k, i);
}

/// A browser for which no store was found has no store to go through, and
/// gives no record and no failure.
pub proof fn lemma_absent_browser_gives_nothing(
    filter: FilterView,
    browser: Browser,
    reads: Seq<StoreReadView>,
)
    requires
        forall|k: int| 0 <= k < reads.len() ==> (#[trigger] reads[k]).browser != browser,
    ensures
        located(browser, None, Seq::empty()) =~= Seq::<LocationView>::empty(),
        browser_picks(filter, browser, reads) =~= Seq::<RecordView>::empty(),
        !has_format_error(seq![browser], reads),
{
    lemma_flatten_of_empties(
        reads.map_values(|read: StoreReadView| store_picks(filter, browser, read)),
    );
}

/// Where no store was read at all, the extraction succeeds with an empty
/// jar.
pub proof fn lemma_nothing_read_gathers_nothing(config: FinderView)
    ensures
        !has_format_error(config.browsers, Seq::empty()),
        gathered(config, Seq::empty()) =~= Map::<Seq<char>, RecordView>::empty(),
{
    let reads = Seq::<StoreReadView>::empty();
    let by_filter = config.filters.map_values(
        |filter: FilterView| filter_picks(filter, config.browsers, reads),
    );
    assert forall|f: int| 0 <= f < by_filter.len() implies (#[trigger] by_filter[f]).len()
        == 0 by {
        let filter = config.filters[f];
        let by_browser = config.browsers.map_values(
            |browser: Browser| browser_picks(filter, browser, reads),
        );
        assert forall|b: int| 0 <= b < by_browser.len() implies (#[trigger] by_browser[b]).len()
            == 0 by {
            let browser = config.browsers[b];
            assert(reads.map_values(|read: StoreReadView| store_picks(filter, browser, read))
                =~= Seq::<Seq<RecordView>>::empty());
        }
        lemma_flatten_of_empties(by_browser);
    }
    lemma_flatten_of_empties(by_filter);
}

/// The records of two runs of rows are those of the first run, then those
/// of the second.
pub proof fn lemma_parsed_rows_concat(
    columns: Seq<Seq<char>>,
    first: Seq<Seq<CellView>>,
    second: Seq<Seq<CellView>>,
)
    ensures
        parsed_rows(columns, first + second) == parsed_rows(columns, first) + parsed_rows(
            columns,
            second,
        ),
    decreases second.len(),
{
    if second.len() == 0 {
        assert(first + second =~= first);
        assert(parsed_rows(columns, first) + parsed_rows(columns, second) =~= parsed_rows(
            columns,
            first,
        ));
    } else {
        assert((first + second).drop_last() =~= first + second.drop_last());
        assert((first + second).last() == second.last());
        lemma_parsed_rows_concat(columns, first, second.drop_last());
        let head = parsed_rows(columns, first);
        let tail = parsed_rows(columns, second.drop_last());
        match parsed(columns, second.last()) {
            Some(record) => {
                assert((head + tail).push(record) =~= head + tail.push(record));
            },
            None => {},
        }
    }
}

/// A row that holds no record is passed over: the rows around it are read
/// as if it were not there.
pub proof fn lemma_bad_row_is_passed_over(
    columns: Seq<Seq<char>>,
    before: Seq<Seq<CellView>>,
    row: Seq<CellView>,
    after: Seq<Seq<CellView>>,
)
    requires
        parsed(columns, row) is None,
    ensures
        parsed_rows(columns, before.push(row) + after) == parsed_rows(columns, before + after),
{
    lemma_parsed_rows_concat(columns, before.push(row), after);
    lemma_parsed_rows_concat(columns, before, after);
    assert(before.push(row).drop_last() =~= before);
}

/// A store that opened but is no cookie table makes the extraction fail,
/// where it is a store of one of the configuration's browsers: its read is
/// a `FormatError`, and `find` then hands out no jar.
pub proof fn lemma_malformed_store_fails(
    browsers: Seq<Browser>,
    reads: Seq<StoreReadView>,
    k: int,
    store: RawStoreView,
)
    requires
        0 <= k < reads.len(),
        browsers.contains(reads[k].browser),
        !well_shaped(store.columns),
        reads[k].outcome == read_outcome(Some(store)),
    ensures
        read_outcome(Some(store)) == Err::<Seq<RecordView>, BrowsercookieError>(
            BrowsercookieError::FormatError,
        ),
        has_format_error(browsers, reads),
{
}

} // verus!
