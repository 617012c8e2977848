use vstd::prelude::*;
use crate::record::{texts_view, Browser, LocationView, StoreLocation};

verus! {

/// The locations of a sequence of stores, as mathematical values.
pub open spec fn locations_view(locations: Seq<StoreLocation>) -> Seq<LocationView> {
    locations.map_values(|location: StoreLocation| location@)
}

/// The stores to go through for `browser`: the master path alone where one
/// is set, else the discovered paths in their order; each as a store of
/// `browser`.
pub open spec fn located(
    browser: Browser,
    master_path: Option<Seq<char>>,
    discovered: Seq<Seq<char>>,
) -> Seq<LocationView> {
    match master_path {
        Some(path) => seq![LocationView { path, browser }],
        None => discovered.map_values(|path: Seq<char>| (LocationView { path, browser })),
    }
}

/// Lists the stores to go through for `browser`: see [`located`].
///
/// `discovered` holds the paths of the stores that were found for the
/// browser on this machine, one for each of its profiles. A browser that is
/// not installed has none, and then no store is listed.
pub fn locate(browser: Browser, master_path: &Option<String>, discovered: &Vec<String>) -> (locations:
    Vec<StoreLocation>)
    ensures
        locations_view(locations@) == located(
            browser,
            crate::record::text_view(*master_path),
            texts_view(discovered@),
        ),
{
    let mut locations: Vec<StoreLocation> = Vec::new();
    match master_path {
        Some(path) => {
            locations.push(StoreLocation { path: path.clone(), browser });
            proof {
                assert(locations_view(locations@) =~= seq![
                    LocationView { path: path@, browser },
                ]);
            }
        },
        None => {
            let ghost each = |path: Seq<char>| (LocationView { path, browser });
            let mut i: usize = 0;
            while i < discovered.len()
                invariant
                    i <= discovered.len(),
                    each == |path: Seq<char>| (LocationView { path, browser }),
                    locations_view(locations@) =~= texts_view(discovered@).take(
                        i as int,
                    ).map_values(each),
                decreases discovered.len() - i,
            {
                let ghost before = locations@;
                let path = discovered[i].clone();
                locations.push(StoreLocation { path, browser });
                proof {
                    let paths = texts_view(discovered@);
                    assert(paths[i as int] == discovered@[i as int]@);
                    assert(locations_view(locations@) =~= locations_view(before).push(
                        each(paths[i as int]),
                    ));
                    assert(paths.take(i as int + 1).map_values(each) =~= paths.take(
                        i as int,
                    ).map_values(each).push(each(paths[i as int])));
                }
                i = i + 1;
            }
            proof {
                assert(texts_view(discovered@).take(discovered.len() as int) =~= texts_view(
                    discovered@,
                ));
            }
        },
    }
    locations
}

} // verus!
