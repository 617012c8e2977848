use vstd::prelude::*;
use crate::jar::{jar_cookies, jar_list, lists};
use crate::matcher::FilterView;
use crate::merge::passing;
use crate::pattern::Pattern;
use crate::reader::records_view;
use crate::record::{Attribute, RecordView};

verus! {

/// The filter that searches `domain` in a cookie's domain.
pub open spec fn domain_filter(domain: Seq<char>) -> FilterView {
    FilterView { pattern: domain, attribute: Attribute::Domain }
}

/// A cookie as a header shows it: the name, `=`, the value.
pub open spec fn pair_text(record: RecordView) -> Seq<char> {
    record.name + seq!['='] + record.value
}

/// The header that shows `records` in their order: the pairs, with `; `
/// between one and the next.
pub open spec fn header_of(records: Seq<RecordView>) -> Seq<char>
    decreases records.len(),
{
    if records.len() == 0 {
        Seq::empty()
    } else if records.len() == 1 {
        pair_text(records[0])
    } else {
        header_of(records.drop_last()) + seq![';', ' '] + pair_text(records.last())
    }
}

/// Renders the cookies of `jar` in whose domain `domain` is found as the
/// value of a `Cookie` header.
///
/// The cookies stand in the order in which the jar hands them out, which
/// no one can foretell: the header is that of some listing of the jar.
pub fn to_header(jar: &cookie::CookieJar, domain: &Pattern) -> (header: String)
    ensures
        exists|listed: Seq<RecordView>| #[trigger]
            lists(listed, jar_cookies(*jar)) && header@ == header_of(
                listed.filter(passing(domain_filter(domain@))),
            ),
{
    let listed = jar_list(jar);
    let ghost all = records_view(listed@);
    let ghost test = passing(domain_filter(domain@));
    let mut header = String::new();
    let mut started = false;
    let mut i: usize = 0;
    proof {
        reveal(Seq::filter);
        assert(all.take(0).filter(test) =~= Seq::<RecordView>::empty());
    }
    while i < listed.len()
        invariant
            i <= listed.len(),
            all == records_view(listed@),
            test == passing(domain_filter(domain@)),
            header@ == header_of(all.take(i as int).filter(test)),
            started == (all.take(i as int).filter(test).len() > 0),
        decreases listed.len() - i,
    {
        let record = &listed[i];
        let shown = domain.is_match(record.text(Attribute::Domain));
        let ghost kept = all.take(i as int).filter(test);
        let ghost before = header@;
        proof {
            reveal(Seq::filter);
            reveal_strlit("; ");
            reveal_strlit("=");
            let upto = all.take(i as int + 1);
            assert(upto.drop_last() =~= all.take(i as int));
            assert(upto.last() == record@);
            assert(test(record@) == shown);
            assert(kept.push(record@).drop_last() =~= kept);
            assert("; "@ =~= seq![';', ' ']);
            assert("="@ =~= seq!['=']);
        }
        if shown {
            if started {
                header.append("; ");
            }
            header.append(record.name.as_str());
            header.append("=");
            header.append(record.value.as_str());
            started = true;
            proof {
                if kept.len() == 0 {
                    assert(header@ =~= pair_text(record@));
                } else {
                    assert(header@ =~= before + seq![';', ' '] + pair_text(record@));
                }
            }
        }
        i = i + 1;
    }
    proof {
        assert(all.take(listed.len() as int) =~= all);
        assert(lists(all, jar_cookies(*jar)));
    }
    header
}

} // verus!
