use vstd::prelude::*;
use crate::errors::BrowsercookieError;
use crate::record::{CookieRecord, RecordView};

verus! {

/// The jar of the `cookie` crate, in which the gathered cookies are handed
/// out.
#[verifier::external_type_specification]
#[verifier::external_body]
pub struct ExCookieJar(cookie::CookieJar);

/// The cookies that `jar` shows, by name: for each name under which
/// `CookieJar::get` finds a cookie, what that cookie's getters return.
pub uninterp spec fn jar_cookies(jar: cookie::CookieJar) -> Map<Seq<char>, RecordView>;

/// Whether the `time` crate can hold `seconds` after the Unix epoch as a
/// date and time.
pub uninterp spec fn timestamp_fits(seconds: i64) -> bool;

/// A domain as `Cookie::domain` returns it: without one leading dot.
pub open spec fn shown_domain(domain: Seq<char>) -> Seq<char> {
    if domain.len() > 0 && domain[0] == '.' {
        domain.subrange(1, domain.len() as int)
    } else {
        domain
    }
}

/// Whether `expiry` is a time that the `time` crate can hold.
pub open spec fn expiry_fits(expiry: Option<i64>) -> bool {
    expiry matches Some(seconds) && timestamp_fits(seconds)
}

/// What a jar shows of a record that was put into it, where `keeps_expiry`
/// says whether the expiry went in. The domain is shown without one leading
/// dot, and the host-only flag has no place in a `Cookie`.
pub open spec fn jar_entry(record: RecordView, keeps_expiry: bool) -> RecordView {
    RecordView {
        name: record.name,
        value: record.value,
        domain: match record.domain {
            Some(domain) => Some(shown_domain(domain)),
            None => None,
        },
        path: record.path,
        expiry: if keeps_expiry {
            record.expiry
        } else {
            None
        },
        secure: record.secure,
        host_only: None,
    }
}

/// What a jar shows of `record` once it was put into it: the expiry is kept
/// where the `time` crate can hold it.
pub open spec fn shown(record: RecordView) -> RecordView {
    jar_entry(record, expiry_fits(record.expiry))
}

/// Calls `CookieJar::new`. Trusted: the new jar shows no cookie.
#[verifier::external_body]
pub(crate) fn jar_new() -> (fresh: cookie::CookieJar)
    ensures
        jar_cookies(fresh).dom() =~= Set::<Seq<char>>::empty(),
{
    cookie::CookieJar::new()
}

/// Calls `CookieJar::add` with a `Cookie` made of `record`. Trusted: the
/// jar then shows that cookie under the record's name, in place of any
/// cookie that it showed under that name before, and shows every other
/// cookie as before. The cookie gets the record's name, value, domain, path
/// and secure flag, and its expiry where `OffsetDateTime::from_unix_timestamp`
/// takes it, which is what `timestamp_fits` stands for. A time that is
/// taken lies before the year 10000, up to which a `Cookie` keeps an expiry
/// as it is.
#[verifier::external_body]
pub(crate) fn jar_add(jar: &mut cookie::CookieJar, record: &CookieRecord)
    ensures
        jar_cookies(*final(jar)) == jar_cookies(*old(jar)).insert(
            record@.name,
            jar_entry(record@, record.expiry matches Some(seconds) && timestamp_fits(seconds)),
        ),
{
    let mut made = cookie::Cookie::new(record.name.clone(), record.value.clone());
    if let Some(domain) = &record.domain {
        made.set_domain(domain.clone());
    }
    if let Some(path) = &record.path {
        made.set_path(path.clone());
    }
    made.set_secure(record.secure);
    if let Some(Ok(at)) = record.expiry.map(cookie::time::OffsetDateTime::from_unix_timestamp) {
        made.set_expires(at);
    }
    jar.add(made);
}

/// Calls `CookieJar::get` and copies what the cookie's getters return.
/// Trusted: a cookie is found exactly under the names that the jar shows,
/// it is the one shown, and it bears the name asked for.
#[verifier::external_body]
pub(crate) fn jar_get(jar: &cookie::CookieJar, name: &str) -> (found: Option<CookieRecord>)
    ensures
        found is Some == jar_cookies(*jar).dom().contains(name@),
        found matches Some(record) ==> record@ == jar_cookies(*jar)[name@] && record@.name
            == name@,
{
    jar.get(name).map(|c| CookieRecord {
        name: c.name().to_string(),
        value: c.value().to_string(),
        domain: c.domain().map(String::from),
        path: c.path().map(String::from),
        expiry: c.expires_datetime().map(|at| at.unix_timestamp()),
        secure: c.secure(),
        host_only: None,
    })
}

/// Whether `listed` holds the cookies of a jar, each once, in some order.
pub open spec fn lists(listed: Seq<RecordView>, cookies: Map<Seq<char>, RecordView>) -> bool {
    &&& forall|i: int, j: int|
        0 <= i < j < listed.len() ==> (#[trigger] listed[i]).name != (#[trigger] listed[j]).name
    &&& forall|i: int|
        0 <= i < listed.len() ==> cookies.dom().contains((#[trigger] listed[i]).name)
            && cookies[listed[i].name] == listed[i]
    &&& forall|name: Seq<char>| #[trigger]
        cookies.dom().contains(name) ==> exists|i: int|
            0 <= i < listed.len() && (#[trigger] listed[i]).name == name
}

/// Calls `CookieJar::iter` and copies what the getters of each cookie
/// return. Trusted: the cookies come each once and are those that the jar
/// shows; nothing is claimed of their order, which is that of a hash set.
#[verifier::external_body]
pub(crate) fn jar_list(jar: &cookie::CookieJar) -> (listed: Vec<CookieRecord>)
    ensures
        lists(crate::reader::records_view(listed@), jar_cookies(*jar)),
{
    jar.iter().map(|c| CookieRecord {
        name: c.name().to_string(),
        value: c.value().to_string(),
        domain: c.domain().map(String::from),
        path: c.path().map(String::from),
        expiry: c.expires_datetime().map(|at| at.unix_timestamp()),
        secure: c.secure(),
        host_only: None,
    }).collect()
}

/// The cookie that `jar` shows under `name`.
pub fn lookup(jar: &cookie::CookieJar, name: &str) -> (found: Result<CookieRecord, BrowsercookieError>)
    ensures
        match found {
            Ok(record) => jar_cookies(*jar).dom().contains(name@) && record@ == jar_cookies(
                *jar,
            )[name@] && record@.name == name@,
            Err(e) => e == BrowsercookieError::NoMatch && !jar_cookies(*jar).dom().contains(name@),
        },
{
    match jar_get(jar, name) {
        Some(record) => Ok(record),
        None => Err(BrowsercookieError::NoMatch),
    }
}

} // verus!
