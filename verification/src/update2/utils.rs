//! Mirror URLs and the day-start clock of a response.

use crate::update2::model::{CodeBase, Urls};
use vstd::prelude::*;

verus! {

/// Seconds from 1970-01-01 to 2007-01-01, the origin that responses count
/// their days from.
pub const DAYSTART_ORIGIN: i64 = 1167609600;

pub const SECONDS_PER_DAY: i64 = 86400;

/// Whole days from the beginning of 2007 to the day of `now`; zero for a
/// time before 2007.
pub open spec fn elapsed_days(now: i64) -> u64 {
    if now < DAYSTART_ORIGIN {
        0
    } else {
        ((now - DAYSTART_ORIGIN) / (SECONDS_PER_DAY as int)) as u64
    }
}

/// Seconds from midnight (UTC) to `now`.
pub open spec fn elapsed_seconds(now: i64) -> u32 {
    ((now as int) % (SECONDS_PER_DAY as int)) as u32
}

/// The day-start pair of the time `now`, given in seconds since 1970.
pub fn daystart_at(now: i64) -> (r: (u64, u32))
    ensures
        r.0 == elapsed_days(now),
        r.1 == elapsed_seconds(now),
        r.1 < 86400,
{
    let days: u64 = if now < DAYSTART_ORIGIN {
        0
    } else {
        ((now - DAYSTART_ORIGIN) / SECONDS_PER_DAY) as u64
    };
    let seconds: u32 = if now >= 0 {
        (now % SECONDS_PER_DAY) as u32
    } else {
        let before: i64 = -(now + 1);
        let back: i64 = before % SECONDS_PER_DAY;
        assert(now % 86400 == 86399 - back) by (nonlinear_arith)
            requires
                now < 0,
                before == -(now + 1),
                back == before % 86400,
        ;
        (86399 - back) as u32
    };
    (days, seconds)
}

/// `chrono::Utc::now`, as seconds since 1970. Nothing is known of the clock.
#[verifier::external_body]
fn now_seconds() -> i64 {
    chrono::Utc::now().timestamp()
}

/// The day-start pair of the present: days since the beginning of 2007 and
/// seconds since midnight.
pub fn get_daystart() -> (r: (u64, u32))
    ensures
        exists|now: i64| r.0 == elapsed_days(now) && r.1 == elapsed_seconds(now),
{
    daystart_at(now_seconds())
}

/// The mirrors that serve component packages.
pub open spec fn mirrors() -> Seq<Seq<char>> {
    seq![
        "http://edgedl.me.gvt1.com/edgedl/release2/chrome_component/"@,
        "https://edgedl.me.gvt1.com/edgedl/release2/chrome_component/"@,
        "http://dl.google.com/release2/chrome_component/"@,
        "https://dl.google.com/release2/chrome_component/"@,
        "http://www.google.com/dl/release2/chrome_component/"@,
        "https://www.google.com/dl/release2/chrome_component/"@,
    ]
}

/// The URL under which the mirror `base` serves a version of a component.
pub open spec fn codebase_url(base: Seq<char>, path_id: Seq<char>, version: Seq<char>) -> Seq<
    char,
> {
    base + path_id + "_"@ + version
}

fn codebase(base: &str, path_id: &str, version: &str) -> (c: CodeBase)
    ensures
        c@ == codebase_url(base@, path_id@, version@),
{
    let mut url = base.to_owned();
    url.append(path_id);
    url.append("_");
    url.append(version);
    CodeBase { codebase: url }
}

/// The codebase URLs of a version of a component: one for each mirror, in
/// the order of the mirrors.
pub fn gen_codebase_urls(path_id: &str, version: &str) -> (urls: Urls)
    ensures
        urls@ == mirrors().map_values(|base: Seq<char>| codebase_url(base, path_id@, version@)),
{
    let mut url: Vec<CodeBase> = Vec::new();
    url.push(codebase("http://edgedl.me.gvt1.com/edgedl/release2/chrome_component/", path_id, version));
    url.push(codebase("https://edgedl.me.gvt1.com/edgedl/release2/chrome_component/", path_id, version));
    url.push(codebase("http://dl.google.com/release2/chrome_component/", path_id, version));
    url.push(codebase("https://dl.google.com/release2/chrome_component/", path_id, version));
    url.push(codebase("http://www.google.com/dl/release2/chrome_component/", path_id, version));
    url.push(codebase("https://www.google.com/dl/release2/chrome_component/", path_id, version));
    let urls = Urls { url };
    assert(urls@ =~= mirrors().map_values(
        |base: Seq<char>| codebase_url(base, path_id@, version@),
    ));
    urls
}

} // verus!
