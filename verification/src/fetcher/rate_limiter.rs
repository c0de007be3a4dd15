use vstd::prelude::*;

verus! {

/// The minimum interval (in nanoseconds) between requests to a host after a
/// `Crawl-delay` asks for `requested`: the larger of the current one (none
/// counts as zero) and the request. It never shrinks.
pub fn raised_min_interval(current: Option<u128>, requested: u128) -> (res: u128)
    ensures
        res == match current {
            Some(c) => if requested > c { requested } else { c },
            None => requested,
        },
        res >= requested,
        current matches Some(c) ==> res >= c,
{
    let c = match current {
        Some(c) => c,
        None => 0,
    };
    if requested > c { requested } else { c }
}

/// How long (in nanoseconds) a request to a host waits so that at least `min`
/// separates it from the previous one, `elapsed` ago (none: no wait).
pub fn crawl_delay_wait(min: Option<u128>, elapsed: Option<u128>) -> (res: u128)
    ensures
        res == match (min, elapsed) {
            (Some(m), Some(e)) => if m > 0 && e < m { (m - e) as u128 } else { 0 },
            _ => 0,
        },
{
    match (min, elapsed) {
        (Some(m), Some(e)) => {
            if m > 0 && e < m {
                m - e
            } else {
                0
            }
        },
        _ => 0,
    }
}

} // verus!
