use vstd::prelude::*;
use crate::text::{
    append, append_str, chars_of, decimal, lemma_index_of_char, parse_uint, spec_decimal,
    spec_digit, spec_digits_value, spec_all_digits, spec_is_digit, spec_parse_uint,
    spec_split_once, split_once, string_of,
};

verus! {

/// The set of URLs seen by the job `job_id`.
pub open spec fn spec_key(job_id: Seq<char>, suffix: Seq<char>) -> Seq<char> {
    "seo:"@ + job_id + suffix
}

fn key(job_id: &str, suffix: &str) -> (res: String)
    ensures
        res@ == spec_key(job_id@, suffix@),
{
    let mut v: Vec<char> = Vec::new();
    append_str(&mut v, "seo:");
    append_str(&mut v, job_id);
    append_str(&mut v, suffix);
    string_of(v.as_slice())
}

/// The key of the set of URLs a job has seen: `seo:{job_id}:seen`.
pub fn key_seen(job_id: &str) -> (res: String)
    ensures
        res@ == spec_key(job_id@, ":seen"@),
{
    key(job_id, ":seen")
}

/// The key of a job's queue: `seo:{job_id}:queue`.
pub fn key_queue(job_id: &str) -> (res: String)
    ensures
        res@ == spec_key(job_id@, ":queue"@),
{
    key(job_id, ":queue")
}

/// The key of a job's count of URLs enqueued and not yet done:
/// `seo:{job_id}:inflight`.
pub fn key_inflight(job_id: &str) -> (res: String)
    ensures
        res@ == spec_key(job_id@, ":inflight"@),
{
    key(job_id, ":inflight")
}

/// A queue entry: the depth, `|`, then the URL.
pub open spec fn spec_encode(depth: u32, url: Seq<char>) -> Seq<char> {
    spec_decimal(depth as nat) + seq!['|'] + url
}

/// A queue entry for `url` at `depth`: `"{depth}|{url}"`.
pub fn encode(depth: u32, url: &str) -> (res: String)
    ensures
        res@ == spec_encode(depth, url@),
{
    let mut v = decimal(depth as u64);
    v.push('|');
    append_str(&mut v, url);
    string_of(v.as_slice())
}

/// The depth and URL of a queue entry: the text before the first `|` must be
/// a `u32`; the URL is everything after it (and may hold more `|`s).
pub open spec fn spec_decode(entry: Seq<char>) -> Option<(u32, Seq<char>)> {
    match spec_split_once(entry, '|') {
        None => None,
        Some((d, u)) => match spec_parse_uint(d, u32::MAX as nat) {
            Some(n) => Some((n as u32, u)),
            None => None,
        },
    }
}

/// The depth and URL of a queue entry, or `None` when it is malformed.
pub fn decode(entry: &str) -> (res: Option<(u32, String)>)
    ensures
        match res {
            Some((d, u)) => spec_decode(entry@) == Some((d, u@)),
            None => spec_decode(entry@) is None,
        },
{
    let v = chars_of(entry);
    match split_once(v.as_slice(), '|') {
        None => None,
        Some((d, u)) => match parse_uint(d.as_slice(), u32::MAX as u64) {
            Some(n) => Some((n as u32, string_of(u.as_slice()))),
            None => None,
        },
    }
}

proof fn lemma_decimal_digits(n: nat)
    ensures
        spec_all_digits(spec_decimal(n)),
        spec_digits_value(spec_decimal(n)) == n,
        spec_decimal(n).len() > 0,
    decreases n,
{
    if n < 10 {
        assert(spec_decimal(n) =~= seq![spec_digit(n)]);
        assert(spec_decimal(n).drop_last() =~= Seq::<char>::empty());
        assert((spec_digit(n) as nat) - 48 == n);
        let s = spec_decimal(n);
        assert(spec_digits_value(s) == spec_digits_value(s.drop_last()) * 10 + ((s.last() as nat) - 48) as nat);
        assert(spec_digits_value(s.drop_last()) == 0);
        assert(s.last() == spec_digit(n));
        assert(spec_digits_value(s) == n);
    } else {
        lemma_decimal_digits(n / 10);
        let s = spec_decimal(n);
        assert(s.drop_last() =~= spec_decimal(n / 10));
        assert((spec_digit(n % 10) as nat) - 48 == n % 10);
        assert(s.last() == spec_digit(n % 10));
        assert((n / 10) * 10 + n % 10 == n) by (nonlinear_arith);
        assert(spec_digits_value(s) == spec_digits_value(s.drop_last()) * 10 + ((s.last() as nat) - 48) as nat);
        assert(spec_digits_value(s) == n);
        assert forall|i: int| 0 <= i < s.len() implies spec_is_digit(#[trigger] s[i]) by {
            if i < s.len() - 1 {
                assert(s[i] == spec_decimal(n / 10)[i]);
            }
        }
    }
}

/// Decoding an encoded entry gives back its depth and URL, whatever the URL
/// holds.
pub proof fn lemma_decode_encode(depth: u32, url: Seq<char>)
    ensures
        spec_decode(spec_encode(depth, url)) == Some((depth, url)),
{
    let d = spec_decimal(depth as nat);
    let e = spec_encode(depth, url);
    lemma_decimal_digits(depth as nat);
    assert forall|k: int| 0 <= k < d.len() implies e[k] != '|' by {
        assert(e[k] == d[k]);
        assert(spec_is_digit(d[k]));
    }
    assert(e[d.len() as int] == '|');
    lemma_index_of_char(e, '|', d.len() as int);
    assert(e.take(d.len() as int) =~= d);
    assert(e.skip(d.len() as int + 1) =~= url);
    assert(d[0] != '+') by {
        assert(spec_is_digit(d[0]));
    }
}

} // verus!
